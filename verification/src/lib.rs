//! Event statistics of a multi-core simulation.
//!
//! - [`calls`]: what the calls of the library have to do with each other.
//! - [`event`]: the kinds of event.
//! - [`statistics`]: the counters of each core, and the reports on them.
//! - [`instruction`]: counting executed instructions.
//! - [`dirty_page_tracker`]: the pages of memory that are written in a period.
//! - [`periodic_log`]: what is written to the log files, and when.
//! - [`log_course`]: what the log does over any number of rounds.
//! - [`parameter`]: the parameters of a simulation.
//! - [`text`]: decimal numbers and lists as text.
pub mod calls;
pub mod dirty_page_tracker;
pub mod event;
pub mod instruction;
pub mod log_course;
pub mod parameter;
pub mod periodic_log;
pub mod statistics;
pub mod text;
