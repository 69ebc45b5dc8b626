//! The parameters of a simulation.
use vstd::prelude::*;

verus! {

/// Parameters of a simulation. They stay the same for its whole duration.
#[derive(Debug, Clone, Copy, PartialEq, Eq, Structural)]
pub struct Parameters {
    /// Number of simulated cores.
    pub core_count: u32,
    /// Whether events are counted.
    pub enable_statistics: bool,
    /// Whether dirty pages are tracked.
    pub enable_dirty_page_tracker: bool,
    /// Whether only the first half of the cores is measured.
    pub measure_half_of_cores: bool,
}

} // verus!
