//! The periodic log: which file gets which text, and when.
//!
//! A [`PeriodicLog`] never touches a clock or a file. It asks for what it needs
//! by a [`LogAction`] and goes on when the [`LogEvent`] that answers it arrives.
//! One round reads the host clock and, when a record is due, brings the local
//! time of each core up to date and writes the statistics; then it reads the
//! guest clock and, when a record is due there, writes the guest summary; then
//! it sleeps.
use vstd::prelude::*;
use vstd::string::*;

use crate::dirty_page_tracker::{
    law_writes_add_pages, swap_guest_buffers, swap_host_buffers, DirtyPageSet, DirtyPageTrackers,
    DirtyPages,
};
use crate::event::EventType;
use crate::parameter::Parameters;
use crate::statistics::Statistics;
use crate::text::{
    law_decimal_is_digits, lemma_absent, lemma_occurrences_add, occurrences, push_decimal,
    terminate,
};

verus! {

/// Time between two records in host time, in nanoseconds: ten seconds.
pub const HOST_PERIOD_NS: u128 = 10_000_000_000;

/// Time between two records in guest time, in nanoseconds: one second.
pub const GUEST_PERIOD_NS: u64 = 1_000_000_000;

/// Time to sleep between two rounds, in milliseconds.
pub const SLEEP_MS: u64 = 100;

/// The event whose sum the summaries report.
pub open spec fn summary_event() -> EventType {
    EventType::SharedCacheMissDueToDataWrite
}

/// A file of the log.
#[derive(Debug, Clone, Copy, PartialEq, Eq, Structural)]
pub enum LogFile {
    /// The counters of all cores.
    Statistics,
    /// Dirty pages and cache misses, in host time.
    HostSummary,
    /// Dirty pages and cache misses, in guest time.
    GuestSummary,
}

impl LogFile {
    /// The name of the file.
    pub open spec fn name(self) -> Seq<char> {
        match self {
            LogFile::Statistics => "statistics.csv"@,
            LogFile::HostSummary => "dirty_pages_and_cache_misses.csv"@,
            LogFile::GuestSummary => "dirty_pages_guest.csv"@,
        }
    }

    /// The text that the file begins with.
    pub open spec fn heading(self, parameters: Parameters) -> Seq<char> {
        match self {
            LogFile::Statistics => crate::statistics::header(parameters) + "\n"@,
            LogFile::HostSummary => "timestamp,DirtyPages,SharedCacheMissDueToDataWrite\n"@,
            LogFile::GuestSummary => "guest_timestamp_ns,DirtyPages,SharedCacheMissDueToDataWrite\n"@,
        }
    }

    /// The files of the log, in the order in which they are created.
    pub open spec fn all(parameters: Parameters) -> Seq<LogFile> {
        if parameters.enable_dirty_page_tracker {
            seq![LogFile::Statistics, LogFile::HostSummary, LogFile::GuestSummary]
        } else {
            seq![LogFile::Statistics]
        }
    }

    /// The name of the file.
    pub fn file_name(self) -> (name: String)
        ensures
            name@ == self.name(),
    {
        let name = match self {
            LogFile::Statistics => "statistics.csv",
            LogFile::HostSummary => "dirty_pages_and_cache_misses.csv",
            LogFile::GuestSummary => "dirty_pages_guest.csv",
        };
        name.to_owned()
    }

    /// The text that the file begins with.
    pub fn first_text(self, parameters: &Parameters) -> (text: String)
        ensures
            text@ == self.heading(*parameters),
    {
        match self {
            LogFile::Statistics => {
                let mut text = Statistics::get_header(parameters);
                text.append("\n");
                text
            },
            LogFile::HostSummary => {
                "timestamp,DirtyPages,SharedCacheMissDueToDataWrite\n".to_owned()
            },
            LogFile::GuestSummary => {
                "guest_timestamp_ns,DirtyPages,SharedCacheMissDueToDataWrite\n".to_owned()
            },
        }
    }

    /// The files of the log, in the order in which they are created.
    pub fn list(parameters: &Parameters) -> (files: Vec<LogFile>)
        ensures
            files@ == Self::all(*parameters),
    {
        if parameters.enable_dirty_page_tracker {
            vec![LogFile::Statistics, LogFile::HostSummary, LogFile::GuestSummary]
        } else {
            vec![LogFile::Statistics]
        }
    }
}

/// What the log is told.
#[derive(Debug, Clone, Copy, PartialEq, Eq, Structural)]
pub enum LogEvent {
    /// The host clock, in nanoseconds.
    HostTime(u128),
    /// The virtual time of a core, in nanoseconds.
    GuestTime(u64),
    /// The time stamp of a record.
    Timestamp(u64),
    /// The text was written, or the sleep is over.
    Done,
}

/// What the log asks for.
pub enum LogAction {
    /// Read the host clock.
    ReadHostTime,
    /// Read the virtual time of a core.
    ReadGuestTime(u32),
    /// Take a time stamp.
    ReadTimestamp,
    /// Append a text to a file and flush it.
    Append(LogFile, String),
    /// Sleep for so many milliseconds.
    Sleep(u64),
}

/// What a [`LogAction`] stands for.
pub enum LogRequest {
    ReadHostTime,
    ReadGuestTime(u32),
    ReadTimestamp,
    Append(LogFile, Seq<char>),
    Sleep(u64),
}

impl View for LogAction {
    type V = LogRequest;

    open spec fn view(&self) -> LogRequest {
        match *self {
            LogAction::ReadHostTime => LogRequest::ReadHostTime,
            LogAction::ReadGuestTime(core_id) => LogRequest::ReadGuestTime(core_id),
            LogAction::ReadTimestamp => LogRequest::ReadTimestamp,
            LogAction::Append(file, text) => LogRequest::Append(file, text@),
            LogAction::Sleep(ms) => LogRequest::Sleep(ms),
        }
    }
}

/// Where the log stands in its round.
#[derive(Debug, Clone, Copy, PartialEq, Eq, Structural)]
pub enum LogPhase {
    /// The host clock is read, to see whether a record is due.
    HostCheck,
    /// The virtual time of a core is read.
    CoreTime { core_id: u32, dirty_page_count: usize },
    /// The time stamp of the record is taken.
    Stamp { dirty_page_count: usize },
    /// The statistics are written.
    Record { ts: u64, dirty_page_count: usize },
    /// The host summary is written.
    HostSummary { ts: u64, dirty_page_count: usize },
    /// The host clock is read, from which the next record is due a period later.
    HostRestart,
    /// The guest clock is read, to see whether a record is due.
    GuestCheck,
    /// The guest summary is written.
    GuestSummary { now: u64, dirty_page_count: usize },
    /// The log sleeps.
    Sleep,
}

/// A line of a summary: time, dirty pages and cache misses.
pub open spec fn summary(time: u64, dirty_page_count: usize, misses: nat) -> Seq<char> {
    crate::text::decimal(time as nat) + ","@ + crate::text::decimal(dirty_page_count as nat) + ","@
        + crate::text::decimal(misses) + "\n"@
}

/// The number of events of the given kind on all cores.
pub open spec fn total(cores: Seq<Seq<u64>>, event: EventType) -> nat {
    crate::statistics::sum_of(cores, event, false) + crate::statistics::sum_of(cores, event, true)
}

/// What the log asks for in a phase, with the counters and the count of dirty
/// pages in host time as they are when the phase begins.
pub open spec fn request(
    phase: LogPhase,
    parameters: Parameters,
    cores: Seq<Seq<u64>>,
    host_count: nat,
) -> LogRequest {
    match phase {
        LogPhase::HostCheck => LogRequest::ReadHostTime,
        LogPhase::CoreTime { core_id, .. } => LogRequest::ReadGuestTime(core_id),
        LogPhase::Stamp { .. } => LogRequest::ReadTimestamp,
        LogPhase::Record { ts, .. } => LogRequest::Append(
            LogFile::Statistics,
            crate::text::terminated(
                crate::statistics::lines(parameters, cores, host_count, ts),
                "\n"@,
            ),
        ),
        LogPhase::HostSummary { ts, dirty_page_count } => LogRequest::Append(
            LogFile::HostSummary,
            summary(ts, dirty_page_count, total(cores, summary_event())),
        ),
        LogPhase::HostRestart => LogRequest::ReadHostTime,
        LogPhase::GuestCheck => LogRequest::ReadGuestTime(0),
        LogPhase::GuestSummary { now, dirty_page_count } => LogRequest::Append(
            LogFile::GuestSummary,
            summary(now, dirty_page_count, total(cores, summary_event())),
        ),
        LogPhase::Sleep => LogRequest::Sleep(SLEEP_MS),
    }
}

/// The phase that follows the host part of a round.
pub open spec fn guest_part(parameters: Parameters) -> LogPhase {
    if parameters.enable_dirty_page_tracker {
        LogPhase::GuestCheck
    } else {
        LogPhase::Sleep
    }
}

/// The first target after `now` among `target` and those that follow it at
/// intervals of a period.
pub open spec fn advanced(target: int, now: int) -> int {
    if target <= now {
        target + ((now - target) / GUEST_PERIOD_NS as int + 1) * GUEST_PERIOD_NS
    } else {
        target
    }
}

/// The phase after an event. `host` and `guest` are the dirty pages of the two
/// time domains before it.
pub open spec fn next_phase(
    phase: LogPhase,
    event: LogEvent,
    parameters: Parameters,
    next_host_time: u128,
    next_guest_time: u64,
    host: DirtyPages,
    guest: DirtyPages,
) -> LogPhase {
    match (phase, event) {
        (LogPhase::HostCheck, LogEvent::HostTime(now)) => {
            let dirty_page_count = if parameters.enable_dirty_page_tracker {
                host.collecting().len() as usize
            } else {
                0
            };
            if now < next_host_time {
                guest_part(parameters)
            } else if parameters.core_count > 0 {
                LogPhase::CoreTime { core_id: 0, dirty_page_count }
            } else {
                LogPhase::Stamp { dirty_page_count }
            }
        },
        (LogPhase::CoreTime { core_id, dirty_page_count }, LogEvent::GuestTime(_)) => {
            if core_id + 1 < parameters.core_count {
                LogPhase::CoreTime { core_id: (core_id + 1) as u32, dirty_page_count }
            } else {
                LogPhase::Stamp { dirty_page_count }
            }
        },
        (LogPhase::Stamp { dirty_page_count }, LogEvent::Timestamp(ts)) => LogPhase::Record {
            ts,
            dirty_page_count,
        },
        (LogPhase::Record { ts, dirty_page_count }, LogEvent::Done) => {
            if parameters.enable_dirty_page_tracker {
                LogPhase::HostSummary { ts, dirty_page_count }
            } else {
                LogPhase::HostRestart
            }
        },
        (LogPhase::HostSummary { .. }, LogEvent::Done) => LogPhase::HostRestart,
        (LogPhase::HostRestart, LogEvent::HostTime(_)) => guest_part(parameters),
        (LogPhase::GuestCheck, LogEvent::GuestTime(now)) => {
            if now >= next_guest_time {
                LogPhase::GuestSummary { now, dirty_page_count: guest.collecting().len() as usize }
            } else {
                LogPhase::Sleep
            }
        },
        (LogPhase::GuestSummary { .. }, LogEvent::Done) => LogPhase::Sleep,
        (LogPhase::Sleep, LogEvent::Done) => LogPhase::HostCheck,
        _ => phase,
    }
}

/// Whether an event ends the period of the dirty pages in host time.
pub open spec fn ends_host_period(
    phase: LogPhase,
    event: LogEvent,
    parameters: Parameters,
    next_host_time: u128,
) -> bool {
    &&& parameters.enable_dirty_page_tracker
    &&& phase is HostCheck
    &&& event matches LogEvent::HostTime(now) && now >= next_host_time
}

/// Whether an event ends the period of the dirty pages in guest time.
pub open spec fn ends_guest_period(phase: LogPhase, event: LogEvent, next_guest_time: u64) -> bool {
    &&& phase is GuestCheck
    &&& event matches LogEvent::GuestTime(now) && now >= next_guest_time
}

/// The counters after an event.
pub open spec fn next_counters(
    phase: LogPhase,
    event: LogEvent,
    parameters: Parameters,
    cores: Seq<Seq<u64>>,
) -> Seq<Seq<u64>> {
    match (phase, event) {
        (
            LogPhase::CoreTime { core_id, .. },
            LogEvent::GuestTime(time),
        ) => crate::statistics::after_set(
            parameters,
            cores,
            core_id as int,
            EventType::TargetLocalCycle,
            false,
            time,
        ),
        _ => cores,
    }
}

/// A log together with the counters and the dirty pages that it works on.
#[verifier::ext_equal]
pub struct LogWorld {
    /// Where the log stands in its round.
    pub phase: LogPhase,
    /// The host time from which on the next record is due.
    pub next_host_time: u128,
    /// The guest time from which on the next record is due.
    pub next_guest_time: u64,
    /// The counters of all cores.
    pub cores: Seq<Seq<u64>>,
    /// The dirty pages in host time.
    pub host: DirtyPages,
    /// The dirty pages in guest time.
    pub guest: DirtyPages,
}

/// Everything that a step of the log changes, after an event.
pub open spec fn world_after(parameters: Parameters, world: LogWorld, event: LogEvent) -> LogWorld {
    LogWorld {
        phase: next_phase(
            world.phase,
            event,
            parameters,
            world.next_host_time,
            world.next_guest_time,
            world.host,
            world.guest,
        ),
        next_host_time: match (world.phase, event) {
            (LogPhase::HostRestart, LogEvent::HostTime(now)) => (now + HOST_PERIOD_NS) as u128,
            _ => world.next_host_time,
        },
        next_guest_time: match (world.phase, event) {
            (LogPhase::GuestSummary { now, .. }, LogEvent::Done) => advanced(
                world.next_guest_time as int,
                now as int,
            ) as u64,
            _ => world.next_guest_time,
        },
        cores: next_counters(world.phase, event, parameters, world.cores),
        host: if ends_host_period(world.phase, event, parameters, world.next_host_time) {
            world.host.swapped()
        } else {
            world.host
        },
        guest: if ends_guest_period(world.phase, event, world.next_guest_time) {
            world.guest.swapped()
        } else {
            world.guest
        },
    }
}

/// The periodic log.
pub struct PeriodicLog {
    parameters: Parameters,
    phase: LogPhase,
    next_host_time: u128,
    next_guest_time: u64,
}

impl PeriodicLog {
    /// The parameters of the simulation.
    pub closed spec fn parameters(&self) -> Parameters {
        self.parameters
    }

    /// Where the log stands in its round.
    pub closed spec fn phase(&self) -> LogPhase {
        self.phase
    }

    /// The host time from which on the next record is due.
    pub closed spec fn next_host_time(&self) -> u128 {
        self.next_host_time
    }

    /// The guest time from which on the next record is due.
    pub closed spec fn next_guest_time(&self) -> u64 {
        self.next_guest_time
    }

    /// The log together with what it works on.
    pub open spec fn world(
        &self,
        cores: Seq<Seq<u64>>,
        host: DirtyPages,
        guest: DirtyPages,
    ) -> LogWorld {
        LogWorld {
            phase: self.phase(),
            next_host_time: self.next_host_time(),
            next_guest_time: self.next_guest_time(),
            cores,
            host,
            guest,
        }
    }

    /// The phase is one that the parameters allow.
    pub open spec fn wf(&self) -> bool {
        match self.phase() {
            LogPhase::CoreTime { core_id, .. } => core_id < self.parameters().core_count,
            LogPhase::HostSummary { .. } | LogPhase::GuestCheck => {
                self.parameters().enable_dirty_page_tracker
            },
            LogPhase::GuestSummary { now, .. } => {
                &&& self.parameters().enable_dirty_page_tracker
                &&& self.next_guest_time() <= now
            },
            _ => true,
        }
    }

    /// The event answers what the log asked for, and no number on the way to the
    /// next phase overflows.
    pub open spec fn accepts(&self, event: LogEvent, cores: Seq<Seq<u64>>) -> bool {
        match (self.phase(), event) {
            (LogPhase::HostCheck, LogEvent::HostTime(_)) => true,
            (LogPhase::CoreTime { .. }, LogEvent::GuestTime(_)) => true,
            (
                LogPhase::Stamp { .. },
                LogEvent::Timestamp(_),
            ) => crate::statistics::all_totals_fit(cores),
            (LogPhase::Record { .. }, LogEvent::Done) => {
                self.parameters().enable_dirty_page_tracker ==> total(cores, summary_event())
                    <= u64::MAX
            },
            (LogPhase::HostSummary { .. }, LogEvent::Done) => true,
            (LogPhase::HostRestart, LogEvent::HostTime(now)) => now + HOST_PERIOD_NS <= u128::MAX,
            (LogPhase::GuestCheck, LogEvent::GuestTime(now)) => {
                now >= self.next_guest_time() ==> total(cores, summary_event()) <= u64::MAX
            },
            (LogPhase::GuestSummary { now, .. }, LogEvent::Done) => {
                advanced(self.next_guest_time() as int, now as int) <= u64::MAX
            },
            (LogPhase::Sleep, LogEvent::Done) => true,
            _ => false,
        }
    }

    /// The log at its start, and the first thing it asks for. The first record
    /// is due one period from now, in either time.
    pub fn new(parameters: Parameters, host_now: u128, guest_now: u64) -> (started: (
        PeriodicLog,
        LogAction,
    ))
        requires
            host_now + HOST_PERIOD_NS <= u128::MAX,
            guest_now + GUEST_PERIOD_NS <= u64::MAX,
        ensures
            started.0.wf(),
            started.0.parameters() == parameters,
            started.0.phase() == LogPhase::HostCheck,
            started.0.next_host_time() == host_now + HOST_PERIOD_NS,
            started.0.next_guest_time() == guest_now + GUEST_PERIOD_NS,
            started.1@ == LogRequest::ReadHostTime,
    {
        let log = PeriodicLog {
            parameters,
            phase: LogPhase::HostCheck,
            next_host_time: host_now + HOST_PERIOD_NS,
            next_guest_time: guest_now + GUEST_PERIOD_NS,
        };
        (log, LogAction::ReadHostTime)
    }

    /// Whether [`PeriodicLog::step`] can go on with an event.
    pub fn can_step(&self, event: LogEvent, statistics: &Statistics) -> (can: bool)
        requires
            statistics.wf(),
        ensures
            can == self.accepts(event, statistics@),
    {
        match (self.phase, event) {
            (LogPhase::HostCheck, LogEvent::HostTime(_)) => true,
            (LogPhase::CoreTime { .. }, LogEvent::GuestTime(_)) => true,
            (LogPhase::Stamp { .. }, LogEvent::Timestamp(_)) => statistics.has_fitting_totals(),
            (LogPhase::Record { .. }, LogEvent::Done) => {
                !self.parameters.enable_dirty_page_tracker || statistics.has_fitting_sum(
                    EventType::SharedCacheMissDueToDataWrite,
                )
            },
            (LogPhase::HostSummary { .. }, LogEvent::Done) => true,
            (LogPhase::HostRestart, LogEvent::HostTime(now)) => now <= u128::MAX - HOST_PERIOD_NS,
            (LogPhase::GuestCheck, LogEvent::GuestTime(now)) => {
                now < self.next_guest_time || statistics.has_fitting_sum(
                    EventType::SharedCacheMissDueToDataWrite,
                )
            },
            (LogPhase::GuestSummary { now, .. }, LogEvent::Done) => {
                if self.next_guest_time <= now {
                    let periods: u64 = (now - self.next_guest_time) / GUEST_PERIOD_NS;
                    self.next_guest_time + periods * GUEST_PERIOD_NS <= u64::MAX - GUEST_PERIOD_NS
                } else {
                    true
                }
            },
            (LogPhase::Sleep, LogEvent::Done) => true,
            _ => false,
        }
    }

    /// Goes on with an event: enters the next phase and returns what is asked
    /// for in it.
    pub fn step(
        &mut self,
        event: LogEvent,
        statistics: &mut Statistics,
        trackers: &mut DirtyPageTrackers,
    ) -> (action: LogAction)
        requires
            old(self).wf(),
            old(statistics).wf(),
            old(statistics).parameters() == old(self).parameters(),
            old(trackers).wf(),
            old(self).accepts(event, old(statistics)@),
        ensures
            final(self).wf(),
            final(statistics).wf(),
            final(trackers).wf(),
            final(self).parameters() == old(self).parameters(),
            final(statistics).parameters() == old(statistics).parameters(),
            final(self).phase() == next_phase(
                old(self).phase(),
                event,
                old(self).parameters(),
                old(self).next_host_time(),
                old(self).next_guest_time(),
                old(trackers).host@,
                old(trackers).guest@,
            ),
            action@ == request(
                final(self).phase(),
                final(self).parameters(),
                final(statistics)@,
                final(trackers).host@.period_count,
            ),
            final(statistics)@ == next_counters(
                old(self).phase(),
                event,
                old(self).parameters(),
                old(statistics)@,
            ),
            final(trackers).host@ == if ends_host_period(
                old(self).phase(),
                event,
                old(self).parameters(),
                old(self).next_host_time(),
            ) {
                old(trackers).host@.swapped()
            } else {
                old(trackers).host@
            },
            final(trackers).guest@ == if ends_guest_period(
                old(self).phase(),
                event,
                old(self).next_guest_time(),
            ) {
                old(trackers).guest@.swapped()
            } else {
                old(trackers).guest@
            },
            final(self).next_host_time() == match (old(self).phase(), event) {
                (LogPhase::HostRestart, LogEvent::HostTime(now)) => now + HOST_PERIOD_NS,
                _ => old(self).next_host_time() as int,
            },
            final(self).next_guest_time() == match (old(self).phase(), event) {
                (LogPhase::GuestSummary { now, .. }, LogEvent::Done) => advanced(
                    old(self).next_guest_time() as int,
                    now as int,
                ),
                _ => old(self).next_guest_time() as int,
            },
            final(self).world(
                final(statistics)@,
                final(trackers).host@,
                final(trackers).guest@,
            ) == world_after(
                old(self).parameters(),
                old(self).world(old(statistics)@, old(trackers).host@, old(trackers).guest@),
                event,
            ),
            final(self).phase() is GuestSummary || final(trackers).guest == old(trackers).guest,
            final(self).phase() is CoreTime || final(self).phase() is Stamp || final(trackers).host
                == old(trackers).host,
            old(self).phase() is CoreTime || final(statistics)@ == old(statistics)@,
    {
        match (self.phase, event) {
            (LogPhase::HostCheck, LogEvent::HostTime(now)) => {
                if now < self.next_host_time {
                    return self.enter_guest_part();
                }
                let dirty_page_count: usize = if self.parameters.enable_dirty_page_tracker {
                    swap_host_buffers(trackers)
                } else {
                    0
                };
                if self.parameters.core_count > 0 {
                    self.phase = LogPhase::CoreTime { core_id: 0, dirty_page_count };
                    LogAction::ReadGuestTime(0)
                } else {
                    self.phase = LogPhase::Stamp { dirty_page_count };
                    LogAction::ReadTimestamp
                }
            },
            (LogPhase::CoreTime { core_id, dirty_page_count }, LogEvent::GuestTime(time)) => {
                Statistics::global_set(
                    statistics,
                    core_id,
                    EventType::TargetLocalCycle,
                    false,
                    time,
                );
                if core_id + 1 < self.parameters.core_count {
                    self.phase = LogPhase::CoreTime { core_id: core_id + 1, dirty_page_count };
                    LogAction::ReadGuestTime(core_id + 1)
                } else {
                    self.phase = LogPhase::Stamp { dirty_page_count };
                    LogAction::ReadTimestamp
                }
            },
            (LogPhase::Stamp { dirty_page_count }, LogEvent::Timestamp(ts)) => {
                self.phase = LogPhase::Record { ts, dirty_page_count };
                let stats = Statistics::global_get_line_for_all_cores(statistics, ts, trackers);
                LogAction::Append(LogFile::Statistics, terminate(&stats, "\n"))
            },
            (LogPhase::Record { ts, dirty_page_count }, LogEvent::Done) => {
                if self.parameters.enable_dirty_page_tracker {
                    self.phase = LogPhase::HostSummary { ts, dirty_page_count };
                    LogAction::Append(
                        LogFile::HostSummary,
                        summary_line(ts, dirty_page_count, statistics),
                    )
                } else {
                    self.phase = LogPhase::HostRestart;
                    LogAction::ReadHostTime
                }
            },
            (LogPhase::HostSummary { .. }, LogEvent::Done) => {
                self.phase = LogPhase::HostRestart;
                LogAction::ReadHostTime
            },
            (LogPhase::HostRestart, LogEvent::HostTime(now)) => {
                self.next_host_time = now + HOST_PERIOD_NS;
                self.enter_guest_part()
            },
            (LogPhase::GuestCheck, LogEvent::GuestTime(now)) => {
                if now >= self.next_guest_time {
                    let dirty_page_count: usize = swap_guest_buffers(trackers);
                    self.phase = LogPhase::GuestSummary { now, dirty_page_count };
                    LogAction::Append(
                        LogFile::GuestSummary,
                        summary_line(now, dirty_page_count, statistics),
                    )
                } else {
                    self.phase = LogPhase::Sleep;
                    LogAction::Sleep(SLEEP_MS)
                }
            },
            (LogPhase::GuestSummary { now, .. }, LogEvent::Done) => {
                self.next_guest_time = advance(self.next_guest_time, now);
                self.phase = LogPhase::Sleep;
                LogAction::Sleep(SLEEP_MS)
            },
            _ => {
                self.phase = LogPhase::HostCheck;
                LogAction::ReadHostTime
            },
        }
    }

    /// Leaves the host part of the round.
    fn enter_guest_part(&mut self) -> (action: LogAction)
        ensures
            final(self).wf(),
            final(self).parameters() == old(self).parameters(),
            final(self).next_host_time() == old(self).next_host_time(),
            final(self).next_guest_time() == old(self).next_guest_time(),
            final(self).phase() == guest_part(old(self).parameters()),
            forall|cores: Seq<Seq<u64>>, host_count: nat|
                action@ == #[trigger] request(
                    final(self).phase(),
                    final(self).parameters(),
                    cores,
                    host_count,
                ),
    {
        if self.parameters.enable_dirty_page_tracker {
            self.phase = LogPhase::GuestCheck;
            LogAction::ReadGuestTime(0)
        } else {
            self.phase = LogPhase::Sleep;
            LogAction::Sleep(SLEEP_MS)
        }
    }
}

/// The first target after `now`. If the log is behind, this leaps over the
/// targets that were missed, so that they are not made up for one by one.
fn advance(target: u64, now: u64) -> (next: u64)
    requires
        advanced(target as int, now as int) <= u64::MAX,
    ensures
        next == advanced(target as int, now as int),
{
    let mut next: u64 = target;
    let ghost mut k: int = 0;
    while next <= now
        invariant
            advanced(target as int, now as int) <= u64::MAX,
            k >= 0,
            next == target + k * GUEST_PERIOD_NS,
            next <= advanced(target as int, now as int),
        decreases advanced(target as int, now as int) - next,
    {
        next += GUEST_PERIOD_NS;
        proof {
            k = k + 1;
        }
    }
    next
}

/// A line of a summary: time, dirty pages and cache misses.
fn summary_line(time: u64, dirty_page_count: usize, statistics: &Statistics) -> (text: String)
    requires
        statistics.wf(),
        total(statistics@, summary_event()) <= u64::MAX,
    ensures
        text@ == summary(time, dirty_page_count, total(statistics@, summary_event())),
{
    let (cache_misses_total, _, _) = Statistics::global_query_record_all_cores(
        statistics,
        EventType::SharedCacheMissDueToDataWrite,
    );
    let mut text = String::new();
    push_decimal(&mut text, time);
    text.append(",");
    push_decimal(&mut text, dirty_page_count as u64);
    text.append(",");
    push_decimal(&mut text, cache_misses_total);
    text.append("\n");
    assert(text@ =~= summary(time, dirty_page_count, total(statistics@, summary_event())));
    text
}

/// Whether an event is the answer to what the log asked for.
pub open spec fn answers(event: LogEvent, request: LogRequest) -> bool {
    match request {
        LogRequest::ReadHostTime => event is HostTime,
        LogRequest::ReadGuestTime(_) => event is GuestTime,
        LogRequest::ReadTimestamp => event is Timestamp,
        LogRequest::Append(_, _) => event is Done,
        LogRequest::Sleep(_) => event is Done,
    }
}

/// The number of events, at most, after which the log sleeps.
pub open spec fn events_to_sleep(phase: LogPhase, parameters: Parameters) -> nat {
    match phase {
        LogPhase::HostCheck => (parameters.core_count + 7) as nat,
        LogPhase::CoreTime { core_id, .. } => (parameters.core_count - core_id + 6) as nat,
        LogPhase::Stamp { .. } => 6,
        LogPhase::Record { .. } => 5,
        LogPhase::HostSummary { .. } => 4,
        LogPhase::HostRestart => 3,
        LogPhase::GuestCheck => 2,
        LogPhase::GuestSummary { .. } => 1,
        LogPhase::Sleep => 0,
    }
}

/// The cores whose virtual time is read for a record, from `phase` on.
pub open spec fn cores_read_from(phase: LogPhase, parameters: Parameters) -> Seq<u32>
    decreases
            (match phase {
                LogPhase::CoreTime { core_id, .. } => parameters.core_count - core_id + 1,
                _ => 0,
            }),
{
    match phase {
        LogPhase::CoreTime { core_id, .. } => if core_id < parameters.core_count {
            seq![core_id] + cores_read_from(
                next_phase(
                    phase,
                    LogEvent::GuestTime(0),
                    parameters,
                    0,
                    0,
                    DirtyPages::initial(),
                    DirtyPages::initial(),
                ),
                parameters,
            )
        } else {
            seq![core_id]
        },
        _ => Seq::empty(),
    }
}

/// The log only goes on with the answer to what it asked for, and with every
/// such answer as long as no number overflows.
pub proof fn law_the_answer_is_accepted(
    log: PeriodicLog,
    event: LogEvent,
    cores: Seq<Seq<u64>>,
    host_count: nat,
)
    requires
        log.wf(),
    ensures
        log.accepts(event, cores) ==> answers(
            event,
            request(log.phase(), log.parameters(), cores, host_count),
        ),
        answers(event, request(log.phase(), log.parameters(), cores, host_count))
            && crate::statistics::all_totals_fit(cores) && total(cores, summary_event())
            <= u64::MAX && (event matches LogEvent::HostTime(now) ==> now + HOST_PERIOD_NS
            <= u128::MAX) && (log.phase() matches LogPhase::GuestSummary { now, .. } ==> now
            + GUEST_PERIOD_NS <= u64::MAX) ==> log.accepts(event, cores),
{
    if let LogPhase::GuestSummary { now, .. } = log.phase() {
        law_guest_target(log.next_guest_time() as int, now as int);
    }
}

/// A round ends: whatever answers arrive, each brings the log closer to its
/// sleep, after which it reads the host clock again.
pub proof fn law_a_round_ends(
    log: PeriodicLog,
    event: LogEvent,
    cores: Seq<Seq<u64>>,
    host: DirtyPages,
    guest: DirtyPages,
)
    requires
        log.wf(),
        log.accepts(event, cores),
    ensures
        ({
            let next = next_phase(
                log.phase(),
                event,
                log.parameters(),
                log.next_host_time(),
                log.next_guest_time(),
                host,
                guest,
            );
            if log.phase() is Sleep {
                next is HostCheck
            } else {
                events_to_sleep(next, log.parameters()) < events_to_sleep(
                    log.phase(),
                    log.parameters(),
                )
            }
        }),
{
}

/// A text is only ever appended to a file of the log.
pub proof fn law_appends_go_to_files_of_the_log(
    log: PeriodicLog,
    cores: Seq<Seq<u64>>,
    host_count: nat,
    file: LogFile,
    text: Seq<char>,
)
    requires
        log.wf(),
        request(log.phase(), log.parameters(), cores, host_count) == LogRequest::Append(file, text),
    ensures
        LogFile::all(log.parameters()).contains(file),
{
    let files = LogFile::all(log.parameters());
    assert(files[0] == LogFile::Statistics);
    if log.parameters().enable_dirty_page_tracker {
        assert(files[1] == LogFile::HostSummary);
        assert(files[2] == LogFile::GuestSummary);
    }
}

/// The next target in guest time lies after the record, by a period at most, and
/// at a whole number of periods from the one before: the log neither falls
/// behind nor makes up for targets that it missed.
pub proof fn law_guest_target(target: int, now: int)
    requires
        target <= now,
    ensures
        now < advanced(target, now) <= now + GUEST_PERIOD_NS,
        (advanced(target, now) - target) % GUEST_PERIOD_NS as int == 0,
{
}

/// A record in host time is due from one period after the end of the record
/// before it on, and not earlier.
pub proof fn law_host_interval(
    parameters: Parameters,
    ended: u128,
    now: u128,
    next_host_time: u128,
    next_guest_time: u64,
    host: DirtyPages,
    guest: DirtyPages,
)
    requires
        next_host_time == ended + HOST_PERIOD_NS,
    ensures
        ({
            let next = next_phase(
                LogPhase::HostCheck,
                LogEvent::HostTime(now),
                parameters,
                next_host_time,
                next_guest_time,
                host,
                guest,
            );
            next is CoreTime || next is Stamp <==> now - ended >= HOST_PERIOD_NS
        }),
{
}

/// The host summary repeats the count of dirty pages that stands in the lines of
/// the same record, whatever is written in between: the number of pages of the
/// period that the record ends.
pub proof fn law_summary_agrees_with_the_record(
    parameters: Parameters,
    now: u128,
    next_host_time: u128,
    next_guest_time: u64,
    host: DirtyPageSet,
    guest: DirtyPages,
    pages: Seq<int>,
)
    requires
        host.wf(),
        parameters.enable_dirty_page_tracker,
        now >= next_host_time,
    ensures
        match next_phase(
            LogPhase::HostCheck,
            LogEvent::HostTime(now),
            parameters,
            next_host_time,
            next_guest_time,
            host@,
            guest,
        ) {
            LogPhase::CoreTime { dirty_page_count, .. } | LogPhase::Stamp { dirty_page_count } => {
                &&& dirty_page_count == host@.collecting().len()
                &&& dirty_page_count == host@.swapped().marked_all(pages).period_count
            },
            _ => false,
        },
{
    host.law_collecting_is_bounded();
    law_writes_add_pages(host@.swapped(), pages);
}

/// The guest summary reports the number of pages of the period that it ends.
pub proof fn law_guest_summary_counts_its_period(
    parameters: Parameters,
    now: u64,
    next_host_time: u128,
    next_guest_time: u64,
    host: DirtyPages,
    guest: DirtyPageSet,
)
    requires
        guest.wf(),
        now >= next_guest_time,
    ensures
        match next_phase(
            LogPhase::GuestCheck,
            LogEvent::GuestTime(now),
            parameters,
            next_host_time,
            next_guest_time,
            host,
            guest@,
        ) {
            LogPhase::GuestSummary { now: time, dirty_page_count } => {
                &&& time == now
                &&& dirty_page_count == guest@.collecting().len()
            },
            _ => false,
        },
{
    guest.law_collecting_is_bounded();
}

proof fn lemma_cores_read_from(parameters: Parameters, core_id: u32, dirty_page_count: usize)
    requires
        core_id < parameters.core_count,
    ensures
        cores_read_from(LogPhase::CoreTime { core_id, dirty_page_count }, parameters) == Seq::new(
            (parameters.core_count - core_id) as nat,
            |i: int| (core_id + i) as u32,
        ),
    decreases parameters.core_count - core_id,
{
    if core_id + 1 < parameters.core_count {
        lemma_cores_read_from(parameters, (core_id + 1) as u32, dirty_page_count);
    }
    reveal_with_fuel(cores_read_from, 2);
    assert(cores_read_from(LogPhase::CoreTime { core_id, dirty_page_count }, parameters)
        =~= Seq::new((parameters.core_count - core_id) as nat, |i: int| (core_id + i) as u32));
}

/// For a record the virtual time of every core is read once, in order.
pub proof fn law_every_core_is_read(
    parameters: Parameters,
    now: u128,
    next_host_time: u128,
    next_guest_time: u64,
    host: DirtyPages,
    guest: DirtyPages,
)
    requires
        now >= next_host_time,
    ensures
        cores_read_from(
            next_phase(
                LogPhase::HostCheck,
                LogEvent::HostTime(now),
                parameters,
                next_host_time,
                next_guest_time,
                host,
                guest,
            ),
            parameters,
        ) == Seq::new(parameters.core_count as nat, |i: int| i as u32),
{
    let phase = next_phase(
        LogPhase::HostCheck,
        LogEvent::HostTime(now),
        parameters,
        next_host_time,
        next_guest_time,
        host,
        guest,
    );
    if let LogPhase::CoreTime { dirty_page_count, .. } = phase {
        lemma_cores_read_from(parameters, 0, dirty_page_count);
    }
    assert(cores_read_from(phase, parameters) =~= Seq::new(
        parameters.core_count as nat,
        |i: int| i as u32,
    ));
}

/// The counters after the virtual times of the first cores were read; `times[i]`
/// is that of core `i`.
pub open spec fn counters_after_times(
    parameters: Parameters,
    cores: Seq<Seq<u64>>,
    times: Seq<u64>,
) -> Seq<Seq<u64>>
    decreases times.len(),
{
    if times.len() == 0 {
        cores
    } else {
        next_counters(
            LogPhase::CoreTime { core_id: (times.len() - 1) as u32, dirty_page_count: 0 },
            LogEvent::GuestTime(times.last()),
            parameters,
            counters_after_times(parameters, cores, times.drop_last()),
        )
    }
}

/// A record shows the virtual time of each core as it was read for this record,
/// and otherwise the counters as they were.
pub proof fn law_record_shows_the_core_times(
    parameters: Parameters,
    cores: Seq<Seq<u64>>,
    times: Seq<u64>,
    core_id: int,
    event: EventType,
    is_os: bool,
)
    requires
        parameters.enable_statistics,
        times.len() <= cores.len() <= u32::MAX,
        0 <= core_id < cores.len(),
        forall|i: int|
            0 <= i < cores.len() ==> (#[trigger] cores[i]).len()
                == crate::statistics::COUNTER_COUNT,
    ensures
        counters_after_times(parameters, cores, times).len() == cores.len(),
        forall|i: int|
            0 <= i < cores.len() ==> (#[trigger] counters_after_times(
                parameters,
                cores,
                times,
            )[i]).len() == crate::statistics::COUNTER_COUNT,
        crate::statistics::count_of(
            counters_after_times(parameters, cores, times)[core_id],
            event,
            is_os,
        ) == if core_id < times.len() && event == EventType::TargetLocalCycle && !is_os {
            times[core_id]
        } else {
            crate::statistics::count_of(cores[core_id], event, is_os)
        },
    decreases times.len(),
{
    if times.len() > 0 {
        let rest = times.drop_last();
        law_record_shows_the_core_times(parameters, cores, rest, core_id, event, is_os);
        crate::statistics::law_set_reads_back(
            parameters,
            counters_after_times(parameters, cores, rest),
            times.len() - 1,
            EventType::TargetLocalCycle,
            false,
            times.last(),
            core_id,
            event,
            is_os,
        );
    }
}

/// The names of the columns of a summary.
pub open spec fn summary_names(file: LogFile) -> Seq<Seq<char>> {
    seq![
        if file is HostSummary {
            "timestamp"@
        } else {
            "guest_timestamp_ns"@
        },
        "DirtyPages"@,
        summary_event().name(),
    ]
}

/// The cells of a line of a summary.
pub open spec fn summary_cells(time: u64, dirty_page_count: usize, misses: nat) -> Seq<Seq<char>> {
    seq![
        crate::text::decimal(time as nat),
        crate::text::decimal(dirty_page_count as nat),
        crate::text::decimal(misses),
    ]
}

/// The line that the file of a summary begins with names three columns, and every
/// line of the summary gives their values in decimal digits at the same places:
/// time, dirty pages and cache misses. Each is one row, ended by a line break, and
/// no cell holds a comma or a line break.
pub proof fn law_summaries_match_their_heading(
    parameters: Parameters,
    time: u64,
    dirty_page_count: usize,
    misses: nat,
    file: LogFile,
    column: int,
    c: char,
)
    requires
        file is HostSummary || file is GuestSummary,
        0 <= column < 3,
        c == ',' || c == '\n',
    ensures
        file.heading(parameters) == crate::text::joined(summary_names(file), ","@) + "\n"@,
        summary(time, dirty_page_count, misses) == crate::text::joined(
            summary_cells(time, dirty_page_count, misses),
            ","@,
        ) + "\n"@,
        occurrences(summary_names(file)[column], c) == 0,
        occurrences(summary_cells(time, dirty_page_count, misses)[column], c) == 0,
        occurrences(file.heading(parameters), c) == if c == ',' {
            2nat
        } else {
            1nat
        },
        occurrences(summary(time, dirty_page_count, misses), c) == if c == ',' {
            2nat
        } else {
            1nat
        },
{
    let names = summary_names(file);
    let cells = summary_cells(time, dirty_page_count, misses);
    reveal_strlit("timestamp,DirtyPages,SharedCacheMissDueToDataWrite\n");
    reveal_strlit("guest_timestamp_ns,DirtyPages,SharedCacheMissDueToDataWrite\n");
    reveal_strlit("timestamp");
    reveal_strlit("guest_timestamp_ns");
    reveal_strlit("DirtyPages");
    reveal_strlit("SharedCacheMissDueToDataWrite");
    reveal_strlit(",");
    reveal_strlit("\n");
    assert(","@ =~= seq![',']);
    assert("\n"@ =~= seq!['\n']);
    lemma_joined_row(names);
    lemma_joined_row(cells);
    assert(file.heading(parameters) =~= names[0] + ","@ + names[1] + ","@ + names[2] + "\n"@);
    lemma_absent(names[0], c);
    lemma_absent(names[1], c);
    lemma_absent(names[2], c);
    lemma_row(names[0], names[1], names[2], c);
    law_decimal_is_digits(time as nat);
    law_decimal_is_digits(dirty_page_count as nat);
    law_decimal_is_digits(misses);
    lemma_absent(cells[0], c);
    lemma_absent(cells[1], c);
    lemma_absent(cells[2], c);
    lemma_row(cells[0], cells[1], cells[2], c);
}

/// A row of three cells, joined.
proof fn lemma_joined_row(row: Seq<Seq<char>>)
    requires
        row.len() == 3,
    ensures
        crate::text::joined(row, ","@) == row[0] + ","@ + row[1] + ","@ + row[2],
{
    crate::text::lemma_joined_step(row, ","@, 1);
    crate::text::lemma_joined_step(row, ","@, 2);
    assert(row.take(3) =~= row);
    assert(crate::text::joined(row.take(1), ","@) == row[0]);
}

/// Commas and line breaks of a row of three plain cells.
proof fn lemma_row(first: Seq<char>, second: Seq<char>, third: Seq<char>, c: char)
    requires
        c == ',' || c == '\n',
        occurrences(first, c) == 0,
        occurrences(second, c) == 0,
        occurrences(third, c) == 0,
    ensures
        occurrences(first + seq![','] + second + seq![','] + third + seq!['\n'], c) == if c
            == ',' {
            2nat
        } else {
            1nat
        },
{
    let comma = seq![','];
    let end = seq!['\n'];
    assert(occurrences(comma, c) == if c == ',' {
        1nat
    } else {
        0nat
    } && occurrences(end, c) == if c == ',' {
        0nat
    } else {
        1nat
    }) by {
        reveal_with_fuel(occurrences, 2);
        assert(comma.drop_last() =~= Seq::<char>::empty());
        assert(end.drop_last() =~= Seq::<char>::empty());
    }
    lemma_occurrences_add(first, comma, c);
    lemma_occurrences_add(first + comma, second, c);
    lemma_occurrences_add(first + comma + second, comma, c);
    lemma_occurrences_add(first + comma + second + comma, third, c);
    lemma_occurrences_add(first + comma + second + comma + third, end, c);
}

} // verus!
