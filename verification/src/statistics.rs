//! Event counters of the simulated cores, and their reports.
use vstd::prelude::*;
use vstd::string::*;

use crate::dirty_page_tracker::{get_host_dirty_page_count, DirtyPageTrackers};
use crate::event::{
    law_names_are_different, law_names_are_letters, law_names_are_no_other_column,
    law_positions_number_the_kinds, EventType,
};
use crate::parameter::Parameters;
use crate::text::{
    decimal, is_number, join, joined, law_decimal_is_digits, law_decimal_reads_back,
    law_numbers_and_their_notation, law_split_of_joined, law_split_of_terminated, lemma_absent,
    lemma_joined_and_terminated, lemma_joined_step, lemma_joined_three, lemma_occurrences_add,
    lemma_occurrences_joined, lemma_occurrences_terminated, occurrences, push_decimal, split,
    terminate, terminated, texts, value,
};

verus! {

/// Number of counters of a core: one for each kind of event in user mode and one
/// for each in kernel mode.
pub const COUNTER_COUNT: usize = EventType::COUNT * 2;

/// The counter of an event in user mode or, if `is_os`, in kernel mode.
pub open spec fn slot(event: EventType, is_os: bool) -> int {
    2 * event.position() + if is_os {
        1int
    } else {
        0int
    }
}

/// The counters of a core after `increment` more events.
pub open spec fn recorded(
    counters: Seq<u64>,
    event: EventType,
    is_os: bool,
    increment: u64,
) -> Seq<u64> {
    counters.update(
        slot(event, is_os),
        (counters[slot(event, is_os)] + increment) as u64,
    )
}

/// The count of an event in one mode, among the counters of a core.
pub open spec fn count_of(counters: Seq<u64>, event: EventType, is_os: bool) -> u64 {
    counters[slot(event, is_os)]
}

/// User and kernel count of each event add up to a number that fits in a counter.
pub open spec fn totals_fit(counters: Seq<u64>) -> bool {
    forall|event: EventType|
        #[trigger] count_of(counters, event, false) + count_of(counters, event, true) <= u64::MAX
}

/// [`totals_fit`] holds of every core.
pub open spec fn all_totals_fit(cores: Seq<Seq<u64>>) -> bool {
    forall|core_id: int| 0 <= core_id < cores.len() ==> totals_fit(#[trigger] cores[core_id])
}

/// The counters of all cores after `increment` more events of core `core_id`.
pub open spec fn after_record(
    parameters: Parameters,
    cores: Seq<Seq<u64>>,
    core_id: int,
    event: EventType,
    is_os: bool,
    increment: u64,
) -> Seq<Seq<u64>> {
    if parameters.enable_statistics {
        cores.update(core_id, recorded(cores[core_id], event, is_os, increment))
    } else {
        cores
    }
}

/// The counters of all cores after a count of core `core_id` was set.
pub open spec fn after_set(
    parameters: Parameters,
    cores: Seq<Seq<u64>>,
    core_id: int,
    event: EventType,
    is_os: bool,
    value: u64,
) -> Seq<Seq<u64>> {
    if parameters.enable_statistics {
        cores.update(core_id, cores[core_id].update(slot(event, is_os), value))
    } else {
        cores
    }
}

/// The number of events counted by the given cores in one mode.
pub open spec fn sum_of(cores: Seq<Seq<u64>>, event: EventType, is_os: bool) -> nat
    decreases cores.len(),
{
    if cores.len() == 0 {
        0
    } else {
        sum_of(cores.drop_last(), event, is_os) + count_of(cores.last(), event, is_os) as nat
    }
}

/// The three columns of an event in the header: its total, and its share in user
/// and in kernel mode.
pub open spec fn event_columns(event: EventType) -> Seq<char> {
    event.name() + ","@ + event.name() + ":u,"@ + event.name() + ":k"@
}

/// The header of a report.
pub open spec fn header(parameters: Parameters) -> Seq<char> {
    "ts,core_id,"@ + joined(
        EventType::all().map_values(|event: EventType| event_columns(event)),
        ","@,
    ) + if parameters.enable_dirty_page_tracker {
        ",DirtyPages"@
    } else {
        Seq::empty()
    }
}

/// The cells of one event: total, user count and kernel count, each after a comma.
pub open spec fn event_cells(counters: Seq<u64>, event: EventType) -> Seq<char> {
    let u = count_of(counters, event, false) as nat;
    let k = count_of(counters, event, true) as nat;
    ","@ + decimal(u + k) + ","@ + decimal(u) + ","@ + decimal(k)
}

/// The cells of the given events, in order.
pub open spec fn cells(counters: Seq<u64>, events: Seq<EventType>) -> Seq<char>
    decreases events.len(),
{
    if events.len() == 0 {
        Seq::empty()
    } else {
        cells(counters, events.drop_last()) + event_cells(counters, events.last())
    }
}

/// The line of a report for one core. `dirty_count` is the number of dirty pages
/// of the last completed period in host time.
pub open spec fn line(
    parameters: Parameters,
    counters: Seq<u64>,
    dirty_count: nat,
    ts: u64,
    core_id: int,
) -> Seq<char> {
    decimal(ts as nat) + ","@ + decimal(core_id as nat) + cells(counters, EventType::all())
        + if parameters.enable_dirty_page_tracker {
        ","@ + decimal(dirty_count)
    } else {
        Seq::empty()
    }
}

/// The lines of a report, one for each core.
pub open spec fn lines(
    parameters: Parameters,
    cores: Seq<Seq<u64>>,
    dirty_count: nat,
    ts: u64,
) -> Seq<Seq<char>> {
    Seq::new(
        cores.len(),
        |core_id: int| line(parameters, cores[core_id], dirty_count, ts, core_id),
    )
}

/// The contents of a report file.
pub open spec fn csv(
    parameters: Parameters,
    cores: Seq<Seq<u64>>,
    dirty_count: nat,
    ts: u64,
) -> Seq<char> {
    header(parameters) + "\n"@ + terminated(lines(parameters, cores, dirty_count, ts), "\n"@)
}

/// The first cores have counted no more than all of them.
proof fn lemma_sum_of_prefix(cores: Seq<Seq<u64>>, n: int, event: EventType, is_os: bool)
    requires
        0 <= n <= cores.len(),
    ensures
        sum_of(cores.take(n), event, is_os) <= sum_of(cores, event, is_os),
    decreases cores.len(),
{
    if n < cores.len() {
        assert(cores.drop_last().take(n) =~= cores.take(n));
        lemma_sum_of_prefix(cores.drop_last(), n, event, is_os);
    } else {
        assert(cores.take(n) =~= cores);
    }
}

/// The counters of one core.
pub struct PerCoreStatistics {
    parameters: Parameters,
    counters: [u64; COUNTER_COUNT],
}

impl View for PerCoreStatistics {
    type V = Seq<u64>;

    closed spec fn view(&self) -> Seq<u64> {
        self.counters@
    }
}

impl PerCoreStatistics {
    /// The parameters of the simulation.
    pub closed spec fn parameters(&self) -> Parameters {
        self.parameters
    }

    /// A core has [`COUNTER_COUNT`] counters.
    pub broadcast proof fn law_counter_count(&self)
        ensures
            #[trigger] self@.len() == COUNTER_COUNT,
    {
    }

    /// All counters are zero.
    pub fn new(parameters: Parameters) -> (statistics: PerCoreStatistics)
        ensures
            statistics.parameters() == parameters,
            statistics@ == Seq::new(COUNTER_COUNT as nat, |i: int| 0u64),
    {
        let statistics = PerCoreStatistics { parameters, counters: [0;COUNTER_COUNT] };
        assert(statistics@ =~= Seq::new(COUNTER_COUNT as nat, |i: int| 0u64));
        statistics
    }

    /// Counts one more event, if statistics are enabled.
    pub fn record(&mut self, event: EventType, is_os: bool)
        requires
            old(self).parameters().enable_statistics ==> count_of(old(self)@, event, is_os)
                < u64::MAX,
        ensures
            final(self).parameters() == old(self).parameters(),
            final(self)@ == if old(self).parameters().enable_statistics {
                recorded(old(self)@, event, is_os, 1)
            } else {
                old(self)@
            },
    {
        self.record_by(event, is_os, 1);
    }

    /// Counts `increment` more events, if statistics are enabled.
    pub fn record_by(&mut self, event: EventType, is_os: bool, increment: u64)
        requires
            old(self).parameters().enable_statistics ==> count_of(old(self)@, event, is_os)
                + increment <= u64::MAX,
        ensures
            final(self).parameters() == old(self).parameters(),
            final(self)@ == if old(self).parameters().enable_statistics {
                recorded(old(self)@, event, is_os, increment)
            } else {
                old(self)@
            },
    {
        if self.parameters.enable_statistics {
            let index: usize = event.index() * 2;
            if is_os {
                self.counters[index + 1] += increment;
            } else {
                self.counters[index] += increment;
            }
        }
    }

    /// Sets a count, if statistics are enabled.
    pub fn set(&mut self, event: EventType, is_os: bool, value: u64)
        ensures
            final(self).parameters() == old(self).parameters(),
            final(self)@ == if old(self).parameters().enable_statistics {
                old(self)@.update(slot(event, is_os), value)
            } else {
                old(self)@
            },
    {
        if self.parameters.enable_statistics {
            let index: usize = event.index() * 2;
            if is_os {
                self.counters[index + 1] = value;
            } else {
                self.counters[index] = value;
            }
        }
    }

    /// The count of an event in one mode.
    pub fn count(&self, event: EventType, is_os: bool) -> (count: u64)
        ensures
            count == count_of(self@, event, is_os),
    {
        let index: usize = event.index() * 2;
        if is_os {
            self.counters[index + 1]
        } else {
            self.counters[index]
        }
    }

    /// Whether user and kernel count of each event add up to a number that fits
    /// in a counter, so that they can be reported.
    pub fn has_fitting_totals(&self) -> (fits: bool)
        ensures
            fits == totals_fit(self@),
    {
        let events = EventType::iter();
        for i in 0..events.len()
            invariant
                events@ == EventType::all(),
                forall|j: int|
                    0 <= j < i ==> #[trigger] count_of(self@, EventType::all()[j], false)
                        + count_of(self@, EventType::all()[j], true) <= u64::MAX,
        {
            let u: u64 = self.count(events[i], false);
            let k: u64 = self.count(events[i], true);
            if k > u64::MAX - u {
                assert(events@[i as int] == EventType::all()[i as int]);
                assert(!totals_fit(self@));
                return false;
            }
        }
        assert forall|event: EventType|
            #[trigger] count_of(self@, event, false) + count_of(self@, event, true)
                <= u64::MAX by {
            law_positions_number_the_kinds(event, 0);
            assert(EventType::all()[event.position()] == event);
        }
        true
    }

    /// The line of a report for this core.
    pub fn get_line(&self, ts: u64, core_id: u32, trackers: &DirtyPageTrackers) -> (out: String)
        requires
            totals_fit(self@),
        ensures
            out@ == line(
                self.parameters(),
                self@,
                trackers.host@.period_count,
                ts,
                core_id as int,
            ),
    {
        let ghost all = EventType::all();
        let mut line = String::new();
        push_decimal(&mut line, ts);
        line.append(",");
        push_decimal(&mut line, core_id as u64);
        let ghost start = line@;
        proof {
            assert(start =~= decimal(ts as nat) + ","@ + decimal(core_id as nat));
            assert(all.take(0) =~= Seq::<EventType>::empty());
            assert(line@ =~= start + cells(self@, all.take(0)));
            law_positions_number_the_kinds(EventType::Instruction, 0);
        }
        for event in 0..EventType::COUNT
            invariant
                all == EventType::all(),
                all.len() == EventType::COUNT,
                totals_fit(self@),
                line@ == start + cells(self@, all.take(event as int)),
        {
            let u: u64 = self.counters[2 * event];
            let k: u64 = self.counters[2 * event + 1];
            let ghost before = line@;
            proof {
                law_positions_number_the_kinds(EventType::Instruction, event as int);
                assert(u == count_of(self@, all[event as int], false));
                assert(k == count_of(self@, all[event as int], true));
                assert(all.take(event + 1).drop_last() =~= all.take(event as int));
                assert(all.take(event + 1).last() == all[event as int]);
            }
            line.append(",");
            push_decimal(&mut line, u + k);
            line.append(",");
            push_decimal(&mut line, u);
            line.append(",");
            push_decimal(&mut line, k);
            assert(line@ =~= before + event_cells(self@, all[event as int]));
            assert(line@ =~= start + cells(self@, all.take(event + 1)));
        }
        assert(all.take(EventType::COUNT as int) =~= all);
        if self.parameters.enable_dirty_page_tracker {
            let dirty_count: usize = get_host_dirty_page_count(trackers);
            line.append(",");
            push_decimal(&mut line, dirty_count as u64);
        }
        assert(line@ =~= crate::statistics::line(
            self.parameters(),
            self@,
            trackers.host@.period_count,
            ts,
            core_id as int,
        ));
        line
    }
}

/// The counters of all cores.
pub struct Statistics {
    parameters: Parameters,
    per_core: Vec<PerCoreStatistics>,
}

impl View for Statistics {
    type V = Seq<Seq<u64>>;

    closed spec fn view(&self) -> Seq<Seq<u64>> {
        self.per_core@.map_values(|core: PerCoreStatistics| core@)
    }
}

impl Statistics {
    /// The parameters of the simulation.
    pub closed spec fn parameters(&self) -> Parameters {
        self.parameters
    }

    /// There are counters for each core, and all parts share the parameters.
    pub closed spec fn wf(&self) -> bool {
        &&& self.per_core@.len() == self.parameters.core_count
        &&& forall|i: int|
            0 <= i < self.per_core@.len() ==> (#[trigger] self.per_core@[i]).parameters()
                == self.parameters
    }

    /// `increment` more events of a core can be counted: statistics are disabled,
    /// or the core exists and its counter does not overflow.
    pub open spec fn accepts(
        &self,
        core_id: u32,
        event: EventType,
        is_os: bool,
        increment: u64,
    ) -> bool {
        self.parameters().enable_statistics ==> {
            &&& core_id < self.parameters().core_count
            &&& count_of(self@[core_id as int], event, is_os) + increment <= u64::MAX
        }
    }

    /// Well-formed statistics hold [`COUNTER_COUNT`] counters for each core.
    pub proof fn law_shape(&self)
        requires
            self.wf(),
        ensures
            self@.len() == self.parameters().core_count,
            forall|i: int| 0 <= i < self@.len() ==> (#[trigger] self@[i]).len() == COUNTER_COUNT,
    {
        broadcast use PerCoreStatistics::law_counter_count;

    }

    /// All counters of all cores are zero.
    pub fn new(parameters: Parameters) -> (statistics: Statistics)
        ensures
            statistics.wf(),
            statistics.parameters() == parameters,
            statistics@ == Seq::new(
                parameters.core_count as nat,
                |core: int| Seq::new(COUNTER_COUNT as nat, |i: int| 0u64),
            ),
    {
        let mut per_core: Vec<PerCoreStatistics> = Vec::new();
        for i in 0..parameters.core_count
            invariant
                per_core@.len() == i,
                forall|j: int|
                    0 <= j < i ==> {
                        &&& (#[trigger] per_core@[j]).parameters() == parameters
                        &&& per_core@[j]@ == Seq::new(COUNTER_COUNT as nat, |i: int| 0u64)
                    },
        {
            per_core.push(PerCoreStatistics::new(parameters));
        }
        let statistics = Statistics { parameters, per_core };
        assert(statistics@ =~= Seq::new(
            parameters.core_count as nat,
            |core: int| Seq::new(COUNTER_COUNT as nat, |i: int| 0u64),
        ));
        statistics
    }

    /// Counts one more event of a core, if statistics are enabled.
    pub fn record(&mut self, core_id: u32, event: EventType, is_os: bool)
        requires
            old(self).wf(),
            old(self).accepts(core_id, event, is_os, 1),
        ensures
            final(self).wf(),
            final(self).parameters() == old(self).parameters(),
            final(self)@ == after_record(
                old(self).parameters(),
                old(self)@,
                core_id as int,
                event,
                is_os,
                1,
            ),
    {
        if self.parameters.enable_statistics {
            self.per_core[core_id as usize].record(event, is_os);
        }
        assert(self@ =~= after_record(
            old(self).parameters(),
            old(self)@,
            core_id as int,
            event,
            is_os,
            1,
        ));
    }

    /// Counts `increment` more events of a core, if statistics are enabled.
    pub fn record_by(&mut self, core_id: u32, event: EventType, is_os: bool, increment: u64)
        requires
            old(self).wf(),
            old(self).accepts(core_id, event, is_os, increment),
        ensures
            final(self).wf(),
            final(self).parameters() == old(self).parameters(),
            final(self)@ == after_record(
                old(self).parameters(),
                old(self)@,
                core_id as int,
                event,
                is_os,
                increment,
            ),
    {
        if self.parameters.enable_statistics {
            self.per_core[core_id as usize].record_by(event, is_os, increment);
        }
        assert(self@ =~= after_record(
            old(self).parameters(),
            old(self)@,
            core_id as int,
            event,
            is_os,
            increment,
        ));
    }

    /// Sets a count of a core, if statistics are enabled.
    pub fn set(&mut self, core_id: u32, event: EventType, is_os: bool, value: u64)
        requires
            old(self).wf(),
            old(self).parameters().enable_statistics ==> core_id < old(
                self,
            ).parameters().core_count,
        ensures
            final(self).wf(),
            final(self).parameters() == old(self).parameters(),
            final(self)@ == after_set(
                old(self).parameters(),
                old(self)@,
                core_id as int,
                event,
                is_os,
                value,
            ),
    {
        if self.parameters.enable_statistics {
            self.per_core[core_id as usize].set(event, is_os, value);
        }
        assert(self@ =~= after_set(
            old(self).parameters(),
            old(self)@,
            core_id as int,
            event,
            is_os,
            value,
        ));
    }

    /// Whether [`Statistics::record_by`] can count `increment` more events.
    pub fn can_record_by(
        &self,
        core_id: u32,
        event: EventType,
        is_os: bool,
        increment: u64,
    ) -> (can: bool)
        requires
            self.wf(),
        ensures
            can == self.accepts(core_id, event, is_os, increment),
    {
        if !self.parameters.enable_statistics {
            return true;
        }
        if core_id >= self.parameters.core_count {
            return false;
        }
        increment <= u64::MAX - self.per_core[core_id as usize].count(event, is_os)
    }

    /// Whether a core exists and the counts of an event on it add up to a number
    /// that fits in a counter.
    pub fn has_fitting_total(&self, core_id: u32, event: EventType) -> (fits: bool)
        requires
            self.wf(),
        ensures
            fits == (core_id < self.parameters().core_count && count_of(
                self@[core_id as int],
                event,
                false,
            ) + count_of(self@[core_id as int], event, true) <= u64::MAX),
    {
        if core_id >= self.parameters.core_count {
            return false;
        }
        let core = &self.per_core[core_id as usize];
        core.count(event, true) <= u64::MAX - core.count(event, false)
    }

    /// Whether every core can be reported: user and kernel count of each event
    /// add up to a number that fits in a counter.
    pub fn has_fitting_totals(&self) -> (fits: bool)
        requires
            self.wf(),
        ensures
            fits == all_totals_fit(self@),
    {
        for i in 0..self.per_core.len()
            invariant
                forall|j: int| 0 <= j < i ==> totals_fit(#[trigger] self@[j]),
        {
            if !self.per_core[i].has_fitting_totals() {
                assert(!totals_fit(self@[i as int]));
                return false;
            }
        }
        true
    }

    /// The header of a report.
    pub fn get_header(parameters: &Parameters) -> (out: String)
        ensures
            out@ == header(*parameters),
    {
        let ghost columns = |event: EventType| event_columns(event);
        let events = EventType::iter();
        let mut headers: Vec<String> = Vec::new();
        for i in 0..events.len()
            invariant
                events@ == EventType::all(),
                headers@.len() == i,
                forall|j: int|
                    0 <= j < i ==> (#[trigger] headers@[j])@ == event_columns(events@[j]),
        {
            let event_name = events[i].to_string();
            let mut columns = String::new();
            columns.append(event_name.as_str());
            columns.append(",");
            columns.append(event_name.as_str());
            columns.append(":u,");
            columns.append(event_name.as_str());
            columns.append(":k");
            assert(columns@ =~= event_columns(events@[i as int]));
            headers.push(columns);
        }
        assert(texts(headers@) =~= EventType::all().map_values(columns));
        let mut out = "ts,core_id,".to_owned();
        out.append(join(&headers, ",").as_str());
        if parameters.enable_dirty_page_tracker {
            out.append(",DirtyPages");
        }
        assert(out@ =~= header(*parameters));
        out
    }

    /// The lines of a report, one for each core.
    pub fn get_line_for_all_cores(&self, ts: u64, trackers: &DirtyPageTrackers) -> (out: Vec<
        String,
    >)
        requires
            self.wf(),
            all_totals_fit(self@),
        ensures
            texts(out@) == lines(self.parameters(), self@, trackers.host@.period_count, ts),
    {
        let mut out: Vec<String> = Vec::new();
        for core_id in 0..self.parameters.core_count
            invariant
                self.wf(),
                all_totals_fit(self@),
                out@.len() == core_id,
                forall|j: int|
                    0 <= j < core_id ==> (#[trigger] out@[j])@ == line(
                        self.parameters(),
                        self@[j],
                        trackers.host@.period_count,
                        ts,
                        j,
                    ),
        {
            assert(self@[core_id as int] == self.per_core@[core_id as int]@);
            out.push(self.per_core[core_id as usize].get_line(ts, core_id, trackers));
        }
        assert(texts(out@) =~= lines(
            self.parameters(),
            self@,
            trackers.host@.period_count,
            ts,
        ));
        out
    }

    /// Counts one more event of a core in the statistics of the simulation.
    pub fn global_record(global: &mut Statistics, core_id: u32, event: EventType, is_os: bool)
        requires
            old(global).wf(),
            old(global).accepts(core_id, event, is_os, 1),
        ensures
            final(global).wf(),
            final(global).parameters() == old(global).parameters(),
            final(global)@ == after_record(
                old(global).parameters(),
                old(global)@,
                core_id as int,
                event,
                is_os,
                1,
            ),
    {
        global.record(core_id, event, is_os);
    }

    /// Counts `increment` more events of a core in the statistics of the
    /// simulation.
    pub fn global_record_by(
        global: &mut Statistics,
        core_id: u32,
        event: EventType,
        is_os: bool,
        increment: u64,
    )
        requires
            old(global).wf(),
            old(global).accepts(core_id, event, is_os, increment),
        ensures
            final(global).wf(),
            final(global).parameters() == old(global).parameters(),
            final(global)@ == after_record(
                old(global).parameters(),
                old(global)@,
                core_id as int,
                event,
                is_os,
                increment,
            ),
    {
        global.record_by(core_id, event, is_os, increment);
    }

    /// Sets a count of a core in the statistics of the simulation.
    pub fn global_set(
        global: &mut Statistics,
        core_id: u32,
        event: EventType,
        is_os: bool,
        value: u64,
    )
        requires
            old(global).wf(),
            old(global).parameters().enable_statistics ==> core_id < old(
                global,
            ).parameters().core_count,
        ensures
            final(global).wf(),
            final(global).parameters() == old(global).parameters(),
            final(global)@ == after_set(
                old(global).parameters(),
                old(global)@,
                core_id as int,
                event,
                is_os,
                value,
            ),
    {
        global.set(core_id, event, is_os, value);
    }

    /// The counts of an event on one core: total, user mode and kernel mode.
    pub fn global_query_record(global: &Statistics, core_id: u32, event: EventType) -> (counts: (
        u64,
        u64,
        u64,
    ))
        requires
            global.wf(),
            core_id < global.parameters().core_count,
            count_of(global@[core_id as int], event, false) + count_of(
                global@[core_id as int],
                event,
                true,
            ) <= u64::MAX,
        ensures
            counts.0 == counts.1 + counts.2,
            counts.1 == count_of(global@[core_id as int], event, false),
            counts.2 == count_of(global@[core_id as int], event, true),
    {
        let core = &global.per_core[core_id as usize];
        let u: u64 = core.count(event, false);
        let k: u64 = core.count(event, true);
        (u + k, u, k)
    }

    /// The sum of an event across all cores: total, user mode and kernel mode.
    pub fn global_query_record_all_cores(global: &Statistics, event: EventType) -> (sums: (
        u64,
        u64,
        u64,
    ))
        requires
            global.wf(),
            sum_of(global@, event, false) + sum_of(global@, event, true) <= u64::MAX,
        ensures
            sums.0 == sums.1 + sums.2,
            sums.1 == sum_of(global@, event, false),
            sums.2 == sum_of(global@, event, true),
    {
        let mut total: u64 = 0;
        let mut total_u: u64 = 0;
        let mut total_k: u64 = 0;
        for core_id in 0..global.parameters.core_count
            invariant
                global.wf(),
                sum_of(global@, event, false) + sum_of(global@, event, true) <= u64::MAX,
                total == total_u + total_k,
                total_u == sum_of(global@.take(core_id as int), event, false),
                total_k == sum_of(global@.take(core_id as int), event, true),
        {
            proof {
                assert(global@.take(core_id + 1).drop_last() =~= global@.take(core_id as int));
                lemma_sum_of_prefix(global@, core_id + 1, event, false);
                lemma_sum_of_prefix(global@, core_id + 1, event, true);
            }
            let (sum, u, k) = Statistics::global_query_record(global, core_id, event);
            total += sum;
            total_u += u;
            total_k += k;
        }
        assert(global@.take(global@.len() as int) =~= global@);
        (total, total_u, total_k)
    }

    /// Whether the sum of an event across all cores fits in a counter.
    pub fn has_fitting_sum(&self, event: EventType) -> (fits: bool)
        requires
            self.wf(),
        ensures
            fits == (sum_of(self@, event, false) + sum_of(self@, event, true) <= u64::MAX),
    {
        let mut left: u64 = u64::MAX;
        for core_id in 0..self.per_core.len()
            invariant
                self@.len() == self.per_core@.len(),
                left == u64::MAX - sum_of(self@.take(core_id as int), event, false) - sum_of(
                    self@.take(core_id as int),
                    event,
                    true,
                ),
        {
            proof {
                assert(self@.take(core_id + 1).drop_last() =~= self@.take(core_id as int));
                lemma_sum_of_prefix(self@, core_id + 1, event, false);
                lemma_sum_of_prefix(self@, core_id + 1, event, true);
            }
            let u: u64 = self.per_core[core_id].count(event, false);
            let k: u64 = self.per_core[core_id].count(event, true);
            if u > left || k > left - u {
                return false;
            }
            left = left - u - k;
        }
        assert(self@.take(self@.len() as int) =~= self@);
        true
    }

    /// The lines of a report on the statistics of the simulation.
    pub fn global_get_line_for_all_cores(
        global: &Statistics,
        ts: u64,
        trackers: &DirtyPageTrackers,
    ) -> (out: Vec<String>)
        requires
            global.wf(),
            all_totals_fit(global@),
        ensures
            texts(out@) == lines(global.parameters(), global@, trackers.host@.period_count, ts),
    {
        global.get_line_for_all_cores(ts, trackers)
    }

    /// A report on the statistics of the simulation at time zero, as one text:
    /// the header and the lines, with line breaks between them.
    pub fn global_one_line_statistics(global: &Statistics, trackers: &DirtyPageTrackers) -> (out:
        String)
        requires
            global.wf(),
            all_totals_fit(global@),
        ensures
            out@ == joined(
                seq![header(global.parameters())] + lines(
                    global.parameters(),
                    global@,
                    trackers.host@.period_count,
                    0,
                ),
                "\n"@,
            ),
    {
        let mut report: Vec<String> = Vec::new();
        report.push(Self::get_header(&global.parameters));
        let mut stats = Self::global_get_line_for_all_cores(global, 0, trackers);
        let ghost all = stats@;
        report.append(&mut stats);
        assert(texts(report@) =~= seq![header(global.parameters())] + texts(all));
        join(&report, "\n")
    }

    /// The contents of a report file: the header and the lines, each ended by a
    /// line break.
    pub fn csv_contents(global: &Statistics, ts: u64, trackers: &DirtyPageTrackers) -> (out: String)
        requires
            global.wf(),
            all_totals_fit(global@),
        ensures
            out@ == csv(
                global.parameters(),
                global@,
                trackers.host@.period_count,
                ts,
            ),
    {
        let mut out = Self::get_header(&global.parameters);
        out.append("\n");
        let stats = Self::global_get_line_for_all_cores(global, ts, trackers);
        out.append(terminate(&stats, "\n").as_str());
        out
    }
}

/// One recording of events on a core.
pub struct Recording {
    pub event: EventType,
    pub is_os: bool,
    pub increment: u64,
}

/// The counters of a core after the given recordings, in this order.
pub open spec fn recorded_all(counters: Seq<u64>, recordings: Seq<Recording>) -> Seq<u64>
    decreases recordings.len(),
{
    if recordings.len() == 0 {
        counters
    } else {
        let last = recordings.last();
        recorded(
            recorded_all(counters, recordings.drop_last()),
            last.event,
            last.is_os,
            last.increment,
        )
    }
}

/// The sum of the increments that the recordings make to one count.
pub open spec fn increments(recordings: Seq<Recording>, event: EventType, is_os: bool) -> nat
    decreases recordings.len(),
{
    if recordings.len() == 0 {
        0
    } else {
        increments(recordings.drop_last(), event, is_os) + if recordings.last().event == event
            && recordings.last().is_os == is_os {
            recordings.last().increment as nat
        } else {
            0
        }
    }
}

/// Each pair of an event and a mode has a counter of its own, and each counter
/// belongs to such a pair.
pub proof fn law_each_pair_has_its_counter(
    a: EventType,
    a_is_os: bool,
    b: EventType,
    b_is_os: bool,
    i: int,
)
    ensures
        0 <= slot(a, a_is_os) < COUNTER_COUNT,
        slot(a, a_is_os) == slot(b, b_is_os) <==> a == b && a_is_os == b_is_os,
        0 <= i < COUNTER_COUNT ==> slot(EventType::all()[i / 2], i % 2 == 1) == i,
{
    law_positions_number_the_kinds(a, i / 2);
    law_positions_number_the_kinds(b, i / 2);
}

/// A recording adds its increment to its own count and leaves every other count
/// of the core as it is.
pub proof fn law_recording_is_local(
    counters: Seq<u64>,
    event: EventType,
    is_os: bool,
    increment: u64,
    other: EventType,
    other_is_os: bool,
)
    requires
        counters.len() == COUNTER_COUNT,
        count_of(counters, event, is_os) + increment <= u64::MAX,
    ensures
        count_of(recorded(counters, event, is_os, increment), other, other_is_os) == if other
            == event && other_is_os == is_os {
            count_of(counters, event, is_os) + increment
        } else {
            count_of(counters, other, other_is_os) as int
        },
{
    law_each_pair_has_its_counter(event, is_os, other, other_is_os, 0);
}

/// The order of two recordings does not matter.
pub proof fn law_recordings_commute(counters: Seq<u64>, a: Recording, b: Recording)
    requires
        counters.len() == COUNTER_COUNT,
        count_of(counters, a.event, a.is_os) + a.increment <= u64::MAX,
        count_of(counters, b.event, b.is_os) + b.increment <= u64::MAX,
        a.event == b.event && a.is_os == b.is_os ==> count_of(counters, a.event, a.is_os)
            + a.increment + b.increment <= u64::MAX,
    ensures
        recorded(
            recorded(counters, a.event, a.is_os, a.increment),
            b.event,
            b.is_os,
            b.increment,
        ) == recorded(
            recorded(counters, b.event, b.is_os, b.increment),
            a.event,
            a.is_os,
            a.increment,
        ),
{
    law_each_pair_has_its_counter(a.event, a.is_os, b.event, b.is_os, 0);
    assert(recorded(
        recorded(counters, a.event, a.is_os, a.increment),
        b.event,
        b.is_os,
        b.increment,
    ) =~= recorded(
        recorded(counters, b.event, b.is_os, b.increment),
        a.event,
        a.is_os,
        a.increment,
    ));
}

/// After any number of recordings each count is what it was at first plus the
/// sum of the increments made to it.
pub proof fn law_counts_are_sums(
    counters: Seq<u64>,
    recordings: Seq<Recording>,
    event: EventType,
    is_os: bool,
)
    requires
        counters.len() == COUNTER_COUNT,
        forall|e: EventType, m: bool|
            count_of(counters, e, m) + #[trigger] increments(recordings, e, m) <= u64::MAX,
    ensures
        recorded_all(counters, recordings).len() == COUNTER_COUNT,
        count_of(recorded_all(counters, recordings), event, is_os) == count_of(
            counters,
            event,
            is_os,
        ) + increments(recordings, event, is_os),
    decreases recordings.len(),
{
    if recordings.len() > 0 {
        let rest = recordings.drop_last();
        let last = recordings.last();
        assert forall|e: EventType, m: bool|
            count_of(counters, e, m) + #[trigger] increments(rest, e, m) <= u64::MAX by {
            assert(count_of(counters, e, m) + increments(recordings, e, m) <= u64::MAX);
        }
        law_counts_are_sums(counters, rest, event, is_os);
        law_counts_are_sums(counters, rest, last.event, last.is_os);
        assert(count_of(counters, last.event, last.is_os) + increments(
            recordings,
            last.event,
            last.is_os,
        ) <= u64::MAX);
        law_recording_is_local(
            recorded_all(counters, rest),
            last.event,
            last.is_os,
            last.increment,
            event,
            is_os,
        );
    }
}

/// Changing the counters of one core changes the sum by the difference there.
proof fn lemma_sum_of_update(
    cores: Seq<Seq<u64>>,
    core_id: int,
    counters: Seq<u64>,
    event: EventType,
    is_os: bool,
)
    requires
        0 <= core_id < cores.len(),
    ensures
        sum_of(cores.update(core_id, counters), event, is_os) == sum_of(cores, event, is_os)
            - count_of(cores[core_id], event, is_os) + count_of(counters, event, is_os),
    decreases cores.len(),
{
    if core_id == cores.len() - 1 {
        assert(cores.update(core_id, counters).drop_last() =~= cores.drop_last());
    } else {
        assert(cores.update(core_id, counters).drop_last() =~= cores.drop_last().update(
            core_id,
            counters,
        ));
        lemma_sum_of_update(cores.drop_last(), core_id, counters, event, is_os);
    }
}

/// A recording on a core raises the sum of its event across all cores by its
/// increment, and leaves every other sum as it is.
pub proof fn law_recording_raises_the_sum(
    parameters: Parameters,
    cores: Seq<Seq<u64>>,
    core_id: int,
    event: EventType,
    is_os: bool,
    increment: u64,
    other: EventType,
    other_is_os: bool,
)
    requires
        parameters.enable_statistics,
        0 <= core_id < cores.len(),
        cores[core_id].len() == COUNTER_COUNT,
        count_of(cores[core_id], event, is_os) + increment <= u64::MAX,
    ensures
        sum_of(
            after_record(parameters, cores, core_id, event, is_os, increment),
            other,
            other_is_os,
        ) == sum_of(cores, other, other_is_os) + if other == event && other_is_os == is_os {
            increment as nat
        } else {
            0
        },
{
    law_recording_is_local(cores[core_id], event, is_os, increment, other, other_is_os);
    lemma_sum_of_update(
        cores,
        core_id,
        recorded(cores[core_id], event, is_os, increment),
        other,
        other_is_os,
    );
}

/// What was recorded reads back: the count of the event on its core is raised by
/// the increment, and no other count of any core changes.
pub proof fn law_record_reads_back(
    parameters: Parameters,
    cores: Seq<Seq<u64>>,
    core_id: int,
    event: EventType,
    is_os: bool,
    increment: u64,
    other_core: int,
    other: EventType,
    other_is_os: bool,
)
    requires
        parameters.enable_statistics,
        0 <= core_id < cores.len(),
        0 <= other_core < cores.len(),
        cores[core_id].len() == COUNTER_COUNT,
        count_of(cores[core_id], event, is_os) + increment <= u64::MAX,
    ensures
        count_of(
            after_record(parameters, cores, core_id, event, is_os, increment)[other_core],
            other,
            other_is_os,
        ) == if other_core == core_id && other == event && other_is_os == is_os {
            count_of(cores[core_id], event, is_os) + increment
        } else {
            count_of(cores[other_core], other, other_is_os) as int
        },
{
    law_recording_is_local(cores[core_id], event, is_os, increment, other, other_is_os);
}

/// A count that was set reads back, and no other count of any core changes.
pub proof fn law_set_reads_back(
    parameters: Parameters,
    cores: Seq<Seq<u64>>,
    core_id: int,
    event: EventType,
    is_os: bool,
    value: u64,
    other_core: int,
    other: EventType,
    other_is_os: bool,
)
    requires
        parameters.enable_statistics,
        0 <= core_id < cores.len(),
        0 <= other_core < cores.len(),
        cores[core_id].len() == COUNTER_COUNT,
    ensures
        count_of(
            after_set(parameters, cores, core_id, event, is_os, value)[other_core],
            other,
            other_is_os,
        ) == if other_core == core_id && other == event && other_is_os == is_os {
            value
        } else {
            count_of(cores[other_core], other, other_is_os)
        },
{
    law_each_pair_has_its_counter(event, is_os, other, other_is_os, 0);
}

/// While statistics are disabled, nothing is counted and nothing is set.
pub proof fn law_disabled_statistics_stay(
    parameters: Parameters,
    cores: Seq<Seq<u64>>,
    core_id: int,
    event: EventType,
    is_os: bool,
    number: u64,
)
    requires
        !parameters.enable_statistics,
    ensures
        after_record(parameters, cores, core_id, event, is_os, number) == cores,
        after_set(parameters, cores, core_id, event, is_os, number) == cores,
{
}

/// The number of columns of a report: time stamp, core, three for each event, and
/// the dirty pages if they are tracked.
pub open spec fn column_count(parameters: Parameters) -> nat {
    (3 * EventType::COUNT + 2) as nat + if parameters.enable_dirty_page_tracker {
        1nat
    } else {
        0nat
    }
}

/// The name of a column: total, user mode and kernel mode for each event in turn.
pub open spec fn column_name(column: int) -> Seq<char> {
    column_name_among(EventType::all(), column)
}

/// The name of a column of a report on the given events.
pub open spec fn column_name_among(events: Seq<EventType>, column: int) -> Seq<char> {
    let name = events[(column - 2) / 3].name();
    if column == 0 {
        "ts"@
    } else if column == 1 {
        "core_id"@
    } else if column >= 3 * EventType::COUNT + 2 {
        "DirtyPages"@
    } else if column % 3 == 2 {
        name
    } else if column % 3 == 0 {
        name + ":u"@
    } else {
        name + ":k"@
    }
}

/// The number that the column of that name holds in the line of a core.
pub open spec fn column_value(
    counters: Seq<u64>,
    dirty_count: nat,
    ts: u64,
    core_id: int,
    column: int,
) -> nat {
    column_value_among(EventType::all(), counters, dirty_count, ts, core_id, column)
}

/// The number in a column of a report on the given events.
pub open spec fn column_value_among(
    events: Seq<EventType>,
    counters: Seq<u64>,
    dirty_count: nat,
    ts: u64,
    core_id: int,
    column: int,
) -> nat {
    let event = events[(column - 2) / 3];
    if column == 0 {
        ts as nat
    } else if column == 1 {
        core_id as nat
    } else if column >= 3 * EventType::COUNT + 2 {
        dirty_count
    } else if column % 3 == 2 {
        count_of(counters, event, false) as nat + count_of(counters, event, true) as nat
    } else if column % 3 == 0 {
        count_of(counters, event, false) as nat
    } else {
        count_of(counters, event, true) as nat
    }
}

/// The cells of the header.
pub open spec fn header_row(parameters: Parameters) -> Seq<Seq<char>> {
    Seq::new(column_count(parameters), |column: int| column_name(column))
}

/// The cells of the line of a core.
pub open spec fn line_row(
    parameters: Parameters,
    counters: Seq<u64>,
    dirty_count: nat,
    ts: u64,
    core_id: int,
) -> Seq<Seq<char>> {
    Seq::new(
        column_count(parameters),
        |column: int| decimal(column_value(counters, dirty_count, ts, core_id, column)),
    )
}

/// The columns of an event are the three cells that name it, joined.
proof fn lemma_event_columns(parameters: Parameters, n: int)
    requires
        1 <= n <= EventType::COUNT,
    ensures
        ({
            let row = header_row(parameters);
            ","@ + event_columns(EventType::all()[n - 1]) == ","@ + row[3 * n - 1] + ","@ + row[3
                * n] + ","@ + row[3 * n + 1]
        }),
{
    let row = header_row(parameters);
    let event = EventType::all()[n - 1];
    assert(row[3 * n - 1] == event.name());
    assert(row[3 * n] == event.name() + ":u"@);
    assert(row[3 * n + 1] == event.name() + ":k"@);
    lemma_three_names(event.name());
}

proof fn lemma_three_names(name: Seq<char>)
    ensures
        ","@ + (name + ","@ + name + ":u,"@ + name + ":k"@) == ","@ + name + ","@ + (name + ":u"@)
            + ","@ + (name + ":k"@),
{
    assert(":u,"@ =~= ":u"@ + ","@) by {
        reveal_strlit(":u,");
        reveal_strlit(":u");
        reveal_strlit(",");
    }
    assert(","@ + (name + ","@ + name + ":u,"@ + name + ":k"@) =~= ","@ + name + ","@ + (name
        + ":u"@) + ","@ + (name + ":k"@));
}

/// The first two cells of the header.
proof fn lemma_header_start(parameters: Parameters)
    ensures
        joined(header_row(parameters).take(2), ","@) == "ts,core_id"@,
        "ts,core_id,"@ == "ts,core_id"@ + ","@,
{
    let row = header_row(parameters);
    lemma_joined_step(row, ","@, 1);
    assert(joined(row.take(1), ","@) == row[0]);
    reveal_strlit("ts,core_id,");
    reveal_strlit("ts,core_id");
    reveal_strlit("ts");
    reveal_strlit("core_id");
    reveal_strlit(",");
    assert("ts,core_id,"@ =~= "ts,core_id"@ + ","@);
    assert("ts,core_id"@ =~= "ts"@ + ","@ + "core_id"@);
}

/// The header up to the first `n` events consists of their columns.
#[verifier::rlimit(30)]
proof fn lemma_header_prefix(parameters: Parameters, columns: Seq<Seq<char>>, n: int)
    requires
        columns.len() == EventType::COUNT,
        forall|i: int|
            0 <= i < EventType::COUNT ==> #[trigger] columns[i] == event_columns(
                EventType::all()[i],
            ),
        1 <= n <= EventType::COUNT,
    ensures
        "ts,core_id,"@ + joined(columns.take(n), ","@) == joined(
            header_row(parameters).take(3 * n + 2),
            ","@,
        ),
    decreases n,
{
    let row = header_row(parameters);
    let start = "ts,core_id,"@;
    let last = columns[n - 1];
    let before = if n == 1 {
        "ts,core_id"@
    } else {
        start + joined(columns.take(n - 1), ","@)
    };
    lemma_header_start(parameters);
    assert(start + joined(columns.take(n), ","@) == before + (","@ + last)) by {
        if n == 1 {
            assert(joined(columns.take(1), ","@) == last);
            assert(start + last =~= before + (","@ + last));
        } else {
            lemma_joined_step(columns, ","@, n - 1);
            assert(start + (joined(columns.take(n - 1), ","@) + ","@ + last) =~= before + (","@
                + last));
        }
    }
    if n > 1 {
        lemma_header_prefix(parameters, columns, n - 1);
    }
    assert(joined(row.take(3 * n - 1), ","@) == before);
    lemma_joined_three(row, ","@, 3 * n - 1, before);
    lemma_event_columns(parameters, n);
}

/// The header is the row of its cells.
proof fn lemma_header_row(parameters: Parameters)
    ensures
        header(parameters) == joined(header_row(parameters), ","@),
{
    let columns = EventType::all().map_values(|event: EventType| event_columns(event));
    let row = header_row(parameters);
    let n = EventType::COUNT as int;
    law_positions_number_the_kinds(EventType::Instruction, 0);
    assert(columns.len() == EventType::COUNT);
    lemma_header_prefix(parameters, columns, n);
    assert(columns.take(n) =~= columns);
    if parameters.enable_dirty_page_tracker {
        lemma_joined_step(row, ","@, 3 * n + 2);
        assert(row.take(3 * n + 3) =~= row);
        assert(",DirtyPages"@ =~= ","@ + "DirtyPages"@) by {
            reveal_strlit(",DirtyPages");
            reveal_strlit("DirtyPages");
            reveal_strlit(",");
        }
        assert(header(parameters) =~= joined(row.take(3 * n + 2), ","@) + ","@ + "DirtyPages"@);
    } else {
        assert(row.take(3 * n + 2) =~= row);
        assert(header(parameters) =~= joined(row, ","@));
    }
}

/// The cells of the line of a core in a report on the given events.
spec fn line_row_among(
    events: Seq<EventType>,
    parameters: Parameters,
    counters: Seq<u64>,
    dirty_count: nat,
    ts: u64,
    core_id: int,
) -> Seq<Seq<char>> {
    Seq::new(
        column_count(parameters),
        |column: int|
            decimal(column_value_among(events, counters, dirty_count, ts, core_id, column)),
    )
}

/// A line up to the first `n` events consists of their cells.
proof fn lemma_line_prefix(
    parameters: Parameters,
    counters: Seq<u64>,
    dirty_count: nat,
    ts: u64,
    core_id: int,
    events: Seq<EventType>,
    n: int,
)
    requires
        events.len() == EventType::COUNT,
        0 <= n <= EventType::COUNT,
    ensures
        decimal(ts as nat) + ","@ + decimal(core_id as nat) + cells(counters, events.take(n))
            == joined(
            line_row_among(events, parameters, counters, dirty_count, ts, core_id).take(3 * n + 2),
            ","@,
        ),
    decreases n,
{
    let row = line_row_among(events, parameters, counters, dirty_count, ts, core_id);
    let start = decimal(ts as nat) + ","@ + decimal(core_id as nat);
    if n == 0 {
        lemma_joined_step(row, ","@, 1);
        assert(joined(row.take(1), ","@) == row[0]);
        assert(start + cells(counters, events.take(0)) =~= start);
    } else {
        let event = events[n - 1];
        let before = start + cells(counters, events.take(n - 1));
        lemma_line_prefix(parameters, counters, dirty_count, ts, core_id, events, n - 1);
        assert(events.take(n).drop_last() =~= events.take(n - 1));
        assert(start + (cells(counters, events.take(n - 1)) + event_cells(counters, event))
            =~= before + event_cells(counters, event));
        lemma_joined_three(row, ","@, 3 * n - 1, before);
        let u = count_of(counters, event, false) as nat;
        let k = count_of(counters, event, true) as nat;
        assert(row[3 * n - 1] == decimal(u + k));
        assert(row[3 * n] == decimal(u));
        assert(row[3 * n + 1] == decimal(k));
    }
}

/// A line is the row of its cells.
proof fn lemma_line_row(
    parameters: Parameters,
    counters: Seq<u64>,
    dirty_count: nat,
    ts: u64,
    core_id: int,
)
    ensures
        line(parameters, counters, dirty_count, ts, core_id) == joined(
            line_row(parameters, counters, dirty_count, ts, core_id),
            ","@,
        ),
{
    let row = line_row(parameters, counters, dirty_count, ts, core_id);
    let n = EventType::COUNT as int;
    law_positions_number_the_kinds(EventType::Instruction, 0);
    lemma_line_prefix(
        parameters,
        counters,
        dirty_count,
        ts,
        core_id,
        EventType::all(),
        n,
    );
    assert(EventType::all().take(n) =~= EventType::all());
    assert(row =~= line_row_among(
        EventType::all(),
        parameters,
        counters,
        dirty_count,
        ts,
        core_id,
    ));
    if parameters.enable_dirty_page_tracker {
        lemma_joined_step(row, ","@, 3 * n + 2);
        assert(row.take(3 * n + 3) =~= row);
        assert(line(parameters, counters, dirty_count, ts, core_id) =~= joined(
            row.take(3 * n + 2),
            ","@,
        ) + ","@ + decimal(dirty_count));
    } else {
        assert(row.take(3 * n + 2) =~= row);
        assert(line(parameters, counters, dirty_count, ts, core_id) =~= joined(row, ","@));
    }
}

/// The name of a column is one cell: it holds no comma and no line break.
proof fn lemma_column_name(column: int, c: char)
    requires
        0 <= column <= 3 * EventType::COUNT + 2,
        c == ',' || c == '\n',
    ensures
        occurrences(column_name(column), c) == 0,
{
    reveal_strlit("ts");
    reveal_strlit("core_id");
    reveal_strlit("DirtyPages");
    reveal_strlit(":u");
    reveal_strlit(":k");
    law_names_are_letters(EventType::all()[(column - 2) / 3]);
    lemma_absent(column_name(column), c);
}

/// A decimal number is one cell.
proof fn lemma_decimal_is_one_cell(n: nat, c: char)
    requires
        c == ',' || c == '\n',
    ensures
        occurrences(decimal(n), c) == 0,
{
    law_decimal_is_digits(n);
    lemma_absent(decimal(n), c);
}

/// Header and lines are rows of the same columns: the header gives the name of
/// each column, and a line gives its value, in decimal digits, at the same place.
/// No cell holds a comma, so that a row has just one list of cells
/// ([`crate::text::law_row_determines_its_cells`]).
pub proof fn law_lines_match_the_header(
    parameters: Parameters,
    counters: Seq<u64>,
    dirty_count: nat,
    ts: u64,
    core_id: int,
    column: int,
)
    requires
        0 <= column < column_count(parameters),
    ensures
        ({
            let names = header_row(parameters);
            let cells = line_row(parameters, counters, dirty_count, ts, core_id);
            &&& header(parameters) == joined(names, ","@)
            &&& line(parameters, counters, dirty_count, ts, core_id) == joined(cells, ","@)
            &&& names.len() == cells.len() == column_count(parameters)
            &&& names[column] == column_name(column)
            &&& value(cells[column]) == column_value(counters, dirty_count, ts, core_id, column)
            &&& forall|i: int|
                0 <= i < cells[column].len() ==> '0' <= #[trigger] cells[column][i] <= '9'
            &&& occurrences(names[column], ',') == 0
            &&& occurrences(cells[column], ',') == 0
            &&& occurrences(header(parameters), ',') == column_count(parameters) - 1
            &&& occurrences(line(parameters, counters, dirty_count, ts, core_id), ',')
                == column_count(parameters) - 1
        }),
{
    let n = column_value(counters, dirty_count, ts, core_id, column);
    lemma_header_row(parameters);
    lemma_line_row(parameters, counters, dirty_count, ts, core_id);
    law_decimal_reads_back(n);
    law_decimal_is_digits(n);
    lemma_column_name(column, ',');
    lemma_decimal_is_one_cell(n, ',');
    lemma_header_occurrences(parameters, ',');
    lemma_line_occurrences(parameters, counters, dirty_count, ts, core_id, ',');
}

/// Commas and line breaks between the cells of a row.
proof fn lemma_row_occurrences(row: Seq<Seq<char>>, c: char)
    requires
        row.len() > 0,
        c == ',' || c == '\n',
        forall|i: int| 0 <= i < row.len() ==> occurrences(#[trigger] row[i], c) == 0,
    ensures
        occurrences(joined(row, ","@), c) == if c == ',' {
            row.len() - 1
        } else {
            0
        },
{
    let n = row.len() as int;
    let o = occurrences(","@, c) as int;
    assert(o == if c == ',' {
        1int
    } else {
        0int
    }) by {
        reveal_strlit(",");
        reveal_with_fuel(occurrences, 2);
        assert(","@.drop_last() =~= Seq::<char>::empty());
    }
    lemma_occurrences_joined(row, ","@, c, 0);
    assert(n * 0 + (n - 1) * o == if o == 1 {
        n - 1
    } else {
        0
    }) by (nonlinear_arith)
        requires
            o == 0 || o == 1,
    ;
}

proof fn lemma_header_occurrences(parameters: Parameters, c: char)
    requires
        c == ',' || c == '\n',
    ensures
        occurrences(header(parameters), c) == if c == ',' {
            column_count(parameters) - 1
        } else {
            0
        },
{
    let row = header_row(parameters);
    assert forall|i: int| 0 <= i < row.len() implies occurrences(#[trigger] row[i], c) == 0 by {
        lemma_column_name(i, c);
    }
    lemma_header_row(parameters);
    lemma_row_occurrences(row, c);
}

proof fn lemma_line_occurrences(
    parameters: Parameters,
    counters: Seq<u64>,
    dirty_count: nat,
    ts: u64,
    core_id: int,
    c: char,
)
    requires
        c == ',' || c == '\n',
    ensures
        occurrences(line(parameters, counters, dirty_count, ts, core_id), c) == if c == ',' {
            column_count(parameters) - 1
        } else {
            0
        },
{
    let row = line_row(parameters, counters, dirty_count, ts, core_id);
    assert forall|i: int| 0 <= i < row.len() implies occurrences(#[trigger] row[i], c) == 0 by {
        lemma_decimal_is_one_cell(column_value(counters, dirty_count, ts, core_id, i), c);
    }
    lemma_line_row(parameters, counters, dirty_count, ts, core_id);
    lemma_row_occurrences(row, c);
}

/// A report has one row for the header and one for each core: a line break
/// stands between each two rows of a report in one text, and after each row of
/// a report file, and nowhere else.
pub proof fn law_one_row_for_each_core(
    parameters: Parameters,
    cores: Seq<Seq<u64>>,
    dirty_count: nat,
    ts: u64,
)
    ensures
        occurrences(
            joined(
                seq![header(parameters)] + lines(parameters, cores, dirty_count, ts),
                "\n"@,
            ),
            '\n',
        ) == cores.len(),
        occurrences(csv(parameters, cores, dirty_count, ts), '\n') == cores.len() + 1,
{
    let rows = lines(parameters, cores, dirty_count, ts);
    let all = seq![header(parameters)] + rows;
    lemma_header_occurrences(parameters, '\n');
    assert forall|i: int|
        0 <= i < rows.len() implies occurrences(#[trigger] rows[i], '\n') == 0 by {
        lemma_line_occurrences(parameters, cores[i], dirty_count, ts, i, '\n');
    }
    assert forall|i: int| 0 <= i < all.len() implies occurrences(#[trigger] all[i], '\n') == 0 by {
        if i > 0 {
            assert(all[i] == rows[i - 1]);
        }
    }
    assert(occurrences("\n"@, '\n') == 1) by {
        reveal_strlit("\n");
        reveal_with_fuel(occurrences, 2);
        assert("\n"@.drop_last() =~= Seq::<char>::empty());
    }
    lemma_occurrences_joined(all, "\n"@, '\n', 0);
    lemma_occurrences_terminated(rows, "\n"@, '\n', 0);
    lemma_occurrences_add(header(parameters), "\n"@, '\n');
    lemma_occurrences_add(header(parameters) + "\n"@, terminated(rows, "\n"@), '\n');
}

/// A row of a report is one row: neither the header nor a line holds a line break.
pub proof fn law_rows_hold_no_line_break(
    parameters: Parameters,
    counters: Seq<u64>,
    dirty_count: nat,
    ts: u64,
    core_id: int,
)
    ensures
        occurrences(header(parameters), '\n') == 0,
        occurrences(line(parameters, counters, dirty_count, ts, core_id), '\n') == 0,
{
    lemma_header_occurrences(parameters, '\n');
    lemma_line_occurrences(parameters, counters, dirty_count, ts, core_id, '\n');
}

/// A report file holds the report in one text of the same time, and a line break
/// after it.
pub proof fn law_report_file_is_the_report(
    parameters: Parameters,
    cores: Seq<Seq<u64>>,
    dirty_count: nat,
    ts: u64,
)
    ensures
        csv(parameters, cores, dirty_count, ts) == joined(
            seq![header(parameters)] + lines(parameters, cores, dirty_count, ts),
            "\n"@,
        ) + "\n"@,
{
    lemma_joined_and_terminated(
        header(parameters),
        lines(parameters, cores, dirty_count, ts),
        "\n"@,
    );
}

/// What a name of letters alone tells of the columns of an event: with a mode it
/// is no name of letters, and different names and modes stay different.
proof fn lemma_names_with_modes(a: Seq<char>, b: Seq<char>)
    requires
        forall|i: int| 0 <= i < a.len() ==> #[trigger] a[i] != ':',
        forall|i: int| 0 <= i < b.len() ==> #[trigger] b[i] != ':',
    ensures
        a + ":u"@ != b,
        a + ":k"@ != b,
        a + ":u"@ != b + ":k"@,
        a + ":u"@ == b + ":u"@ ==> a == b,
        a + ":k"@ == b + ":k"@ ==> a == b,
{
    reveal_strlit(":u");
    reveal_strlit(":k");
    let au = a + ":u"@;
    let ak = a + ":k"@;
    let bu = b + ":u"@;
    let bk = b + ":k"@;
    let n = a.len() as int;
    assert(":u"@.len() == 2 && ":k"@.len() == 2);
    assert(au.len() == n + 2 && ak.len() == n + 2);
    assert(bu.len() == b.len() + 2 && bk.len() == b.len() + 2);
    assert(au[n] == ':' && ak[n] == ':');
    assert(au[n + 1] == 'u' && bk[b.len() as int + 1] == 'k');
    if au == b {
        assert(b[n] == ':');
    }
    if ak == b {
        assert(b[n] == ':');
    }
    if au == bk {
        assert(b.len() == n);
        assert(bk[n + 1] == 'k');
    }
    if au == bu {
        assert(b.len() == n);
        assert(a =~= au.take(n));
        assert(b =~= bu.take(n));
    }
    if ak == bk {
        assert(b.len() == n);
        assert(a =~= ak.take(n));
        assert(b =~= bk.take(n));
    }
}

/// The columns of a report have different names.
pub proof fn law_column_names_differ(parameters: Parameters, a: int, b: int)
    requires
        0 <= a < b < column_count(parameters),
    ensures
        column_name(a) != column_name(b),
{
    let x = EventType::all()[(a - 2) / 3];
    let y = EventType::all()[(b - 2) / 3];
    reveal_strlit("ts");
    reveal_strlit("core_id");
    reveal_strlit("DirtyPages");
    assert("ts"@.len() == 2 && "core_id"@.len() == 7 && "DirtyPages"@.len() == 10);
    law_names_are_letters(x);
    law_names_are_letters(y);
    law_names_are_no_other_column(x);
    law_names_are_no_other_column(y);
    lemma_names_with_modes(x.name(), y.name());
    lemma_names_with_modes(y.name(), x.name());
    lemma_names_with_modes(x.name(), "DirtyPages"@);
    lemma_names_with_modes(y.name(), "ts"@);
    lemma_names_with_modes(y.name(), "core_id"@);
    let last = 3 * EventType::COUNT + 2;
    if a >= 2 && b < last {
        law_positions_number_the_kinds(x, (a - 2) / 3);
        law_positions_number_the_kinds(y, (b - 2) / 3);
        if x != y {
            law_names_are_different(x, y);
        } else {
            assert((a - 2) / 3 == (b - 2) / 3);
            assert(a % 3 != b % 3);
        }
    }
}

/// A row gives the counts of one core: its cells are numbers, first the time stamp
/// and the core, for each event in turn the total, the user count and the kernel
/// count, and the dirty pages at the end if they are tracked.
pub open spec fn is_row_of(
    row: Seq<char>,
    parameters: Parameters,
    counters: Seq<u64>,
    dirty_count: nat,
    ts: u64,
    core_id: int,
) -> bool {
    let cells = split(row, ',');
    &&& cells.len() == if parameters.enable_dirty_page_tracker {
        123int
    } else {
        122int
    }
    &&& forall|i: int| 0 <= i < cells.len() ==> is_number(#[trigger] cells[i])
    &&& value(cells[0]) == ts
    &&& value(cells[1]) == core_id
    &&& forall|event: EventType|
        {
            let first = 3 * #[trigger] event.position() + 2;
            &&& value(cells[first]) == count_of(counters, event, false) + count_of(
                counters,
                event,
                true,
            )
            &&& value(cells[first + 1]) == count_of(counters, event, false)
            &&& value(cells[first + 2]) == count_of(counters, event, true)
        }
    &&& parameters.enable_dirty_page_tracker ==> value(cells[122]) == dirty_count
}

/// A row names the columns in the order in which [`is_row_of`] has their numbers.
pub open spec fn is_row_of_names(row: Seq<char>, parameters: Parameters) -> bool {
    let names = split(row, ',');
    &&& names.len() == if parameters.enable_dirty_page_tracker {
        123int
    } else {
        122int
    }
    &&& names[0] == "ts"@
    &&& names[1] == "core_id"@
    &&& forall|event: EventType|
        {
            let first = 3 * #[trigger] event.position() + 2;
            &&& names[first] == event.name()
            &&& names[first + 1] == event.name() + ":u"@
            &&& names[first + 2] == event.name() + ":k"@
        }
    &&& parameters.enable_dirty_page_tracker ==> names[122] == "DirtyPages"@
}

/// The cells of a line, as they are found between its commas.
proof fn lemma_line_cells(
    parameters: Parameters,
    counters: Seq<u64>,
    dirty_count: nat,
    ts: u64,
    core_id: int,
)
    ensures
        split(line(parameters, counters, dirty_count, ts, core_id), ',') == line_row(
            parameters,
            counters,
            dirty_count,
            ts,
            core_id,
        ),
{
    let row = line_row(parameters, counters, dirty_count, ts, core_id);
    lemma_line_row(parameters, counters, dirty_count, ts, core_id);
    assert(","@ =~= seq![',']) by {
        reveal_strlit(",");
    }
    assert forall|i: int| 0 <= i < row.len() implies occurrences(#[trigger] row[i], ',') == 0 by {
        lemma_decimal_is_one_cell(column_value(counters, dirty_count, ts, core_id, i), ',');
    }
    law_split_of_joined(row, ',');
}

/// What the cells of a line hold, on events that stand at their positions.
proof fn lemma_line_values(
    events: Seq<EventType>,
    parameters: Parameters,
    counters: Seq<u64>,
    dirty_count: nat,
    ts: u64,
    core_id: int,
    event: EventType,
)
    requires
        core_id >= 0,
        0 <= event.position() < EventType::COUNT,
        events[event.position()] == event,
    ensures
        ({
            let row = line_row_among(events, parameters, counters, dirty_count, ts, core_id);
            let first = 3 * event.position() + 2;
            &&& forall|i: int| 0 <= i < row.len() ==> is_number(#[trigger] row[i])
            &&& value(row[0]) == ts
            &&& value(row[1]) == core_id
            &&& value(row[first]) == count_of(counters, event, false) + count_of(
                counters,
                event,
                true,
            )
            &&& value(row[first + 1]) == count_of(counters, event, false)
            &&& value(row[first + 2]) == count_of(counters, event, true)
            &&& parameters.enable_dirty_page_tracker ==> value(row[122]) == dirty_count
        }),
{
    let row = line_row_among(events, parameters, counters, dirty_count, ts, core_id);
    let first = 3 * event.position() + 2;
    let u = count_of(counters, event, false) as nat;
    let k = count_of(counters, event, true) as nat;
    assert forall|i: int| 0 <= i < row.len() implies is_number(#[trigger] row[i]) by {
        law_numbers_and_their_notation(
            column_value_among(events, counters, dirty_count, ts, core_id, i),
            row[i],
        );
    }
    law_numbers_and_their_notation(ts as nat, row[0]);
    law_numbers_and_their_notation(core_id as nat, row[1]);
    law_numbers_and_their_notation(dirty_count, row[0]);
    law_numbers_and_their_notation(u + k, row[first]);
    law_numbers_and_their_notation(u, row[first + 1]);
    law_numbers_and_their_notation(k, row[first + 2]);
    assert(row[0] == decimal(ts as nat));
    assert(row[1] == decimal(core_id as nat));
    assert(row[first] == decimal(u + k));
    assert(row[first + 1] == decimal(u));
    assert(row[first + 2] == decimal(k));
    if parameters.enable_dirty_page_tracker {
        assert(row[122] == decimal(dirty_count));
    }
}

/// The line of a core gives the counts of this core.
pub proof fn law_line_gives_the_counts(
    parameters: Parameters,
    counters: Seq<u64>,
    dirty_count: nat,
    ts: u64,
    core_id: int,
)
    requires
        core_id >= 0,
    ensures
        is_row_of(
            line(parameters, counters, dirty_count, ts, core_id),
            parameters,
            counters,
            dirty_count,
            ts,
            core_id,
        ),
{
    let all = EventType::all();
    let row = line_row_among(all, parameters, counters, dirty_count, ts, core_id);
    lemma_line_cells(parameters, counters, dirty_count, ts, core_id);
    assert(line_row(parameters, counters, dirty_count, ts, core_id) =~= row);
    law_positions_number_the_kinds(EventType::Instruction, 0);
    lemma_line_values(
        all,
        parameters,
        counters,
        dirty_count,
        ts,
        core_id,
        EventType::Instruction,
    );
    assert forall|event: EventType|
        {
            let first = 3 * #[trigger] event.position() + 2;
            &&& value(row[first]) == count_of(counters, event, false) + count_of(
                counters,
                event,
                true,
            )
            &&& value(row[first + 1]) == count_of(counters, event, false)
            &&& value(row[first + 2]) == count_of(counters, event, true)
        } by {
        law_positions_number_the_kinds(event, 0);
        lemma_line_values(all, parameters, counters, dirty_count, ts, core_id, event);
    }
}

/// The names of the three columns of an event, on events that stand at their
/// positions.
proof fn lemma_event_names(events: Seq<EventType>, event: EventType)
    requires
        0 <= event.position() < EventType::COUNT,
        events[event.position()] == event,
    ensures
        column_name_among(events, 3 * event.position() + 2) == event.name(),
        column_name_among(events, 3 * event.position() + 3) == event.name() + ":u"@,
        column_name_among(events, 3 * event.position() + 4) == event.name() + ":k"@,
{
}

/// The header names the columns.
pub proof fn law_header_gives_the_names(parameters: Parameters)
    ensures
        is_row_of_names(header(parameters), parameters),
{
    let row = header_row(parameters);
    lemma_header_row(parameters);
    assert(","@ =~= seq![',']) by {
        reveal_strlit(",");
    }
    assert forall|i: int| 0 <= i < row.len() implies occurrences(#[trigger] row[i], ',') == 0 by {
        lemma_column_name(i, ',');
    }
    law_split_of_joined(row, ',');
    assert forall|event: EventType|
        {
            let first = 3 * #[trigger] event.position() + 2;
            &&& row[first] == event.name()
            &&& row[first + 1] == event.name() + ":u"@
            &&& row[first + 2] == event.name() + ":k"@
        } by {
        law_positions_number_the_kinds(event, 0);
        lemma_event_names(EventType::all(), event);
    }
}

/// The report has one line for each core, and the line of a core gives the counts
/// of this core, that is, what a query of this core returns.
pub proof fn law_lines_give_the_counts_of_their_cores(
    parameters: Parameters,
    cores: Seq<Seq<u64>>,
    dirty_count: nat,
    ts: u64,
    core_id: int,
)
    ensures
        lines(parameters, cores, dirty_count, ts).len() == cores.len(),
        0 <= core_id < cores.len() ==> is_row_of(
            lines(parameters, cores, dirty_count, ts)[core_id],
            parameters,
            cores[core_id],
            dirty_count,
            ts,
            core_id,
        ),
{
    if 0 <= core_id < cores.len() {
        law_line_gives_the_counts(parameters, cores[core_id], dirty_count, ts, core_id);
    }
}

/// A report file is a table: between its line breaks stand the names of the
/// columns, then for each core in turn the row with the counts of this core, and
/// nothing after the last line break. A report in one text is the same table
/// without the last line break.
pub proof fn law_report_is_a_table(
    parameters: Parameters,
    cores: Seq<Seq<u64>>,
    dirty_count: nat,
    ts: u64,
)
    ensures
        ({
            let file = split(csv(parameters, cores, dirty_count, ts), '\n');
            let text = split(
                joined(
                    seq![header(parameters)] + lines(parameters, cores, dirty_count, ts),
                    "\n"@,
                ),
                '\n',
            );
            &&& file.len() == cores.len() + 2
            &&& text.len() == cores.len() + 1
            &&& is_row_of_names(file[0], parameters)
            &&& is_row_of_names(text[0], parameters)
            &&& forall|i: int|
                0 <= i < cores.len() ==> is_row_of(
                    file[i + 1],
                    parameters,
                    #[trigger] cores[i],
                    dirty_count,
                    ts,
                    i,
                ) && is_row_of(text[i + 1], parameters, cores[i], dirty_count, ts, i)
            &&& file.last() == Seq::<char>::empty()
        }),
{
    let rows = lines(parameters, cores, dirty_count, ts);
    let all = seq![header(parameters)] + rows;
    lemma_report_rows(parameters, cores, dirty_count, ts);
    law_header_gives_the_names(parameters);
    assert forall|i: int| 0 <= i < cores.len() implies is_row_of(
        all[i + 1],
        parameters,
        #[trigger] cores[i],
        dirty_count,
        ts,
        i,
    ) by {
        law_lines_give_the_counts_of_their_cores(parameters, cores, dirty_count, ts, i);
        assert(all[i + 1] == rows[i]);
    }
}

/// The rows of a report, as they are found between its line breaks.
proof fn lemma_report_rows(
    parameters: Parameters,
    cores: Seq<Seq<u64>>,
    dirty_count: nat,
    ts: u64,
)
    ensures
        ({
            let rows = lines(parameters, cores, dirty_count, ts);
            let all = seq![header(parameters)] + rows;
            &&& split(joined(all, "\n"@), '\n') == all
            &&& split(csv(parameters, cores, dirty_count, ts), '\n') == all.push(Seq::empty())
            &&& split(terminated(rows, "\n"@), '\n') == rows.push(Seq::empty())
        }),
{
    let rows = lines(parameters, cores, dirty_count, ts);
    let all = seq![header(parameters)] + rows;
    assert("\n"@ =~= seq!['\n']) by {
        reveal_strlit("\n");
    }
    lemma_header_occurrences(parameters, '\n');
    assert forall|i: int|
        0 <= i < rows.len() implies occurrences(#[trigger] rows[i], '\n') == 0 by {
        lemma_line_occurrences(parameters, cores[i], dirty_count, ts, i, '\n');
    }
    assert forall|i: int| 0 <= i < all.len() implies occurrences(#[trigger] all[i], '\n') == 0 by {
        if i > 0 {
            assert(all[i] == rows[i - 1]);
        }
    }
    law_split_of_joined(all, '\n');
    law_split_of_terminated(rows, '\n');
    let ended = all.push(Seq::empty());
    assert forall|i: int|
        0 <= i < ended.len() implies occurrences(#[trigger] ended[i], '\n') == 0 by {
        if i < all.len() {
            assert(ended[i] == all[i]);
        }
    }
    law_report_file_is_the_report(parameters, cores, dirty_count, ts);
    assert(ended.drop_last() =~= all);
    assert(joined(ended, "\n"@) =~= joined(all, "\n"@) + "\n"@);
    law_split_of_joined(ended, '\n');
}

/// The rows that a report adds to a file that already has its header: the same
/// rows as in a report file, and each ended by a line break.
pub proof fn law_ended_lines_are_rows(
    parameters: Parameters,
    cores: Seq<Seq<u64>>,
    dirty_count: nat,
    ts: u64,
)
    ensures
        ({
            let rows = split(terminated(lines(parameters, cores, dirty_count, ts), "\n"@), '\n');
            &&& rows.len() == cores.len() + 1
            &&& forall|i: int|
                0 <= i < cores.len() ==> is_row_of(
                    rows[i],
                    parameters,
                    #[trigger] cores[i],
                    dirty_count,
                    ts,
                    i,
                )
            &&& rows.last() == Seq::<char>::empty()
        }),
{
    lemma_report_rows(parameters, cores, dirty_count, ts);
    assert forall|i: int| 0 <= i < cores.len() implies is_row_of(
        lines(parameters, cores, dirty_count, ts)[i],
        parameters,
        #[trigger] cores[i],
        dirty_count,
        ts,
        i,
    ) by {
        law_lines_give_the_counts_of_their_cores(parameters, cores, dirty_count, ts, i);
    }
}

/// The counts of a core are its counters, user and kernel count of each event next
/// to each other.
pub proof fn law_counters_hold_the_counts(counters: Seq<u64>, event: EventType, i: int)
    ensures
        count_of(counters, event, false) == counters[2 * event.position()],
        count_of(counters, event, true) == counters[2 * event.position() + 1],
        0 <= i < COUNTER_COUNT ==> count_of(counters, EventType::all()[i / 2], i % 2 == 1)
            == counters[i],
{
    law_positions_number_the_kinds(event, i / 2);
}

/// Recording and setting keep the number of cores and of their counters.
pub proof fn law_shape_is_kept(
    parameters: Parameters,
    cores: Seq<Seq<u64>>,
    core_id: int,
    event: EventType,
    is_os: bool,
    number: u64,
    other: int,
)
    requires
        0 <= core_id < cores.len(),
        0 <= other < cores.len(),
        cores[core_id].len() == COUNTER_COUNT,
    ensures
        after_record(parameters, cores, core_id, event, is_os, number).len() == cores.len(),
        after_set(parameters, cores, core_id, event, is_os, number).len() == cores.len(),
        after_record(parameters, cores, core_id, event, is_os, number)[other].len()
            == cores[other].len(),
        after_set(parameters, cores, core_id, event, is_os, number)[other].len()
            == cores[other].len(),
        other != core_id ==> after_record(parameters, cores, core_id, event, is_os, number)[other]
            == cores[other],
        other != core_id ==> after_set(parameters, cores, core_id, event, is_os, number)[other]
            == cores[other],
{
    law_each_pair_has_its_counter(event, is_os, event, is_os, 0);
}

/// A sum across cores goes part by part: the cores of two groups have counted what
/// the one and the other have, a core alone what it counts, and no core nothing.
pub proof fn law_sums_of_groups(
    a: Seq<Seq<u64>>,
    b: Seq<Seq<u64>>,
    counters: Seq<u64>,
    event: EventType,
    is_os: bool,
)
    ensures
        sum_of(a + b, event, is_os) == sum_of(a, event, is_os) + sum_of(b, event, is_os),
        sum_of(seq![counters], event, is_os) == count_of(counters, event, is_os),
        sum_of(Seq::empty(), event, is_os) == 0,
    decreases b.len(),
{
    let one = seq![counters];
    assert(one.drop_last() =~= Seq::<Seq<u64>>::empty());
    assert(sum_of(one.drop_last(), event, is_os) == 0);
    if b.len() == 0 {
        assert(a + b =~= a);
    } else {
        law_sums_of_groups(a, b.drop_last(), counters, event, is_os);
        assert((a + b).drop_last() =~= a + b.drop_last());
    }
}

/// A core can be reported exactly if no user and kernel count next to each other
/// add up to more than a counter holds; all can, if each of them can.
pub proof fn law_fitting_totals(cores: Seq<Seq<u64>>, counters: Seq<u64>)
    ensures
        totals_fit(counters) <==> forall|i: int|
            0 <= i < 40 ==> #[trigger] counters[2 * i] + counters[2 * i + 1]
                <= 0xFFFF_FFFF_FFFF_FFFF,
        all_totals_fit(cores) <==> forall|core_id: int, i: int|
            0 <= core_id < cores.len() && 0 <= i < 40 ==> #[trigger] cores[core_id][2 * i]
                + cores[core_id][2 * i + 1] <= 0xFFFF_FFFF_FFFF_FFFF,
{
    lemma_fitting_totals(counters);
    if all_totals_fit(cores) {
        assert forall|core_id: int, i: int|
            0 <= core_id < cores.len() && 0 <= i < 40 implies #[trigger] cores[core_id][2 * i]
            + cores[core_id][2 * i + 1] <= 0xFFFF_FFFF_FFFF_FFFF by {
            lemma_fitting_totals(cores[core_id]);
        }
    }
    if forall|core_id: int, i: int|
        0 <= core_id < cores.len() && 0 <= i < 40 ==> #[trigger] cores[core_id][2 * i]
            + cores[core_id][2 * i + 1] <= 0xFFFF_FFFF_FFFF_FFFF {
        assert forall|core_id: int| 0 <= core_id < cores.len() implies totals_fit(
            #[trigger] cores[core_id],
        ) by {
            lemma_fitting_totals(cores[core_id]);
        }
    }
}

proof fn lemma_fitting_totals(counters: Seq<u64>)
    ensures
        totals_fit(counters) <==> forall|i: int|
            0 <= i < 40 ==> #[trigger] counters[2 * i] + counters[2 * i + 1]
                <= 0xFFFF_FFFF_FFFF_FFFF,
{
    if totals_fit(counters) {
        assert forall|i: int| 0 <= i < 40 implies #[trigger] counters[2 * i] + counters[2 * i + 1]
            <= 0xFFFF_FFFF_FFFF_FFFF by {
            let event = EventType::all()[i];
            law_positions_number_the_kinds(event, i);
            assert(count_of(counters, event, false) + count_of(counters, event, true) <= u64::MAX);
        }
    }
    if forall|i: int|
        0 <= i < 40 ==> #[trigger] counters[2 * i] + counters[2 * i + 1] <= 0xFFFF_FFFF_FFFF_FFFF {
        assert forall|event: EventType|
            #[trigger] count_of(counters, event, false) + count_of(counters, event, true)
                <= u64::MAX by {
            let i = event.position();
            law_positions_number_the_kinds(event, i);
            assert(counters[2 * i] + counters[2 * i + 1] <= 0xFFFF_FFFF_FFFF_FFFF);
        }
    }
}

/// Events can be counted exactly if statistics are disabled, or the core exists
/// and its count stays within a counter.
pub proof fn law_accepted_increments(
    statistics: &Statistics,
    core_id: u32,
    event: EventType,
    is_os: bool,
    increment: u64,
)
    requires
        statistics.wf(),
    ensures
        !statistics.parameters().enable_statistics ==> statistics.accepts(
            core_id,
            event,
            is_os,
            increment,
        ),
        statistics.parameters().enable_statistics && core_id >= statistics@.len()
            ==> !statistics.accepts(core_id, event, is_os, increment),
        statistics.parameters().enable_statistics && core_id < statistics@.len() ==> (
        statistics.accepts(core_id, event, is_os, increment) <==> count_of(
            statistics@[core_id as int],
            event,
            is_os,
        ) + increment <= 0xFFFF_FFFF_FFFF_FFFF),
{
    statistics.law_shape();
}

} // verus!
