//! What the periodic log does in the course of time, whatever answers it gets and
//! whatever the cores count and write meanwhile.
use vstd::prelude::*;
use vstd::string::*;

use crate::dirty_page_tracker::{
    law_tracked_pages_are_finite, law_tracked_pages_are_those_written, law_writes_add_pages,
    law_writes_after_each_other, tracked_pages, MAX_PAGES,
};
use crate::event::EventType;
use crate::parameter::Parameters;
use crate::periodic_log::{
    advanced, answers, law_guest_target, law_summaries_match_their_heading, request, summary,
    summary_cells, summary_names, total, world_after, LogAction, LogEvent, LogFile, LogPhase,
    LogRequest, LogWorld, PeriodicLog,
};
use crate::statistics::{
    all_totals_fit, count_of, header, is_row_of, is_row_of_names, law_ended_lines_are_rows,
    law_header_gives_the_names, law_rows_hold_no_line_break, law_set_reads_back,
    law_sums_of_groups, COUNTER_COUNT,
};
use crate::text::{
    is_number, joined, law_numbers_and_their_notation, law_split_of_joined,
    law_split_of_terminated, occurrences, split, terminated, value,
};

verus! {

/// An event that the log is told of, and what the cores do until the next one: the
/// pages that they write, and their counters then.
pub struct LogStep {
    pub event: LogEvent,
    pub pages: Seq<int>,
    pub cores: Seq<Seq<u64>>,
}

/// The log and what it works on after the given steps.
pub open spec fn world_run(
    parameters: Parameters,
    world: LogWorld,
    steps: Seq<LogStep>,
) -> LogWorld
    decreases steps.len(),
{
    if steps.len() == 0 {
        world
    } else {
        let step = steps.last();
        let after = world_after(
            parameters,
            world_run(parameters, world, steps.drop_last()),
            step.event,
        );
        LogWorld {
            cores: step.cores,
            host: after.host.marked_all(step.pages),
            guest: after.guest.marked_all(step.pages),
            ..after
        }
    }
}

/// The pages written in the given steps, in order.
pub open spec fn pages_written(steps: Seq<LogStep>) -> Seq<int>
    decreases steps.len(),
{
    if steps.len() == 0 {
        Seq::empty()
    } else {
        pages_written(steps.drop_last()) + steps.last().pages
    }
}

/// The first `n` of `m` steps are the first `n` of all.
proof fn lemma_take(steps: Seq<LogStep>, n: int)
    requires
        0 < n <= steps.len(),
    ensures
        steps.take(n).drop_last() == steps.take(n - 1),
        steps.take(n).last() == steps[n - 1],
{
    assert(steps.take(n).drop_last() =~= steps.take(n - 1));
}

/// The pages collected in guest time are lost in no step but one that begins a
/// guest record, and a guest record begins exactly when core 0 has reached the
/// guest time for which it is due. It reports the number of pages collected, and
/// the next period begins with none of them.
pub proof fn law_guest_pages_leave_with_a_record(
    parameters: Parameters,
    world: LogWorld,
    event: LogEvent,
)
    requires
        world.guest.collecting().len() <= MAX_PAGES,
    ensures
        ({
            let after = world_after(parameters, world, event);
            let due = world.phase is GuestCheck && event is GuestTime && event->GuestTime_0
                >= world.next_guest_time;
            &&& !due ==> after.guest == world.guest
            &&& !due && !(world.phase is GuestSummary) ==> !(after.phase is GuestSummary)
            &&& due ==> after.phase == (LogPhase::GuestSummary {
                now: event->GuestTime_0,
                dirty_page_count: world.guest.collecting().len() as usize,
            })
            &&& due ==> after.phase->GuestSummary_dirty_page_count as nat
                == world.guest.collecting().len()
            &&& due ==> after.guest.collecting() == world.guest.resting()
            &&& due ==> after.guest.resting() == Set::<int>::empty()
        }),
{
}

/// The pages collected in host time are lost in no step but one that begins a
/// host record, and a host record begins exactly when the host clock has reached
/// the time for which it is due. It takes the number of pages collected with it,
/// and the next period begins with none of them. Without tracking the number is
/// zero, and nothing is collected anew.
pub proof fn law_host_pages_leave_with_a_record(
    parameters: Parameters,
    world: LogWorld,
    event: LogEvent,
)
    requires
        world.host.collecting().len() <= MAX_PAGES,
    ensures
        ({
            let after = world_after(parameters, world, event);
            let due = world.phase is HostCheck && event is HostTime && event->HostTime_0
                >= world.next_host_time;
            let counted = parameters.enable_dirty_page_tracker;
            &&& !due || !counted ==> after.host == world.host
            &&& world.phase is HostCheck && !due ==> !(after.phase is CoreTime)
                && !(after.phase is Stamp)
            &&& due && parameters.core_count > 0 ==> after.phase is CoreTime
                && after.phase->CoreTime_core_id == 0
                && after.phase->CoreTime_dirty_page_count as nat == if counted {
                world.host.collecting().len()
            } else {
                0
            }
            &&& due && parameters.core_count == 0 ==> after.phase is Stamp
                && after.phase->Stamp_dirty_page_count as nat == if counted {
                world.host.collecting().len()
            } else {
                0
            }
            &&& due && counted ==> after.host.period_count == world.host.collecting().len()
            &&& due && counted ==> after.host.collecting() == world.host.resting()
            &&& due && counted ==> after.host.resting() == Set::<int>::empty()
        }),
{
}

/// From one guest record to the next, the pages in guest time only grow by what is
/// written, over any number of rounds and polls in between, and the time for which
/// the next record is due stays.
pub proof fn law_guest_pages_are_kept_between_records(
    parameters: Parameters,
    world: LogWorld,
    steps: Seq<LogStep>,
)
    requires
        forall|k: int|
            0 <= k <= steps.len() ==> !((#[trigger] world_run(
                parameters,
                world,
                steps.take(k),
            )).phase is GuestSummary),
    ensures
        world_run(parameters, world, steps).guest == world.guest.marked_all(pages_written(steps)),
        world_run(parameters, world, steps).next_guest_time == world.next_guest_time,
    decreases steps.len(),
{
    if steps.len() > 0 {
        let n = steps.len() as int;
        let rest = steps.drop_last();
        assert(steps.take(n) =~= steps);
        assert(steps.take(n - 1) =~= rest);
        assert forall|k: int| 0 <= k <= rest.len() implies !((#[trigger] world_run(
            parameters,
            world,
            rest.take(k),
        )).phase is GuestSummary) by {
            assert(rest.take(k) =~= steps.take(k));
            assert(!(world_run(parameters, world, steps.take(k)).phase is GuestSummary));
        }
        law_guest_pages_are_kept_between_records(parameters, world, rest);
        let before = world_run(parameters, world, rest);
        assert(!(before.phase is GuestSummary)) by {
            assert(!(world_run(parameters, world, steps.take(n - 1)).phase is GuestSummary));
        }
        assert(!(world_run(parameters, world, steps).phase is GuestSummary)) by {
            assert(!(world_run(parameters, world, steps.take(n)).phase is GuestSummary));
        }
        law_writes_after_each_other(world.guest, pages_written(rest), steps.last().pages);
    }
}

/// A guest record counts every page of the memory that was written since the guest
/// record before it, once, over any number of rounds and polls in between.
pub proof fn law_guest_record_counts_all_since_the_last(
    parameters: Parameters,
    world: LogWorld,
    steps: Seq<LogStep>,
    now: u64,
)
    requires
        world.guest.collecting() == Set::<int>::empty(),
        forall|k: int|
            0 <= k <= steps.len() ==> !((#[trigger] world_run(
                parameters,
                world,
                steps.take(k),
            )).phase is GuestSummary),
        world_run(parameters, world, steps).phase is GuestCheck,
        now >= world.next_guest_time,
    ensures
        ({
            let after = world_after(
                parameters,
                world_run(parameters, world, steps),
                LogEvent::GuestTime(now),
            );
            &&& after.phase is GuestSummary
            &&& after.phase->GuestSummary_now == now
            &&& after.phase->GuestSummary_dirty_page_count as nat == Set::new(
                |page: int|
                    0 <= page < MAX_PAGES && pages_written(steps).contains(page),
            ).len()
        }),
{
    let pages = pages_written(steps);
    let before = world_run(parameters, world, steps);
    let written = Set::new(|page: int| 0 <= page < MAX_PAGES && pages.contains(page));
    law_guest_pages_are_kept_between_records(parameters, world, steps);
    law_writes_add_pages(world.guest, pages);
    law_tracked_pages_are_finite(pages);
    assert(before.guest.collecting() =~= tracked_pages(pages));
    assert forall|page: int| tracked_pages(pages).contains(page) <==> written.contains(page) by {
        law_tracked_pages_are_those_written(pages, page);
    }
    assert(tracked_pages(pages) =~= written);
    law_guest_pages_leave_with_a_record(parameters, before, LogEvent::GuestTime(now));
}

/// From one host record to the next, the pages in host time only grow by what is
/// written, and the count of the last record stays, over any number of rounds and
/// polls in between.
pub proof fn law_host_pages_are_kept_between_records(
    parameters: Parameters,
    world: LogWorld,
    steps: Seq<LogStep>,
)
    requires
        forall|k: int|
            0 <= k < steps.len() ==> {
                let before = #[trigger] world_run(parameters, world, steps.take(k));
                let after = world_run(parameters, world, steps.take(k + 1));
                before.phase is HostCheck ==> !(after.phase is CoreTime) && !(after.phase is Stamp)
            },
    ensures
        world_run(parameters, world, steps).host == world.host.marked_all(pages_written(steps)),
        world_run(parameters, world, steps).host.period_count == world.host.period_count,
    decreases steps.len(),
{
    law_writes_add_pages(world.host, pages_written(steps));
    if steps.len() > 0 {
        let n = steps.len() as int;
        let rest = steps.drop_last();
        assert(steps.take(n) =~= steps);
        assert(steps.take(n - 1) =~= rest);
        assert forall|k: int| 0 <= k < rest.len() implies {
            let before = #[trigger] world_run(parameters, world, rest.take(k));
            let after = world_run(parameters, world, rest.take(k + 1));
            before.phase is HostCheck ==> !(after.phase is CoreTime) && !(after.phase is Stamp)
        } by {
            assert(rest.take(k) =~= steps.take(k));
            assert(rest.take(k + 1) =~= steps.take(k + 1));
        }
        law_host_pages_are_kept_between_records(parameters, world, rest);
        let before = world_run(parameters, world, steps.take(n - 1));
        let after = world_run(parameters, world, steps.take(n - 1 + 1));
        assert(before.phase is HostCheck ==> !(after.phase is CoreTime) && !(after.phase is Stamp));
        law_writes_after_each_other(world.host, pages_written(rest), steps.last().pages);
    }
}

/// A host record takes with it the number of all pages of the memory that were
/// written since the host record before it, each once, over any number of rounds
/// and polls in between.
pub proof fn law_host_record_counts_all_since_the_last(
    parameters: Parameters,
    world: LogWorld,
    steps: Seq<LogStep>,
    now: u128,
)
    requires
        parameters.enable_dirty_page_tracker,
        world.host.collecting() == Set::<int>::empty(),
        forall|k: int|
            0 <= k < steps.len() ==> {
                let before = #[trigger] world_run(parameters, world, steps.take(k));
                let after = world_run(parameters, world, steps.take(k + 1));
                before.phase is HostCheck ==> !(after.phase is CoreTime) && !(after.phase is Stamp)
            },
        world_run(parameters, world, steps).phase is HostCheck,
        now >= world_run(parameters, world, steps).next_host_time,
    ensures
        ({
            let after = world_after(
                parameters,
                world_run(parameters, world, steps),
                LogEvent::HostTime(now),
            );
            let count = Set::new(
                |page: int|
                    0 <= page < MAX_PAGES && pages_written(steps).contains(page),
            ).len();
            &&& after.host.period_count == count
            &&& match after.phase {
                LogPhase::CoreTime { core_id, dirty_page_count } => core_id == 0
                    && dirty_page_count as nat == count,
                LogPhase::Stamp { dirty_page_count } => dirty_page_count as nat == count,
                _ => false,
            }
        }),
{
    let pages = pages_written(steps);
    let before = world_run(parameters, world, steps);
    let written = Set::new(|page: int| 0 <= page < MAX_PAGES && pages.contains(page));
    law_host_pages_are_kept_between_records(parameters, world, steps);
    law_writes_add_pages(world.host, pages);
    law_tracked_pages_are_finite(pages);
    assert(before.host.collecting() =~= tracked_pages(pages));
    assert forall|page: int| tracked_pages(pages).contains(page) <==> written.contains(page) by {
        law_tracked_pages_are_those_written(pages, page);
    }
    assert(tracked_pages(pages) =~= written);
    law_host_pages_leave_with_a_record(parameters, before, LogEvent::HostTime(now));
}

/// The steps are those of one host record: the host clock, which shows `now`, the
/// virtual time of each core, the time stamp `ts`, and the end of the writing of the
/// statistics. What the cores do meanwhile is left open.
pub open spec fn is_host_record(
    parameters: Parameters,
    steps: Seq<LogStep>,
    now: u128,
    ts: u64,
) -> bool {
    &&& steps.len() == parameters.core_count + 3
    &&& steps[0].event == LogEvent::HostTime(now)
    &&& forall|i: int| 1 <= i <= parameters.core_count ==> (#[trigger] steps[i]).event is GuestTime
    &&& steps[parameters.core_count + 1].event == LogEvent::Timestamp(ts)
    &&& steps[parameters.core_count + 2].event == LogEvent::Done
}

/// A host record after its first steps, up to the virtual time of the last core.
proof fn lemma_host_record_start(
    parameters: Parameters,
    world: LogWorld,
    steps: Seq<LogStep>,
    now: u128,
    ts: u64,
    n: int,
)
    requires
        world.phase is HostCheck,
        world.host.collecting().len() <= MAX_PAGES,
        now >= world.next_host_time,
        is_host_record(parameters, steps, now, ts),
        0 <= n <= parameters.core_count,
    ensures
        ({
            let run = world_run(parameters, world, steps.take(n + 1));
            let count = if parameters.enable_dirty_page_tracker {
                world.host.collecting().len() as usize
            } else {
                0
            };
            &&& run.phase == if n < parameters.core_count {
                LogPhase::CoreTime { core_id: n as u32, dirty_page_count: count }
            } else {
                LogPhase::Stamp { dirty_page_count: count }
            }
            &&& parameters.enable_dirty_page_tracker ==> run.host.period_count == count
            &&& run.next_host_time == world.next_host_time
            &&& run.next_guest_time == world.next_guest_time
        }),
    decreases n,
{
    let before = world_run(parameters, world, steps.take(n));
    let after = world_after(parameters, before, steps[n].event);
    lemma_take(steps, n + 1);
    law_writes_add_pages(after.host, steps[n].pages);
    if n == 0 {
        assert(steps.take(0) =~= Seq::<LogStep>::empty());
        assert(before == world);
        law_host_pages_leave_with_a_record(parameters, world, steps[0].event);
    } else {
        lemma_host_record_start(parameters, world, steps, now, ts, n - 1);
        assert(steps[n].event is GuestTime);
    }
}

/// The number of pages that a host record takes with it at its beginning, and later
/// its time stamp, are the ones that it has at its end: the virtual time of every
/// core is read, in order, then the time stamp, then the statistics are written,
/// then the summary with this number and this time stamp. The lines of the
/// statistics show the same number, whatever the cores write meanwhile. Without
/// tracking there is no summary.
pub proof fn law_host_record_keeps_its_count(
    parameters: Parameters,
    world: LogWorld,
    steps: Seq<LogStep>,
    now: u128,
    ts: u64,
)
    requires
        world.phase is HostCheck,
        world.host.collecting().len() <= MAX_PAGES,
        now >= world.next_host_time,
        is_host_record(parameters, steps, now, ts),
    ensures
        ({
            let n = parameters.core_count as int;
            let count = if parameters.enable_dirty_page_tracker {
                world.host.collecting().len()
            } else {
                0
            };
            let stamp = world_run(parameters, world, steps.take(n + 1));
            let record = world_run(parameters, world, steps.take(n + 2));
            let end = world_run(parameters, world, steps);
            &&& forall|i: int|
                0 <= i < n ==> {
                    let run = #[trigger] world_run(parameters, world, steps.take(i + 1));
                    &&& run.phase is CoreTime
                    &&& run.phase->CoreTime_core_id == i
                    &&& run.phase->CoreTime_dirty_page_count as nat == count
                }
            &&& stamp.phase is Stamp
            &&& stamp.phase->Stamp_dirty_page_count as nat == count
            &&& record.phase is Record
            &&& record.phase->Record_ts == ts
            &&& record.phase->Record_dirty_page_count as nat == count
            &&& if parameters.enable_dirty_page_tracker {
                &&& end.phase is HostSummary
                &&& end.phase->HostSummary_ts == ts
                &&& end.phase->HostSummary_dirty_page_count as nat == count
                &&& stamp.host.period_count == count
                &&& record.host.period_count == count
                &&& end.host.period_count == count
            } else {
                end.phase is HostRestart
            }
            &&& end.next_host_time == world.next_host_time
            &&& end.next_guest_time == world.next_guest_time
        }),
{
    let n = parameters.core_count as int;
    assert forall|i: int| 0 <= i < n implies {
        let run = #[trigger] world_run(parameters, world, steps.take(i + 1));
        let count = if parameters.enable_dirty_page_tracker {
            world.host.collecting().len()
        } else {
            0
        };
        &&& run.phase is CoreTime
        &&& run.phase->CoreTime_core_id == i
        &&& run.phase->CoreTime_dirty_page_count as nat == count
    } by {
        lemma_host_record_start(parameters, world, steps, now, ts, i);
    }
    lemma_host_record_start(parameters, world, steps, now, ts, n);
    lemma_take(steps, n + 2);
    lemma_take(steps, n + 3);
    assert(steps.take(n + 3) =~= steps);
    let stamp = world_run(parameters, world, steps.take(n + 1));
    let record = world_run(parameters, world, steps.take(n + 2));
    law_writes_add_pages(
        world_after(parameters, stamp, steps[n + 1].event).host,
        steps[n + 1].pages,
    );
    law_writes_add_pages(
        world_after(parameters, record, steps[n + 2].event).host,
        steps[n + 2].pages,
    );
}

/// The rest of a round: when it asks for the next record, when it comes to the
/// guest part, and when it sleeps. Every round with tracking enabled reads the
/// guest clock, and every round ends in a sleep, after which the next one begins.
pub proof fn law_rest_of_a_round(
    parameters: Parameters,
    world: LogWorld,
    event: LogEvent,
)
    requires
        event matches LogEvent::HostTime(now) ==> now + 10_000_000_000 <= u128::MAX,
        world.phase matches LogPhase::GuestSummary { now, .. } ==> world.next_guest_time <= now
            && now + 1_000_000_000 <= u64::MAX,
    ensures
        ({
            let after = world_after(parameters, world, event);
            let host_part_ends = {
                ||| world.phase is HostRestart && event is HostTime
                ||| world.phase is HostCheck && event is HostTime && event->HostTime_0
                    < world.next_host_time
            };
            &&& host_part_ends && parameters.enable_dirty_page_tracker ==> after.phase is GuestCheck
            &&& host_part_ends && !parameters.enable_dirty_page_tracker ==> after.phase is Sleep
            &&& world.phase is HostSummary && event is Done ==> after.phase is HostRestart
            &&& world.phase is GuestCheck && event is GuestTime && event->GuestTime_0
                < world.next_guest_time ==> after.phase is Sleep
            &&& world.phase is GuestSummary && event is Done ==> after.phase is Sleep
            &&& world.phase is Sleep && event is Done ==> after.phase is HostCheck
            &&& world.phase is HostRestart && event is HostTime ==> after.next_host_time
                == event->HostTime_0 + 10_000_000_000
            &&& !(world.phase is HostRestart) ==> after.next_host_time == world.next_host_time
            &&& world.phase is GuestSummary && event is Done ==> {
                &&& world.phase->GuestSummary_now < after.next_guest_time
                &&& after.next_guest_time <= world.phase->GuestSummary_now + 1_000_000_000
                &&& (after.next_guest_time - world.next_guest_time) % 1_000_000_000 == 0
            }
            &&& !(world.phase is GuestSummary) ==> after.next_guest_time == world.next_guest_time
        }),
{
    if let LogPhase::GuestSummary { now, .. } = world.phase {
        law_guest_target(world.next_guest_time as int, now as int);
    }
}

/// A step changes no count but the virtual time of the core that was read, which
/// becomes the time that was read, and this only while statistics are enabled.
pub proof fn law_steps_set_the_core_times(
    parameters: Parameters,
    world: LogWorld,
    event: LogEvent,
    core_id: int,
    kind: EventType,
    is_os: bool,
)
    requires
        world.phase matches LogPhase::CoreTime { core_id, .. } ==> core_id < world.cores.len()
            && world.cores[core_id as int].len() == COUNTER_COUNT,
        0 <= core_id < world.cores.len(),
    ensures
        ({
            let after = world_after(parameters, world, event);
            let read = world.phase is CoreTime && world.phase->CoreTime_core_id == core_id
                && event is GuestTime && parameters.enable_statistics;
            &&& after.cores.len() == world.cores.len()
            &&& count_of(after.cores[core_id], kind, is_os) == if read && kind
                == EventType::TargetLocalCycle && !is_os {
                event->GuestTime_0
            } else {
                count_of(world.cores[core_id], kind, is_os)
            }
        }),
{
    if let LogPhase::CoreTime { core_id: other, .. } = world.phase {
        if event is GuestTime && parameters.enable_statistics {
            law_set_reads_back(
                parameters,
                world.cores,
                other as int,
                EventType::TargetLocalCycle,
                false,
                event->GuestTime_0,
                core_id,
                kind,
                is_os,
            );
        }
    }
}

/// A text is one row, ended by a line break, of three numbers: a time, a count of
/// dirty pages and a count of cache misses.
pub open spec fn is_summary_of(text: Seq<char>, time: u64, dirty: nat, misses: nat) -> bool {
    let rows = split(text, '\n');
    let cells = split(rows[0], ',');
    &&& rows.len() == 2
    &&& rows[1] == Seq::<char>::empty()
    &&& cells.len() == 3
    &&& is_number(cells[0]) && value(cells[0]) == time
    &&& is_number(cells[1]) && value(cells[1]) == dirty
    &&& is_number(cells[2]) && value(cells[2]) == misses
}

/// A row of three plain cells and a line break, split.
proof fn lemma_split_row(cells: Seq<Seq<char>>)
    requires
        cells.len() == 3,
        forall|i: int|
            0 <= i < 3 ==> occurrences(#[trigger] cells[i], ',') == 0 && occurrences(cells[i], '\n')
                == 0,
        occurrences(joined(cells, ","@) + "\n"@, '\n') == 1,
    ensures
        split(joined(cells, ","@) + "\n"@, '\n').len() == 2,
        split(joined(cells, ","@) + "\n"@, '\n')[1] == Seq::<char>::empty(),
        split(split(joined(cells, ","@) + "\n"@, '\n')[0], ',') == cells,
{
    let row = joined(cells, ","@);
    let rows = seq![row];
    assert(","@ =~= seq![',']) by {
        reveal_strlit(",");
    }
    assert("\n"@ =~= seq!['\n']) by {
        reveal_strlit("\n");
    }
    assert((row + "\n"@).drop_last() =~= row);
    assert((row + "\n"@).last() == '\n');
    assert(occurrences(row, '\n') == 0);
    assert(rows.drop_last() =~= Seq::<Seq<char>>::empty());
    assert(terminated(rows.drop_last(), seq!['\n']) =~= Seq::<char>::empty());
    assert(terminated(rows, seq!['\n']) =~= row + "\n"@);
    law_split_of_terminated(rows, '\n');
    law_split_of_joined(cells, ',');
}

/// A line of a summary gives its three numbers, in full.
pub proof fn law_summary_gives_its_numbers(time: u64, dirty_page_count: usize, misses: nat)
    ensures
        is_summary_of(
            summary(time, dirty_page_count, misses),
            time,
            dirty_page_count as nat,
            misses,
        ),
{
    let cells = summary_cells(time, dirty_page_count, misses);
    let parameters = Parameters {
        core_count: 0,
        enable_statistics: false,
        enable_dirty_page_tracker: false,
        measure_half_of_cores: false,
    };
    assert forall|i: int| 0 <= i < 3 implies occurrences(#[trigger] cells[i], ',') == 0
        && occurrences(cells[i], '\n') == 0 by {
        law_summaries_match_their_heading(
            parameters,
            time,
            dirty_page_count,
            misses,
            LogFile::HostSummary,
            i,
            ',',
        );
        law_summaries_match_their_heading(
            parameters,
            time,
            dirty_page_count,
            misses,
            LogFile::HostSummary,
            i,
            '\n',
        );
    }
    law_summaries_match_their_heading(
        parameters,
        time,
        dirty_page_count,
        misses,
        LogFile::HostSummary,
        0,
        '\n',
    );
    lemma_split_row(cells);
    law_numbers_and_their_notation(time as nat, cells[0]);
    law_numbers_and_their_notation(dirty_page_count as nat, cells[1]);
    law_numbers_and_their_notation(misses, cells[2]);
}

/// The files of summaries begin with a row that names time, dirty pages and cache
/// misses, and the file of the statistics with the names of its columns, whatever
/// the parameters are.
pub proof fn law_files_begin_with_the_names(parameters: Parameters)
    ensures
        ({
            let host = split(LogFile::HostSummary.heading(parameters), '\n');
            let guest = split(LogFile::GuestSummary.heading(parameters), '\n');
            let statistics = split(LogFile::Statistics.heading(parameters), '\n');
            &&& host.len() == 2 && host[1] == Seq::<char>::empty()
            &&& split(host[0], ',') == seq![
                "timestamp"@,
                "DirtyPages"@,
                "SharedCacheMissDueToDataWrite"@,
            ]
            &&& guest.len() == 2 && guest[1] == Seq::<char>::empty()
            &&& split(guest[0], ',') == seq![
                "guest_timestamp_ns"@,
                "DirtyPages"@,
                "SharedCacheMissDueToDataWrite"@,
            ]
            &&& statistics.len() == 2 && statistics[1] == Seq::<char>::empty()
            &&& is_row_of_names(statistics[0], parameters)
        }),
{
    lemma_summary_heading(parameters, LogFile::HostSummary);
    lemma_summary_heading(parameters, LogFile::GuestSummary);
    let row = header(parameters);
    let rows = seq![row];
    assert("\n"@ =~= seq!['\n']) by {
        reveal_strlit("\n");
    }
    law_rows_hold_no_line_break(parameters, Seq::empty(), 0, 0, 0);
    law_header_gives_the_names(parameters);
    assert(rows.drop_last() =~= Seq::<Seq<char>>::empty());
    assert(terminated(rows.drop_last(), seq!['\n']) =~= Seq::<char>::empty());
    assert(terminated(rows, seq!['\n']) =~= row + "\n"@);
    law_split_of_terminated(rows, '\n');
}

proof fn lemma_summary_heading(parameters: Parameters, file: LogFile)
    requires
        file is HostSummary || file is GuestSummary,
    ensures
        split(file.heading(parameters), '\n').len() == 2,
        split(file.heading(parameters), '\n')[1] == Seq::<char>::empty(),
        split(split(file.heading(parameters), '\n')[0], ',') == summary_names(file),
{
    let names = summary_names(file);
    assert forall|i: int| 0 <= i < 3 implies occurrences(#[trigger] names[i], ',') == 0
        && occurrences(names[i], '\n') == 0 by {
        law_summaries_match_their_heading(parameters, 0, 0, 0, file, i, ',');
        law_summaries_match_their_heading(parameters, 0, 0, 0, file, i, '\n');
    }
    law_summaries_match_their_heading(parameters, 0, 0, 0, file, 0, '\n');
    lemma_split_row(names);
}

/// The log always has the file of the statistics, which is the first, and with
/// tracking the two summaries after it; no file stands there twice.
pub proof fn law_files_of_the_log(parameters: Parameters, file: LogFile)
    ensures
        LogFile::all(parameters)[0] is Statistics,
        LogFile::all(parameters).contains(file) <==> file is Statistics
            || parameters.enable_dirty_page_tracker,
        LogFile::all(parameters).no_duplicates(),
        parameters.enable_dirty_page_tracker ==> LogFile::all(parameters)[1] is HostSummary,
{
    let files = LogFile::all(parameters);
    if parameters.enable_dirty_page_tracker {
        assert(files[0] is Statistics && files[1] is HostSummary && files[2] is GuestSummary);
    } else {
        assert(files[0] is Statistics);
    }
}

/// The total of an event goes part by part: that of two groups of cores is the sum
/// of theirs, and that of one core is its user and its kernel count together.
pub proof fn law_totals_of_groups(
    a: Seq<Seq<u64>>,
    b: Seq<Seq<u64>>,
    counters: Seq<u64>,
    event: EventType,
)
    ensures
        total(a + b, event) == total(a, event) + total(b, event),
        total(seq![counters], event) == count_of(counters, event, false) + count_of(
            counters,
            event,
            true,
        ),
        total(Seq::empty(), event) == 0,
{
    law_sums_of_groups(a, b, counters, event, false);
    law_sums_of_groups(a, b, counters, event, true);
}

/// What the log asks for. In a record it appends the row of every core, with the
/// counts of this core and the time stamp of the record; in a summary the time of
/// the record, its count of dirty pages, and the write misses of the shared cache
/// on all cores.
pub proof fn law_requests(
    phase: LogPhase,
    parameters: Parameters,
    cores: Seq<Seq<u64>>,
    host_count: nat,
)
    ensures
        ({
            let asked = request(phase, parameters, cores, host_count);
            let misses = total(cores, EventType::SharedCacheMissDueToDataWrite);
            match phase {
                LogPhase::HostCheck | LogPhase::HostRestart => asked is ReadHostTime,
                LogPhase::CoreTime { core_id, .. } => asked == LogRequest::ReadGuestTime(core_id),
                LogPhase::Stamp { .. } => asked is ReadTimestamp,
                LogPhase::Record { ts, .. } => {
                    let rows = split(asked->Append_1, '\n');
                    &&& asked is Append
                    &&& asked->Append_0 is Statistics
                    &&& rows.len() == cores.len() + 1
                    &&& forall|i: int|
                        0 <= i < cores.len() ==> is_row_of(
                            rows[i],
                            parameters,
                            #[trigger] cores[i],
                            host_count,
                            ts,
                            i,
                        )
                    &&& rows.last() == Seq::<char>::empty()
                },
                LogPhase::HostSummary { ts, dirty_page_count } => {
                    &&& asked is Append
                    &&& asked->Append_0 is HostSummary
                    &&& is_summary_of(asked->Append_1, ts, dirty_page_count as nat, misses)
                },
                LogPhase::GuestCheck => asked == LogRequest::ReadGuestTime(0),
                LogPhase::GuestSummary { now, dirty_page_count } => {
                    &&& asked is Append
                    &&& asked->Append_0 is GuestSummary
                    &&& is_summary_of(asked->Append_1, now, dirty_page_count as nat, misses)
                },
                LogPhase::Sleep => asked == LogRequest::Sleep(100),
            }
        }),
{
    let misses = total(cores, EventType::SharedCacheMissDueToDataWrite);
    match phase {
        LogPhase::Record { ts, .. } => {
            law_ended_lines_are_rows(parameters, cores, host_count, ts);
        },
        LogPhase::HostSummary { ts, dirty_page_count } => {
            law_summary_gives_its_numbers(ts, dirty_page_count, misses);
        },
        LogPhase::GuestSummary { now, dirty_page_count } => {
            law_summary_gives_its_numbers(now, dirty_page_count, misses);
        },
        _ => {},
    }
}

/// What a host record with tracking appends: the rows of the statistics and the
/// summary show the same time stamp and the same number of dirty pages, which is
/// the number collected when the record began.
pub proof fn law_host_record_appends_its_count(
    parameters: Parameters,
    world: LogWorld,
    steps: Seq<LogStep>,
    now: u128,
    ts: u64,
)
    requires
        parameters.enable_dirty_page_tracker,
        world.phase is HostCheck,
        world.host.collecting().len() <= MAX_PAGES,
        now >= world.next_host_time,
        is_host_record(parameters, steps, now, ts),
    ensures
        ({
            let n = parameters.core_count as int;
            let count = world.host.collecting().len();
            let record = world_after(
                parameters,
                world_run(parameters, world, steps.take(n + 1)),
                steps[n + 1].event,
            );
            let end = world_after(
                parameters,
                world_run(parameters, world, steps.take(n + 2)),
                steps[n + 2].event,
            );
            let lines = request(record.phase, parameters, record.cores, record.host.period_count);
            let line = request(end.phase, parameters, end.cores, end.host.period_count);
            let rows = split(lines->Append_1, '\n');
            &&& lines is Append && lines->Append_0 is Statistics
            &&& rows.len() == record.cores.len() + 1
            &&& forall|i: int|
                0 <= i < record.cores.len() ==> is_row_of(
                    rows[i],
                    parameters,
                    #[trigger] record.cores[i],
                    count,
                    ts,
                    i,
                )
            &&& line is Append && line->Append_0 is HostSummary
            &&& is_summary_of(
                line->Append_1,
                ts,
                count,
                total(end.cores, EventType::SharedCacheMissDueToDataWrite),
            )
        }),
{
    let n = parameters.core_count as int;
    law_host_record_keeps_its_count(parameters, world, steps, now, ts);
    lemma_take(steps, n + 2);
    lemma_take(steps, n + 3);
    assert(steps.take(n + 3) =~= steps);
    let record = world_after(
        parameters,
        world_run(parameters, world, steps.take(n + 1)),
        steps[n + 1].event,
    );
    let end = world_after(
        parameters,
        world_run(parameters, world, steps.take(n + 2)),
        steps[n + 2].event,
    );
    law_writes_add_pages(record.host, steps[n + 1].pages);
    law_requests(record.phase, parameters, record.cores, record.host.period_count);
    law_requests(end.phase, parameters, end.cores, end.host.period_count);
}

/// The log goes on with an event exactly if it answers what was asked for and
/// what is to be written next can be: for the statistics the counts of each core,
/// for a summary the sum of the misses, and for the next record the time for which
/// it is due must not overflow.
pub proof fn law_accepted_events(
    log: PeriodicLog,
    event: LogEvent,
    cores: Seq<Seq<u64>>,
    host_count: nat,
)
    requires
        log.wf(),
    ensures
        ({
            let fits = total(cores, EventType::SharedCacheMissDueToDataWrite)
                <= 0xFFFF_FFFF_FFFF_FFFF;
            log.accepts(event, cores) <==> {
                &&& answers(event, request(log.phase(), log.parameters(), cores, host_count))
                &&& log.phase() is Stamp ==> all_totals_fit(cores)
                &&& log.phase() is Record && log.parameters().enable_dirty_page_tracker ==> fits
                &&& log.phase() is HostRestart ==> event->HostTime_0 <= u128::MAX - 10_000_000_000
                &&& log.phase() is GuestCheck && event->GuestTime_0 >= log.next_guest_time()
                    ==> fits
                &&& log.phase() is GuestSummary ==> advanced(
                    log.next_guest_time() as int,
                    log.phase()->GuestSummary_now as int,
                ) <= 0xFFFF_FFFF_FFFF_FFFF
            }
        }),
{
}

/// An action stands for the request of the same kind, with the same core, file,
/// text or duration.
pub proof fn law_actions_are_requests(core_id: u32, file: LogFile, text: String, ms: u64)
    ensures
        LogAction::ReadHostTime@ == LogRequest::ReadHostTime,
        LogAction::ReadGuestTime(core_id)@ == LogRequest::ReadGuestTime(core_id),
        LogAction::ReadTimestamp@ == LogRequest::ReadTimestamp,
        LogAction::Append(file, text)@ == LogRequest::Append(file, text@),
        LogAction::Sleep(ms)@ == LogRequest::Sleep(ms),
{
}

} // verus!
