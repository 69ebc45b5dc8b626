//! What the calls of the library have to do with each other: what one call returns
//! of what another one did, and which calls are allowed after which answers.
use vstd::prelude::*;
use vstd::string::*;

use crate::dirty_page_tracker::{
    access_action, decide_access, get_guest_dirty_page_count, get_host_dirty_page_count,
    swap_guest_buffers, swap_host_buffers, translation_action, vcpu_mem_access, AccessAction,
    AccessEvent, DirtyPageSet, DirtyPageTrackerPlugin, DirtyPageTrackers, TranslationAction,
    TranslationEvent, MAX_PAGES,
};
use crate::event::{law_positions_number_the_kinds, EventType};
use crate::instruction::{
    kernel_vcpu_insn_exec, on_translation_instructions, user_vcpu_insn_exec, InstructionCallback,
};
use crate::log_course::law_files_of_the_log;
use crate::parameter::Parameters;
use crate::periodic_log::{
    request, world_after, LogAction, LogEvent, LogFile, LogPhase, PeriodicLog,
};
use crate::statistics::{
    after_record, after_set, count_of, is_row_of, is_row_of_names, law_each_pair_has_its_counter,
    law_header_gives_the_names, law_line_gives_the_counts,
    law_lines_give_the_counts_of_their_cores, law_record_reads_back, law_report_is_a_table,
    law_set_reads_back, sum_of, totals_fit, PerCoreStatistics, Statistics, COUNTER_COUNT,
};
use crate::text::{
    decimal, is_number, join, joined, law_numbers_and_their_notation, push_decimal, split,
    terminate, terminated, texts, value,
};

verus! {

/// A block is counted in kernel mode exactly if its first address has the highest
/// bit set, and with its full size.
pub proof fn law_callback_of_a_block(pc: u64, size: usize, callback: InstructionCallback)
    requires
        call_ensures(on_translation_instructions, (pc, size), callback),
    ensures
        callback == if pc & 0x8000_0000_0000_0000 == 0 {
            InstructionCallback::User(size)
        } else {
            InstructionCallback::Kernel(size)
        },
{
    assert(pc & 0x8000_0000_0000_0000 == 0 <==> pc < 0x8000_0000_0000_0000) by (bit_vector);
}

/// Of all counts of all cores, the one named has become `count`, and every other one
/// is what it was.
pub open spec fn only_this_count_changed(
    before: Seq<Seq<u64>>,
    after: Seq<Seq<u64>>,
    core_id: int,
    event: EventType,
    is_os: bool,
    count: int,
) -> bool {
    &&& after.len() == before.len()
    &&& forall|c: int, e: EventType, m: bool|
        0 <= c < before.len() ==> #[trigger] count_of(after[c], e, m) == if c == core_id && e
            == event && m == is_os {
            count
        } else {
            count_of(before[c], e, m) as int
        }
}

/// Recording on a core changes one count.
proof fn lemma_recorded(
    parameters: Parameters,
    cores: Seq<Seq<u64>>,
    core_id: int,
    event: EventType,
    is_os: bool,
    increment: u64,
)
    requires
        parameters.enable_statistics,
        0 <= core_id < cores.len(),
        cores[core_id].len() == COUNTER_COUNT,
        count_of(cores[core_id], event, is_os) + increment <= u64::MAX,
    ensures
        only_this_count_changed(
            cores,
            after_record(parameters, cores, core_id, event, is_os, increment),
            core_id,
            event,
            is_os,
            count_of(cores[core_id], event, is_os) + increment,
        ),
{
    let after = after_record(parameters, cores, core_id, event, is_os, increment);
    assert forall|c: int, e: EventType, m: bool| 0 <= c < cores.len() implies #[trigger] count_of(
        after[c],
        e,
        m,
    ) == if c == core_id && e == event && m == is_os {
        count_of(cores[core_id], event, is_os) + increment
    } else {
        count_of(cores[c], e, m) as int
    } by {
        law_record_reads_back(parameters, cores, core_id, event, is_os, increment, c, e, m);
    }
}

/// What a call that records does.
pub open spec fn records(
    before: &Statistics,
    after: &Statistics,
    core_id: u32,
    event: EventType,
    is_os: bool,
    increment: int,
) -> bool {
    if before.parameters().enable_statistics {
        only_this_count_changed(
            before@,
            after@,
            core_id as int,
            event,
            is_os,
            count_of(before@[core_id as int], event, is_os) + increment,
        )
    } else {
        after@ == before@
    }
}

proof fn lemma_records(
    before: &Statistics,
    after: &Statistics,
    core_id: u32,
    event: EventType,
    is_os: bool,
    increment: u64,
)
    requires
        before.wf(),
        before.accepts(core_id, event, is_os, increment),
        after@ == after_record(
            before.parameters(),
            before@,
            core_id as int,
            event,
            is_os,
            increment,
        ),
    ensures
        records(before, after, core_id, event, is_os, increment as int),
{
    before.law_shape();
    if before.parameters().enable_statistics {
        lemma_recorded(
            before.parameters(),
            before@,
            core_id as int,
            event,
            is_os,
            increment,
        );
    }
}

/// An executed block raises the instruction count of its core, in its mode, by its
/// size, and no other count.
pub proof fn law_executed_blocks_are_counted(vcpu_idx: u32, size: u64)
    ensures
        forall|global: &mut Statistics|
            global.wf() && global.accepts(vcpu_idx, EventType::Instruction, false, size)
                && #[trigger] call_ensures(user_vcpu_insn_exec, (global, vcpu_idx, size), ())
                ==> records(
                &*global,
                &*final(global),
                vcpu_idx,
                EventType::Instruction,
                false,
                size as int,
            ),
        forall|global: &mut Statistics|
            global.wf() && global.accepts(vcpu_idx, EventType::Instruction, true, size)
                && #[trigger] call_ensures(kernel_vcpu_insn_exec, (global, vcpu_idx, size), ())
                ==> records(
                &*global,
                &*final(global),
                vcpu_idx,
                EventType::Instruction,
                true,
                size as int,
            ),
{
    assert forall|global: &mut Statistics|
        global.wf() && global.accepts(vcpu_idx, EventType::Instruction, false, size)
            && #[trigger] call_ensures(
            user_vcpu_insn_exec,
            (global, vcpu_idx, size),
            (),
        ) implies records(
        &*global,
        &*final(global),
        vcpu_idx,
        EventType::Instruction,
        false,
        size as int,
    ) by {
        lemma_records(
            &*global,
            &*final(global),
            vcpu_idx,
            EventType::Instruction,
            false,
            size,
        );
    }
    assert forall|global: &mut Statistics|
        global.wf() && global.accepts(vcpu_idx, EventType::Instruction, true, size)
            && #[trigger] call_ensures(
            kernel_vcpu_insn_exec,
            (global, vcpu_idx, size),
            (),
        ) implies records(
        &*global,
        &*final(global),
        vcpu_idx,
        EventType::Instruction,
        true,
        size as int,
    ) by {
        lemma_records(&*global, &*final(global), vcpu_idx, EventType::Instruction, true, size);
    }
}

/// A page that is marked is collected, wherever in the memory it lies, and raises
/// the count of its period by one unless it was marked before. Pages beyond the
/// memory are ignored.
pub proof fn law_marked_pages_are_collected(page: usize)
    ensures
        forall|set: &mut DirtyPageSet|
            set.wf() ==> #[trigger] call_requires(DirtyPageSet::mark_dirty, (set, page)),
        forall|set: &mut DirtyPageSet|
            set.wf() && #[trigger] call_ensures(DirtyPageSet::mark_dirty, (set, page), ()) ==> {
                &&& final(set).wf()
                &&& final(set)@.collecting() == if page < 16_777_216 {
                    set@.collecting().insert(page as int)
                } else {
                    set@.collecting()
                }
                &&& final(set)@.period_count == set@.period_count
                &&& final(set)@.collecting().len() == set@.collecting().len() + if page
                    < 16_777_216 && !set@.collecting().contains(page as int) {
                    1int
                } else {
                    0int
                }
            },
{
    assert forall|set: &mut DirtyPageSet|
        set.wf() && #[trigger] call_ensures(DirtyPageSet::mark_dirty, (set, page), ()) implies {
        &&& final(set).wf()
        &&& final(set)@.collecting() == if page < 16_777_216 {
            set@.collecting().insert(page as int)
        } else {
            set@.collecting()
        }
        &&& final(set)@.period_count == set@.period_count
        &&& final(set)@.collecting().len() == set@.collecting().len() + if page < 16_777_216
            && !set@.collecting().contains(page as int) {
            1int
        } else {
            0int
        }
    } by {
        set.law_collecting_is_bounded();
        assert(page < MAX_PAGES && set@.collecting().contains(page as int)
            ==> set@.collecting().insert(page as int) =~= set@.collecting());
    }
}

/// What is recorded is counted: once for a single event, by its increment for
/// several, on the core and in the mode named, and nowhere else.
pub proof fn law_recordings_are_counted(
    core_id: u32,
    event: EventType,
    is_os: bool,
    increment: u64,
)
    ensures
        forall|global: &mut Statistics|
            global.wf() && global.accepts(core_id, event, is_os, 1) && #[trigger] call_ensures(
                Statistics::record,
                (global, core_id, event, is_os),
                (),
            ) ==> records(&*global, &*final(global), core_id, event, is_os, 1),
        forall|global: &mut Statistics|
            global.wf() && global.accepts(core_id, event, is_os, 1) && #[trigger] call_ensures(
                Statistics::global_record,
                (global, core_id, event, is_os),
                (),
            ) ==> records(&*global, &*final(global), core_id, event, is_os, 1),
        forall|global: &mut Statistics|
            global.wf() && global.accepts(core_id, event, is_os, increment) && #[trigger] call_ensures(
                Statistics::record_by,
                (global, core_id, event, is_os, increment),
                (),
            ) ==> records(&*global, &*final(global), core_id, event, is_os, increment as int),
        forall|global: &mut Statistics|
            global.wf() && global.accepts(core_id, event, is_os, increment) && #[trigger] call_ensures(
                Statistics::global_record_by,
                (global, core_id, event, is_os, increment),
                (),
            ) ==> records(&*global, &*final(global), core_id, event, is_os, increment as int),
{
    assert forall|global: &mut Statistics|
        global.wf() && global.accepts(core_id, event, is_os, 1) && #[trigger] call_ensures(
            Statistics::record,
            (global, core_id, event, is_os),
            (),
        ) implies records(&*global, &*final(global), core_id, event, is_os, 1) by {
        lemma_records(&*global, &*final(global), core_id, event, is_os, 1);
    }
    assert forall|global: &mut Statistics|
        global.wf() && global.accepts(core_id, event, is_os, 1) && #[trigger] call_ensures(
            Statistics::global_record,
            (global, core_id, event, is_os),
            (),
        ) implies records(&*global, &*final(global), core_id, event, is_os, 1) by {
        lemma_records(&*global, &*final(global), core_id, event, is_os, 1);
    }
    assert forall|global: &mut Statistics|
        global.wf() && global.accepts(core_id, event, is_os, increment) && #[trigger] call_ensures(
            Statistics::record_by,
            (global, core_id, event, is_os, increment),
            (),
        ) implies records(&*global, &*final(global), core_id, event, is_os, increment as int) by {
        lemma_records(&*global, &*final(global), core_id, event, is_os, increment);
    }
    assert forall|global: &mut Statistics|
        global.wf() && global.accepts(core_id, event, is_os, increment) && #[trigger] call_ensures(
            Statistics::global_record_by,
            (global, core_id, event, is_os, increment),
            (),
        ) implies records(&*global, &*final(global), core_id, event, is_os, increment as int) by {
        lemma_records(&*global, &*final(global), core_id, event, is_os, increment);
    }
}

/// Setting a count of a core changes this count.
proof fn lemma_set(
    parameters: Parameters,
    cores: Seq<Seq<u64>>,
    core_id: int,
    event: EventType,
    is_os: bool,
    value: u64,
)
    requires
        parameters.enable_statistics,
        0 <= core_id < cores.len(),
        cores[core_id].len() == COUNTER_COUNT,
    ensures
        only_this_count_changed(
            cores,
            after_set(parameters, cores, core_id, event, is_os, value),
            core_id,
            event,
            is_os,
            value as int,
        ),
{
    let after = after_set(parameters, cores, core_id, event, is_os, value);
    assert forall|c: int, e: EventType, m: bool| 0 <= c < cores.len() implies #[trigger] count_of(
        after[c],
        e,
        m,
    ) == if c == core_id && e == event && m == is_os {
        value as int
    } else {
        count_of(cores[c], e, m) as int
    } by {
        law_set_reads_back(parameters, cores, core_id, event, is_os, value, c, e, m);
    }
}

/// A count that is set becomes what it is set to, and no other count changes.
pub proof fn law_settings_are_kept(core_id: u32, event: EventType, is_os: bool, value: u64)
    ensures
        forall|global: &mut Statistics|
            global.wf() && core_id < global@.len() && #[trigger] call_ensures(
                Statistics::set,
                (global, core_id, event, is_os, value),
                (),
            ) ==> if global.parameters().enable_statistics {
                only_this_count_changed(
                    global@,
                    final(global)@,
                    core_id as int,
                    event,
                    is_os,
                    value as int,
                )
            } else {
                final(global)@ == global@
            },
        forall|global: &mut Statistics|
            global.wf() && core_id < global@.len() && #[trigger] call_ensures(
                Statistics::global_set,
                (global, core_id, event, is_os, value),
                (),
            ) ==> if global.parameters().enable_statistics {
                only_this_count_changed(
                    global@,
                    final(global)@,
                    core_id as int,
                    event,
                    is_os,
                    value as int,
                )
            } else {
                final(global)@ == global@
            },
{
    assert forall|global: &mut Statistics|
        global.wf() && core_id < global@.len() && #[trigger] call_ensures(
                Statistics::set,
                (global, core_id, event, is_os, value),
                (),
            ) implies if global.parameters().enable_statistics {
                only_this_count_changed(
                    global@,
                    final(global)@,
                    core_id as int,
                    event,
                    is_os,
                    value as int,
                )
            } else {
                final(global)@ == global@
            } by {
        global.law_shape();
        if global.parameters().enable_statistics {
            lemma_set(global.parameters(), global@, core_id as int, event, is_os, value);
        }
    }
    assert forall|global: &mut Statistics|
        global.wf() && core_id < global@.len() && #[trigger] call_ensures(
                Statistics::global_set,
                (global, core_id, event, is_os, value),
                (),
            ) implies if global.parameters().enable_statistics {
                only_this_count_changed(
                    global@,
                    final(global)@,
                    core_id as int,
                    event,
                    is_os,
                    value as int,
                )
            } else {
                final(global)@ == global@
            } by {
        global.law_shape();
        if global.parameters().enable_statistics {
            lemma_set(global.parameters(), global@, core_id as int, event, is_os, value);
        }
    }
}

/// The same holds of the counters of a single core.
pub proof fn law_one_core_counts(event: EventType, is_os: bool, number: u64)
    ensures
        forall|core: &mut PerCoreStatistics|
            (core.parameters().enable_statistics ==> count_of(core@, event, is_os) < u64::MAX) && #[trigger] call_ensures(
                PerCoreStatistics::record,
                (core, event, is_os),
                (),
            ) ==> only_this_count_changed(
                seq![core@],
                seq![final(core)@],
                0,
                event,
                is_os,
                if core.parameters().enable_statistics {
                    count_of(core@, event, is_os) + 1
                } else {
                    count_of(core@, event, is_os) as int
                },
            ),
        forall|core: &mut PerCoreStatistics|
            (core.parameters().enable_statistics ==> count_of(core@, event, is_os) + number <= u64::MAX) && #[trigger] call_ensures(
                PerCoreStatistics::record_by,
                (core, event, is_os, number),
                (),
            ) ==> only_this_count_changed(
                seq![core@],
                seq![final(core)@],
                0,
                event,
                is_os,
                if core.parameters().enable_statistics {
                    count_of(core@, event, is_os) + number
                } else {
                    count_of(core@, event, is_os) as int
                },
            ),
        forall|core: &mut PerCoreStatistics|
            #[trigger] call_ensures(
                PerCoreStatistics::set,
                (core, event, is_os, number),
                (),
            ) ==> only_this_count_changed(
                seq![core@],
                seq![final(core)@],
                0,
                event,
                is_os,
                if core.parameters().enable_statistics {
                    number as int
                } else {
                    count_of(core@, event, is_os) as int
                },
            ),
{
    assert forall|core: &mut PerCoreStatistics|
        (core.parameters().enable_statistics ==> count_of(core@, event, is_os) < u64::MAX) && #[trigger] call_ensures(
                PerCoreStatistics::record,
                (core, event, is_os),
                (),
            ) implies only_this_count_changed(
                seq![core@],
                seq![final(core)@],
                0,
                event,
                is_os,
                if core.parameters().enable_statistics {
                    count_of(core@, event, is_os) + 1
                } else {
                    count_of(core@, event, is_os) as int
                },
            ) by {
        core.law_counter_count();
        if core.parameters().enable_statistics {
            lemma_recorded(core.parameters(), seq![core@], 0, event, is_os, 1);
            assert(after_record(core.parameters(), seq![core@], 0, event, is_os, 1)
                =~= seq![final(core)@]);
        }
    }
    assert forall|core: &mut PerCoreStatistics|
        (core.parameters().enable_statistics ==> count_of(core@, event, is_os) + number <= u64::MAX) && #[trigger] call_ensures(
                PerCoreStatistics::record_by,
                (core, event, is_os, number),
                (),
            ) implies only_this_count_changed(
                seq![core@],
                seq![final(core)@],
                0,
                event,
                is_os,
                if core.parameters().enable_statistics {
                    count_of(core@, event, is_os) + number
                } else {
                    count_of(core@, event, is_os) as int
                },
            ) by {
        core.law_counter_count();
        if core.parameters().enable_statistics {
            lemma_recorded(core.parameters(), seq![core@], 0, event, is_os, number);
            assert(after_record(core.parameters(), seq![core@], 0, event, is_os, number)
                =~= seq![final(core)@]);
        }
    }
    assert forall|core: &mut PerCoreStatistics|
        #[trigger] call_ensures(
                PerCoreStatistics::set,
                (core, event, is_os, number),
                (),
            ) implies only_this_count_changed(
                seq![core@],
                seq![final(core)@],
                0,
                event,
                is_os,
                if core.parameters().enable_statistics {
                    number as int
                } else {
                    count_of(core@, event, is_os) as int
                },
            ) by {
        core.law_counter_count();
        if core.parameters().enable_statistics {
            lemma_set(core.parameters(), seq![core@], 0, event, is_os, number);
            assert(after_set(core.parameters(), seq![core@], 0, event, is_os, number)
                =~= seq![final(core)@]);
        }
    }
}

/// At the start no core has counted anything, and there are counters for each core.
pub proof fn law_counting_starts_at_zero(
    parameters: Parameters,
    statistics: Statistics,
    core: PerCoreStatistics,
    core_id: int,
    event: EventType,
    is_os: bool,
)
    ensures
        call_ensures(Statistics::new, (parameters,), statistics) ==> {
            &&& statistics.wf()
            &&& statistics.parameters() == parameters
            &&& statistics@.len() == parameters.core_count
            &&& 0 <= core_id < parameters.core_count ==> count_of(
                statistics@[core_id],
                event,
                is_os,
            ) == 0
        },
        call_ensures(PerCoreStatistics::new, (parameters,), core) ==> core.parameters()
            == parameters && count_of(core@, event, is_os) == 0,
{
    law_each_pair_has_its_counter(event, is_os, event, is_os, 0);
}

/// A query of a core gives its counts in user and kernel mode, and their total;
/// one of all cores gives the sums.
pub proof fn law_queries_give_the_counts(
    statistics: &Statistics,
    core: &PerCoreStatistics,
    core_id: u32,
    event: EventType,
    is_os: bool,
    counts: (u64, u64, u64),
    count: u64,
)
    ensures
        call_ensures(Statistics::global_query_record, (statistics, core_id, event), counts) ==> {
            &&& counts.1 == count_of(statistics@[core_id as int], event, false)
            &&& counts.2 == count_of(statistics@[core_id as int], event, true)
            &&& counts.0 == counts.1 + counts.2
        },
        call_ensures(Statistics::global_query_record_all_cores, (statistics, event), counts) ==> {
            &&& counts.1 == sum_of(statistics@, event, false)
            &&& counts.2 == sum_of(statistics@, event, true)
            &&& counts.0 == counts.1 + counts.2
        },
        call_ensures(PerCoreStatistics::count, (core, event, is_os), count) ==> count == count_of(
            core@,
            event,
            is_os,
        ),
{
}

/// A report has a line for each core, and the line of a core shows what a query of
/// this core gives for each event, the time stamp, the core, and with tracking the
/// count of dirty pages that is asked for in host time.
pub proof fn law_lines_show_what_queries_give(
    statistics: &Statistics,
    trackers: &DirtyPageTrackers,
    ts: u64,
    lines: Vec<String>,
    core_id: u32,
    event: EventType,
    counts: (u64, u64, u64),
    dirty: usize,
)
    requires
        statistics.wf(),
        call_ensures(Statistics::get_line_for_all_cores, (statistics, ts, trackers), lines)
            || call_ensures(
            Statistics::global_get_line_for_all_cores,
            (statistics, ts, trackers),
            lines,
        ),
        core_id < statistics@.len(),
        call_ensures(Statistics::global_query_record, (statistics, core_id, event), counts),
        call_ensures(get_host_dirty_page_count, (trackers,), dirty),
    ensures
        ({
            let cells = split(lines@[core_id as int]@, ',');
            &&& lines@.len() == statistics@.len()
            &&& cells.len() == if statistics.parameters().enable_dirty_page_tracker {
                123int
            } else {
                122int
            }
            &&& value(cells[0]) == ts
            &&& value(cells[1]) == core_id
            &&& value(cells[3 * event.position() + 2]) == counts.0
            &&& value(cells[3 * event.position() + 3]) == counts.1
            &&& value(cells[3 * event.position() + 4]) == counts.2
            &&& statistics.parameters().enable_dirty_page_tracker ==> value(cells[122]) == dirty
        }),
{
    law_lines_give_the_counts_of_their_cores(
        statistics.parameters(),
        statistics@,
        trackers.host@.period_count,
        ts,
        core_id as int,
    );
    assert(texts(lines@).len() == lines@.len());
    assert(texts(lines@)[core_id as int] == lines@[core_id as int]@);
    assert(3 * event.position() + 2 + 1 == 3 * event.position() + 3);
    assert(3 * event.position() + 2 + 2 == 3 * event.position() + 4);
}

/// A report file and a report in one text consist of the header and of the lines,
/// and the line of a single core is the same as in a report on all.
pub proof fn law_reports_are_made_of_lines(
    statistics: &Statistics,
    core: &PerCoreStatistics,
    parameters: Parameters,
    trackers: &DirtyPageTrackers,
    ts: u64,
    core_id: u32,
    text: String,
)
    requires
        statistics.wf(),
    ensures
        call_ensures(Statistics::get_header, (&parameters,), text) ==> is_row_of_names(
            text@,
            parameters,
        ),
        call_ensures(PerCoreStatistics::get_line, (core, ts, core_id, trackers), text)
            ==> is_row_of(
            text@,
            core.parameters(),
            core@,
            trackers.host@.period_count,
            ts,
            core_id as int,
        ),
        call_ensures(Statistics::csv_contents, (statistics, ts, trackers), text) ==> {
            let rows = split(text@, '\n');
            &&& rows.len() == statistics@.len() + 2
            &&& is_row_of_names(rows[0], statistics.parameters())
            &&& forall|i: int|
                0 <= i < statistics@.len() ==> is_row_of(
                    rows[i + 1],
                    statistics.parameters(),
                    #[trigger] statistics@[i],
                    trackers.host@.period_count,
                    ts,
                    i,
                )
            &&& rows.last() == Seq::<char>::empty()
        },
        call_ensures(Statistics::global_one_line_statistics, (statistics, trackers), text) ==> {
            let rows = split(text@, '\n');
            &&& rows.len() == statistics@.len() + 1
            &&& is_row_of_names(rows[0], statistics.parameters())
            &&& forall|i: int|
                0 <= i < statistics@.len() ==> is_row_of(
                    rows[i + 1],
                    statistics.parameters(),
                    #[trigger] statistics@[i],
                    trackers.host@.period_count,
                    0,
                    i,
                )
        },
{
    law_header_gives_the_names(parameters);
    law_line_gives_the_counts(
        core.parameters(),
        core@,
        trackers.host@.period_count,
        ts,
        core_id as int,
    );
    law_report_is_a_table(
        statistics.parameters(),
        statistics@,
        trackers.host@.period_count,
        ts,
    );
    law_report_is_a_table(statistics.parameters(), statistics@, trackers.host@.period_count, 0);
}

/// The calls that test whether a report, a query or a recording can be made say yes
/// where it can, and no only where a number would not fit or the core is missing.
pub proof fn law_tests_tell_what_can_be_called(
    statistics: &Statistics,
    trackers: &DirtyPageTrackers,
    ts: u64,
    core_id: u32,
    event: EventType,
    is_os: bool,
    increment: u64,
    yes: bool,
)
    requires
        statistics.wf(),
    ensures
        call_ensures(Statistics::has_fitting_totals, (statistics,), yes) ==> {
            &&& yes ==> call_requires(
                Statistics::get_line_for_all_cores,
                (statistics, ts, trackers),
            ) && call_requires(Statistics::csv_contents, (statistics, ts, trackers))
                && call_requires(Statistics::global_one_line_statistics, (statistics, trackers))
            &&& !yes ==> exists|c: int, e: EventType|
                0 <= c < statistics@.len() && #[trigger] count_of(statistics@[c], e, false)
                    + count_of(statistics@[c], e, true) > 0xFFFF_FFFF_FFFF_FFFF
        },
        call_ensures(Statistics::has_fitting_sum, (statistics, event), yes) ==> {
            &&& yes ==> call_requires(
                Statistics::global_query_record_all_cores,
                (statistics, event),
            )
            &&& yes == (sum_of(statistics@, event, false) + sum_of(statistics@, event, true)
                <= 0xFFFF_FFFF_FFFF_FFFF)
        },
        call_ensures(Statistics::has_fitting_total, (statistics, core_id, event), yes) ==> {
            &&& yes ==> call_requires(
                Statistics::global_query_record,
                (statistics, core_id, event),
            )
            &&& yes == (core_id < statistics@.len() && count_of(
                statistics@[core_id as int],
                event,
                false,
            ) + count_of(statistics@[core_id as int], event, true) <= 0xFFFF_FFFF_FFFF_FFFF)
        },
        call_ensures(
            Statistics::can_record_by,
            (statistics, core_id, event, is_os, increment),
            yes,
        ) ==> yes == (!statistics.parameters().enable_statistics || (core_id < statistics@.len()
            && count_of(statistics@[core_id as int], event, is_os) + increment
            <= 0xFFFF_FFFF_FFFF_FFFF)),
        forall|global: &mut Statistics|
            *global == *statistics && call_ensures(
                Statistics::can_record_by,
                (statistics, core_id, event, is_os, increment),
                true,
            ) ==> #[trigger] call_requires(
                Statistics::record_by,
                (global, core_id, event, is_os, increment),
            ),
{
    statistics.law_shape();
    if call_ensures(Statistics::has_fitting_totals, (statistics,), yes) && !yes {
        let c = choose|c: int|
            0 <= c < statistics@.len() && !totals_fit(#[trigger] statistics@[c]);
        let e = choose|e: EventType|
            #[trigger] count_of(statistics@[c], e, false) + count_of(statistics@[c], e, true)
                > u64::MAX;
        assert(count_of(statistics@[c], e, false) + count_of(statistics@[c], e, true)
            > 0xFFFF_FFFF_FFFF_FFFF);
    }
}

/// The end of a period gives the number of pages collected in it, which is what is
/// asked for until the next one ends, and the next period begins with none.
pub proof fn law_ended_periods_are_counted(count: usize)
    ensures
        forall|set: &mut DirtyPageSet|
            set.wf() ==> #[trigger] call_requires(DirtyPageSet::swap_and_count, (set,)),
        forall|set: &mut DirtyPageSet|
            set.wf() && #[trigger] call_ensures(DirtyPageSet::swap_and_count, (set,), count) ==> {
                &&& final(set).wf()
                &&& count == set@.collecting().len()
                &&& count == final(set)@.period_count
                &&& final(set)@.collecting() == Set::<int>::empty()
            },
        forall|set: &DirtyPageSet|
            #[trigger] call_ensures(DirtyPageSet::get_count, (set,), count) ==> count
                == set@.period_count,
{
}

/// The end of a period in host time counts the pages in host time and leaves those
/// in guest time as they are, and the other way round.
pub proof fn law_time_domains_are_apart(count: usize)
    ensures
        forall|trackers: &mut DirtyPageTrackers|
            trackers.wf() && #[trigger] call_ensures(swap_host_buffers, (trackers,), count) ==> {
                &&& final(trackers).wf()
                &&& count == trackers.host@.collecting().len()
                &&& final(trackers).host@.collecting() == Set::<int>::empty()
                &&& final(trackers).guest == trackers.guest
                &&& forall|n: usize|
                    #[trigger] call_ensures(
                        get_host_dirty_page_count,
                        (&*final(trackers),),
                        n,
                    ) ==> n == count
                &&& forall|n: usize|
                    #[trigger] call_ensures(
                        get_guest_dirty_page_count,
                        (&*final(trackers),),
                        n,
                    ) ==> n == trackers.guest@.period_count
            },
        forall|trackers: &mut DirtyPageTrackers|
            trackers.wf() && #[trigger] call_ensures(swap_guest_buffers, (trackers,), count) ==> {
                &&& final(trackers).wf()
                &&& count == trackers.guest@.collecting().len()
                &&& final(trackers).guest@.collecting() == Set::<int>::empty()
                &&& final(trackers).host == trackers.host
                &&& forall|n: usize|
                    #[trigger] call_ensures(
                        get_guest_dirty_page_count,
                        (&*final(trackers),),
                        n,
                    ) ==> n == count
                &&& forall|n: usize|
                    #[trigger] call_ensures(
                        get_host_dirty_page_count,
                        (&*final(trackers),),
                        n,
                    ) ==> n == trackers.host@.period_count
            },
{
}

/// Once the physical address of an access is known, its page is collected in both
/// time domains, if it lies in the first 64 GiB; no other event changes anything.
/// What follows an event is the same whether it is asked for alone or with the
/// marking.
pub proof fn law_accesses_mark_their_page(
    parameters: Parameters,
    vcpu_idx: u32,
    event: AccessEvent,
    action: AccessAction,
)
    ensures
        forall|trackers: &mut DirtyPageTrackers|
            trackers.wf() && #[trigger] call_ensures(
                vcpu_mem_access,
                (&parameters, trackers, vcpu_idx, event),
                action,
            ) ==> {
                &&& final(trackers).wf()
                &&& final(trackers).host@.period_count == trackers.host@.period_count
                &&& final(trackers).guest@.period_count == trackers.guest@.period_count
                &&& match event {
                    AccessEvent::PhysicalAddress(pa) if pa < 0x10_0000_0000 => {
                        let page = pa as int / 0x1000;
                        &&& final(trackers).host@.collecting()
                            == trackers.host@.collecting().insert(page)
                        &&& final(trackers).guest@.collecting()
                            == trackers.guest@.collecting().insert(page)
                    },
                    _ => *final(trackers) == *trackers,
                }
                &&& action == access_action(parameters, vcpu_idx, event)
            },
        call_ensures(decide_access, (&parameters, vcpu_idx, event), action) ==> action
            == access_action(parameters, vcpu_idx, event),
{
}

/// The plugin announces itself, and asks for the instructions of a block, exactly
/// if tracking is enabled.
pub proof fn law_plugin_works_if_enabled(
    parameters: Parameters,
    event: TranslationEvent,
    action: TranslationAction,
    message: Option<String>,
)
    ensures
        call_ensures(DirtyPageTrackerPlugin::init, (&parameters,), message) ==> (message is Some
            <==> parameters.enable_dirty_page_tracker) && (message matches Some(text) ==> text@
            == "Dirty page tracker plugin initialized."@),
        call_ensures(DirtyPageTrackerPlugin::on_translation, (&parameters, event), action)
            ==> action == translation_action(parameters, event),
        call_ensures(
            DirtyPageTrackerPlugin::on_translation,
            (&parameters, TranslationEvent::Begin),
            action,
        ) ==> (action is Count <==> parameters.enable_dirty_page_tracker) && (action is Finish
            <==> !parameters.enable_dirty_page_tracker),
{
}

/// A step of the log: everything that it changes, and what it asks for then. Pages
/// leave the guest map only when a guest record is due, and the host map only when
/// a host record is due. A record keeps its count of dirty pages and its time stamp
/// from phase to phase.
pub proof fn law_steps_of_the_log(event: LogEvent, action: LogAction)
    ensures
        forall|
            log: &mut PeriodicLog,
            statistics: &mut Statistics,
            trackers: &mut DirtyPageTrackers,
        |
            log.wf() && statistics.wf() && statistics.parameters() == log.parameters()
                && trackers.wf() && log.accepts(event, statistics@) ==> #[trigger] call_requires(
                PeriodicLog::step,
                (log, event, statistics, trackers),
            ),
        forall|
            log: &mut PeriodicLog,
            statistics: &mut Statistics,
            trackers: &mut DirtyPageTrackers,
        |
            log.wf() && statistics.wf() && trackers.wf() && #[trigger] call_ensures(
                PeriodicLog::step,
                (log, event, statistics, trackers),
                action,
            ) ==> {
                let after = final(log).world(
                    final(statistics)@,
                    final(trackers).host@,
                    final(trackers).guest@,
                );
                &&& final(log).wf() && final(statistics).wf() && final(trackers).wf()
                &&& final(log).parameters() == log.parameters()
                &&& final(statistics).parameters() == statistics.parameters()
                &&& after == world_after(
                    log.parameters(),
                    log.world(statistics@, trackers.host@, trackers.guest@),
                    event,
                )
                &&& action@ == request(
                    after.phase,
                    log.parameters(),
                    after.cores,
                    after.host.period_count,
                )
                &&& log.phase() is GuestCheck && event is GuestTime && event->GuestTime_0
                    >= log.next_guest_time() || final(trackers).guest@ == trackers.guest@
                &&& log.phase() is HostCheck && event is HostTime && event->HostTime_0
                    >= log.next_host_time() || final(trackers).host@ == trackers.host@
                &&& carries(log.phase(), after.phase)
            },
{
    assert forall|
        log: &mut PeriodicLog,
        statistics: &mut Statistics,
        trackers: &mut DirtyPageTrackers,
    |
        log.wf() && statistics.wf() && trackers.wf() && #[trigger] call_ensures(
            PeriodicLog::step,
            (log, event, statistics, trackers),
            action,
        ) implies carries(log.phase(), final(log).phase()) by {}
}

/// What a record has when it enters a phase is what it has when it leaves it.
pub open spec fn carries(before: LogPhase, after: LogPhase) -> bool {
    match (before, after) {
        (
            LogPhase::CoreTime { dirty_page_count: a, .. },
            LogPhase::CoreTime { dirty_page_count: b, .. },
        ) => a == b,
        (LogPhase::CoreTime { dirty_page_count: a, .. }, LogPhase::Stamp { dirty_page_count: b }) =>
        a == b,
        (
            LogPhase::Stamp { dirty_page_count: a },
            LogPhase::Record { dirty_page_count: b, .. },
        ) => a == b,
        (
            LogPhase::Record { dirty_page_count: a, ts: s },
            LogPhase::HostSummary { dirty_page_count: b, ts: t },
        ) => a == b && s == t,
        _ => true,
    }
}

/// The log says that it can go on with an event exactly if it accepts it, and then
/// it does.
pub proof fn law_log_goes_on_if_it_can(
    log: &PeriodicLog,
    event: LogEvent,
    statistics: &Statistics,
    yes: bool,
)
    requires
        statistics.wf(),
        call_ensures(PeriodicLog::can_step, (log, event, statistics), yes),
    ensures
        yes == log.accepts(event, statistics@),
        yes && log.wf() && statistics.parameters() == log.parameters() ==> forall|
            same: &mut PeriodicLog,
            counted: &mut Statistics,
            trackers: &mut DirtyPageTrackers,
        |
            *same == *log && *counted == *statistics && trackers.wf() ==> #[trigger] call_requires(
                PeriodicLog::step,
                (same, event, counted, trackers),
            ),
{
}

/// The log begins by reading the host clock; the first records are due ten seconds
/// of host time and one second of guest time later.
pub proof fn law_log_begins(
    parameters: Parameters,
    host_now: u128,
    guest_now: u64,
    log: PeriodicLog,
    action: LogAction,
)
    requires
        call_ensures(PeriodicLog::new, (parameters, host_now, guest_now), (log, action)),
    ensures
        log.wf(),
        log.parameters() == parameters,
        log.phase() is HostCheck,
        log.next_host_time() == host_now + 10_000_000_000,
        log.next_guest_time() == guest_now + 1_000_000_000,
        action@ is ReadHostTime,
{
}

/// The files of the log, the names under which they stand, and the texts that they
/// begin with.
pub proof fn law_files_are_listed(
    parameters: Parameters,
    file: LogFile,
    files: Vec<LogFile>,
    name: String,
    text: String,
)
    ensures
        call_ensures(LogFile::list, (&parameters,), files) ==> (files@.contains(file)
            <==> file is Statistics || parameters.enable_dirty_page_tracker),
        call_ensures(LogFile::file_name, (file,), name) ==> name@ == file.name(),
        call_ensures(LogFile::first_text, (file, &parameters), text) ==> text@ == file.heading(
            parameters,
        ),
{
    law_files_of_the_log(parameters, file);
}

/// A number is appended as it is written, after what stood there; lists are joined
/// and terminated with the separator given.
pub proof fn law_texts_are_put_together(n: u64, list: &Vec<String>, separator: &str, text: String)
    ensures
        forall|out: &mut String|
            #[trigger] call_ensures(push_decimal, (out, n), ()) ==> {
                let end = final(out)@.skip(out@.len() as int);
                &&& final(out)@ == out@ + end
                &&& is_number(end)
                &&& value(end) == n
            },
        call_ensures(join, (list, separator), text) ==> text@ == joined(texts(list@), separator@),
        call_ensures(terminate, (list, separator), text) ==> text@ == terminated(
            texts(list@),
            separator@,
        ),
{
    assert forall|out: &mut String| #[trigger] call_ensures(push_decimal, (out, n), ()) implies {
        let end = final(out)@.skip(out@.len() as int);
        &&& final(out)@ == out@ + end
        &&& is_number(end)
        &&& value(end) == n
    } by {
        let end = final(out)@.skip(out@.len() as int);
        assert(end =~= decimal(n as nat));
        law_numbers_and_their_notation(n as nat, end);
    }
}

/// Every kind of event stands in the list of all at its own index, once, and is
/// written under its name.
pub proof fn law_events_are_listed(
    event: EventType,
    index: usize,
    events: Vec<EventType>,
    name: String,
)
    ensures
        call_ensures(EventType::iter, (), events) ==> events@.len() == 40 && events@.contains(
            event,
        ) && events@.no_duplicates(),
        call_ensures(EventType::index, (event,), index) ==> index < 40 && (call_ensures(
            EventType::iter,
            (),
            events,
        ) ==> events@[index as int] == event),
        call_ensures(EventType::to_string, (event,), name) ==> name@ == event.name(),
{
    law_positions_number_the_kinds(event, 0);
    if call_ensures(EventType::iter, (), events) {
        assert(events@[event.position()] == event);
        assert forall|i: int, j: int| 0 <= i < j < 40 implies events@[i] != events@[j] by {
            law_positions_number_the_kinds(event, i);
            law_positions_number_the_kinds(event, j);
        }
    }
}

} // verus!
