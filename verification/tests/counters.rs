use core_statistics::dirty_page_tracker::{swap_host_buffers, DirtyPageTrackers};
use core_statistics::event::EventType;
use core_statistics::instruction::{
    kernel_vcpu_insn_exec, on_translation_instructions, user_vcpu_insn_exec, InstructionCallback,
};
use core_statistics::parameter::Parameters;
use core_statistics::statistics::{PerCoreStatistics, Statistics};

fn parameters(core_count: u32, enable: bool, dirty: bool) -> Parameters {
    Parameters {
        core_count,
        enable_statistics: enable,
        enable_dirty_page_tracker: dirty,
        measure_half_of_cores: false,
    }
}

#[test]
fn a_new_core_counts_zero() {
    let core = PerCoreStatistics::new(parameters(1, true, false));
    for event in EventType::iter() {
        assert_eq!(core.count(event, false), 0);
        assert_eq!(core.count(event, true), 0);
    }
}

#[test]
fn recordings_touch_their_own_counter() {
    let mut core = PerCoreStatistics::new(parameters(1, true, false));
    core.record(EventType::BTBMiss, false);
    core.record(EventType::BTBMiss, false);
    core.record_by(EventType::BTBMiss, true, 40);
    core.record_by(EventType::RASMiss, false, 0);
    core.set(EventType::WaitForInterrupt, true, 9);
    core.set(EventType::WaitForInterrupt, true, 5);
    for event in EventType::iter() {
        let expected = match event {
            EventType::BTBMiss => (2, 40),
            EventType::WaitForInterrupt => (0, 5),
            _ => (0, 0),
        };
        assert_eq!((core.count(event, false), core.count(event, true)), expected);
    }
}

#[test]
fn a_counter_can_reach_its_limit() {
    let mut core = PerCoreStatistics::new(parameters(1, true, false));
    core.record_by(EventType::Instruction, false, u64::MAX);
    assert_eq!(core.count(EventType::Instruction, false), u64::MAX);
    assert!(core.has_fitting_totals());
    core.record(EventType::Instruction, true);
    assert!(!core.has_fitting_totals());
}

#[test]
fn disabled_statistics_count_nothing() {
    let mut core = PerCoreStatistics::new(parameters(1, false, false));
    core.record(EventType::TLBMiss, false);
    core.record_by(EventType::TLBMiss, true, u64::MAX);
    core.set(EventType::TLBMiss, false, 3);
    assert_eq!(core.count(EventType::TLBMiss, false), 0);
    assert_eq!(core.count(EventType::TLBMiss, true), 0);

    let mut all = Statistics::new(parameters(2, false, false));
    all.record(9, EventType::TLBMiss, false);
    all.record_by(9, EventType::TLBMiss, false, 8);
    all.set(9, EventType::TLBMiss, false, 8);
    assert_eq!(Statistics::global_query_record_all_cores(&all, EventType::TLBMiss), (0, 0, 0));
    assert!(all.can_record_by(9, EventType::TLBMiss, false, u64::MAX));
}

#[test]
fn queries_per_core_and_over_all_cores() {
    let mut all = Statistics::new(parameters(3, true, false));
    let event = EventType::SharedCacheMissDueToDataWrite;
    Statistics::global_record(&mut all, 0, event, false);
    Statistics::global_record_by(&mut all, 0, event, true, 10);
    Statistics::global_record_by(&mut all, 2, event, false, 100);
    Statistics::global_record(&mut all, 1, EventType::DataAccess, true);
    assert_eq!(Statistics::global_query_record(&all, 0, event), (11, 1, 10));
    assert_eq!(Statistics::global_query_record(&all, 1, event), (0, 0, 0));
    assert_eq!(Statistics::global_query_record(&all, 2, event), (100, 100, 0));
    assert_eq!(Statistics::global_query_record_all_cores(&all, event), (111, 101, 10));
    assert_eq!(
        Statistics::global_query_record_all_cores(&all, EventType::DataAccess),
        (1, 0, 1)
    );
    Statistics::global_set(&mut all, 2, event, false, 7);
    assert_eq!(Statistics::global_query_record(&all, 2, event), (7, 7, 0));
    assert_eq!(Statistics::global_query_record_all_cores(&all, event), (18, 8, 10));
}

#[test]
fn limits_are_told_beforehand() {
    let mut all = Statistics::new(parameters(2, true, false));
    let event = EventType::BranchCount;
    assert!(all.can_record_by(1, event, false, u64::MAX));
    assert!(!all.can_record_by(2, event, false, 0));
    all.record_by(1, event, false, u64::MAX - 1);
    assert!(all.can_record_by(1, event, false, 1));
    assert!(!all.can_record_by(1, event, false, 2));
    assert!(all.has_fitting_totals());
    assert!(all.has_fitting_sum(event));
    all.record(0, event, true);
    assert!(all.has_fitting_sum(event));
    assert_eq!(
        Statistics::global_query_record_all_cores(&all, event),
        (u64::MAX, u64::MAX - 1, 1)
    );
    all.record(0, event, false);
    assert!(all.has_fitting_totals());
    assert!(all.has_fitting_total(1, event));
    assert!(!all.has_fitting_total(2, event));
    assert!(!all.has_fitting_sum(event));
    all.record_by(1, event, true, 2);
    assert!(!all.has_fitting_totals());
    assert!(!all.has_fitting_total(1, event));
    assert!(all.has_fitting_total(0, event));
}

#[test]
fn header_names_three_columns_for_each_event() {
    let plain = Statistics::get_header(&parameters(1, true, false));
    assert!(plain.starts_with(
        "ts,core_id,Instruction,Instruction:u,Instruction:k,TargetLocalCycle,TargetLocalCycle:u,"
    ));
    assert!(plain.ends_with(",WaitForInterrupt,WaitForInterrupt:u,WaitForInterrupt:k"));
    assert_eq!(plain.split(',').count(), 122);
    let mut expected = String::from("ts,core_id");
    for event in EventType::iter() {
        expected = format!("{},{:?},{:?}:u,{:?}:k", expected, event, event, event);
    }
    assert_eq!(plain, expected);
    let dirty = Statistics::get_header(&parameters(1, true, true));
    assert_eq!(dirty, format!("{},DirtyPages", plain));
}

#[test]
fn line_lists_total_user_and_kernel() {
    let trackers = DirtyPageTrackers::new();
    let mut core = PerCoreStatistics::new(parameters(4, true, false));
    core.record_by(EventType::Instruction, false, 5);
    core.record_by(EventType::Instruction, true, 7);
    core.record(EventType::WaitForInterrupt, true);
    let line = core.get_line(1234, 3, &trackers);
    let mut expected = String::from("1234,3,12,5,7");
    for _ in 0..38 {
        expected.push_str(",0,0,0");
    }
    expected.push_str(",1,0,1");
    assert_eq!(line, expected);
}

#[test]
fn line_ends_with_the_dirty_pages() {
    let mut trackers = DirtyPageTrackers::new();
    trackers.host.mark_dirty(3);
    trackers.host.mark_dirty(4);
    assert_eq!(swap_host_buffers(&mut trackers), 2);
    trackers.host.mark_dirty(5);
    let core = PerCoreStatistics::new(parameters(1, true, true));
    let line = core.get_line(0, 0, &trackers);
    assert!(line.starts_with("0,0,0,0,0,"));
    assert!(line.ends_with(",0,0,0,2"));
    assert_eq!(line.split(',').count(), 123);
}

#[test]
fn lines_match_the_header() {
    let mut trackers = DirtyPageTrackers::new();
    trackers.host.mark_dirty(1);
    swap_host_buffers(&mut trackers);
    for dirty in [false, true] {
        let p = parameters(3, true, dirty);
        let mut all = Statistics::new(p);
        all.record_by(1, EventType::TageMiss, true, u64::MAX);
        let header = Statistics::get_header(&p);
        let lines = Statistics::global_get_line_for_all_cores(&all, u64::MAX, &trackers);
        assert_eq!(lines.len(), 3);
        for (core_id, line) in lines.iter().enumerate() {
            assert_eq!(line.split(',').count(), header.split(',').count());
            assert!(line.starts_with(&format!("{},{},", u64::MAX, core_id)));
            if dirty {
                assert!(line.ends_with(",1"));
            }
        }
        assert_eq!(lines, all.get_line_for_all_cores(u64::MAX, &trackers));
    }
}

#[test]
fn report_in_one_text() {
    let trackers = DirtyPageTrackers::new();
    let p = parameters(2, true, false);
    let all = Statistics::new(p);
    let text = Statistics::global_one_line_statistics(&all, &trackers);
    let rows: Vec<&str> = text.split('\n').collect();
    assert_eq!(rows.len(), 3);
    assert_eq!(rows[0], Statistics::get_header(&p));
    assert!(rows[1].starts_with("0,0,0,0,0,"));
    assert!(rows[2].starts_with("0,1,0,0,0,"));
}

#[test]
fn report_file_ends_each_row() {
    let trackers = DirtyPageTrackers::new();
    let p = parameters(2, true, false);
    let all = Statistics::new(p);
    let text = Statistics::csv_contents(&all, 77, &trackers);
    let lines = all.get_line_for_all_cores(77, &trackers);
    assert_eq!(
        text,
        format!("{}\n{}\n{}\n", Statistics::get_header(&p), lines[0], lines[1])
    );
    let none = Statistics::new(parameters(0, true, false));
    assert_eq!(
        Statistics::csv_contents(&none, 77, &trackers),
        format!("{}\n", Statistics::get_header(&p))
    );
}

#[test]
fn the_upper_half_of_the_addresses_is_the_kernel() {
    assert_eq!(on_translation_instructions(0, 3), InstructionCallback::User(3));
    assert_eq!(
        on_translation_instructions(0x7fff_ffff_ffff_ffff, 1),
        InstructionCallback::User(1)
    );
    assert_eq!(
        on_translation_instructions(0x8000_0000_0000_0000, 4),
        InstructionCallback::Kernel(4)
    );
    assert_eq!(on_translation_instructions(u64::MAX, 0), InstructionCallback::Kernel(0));
}

#[test]
fn executed_blocks_count_instructions() {
    let mut all = Statistics::new(parameters(2, true, false));
    user_vcpu_insn_exec(&mut all, 1, 12);
    kernel_vcpu_insn_exec(&mut all, 1, 30);
    user_vcpu_insn_exec(&mut all, 1, 1);
    assert_eq!(
        Statistics::global_query_record(&all, 1, EventType::Instruction),
        (43, 13, 30)
    );
    assert_eq!(
        Statistics::global_query_record(&all, 0, EventType::Instruction),
        (0, 0, 0)
    );
}

#[test]
fn columns_hold_what_the_header_names() {
    let mut trackers = DirtyPageTrackers::new();
    trackers.host.mark_dirty(8);
    swap_host_buffers(&mut trackers);
    let p = parameters(6, true, true);
    let mut core = PerCoreStatistics::new(p);
    for event in EventType::iter() {
        core.record_by(event, false, 1000 + event.index() as u64);
        core.record_by(event, true, 7 * event.index() as u64);
    }
    let header = Statistics::get_header(&p);
    let line = core.get_line(99, 5, &trackers);
    let names: Vec<&str> = header.split(',').collect();
    let cells: Vec<u64> = line.split(',').map(|c| c.parse::<u64>().unwrap()).collect();
    assert_eq!(names.len(), cells.len());
    let at = |name: String| cells[names.iter().position(|n| **n == *name).unwrap()];
    assert_eq!(at(String::from("ts")), 99);
    assert_eq!(at(String::from("core_id")), 5);
    assert_eq!(at(String::from("DirtyPages")), 1);
    for event in EventType::iter() {
        let u = core.count(event, false);
        let k = core.count(event, true);
        assert_eq!(at(event.to_string()), u + k);
        assert_eq!(at(format!("{}:u", event.to_string())), u);
        assert_eq!(at(format!("{}:k", event.to_string())), k);
    }
}

#[test]
fn report_file_is_the_report_and_a_line_break() {
    let trackers = DirtyPageTrackers::new();
    let mut all = Statistics::new(parameters(3, true, true));
    all.record_by(2, EventType::TLBAccess, true, 12);
    assert_eq!(
        Statistics::csv_contents(&all, 0, &trackers),
        format!("{}\n", Statistics::global_one_line_statistics(&all, &trackers))
    );
}

#[test]
fn column_names_differ_and_rows_are_single() {
    let p = parameters(1, true, true);
    let header = Statistics::get_header(&p);
    let mut names: Vec<&str> = header.split(',').collect();
    assert_eq!(names.len(), 123);
    names.sort();
    names.dedup();
    assert_eq!(names.len(), 123);
    assert!(!header.contains('\n'));
    let line = PerCoreStatistics::new(p).get_line(1, 0, &DirtyPageTrackers::new());
    assert!(!line.contains('\n'));
}
