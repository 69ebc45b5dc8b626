use core_statistics::dirty_page_tracker::{
    decide_access, get_guest_dirty_page_count, get_host_dirty_page_count, swap_guest_buffers, swap_host_buffers,
    vcpu_mem_access, AccessAction, AccessEvent, DirtyPageSet, DirtyPageTrackerPlugin,
    DirtyPageTrackers, TranslationAction, TranslationEvent, MAX_PAGES, MAX_RAM_SIZE_GB, PAGE_SIZE,
};
use core_statistics::parameter::Parameters;

fn parameters(enable: bool, half: bool) -> Parameters {
    Parameters {
        core_count: 8,
        enable_statistics: true,
        enable_dirty_page_tracker: enable,
        measure_half_of_cores: half,
    }
}

#[test]
fn tracked_memory_is_64_gib() {
    assert_eq!(MAX_PAGES, 16_777_216);
    assert_eq!(MAX_PAGES as u64 * PAGE_SIZE, MAX_RAM_SIZE_GB << 30);
}

#[test]
fn a_new_set_counts_nothing() {
    let mut set = DirtyPageSet::new();
    assert_eq!(set.get_count(), 0);
    assert_eq!(set.swap_and_count(), 0);
    assert_eq!(set.get_count(), 0);
}

#[test]
fn a_period_counts_different_pages() {
    let mut set = DirtyPageSet::new();
    set.mark_dirty(0);
    set.mark_dirty(7);
    set.mark_dirty(7);
    set.mark_dirty(MAX_PAGES - 1);
    assert_eq!(set.get_count(), 0);
    assert_eq!(set.swap_and_count(), 3);
    assert_eq!(set.get_count(), 3);
}

#[test]
fn pages_outside_the_memory_are_ignored() {
    let mut set = DirtyPageSet::new();
    set.mark_dirty(MAX_PAGES);
    set.mark_dirty(usize::MAX);
    assert_eq!(set.swap_and_count(), 0);
}

#[test]
fn periods_do_not_share_pages() {
    let mut set = DirtyPageSet::new();
    set.mark_dirty(1);
    set.mark_dirty(2);
    assert_eq!(set.swap_and_count(), 2);
    set.mark_dirty(2);
    assert_eq!(set.get_count(), 2);
    assert_eq!(set.swap_and_count(), 1);
    assert_eq!(set.swap_and_count(), 0);
    set.mark_dirty(1);
    set.mark_dirty(3);
    set.mark_dirty(4);
    assert_eq!(set.swap_and_count(), 3);
    assert_eq!(set.get_count(), 3);
}

fn store(parameters: &Parameters, trackers: &mut DirtyPageTrackers, vcpu: u32, pa: u64) -> bool {
    if vcpu_mem_access(parameters, trackers, vcpu, AccessEvent::Begin) != AccessAction::AskStore {
        return false;
    }
    assert_eq!(
        vcpu_mem_access(parameters, trackers, vcpu, AccessEvent::Store(true)),
        AccessAction::AskDevice
    );
    assert_eq!(
        vcpu_mem_access(parameters, trackers, vcpu, AccessEvent::Device(false)),
        AccessAction::AskPhysicalAddress
    );
    assert_eq!(
        vcpu_mem_access(parameters, trackers, vcpu, AccessEvent::PhysicalAddress(pa)),
        AccessAction::Finish
    );
    true
}

#[test]
fn time_domains_are_independent() {
    let p = parameters(true, false);
    let mut trackers = DirtyPageTrackers::new();
    assert!(store(&p, &mut trackers, 0, 0));
    assert!(store(&p, &mut trackers, 1, 4095));
    assert!(store(&p, &mut trackers, 2, 4096));
    assert_eq!(swap_host_buffers(&mut trackers), 2);
    assert_eq!(get_host_dirty_page_count(&trackers), 2);
    assert_eq!(get_guest_dirty_page_count(&trackers), 0);
    assert!(store(&p, &mut trackers, 0, 3 * 4096 + 17));
    assert_eq!(swap_guest_buffers(&mut trackers), 3);
    assert_eq!(get_guest_dirty_page_count(&trackers), 3);
    assert_eq!(get_host_dirty_page_count(&trackers), 2);
    assert_eq!(swap_host_buffers(&mut trackers), 1);
}

#[test]
fn stores_beyond_the_memory_are_ignored() {
    let p = parameters(true, false);
    let mut trackers = DirtyPageTrackers::new();
    assert!(store(&p, &mut trackers, 0, 64 << 30));
    assert!(store(&p, &mut trackers, 0, u64::MAX));
    assert!(store(&p, &mut trackers, 0, (64 << 30) - 1));
    assert_eq!(swap_host_buffers(&mut trackers), 1);
}

#[test]
fn loads_and_devices_are_ignored() {
    let p = parameters(true, false);
    let mut trackers = DirtyPageTrackers::new();
    assert_eq!(
        vcpu_mem_access(&p, &mut trackers, 0, AccessEvent::Store(false)),
        AccessAction::Finish
    );
    assert_eq!(
        vcpu_mem_access(&p, &mut trackers, 0, AccessEvent::Device(true)),
        AccessAction::Finish
    );
    assert_eq!(swap_host_buffers(&mut trackers), 0);
    assert_eq!(swap_guest_buffers(&mut trackers), 0);
}

#[test]
fn accesses_are_ignored_while_disabled() {
    let p = parameters(false, false);
    let mut trackers = DirtyPageTrackers::new();
    assert!(!store(&p, &mut trackers, 0, 0));
    assert_eq!(swap_host_buffers(&mut trackers), 0);
}

#[test]
fn only_the_first_half_is_measured() {
    let p = parameters(true, true);
    let mut trackers = DirtyPageTrackers::new();
    assert!(store(&p, &mut trackers, 3, 0));
    assert!(!store(&p, &mut trackers, 4, 4096));
    assert!(!store(&p, &mut trackers, 7, 8192));
    assert_eq!(swap_host_buffers(&mut trackers), 1);
    let all = parameters(true, false);
    assert!(store(&all, &mut trackers, 7, 8192));
}

#[test]
fn plugin_announces_itself_when_enabled() {
    assert_eq!(
        DirtyPageTrackerPlugin::init(&parameters(true, false)),
        Some(String::from("Dirty page tracker plugin initialized."))
    );
    assert_eq!(DirtyPageTrackerPlugin::init(&parameters(false, false)), None);
}

#[test]
fn plugin_registers_every_instruction() {
    let p = parameters(true, false);
    assert_eq!(
        DirtyPageTrackerPlugin::on_translation(&p, TranslationEvent::Begin),
        TranslationAction::Count
    );
    let count = 5usize;
    let mut seen: Vec<usize> = Vec::new();
    let mut action =
        DirtyPageTrackerPlugin::on_translation(&p, TranslationEvent::Counted(count));
    while let TranslationAction::Register(index) = action {
        seen.push(index);
        action = DirtyPageTrackerPlugin::on_translation(
            &p,
            TranslationEvent::Registered { index, count },
        );
    }
    assert_eq!(action, TranslationAction::Finish);
    assert_eq!(seen, vec![0, 1, 2, 3, 4]);
}

#[test]
fn plugin_skips_empty_blocks_and_when_disabled() {
    assert_eq!(
        DirtyPageTrackerPlugin::on_translation(
            &parameters(true, false),
            TranslationEvent::Counted(0)
        ),
        TranslationAction::Finish
    );
    assert_eq!(
        DirtyPageTrackerPlugin::on_translation(&parameters(false, false), TranslationEvent::Begin),
        TranslationAction::Finish
    );
}

#[test]
fn decisions_need_no_trackers() {
    let p = parameters(true, true);
    let events = [
        (AccessEvent::Begin, AccessAction::AskStore),
        (AccessEvent::Store(true), AccessAction::AskDevice),
        (AccessEvent::Store(false), AccessAction::Finish),
        (AccessEvent::Device(false), AccessAction::AskPhysicalAddress),
        (AccessEvent::Device(true), AccessAction::Finish),
        (AccessEvent::PhysicalAddress(4096), AccessAction::Finish),
    ];
    for (event, action) in events {
        assert_eq!(decide_access(&p, 0, event), action);
    }
    assert_eq!(decide_access(&p, 4, AccessEvent::Begin), AccessAction::Finish);
    assert_eq!(
        decide_access(&parameters(false, false), 0, AccessEvent::Begin),
        AccessAction::Finish
    );
}

#[test]
fn both_maps_are_clear_after_a_swap() {
    let mut set = DirtyPageSet::new();
    for page in [0, 5, 9, MAX_PAGES - 1] {
        set.mark_dirty(page);
    }
    assert_eq!(set.swap_and_count(), 4);
    assert_eq!(set.swap_and_count(), 0);
    assert_eq!(set.swap_and_count(), 0);
}
