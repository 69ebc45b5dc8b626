use core_statistics::dirty_page_tracker::DirtyPageTrackers;
use core_statistics::event::EventType;
use core_statistics::parameter::Parameters;
use core_statistics::periodic_log::{LogAction, LogEvent, LogFile, PeriodicLog};
use core_statistics::statistics::Statistics;

fn parameters(core_count: u32, dirty: bool) -> Parameters {
    Parameters {
        core_count,
        enable_statistics: true,
        enable_dirty_page_tracker: dirty,
        measure_half_of_cores: false,
    }
}

struct World {
    log: PeriodicLog,
    statistics: Statistics,
    trackers: DirtyPageTrackers,
}

impl World {
    fn new(p: Parameters, host: u128, guest: u64) -> World {
        let (log, first) = PeriodicLog::new(p, host, guest);
        assert!(matches!(first, LogAction::ReadHostTime));
        World { log, statistics: Statistics::new(p), trackers: DirtyPageTrackers::new() }
    }

    fn step(&mut self, event: LogEvent) -> LogAction {
        assert!(self.log.can_step(event, &self.statistics));
        self.log.step(event, &mut self.statistics, &mut self.trackers)
    }

    fn text(&mut self, event: LogEvent, expected: LogFile) -> String {
        match self.step(event) {
            LogAction::Append(file, text) => {
                assert_eq!(file, expected);
                text
            }
            _ => panic!("no text"),
        }
    }
}

const S: u128 = 1_000_000_000;

#[test]
fn files_of_the_log() {
    let on = parameters(1, true);
    assert_eq!(
        LogFile::list(&on),
        vec![LogFile::Statistics, LogFile::HostSummary, LogFile::GuestSummary]
    );
    assert_eq!(LogFile::list(&parameters(1, false)), vec![LogFile::Statistics]);
    assert_eq!(LogFile::Statistics.file_name(), "statistics.csv");
    assert_eq!(LogFile::HostSummary.file_name(), "dirty_pages_and_cache_misses.csv");
    assert_eq!(LogFile::GuestSummary.file_name(), "dirty_pages_guest.csv");
    assert_eq!(
        LogFile::Statistics.first_text(&on),
        format!("{}\n", Statistics::get_header(&on))
    );
    assert_eq!(
        LogFile::HostSummary.first_text(&on),
        "timestamp,DirtyPages,SharedCacheMissDueToDataWrite\n"
    );
    assert_eq!(
        LogFile::GuestSummary.first_text(&on),
        "guest_timestamp_ns,DirtyPages,SharedCacheMissDueToDataWrite\n"
    );
}

#[test]
fn nothing_is_due_at_first() {
    let mut w = World::new(parameters(2, true), 5 * S, 1000);
    assert!(matches!(w.step(LogEvent::HostTime(15 * S - 1)), LogAction::ReadGuestTime(0)));
    assert!(matches!(w.step(LogEvent::GuestTime(1_000_000_999)), LogAction::Sleep(100)));
    assert!(matches!(w.step(LogEvent::Done), LogAction::ReadHostTime));
}

#[test]
fn a_host_record_with_the_tracker() {
    let mut w = World::new(parameters(2, true), 0, 0);
    w.trackers.host.mark_dirty(1);
    w.trackers.host.mark_dirty(2);
    let misses = EventType::SharedCacheMissDueToDataWrite;
    w.statistics.record_by(0, misses, false, 4);
    w.statistics.record_by(1, misses, true, 5);
    assert!(matches!(w.step(LogEvent::HostTime(10 * S)), LogAction::ReadGuestTime(0)));
    w.trackers.host.mark_dirty(9);
    assert!(matches!(w.step(LogEvent::GuestTime(111)), LogAction::ReadGuestTime(1)));
    assert!(matches!(w.step(LogEvent::GuestTime(222)), LogAction::ReadTimestamp));
    let text = w.text(LogEvent::Timestamp(33), LogFile::Statistics);
    let rows: Vec<&str> = text.split('\n').collect();
    assert_eq!(rows.len(), 3);
    assert!(rows[0].starts_with("33,0,0,0,0,111,111,0,"));
    assert!(rows[1].starts_with("33,1,0,0,0,222,222,0,"));
    assert!(rows[0].ends_with(",2"));
    assert!(rows[1].ends_with(",2"));
    assert_eq!(rows[2], "");
    assert_eq!(w.text(LogEvent::Done, LogFile::HostSummary), "33,2,9\n");
    assert!(matches!(w.step(LogEvent::Done), LogAction::ReadHostTime));
    assert!(matches!(w.step(LogEvent::HostTime(11 * S)), LogAction::ReadGuestTime(0)));
    assert!(matches!(w.step(LogEvent::GuestTime(1)), LogAction::Sleep(100)));
    assert!(matches!(w.step(LogEvent::Done), LogAction::ReadHostTime));
    // The next record is due a period after the end of this one.
    assert!(matches!(w.step(LogEvent::HostTime(21 * S - 1)), LogAction::ReadGuestTime(0)));
    assert!(matches!(w.step(LogEvent::GuestTime(1)), LogAction::Sleep(_)));
    assert!(matches!(w.step(LogEvent::Done), LogAction::ReadHostTime));
    assert!(matches!(w.step(LogEvent::HostTime(21 * S)), LogAction::ReadGuestTime(0)));
    assert!(matches!(w.step(LogEvent::GuestTime(5)), LogAction::ReadGuestTime(1)));
    assert!(matches!(w.step(LogEvent::GuestTime(6)), LogAction::ReadTimestamp));
    w.text(LogEvent::Timestamp(44), LogFile::Statistics);
    assert_eq!(w.text(LogEvent::Done, LogFile::HostSummary), "44,1,9\n");
}

#[test]
fn a_host_record_without_the_tracker() {
    let mut w = World::new(parameters(1, false), 0, 0);
    w.trackers.host.mark_dirty(1);
    assert!(matches!(w.step(LogEvent::HostTime(10 * S)), LogAction::ReadGuestTime(0)));
    assert!(matches!(w.step(LogEvent::GuestTime(8)), LogAction::ReadTimestamp));
    let text = w.text(LogEvent::Timestamp(1), LogFile::Statistics);
    assert!(text.starts_with("1,0,0,0,0,8,8,0,"));
    assert!(text.ends_with(",0,0,0\n"));
    assert!(matches!(w.step(LogEvent::Done), LogAction::ReadHostTime));
    assert!(matches!(w.step(LogEvent::HostTime(10 * S)), LogAction::Sleep(100)));
    assert_eq!(w.trackers.host.get_count(), 0);
    assert_eq!(w.trackers.host.swap_and_count(), 1);
}

#[test]
fn a_record_without_cores() {
    let mut w = World::new(parameters(0, false), 0, 0);
    assert!(matches!(w.step(LogEvent::HostTime(10 * S)), LogAction::ReadTimestamp));
    assert_eq!(w.text(LogEvent::Timestamp(1), LogFile::Statistics), "");
}

#[test]
fn guest_records_leap_over_missed_targets() {
    let mut w = World::new(parameters(1, true), 0, 50);
    let misses = EventType::SharedCacheMissDueToDataWrite;
    w.statistics.record_by(0, misses, true, 3);
    w.trackers.guest.mark_dirty(6);
    // Due at 1_000_000_050; the log is three periods and a half late.
    assert!(matches!(w.step(LogEvent::HostTime(0)), LogAction::ReadGuestTime(0)));
    assert_eq!(
        w.text(LogEvent::GuestTime(4_500_000_000), LogFile::GuestSummary),
        "4500000000,1,3\n"
    );
    assert!(matches!(w.step(LogEvent::Done), LogAction::Sleep(100)));
    assert!(matches!(w.step(LogEvent::Done), LogAction::ReadHostTime));
    assert!(matches!(w.step(LogEvent::HostTime(0)), LogAction::ReadGuestTime(0)));
    assert!(matches!(w.step(LogEvent::GuestTime(5_000_000_049)), LogAction::Sleep(100)));
    assert!(matches!(w.step(LogEvent::Done), LogAction::ReadHostTime));
    assert!(matches!(w.step(LogEvent::HostTime(0)), LogAction::ReadGuestTime(0)));
    assert_eq!(
        w.text(LogEvent::GuestTime(5_000_000_050), LogFile::GuestSummary),
        "5000000050,0,3\n"
    );
    assert!(matches!(w.step(LogEvent::Done), LogAction::Sleep(100)));
    assert!(matches!(w.step(LogEvent::Done), LogAction::ReadHostTime));
    assert!(matches!(w.step(LogEvent::HostTime(0)), LogAction::ReadGuestTime(0)));
    assert!(matches!(w.step(LogEvent::GuestTime(6_000_000_049)), LogAction::Sleep(100)));
}

#[test]
fn only_the_answer_is_accepted() {
    let w = World::new(parameters(1, true), 0, 0);
    assert!(w.log.can_step(LogEvent::HostTime(u128::MAX), &w.statistics));
    assert!(!w.log.can_step(LogEvent::GuestTime(1), &w.statistics));
    assert!(!w.log.can_step(LogEvent::Timestamp(1), &w.statistics));
    assert!(!w.log.can_step(LogEvent::Done, &w.statistics));
}

#[test]
fn overflows_are_told_beforehand() {
    let mut w = World::new(parameters(1, true), 0, 0);
    let misses = EventType::SharedCacheMissDueToDataWrite;
    w.step(LogEvent::HostTime(10 * S));
    w.step(LogEvent::GuestTime(0));
    w.statistics.set(0, misses, false, u64::MAX);
    assert!(w.log.can_step(LogEvent::Timestamp(0), &w.statistics));
    w.statistics.set(0, misses, true, 1);
    assert!(!w.log.can_step(LogEvent::Timestamp(0), &w.statistics));
    w.statistics.set(0, misses, true, 0);
    w.step(LogEvent::Timestamp(0));
    w.statistics.set(0, misses, true, 1);
    assert!(!w.log.can_step(LogEvent::Done, &w.statistics));
    w.statistics.set(0, misses, true, 0);
    w.step(LogEvent::Done);
    w.step(LogEvent::Done);
    assert!(!w.log.can_step(LogEvent::HostTime(u128::MAX), &w.statistics));
    assert!(w.log.can_step(LogEvent::HostTime(u128::MAX - 10 * S), &w.statistics));
    w.step(LogEvent::HostTime(0));
    w.statistics.set(0, misses, true, 1);
    assert!(!w.log.can_step(LogEvent::GuestTime(u64::MAX), &w.statistics));
    assert!(w.log.can_step(LogEvent::GuestTime(999_999_999), &w.statistics));
    w.statistics.set(0, misses, true, 0);
    w.step(LogEvent::GuestTime(u64::MAX));
    assert!(!w.log.can_step(LogEvent::Done, &w.statistics));
}

#[test]
fn guest_records_are_due_every_second() {
    let mut w = World::new(parameters(1, true), 0, 50);
    for target in [1_000_000_050u64, 2_000_000_050, 3_000_000_050] {
        assert!(matches!(w.step(LogEvent::HostTime(0)), LogAction::ReadGuestTime(0)));
        assert!(matches!(w.step(LogEvent::GuestTime(target - 1)), LogAction::Sleep(100)));
        assert!(matches!(w.step(LogEvent::Done), LogAction::ReadHostTime));
        assert!(matches!(w.step(LogEvent::HostTime(0)), LogAction::ReadGuestTime(0)));
        assert_eq!(
            w.text(LogEvent::GuestTime(target), LogFile::GuestSummary),
            format!("{},0,0\n", target)
        );
        assert!(matches!(w.step(LogEvent::Done), LogAction::Sleep(100)));
        assert!(matches!(w.step(LogEvent::Done), LogAction::ReadHostTime));
    }
}
