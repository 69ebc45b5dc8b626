use core_statistics::event::EventType;
use core_statistics::text::{join, push_decimal, terminate};

fn decimal(n: u64) -> String {
    let mut out = String::new();
    push_decimal(&mut out, n);
    out
}

#[test]
fn decimal_notation_of_numbers() {
    assert_eq!(decimal(0), "0");
    assert_eq!(decimal(9), "9");
    assert_eq!(decimal(10), "10");
    assert_eq!(decimal(1234567890), "1234567890");
    assert_eq!(decimal(u64::MAX), "18446744073709551615");
}

#[test]
fn decimal_notation_reads_back() {
    for n in [0u64, 1, 7, 99, 100, 1001, 65536, u64::MAX - 1] {
        assert_eq!(decimal(n).parse::<u64>().unwrap(), n);
        assert_eq!(decimal(n), format!("{}", n));
    }
}

#[test]
fn decimal_is_appended() {
    let mut out = String::from("a=");
    push_decimal(&mut out, 42);
    assert_eq!(out, "a=42");
}

#[test]
fn joined_and_terminated_lists() {
    let none: Vec<String> = Vec::new();
    let one = vec![String::from("x")];
    let three = vec![String::from("x"), String::from(""), String::from("zz")];
    assert_eq!(join(&none, ","), "");
    assert_eq!(join(&one, ","), "x");
    assert_eq!(join(&three, ", "), "x, , zz");
    assert_eq!(terminate(&none, "\n"), "");
    assert_eq!(terminate(&one, "\n"), "x\n");
    assert_eq!(terminate(&three, "\n"), "x\n\nzz\n");
}

#[test]
fn events_are_numbered_in_order() {
    let events = EventType::iter();
    assert_eq!(events.len(), EventType::COUNT);
    assert_eq!(EventType::COUNT, 40);
    for (i, event) in events.iter().enumerate() {
        assert_eq!(event.index(), i);
    }
    assert_eq!(EventType::Instruction.index(), 0);
    assert_eq!(EventType::TargetLocalCycle.index(), 1);
    assert_eq!(EventType::SharedCacheMissDueToDataWrite.index(), 19);
    assert_eq!(EventType::WaitForInterrupt.index(), 39);
}

#[test]
fn events_are_named_like_their_variants() {
    for event in EventType::iter() {
        assert_eq!(event.to_string(), format!("{:?}", event));
        assert!(event.to_string().chars().all(|c| c.is_ascii_alphabetic()));
    }
    assert_eq!(EventType::BPMiss.to_string(), "BPMiss");
    assert_eq!(
        EventType::PrivateCacheInvalidationCausailityViolation.to_string(),
        "PrivateCacheInvalidationCausailityViolation"
    );
}

#[test]
fn events_have_different_names() {
    let mut names: Vec<String> = EventType::iter().iter().map(|e| e.to_string()).collect();
    names.sort();
    names.dedup();
    assert_eq!(names.len(), 40);
}
