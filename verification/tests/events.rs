use differential_logging::event::{EmittedTuple, EventKind, RawEvent, Value};
use std::time::Duration;

fn ms(millis: u64) -> Duration {
    Duration::from_millis(millis)
}

fn event(millis: u64, worker_id: usize, kind: EventKind) -> RawEvent {
    RawEvent { logical_time: ms(millis), worker_id, kind }
}

fn batch(operator_id: u64, length: i64) -> EventKind {
    EventKind::Batch { operator_id, length }
}

fn merge(operator_id: u64, length1: i64, length2: i64, complete: Option<i64>) -> EventKind {
    EventKind::Merge { operator_id, length1, length2, complete }
}

fn tuple(operator: u64, size: i64, millis: u64) -> Option<EmittedTuple> {
    Some(((Value::Eid(operator), Value::Number(size)), ms(millis), 1))
}

#[test]
fn a_batch_reports_its_length() {
    assert_eq!(event(5, 0, batch(3, 10)).classify(), tuple(3, 10, 5));
}

#[test]
fn a_batch_keeps_its_own_time_and_ignores_the_worker() {
    let first = event(123_456, 0, batch(u64::MAX, 0));
    let second = event(123_456, 9, batch(u64::MAX, 0));
    assert_eq!(first.classify(), tuple(u64::MAX, 0, 123_456));
    assert_eq!(second.classify(), tuple(u64::MAX, 0, 123_456));
}

#[test]
fn a_batch_may_report_any_length() {
    assert_eq!(event(1, 0, batch(1, i64::MAX)).classify(), tuple(1, i64::MAX, 1));
    assert_eq!(event(1, 0, batch(1, i64::MIN)).classify(), tuple(1, i64::MIN, 1));
}

#[test]
fn a_finished_merge_that_shrank_reports_a_negative_change() {
    assert_eq!(event(5, 1, merge(3, 6, 6, Some(10))).classify(), tuple(3, -2, 5));
}

#[test]
fn a_finished_merge_that_kept_everything_reports_zero() {
    assert_eq!(event(8, 0, merge(4, 2, 3, Some(5))).classify(), tuple(4, 0, 8));
}

#[test]
fn a_finished_merge_that_grew_reports_a_positive_change() {
    assert_eq!(event(8, 0, merge(4, 2, 3, Some(9))).classify(), tuple(4, 4, 8));
}

#[test]
fn an_unfinished_merge_reports_nothing() {
    assert_eq!(event(5, 0, merge(3, 6, 6, None)).classify(), None);
}

#[test]
fn an_unhandled_event_reports_nothing() {
    assert_eq!(event(5, 0, EventKind::Unhandled).classify(), None);
}

#[test]
fn the_change_of_a_merge_may_use_the_whole_range() {
    let lowest = merge(1, i64::MAX, 1, Some(0));
    assert!(lowest.is_representable());
    assert_eq!(event(0, 0, lowest).classify(), tuple(1, i64::MIN, 0));
    let highest = merge(1, 0, 0, Some(i64::MAX));
    assert!(highest.is_representable());
    assert_eq!(event(0, 0, highest).classify(), tuple(1, i64::MAX, 0));
    let through_a_wide_sum = merge(1, i64::MAX, i64::MAX, Some(i64::MAX));
    assert!(through_a_wide_sum.is_representable());
    assert_eq!(event(0, 0, through_a_wide_sum).classify(), tuple(1, -i64::MAX, 0));
}

#[test]
fn a_change_beyond_the_range_is_not_representable() {
    assert!(!merge(1, i64::MAX, 1, Some(-1)).is_representable());
    assert!(!merge(1, -1, 0, Some(i64::MAX)).is_representable());
    assert!(!merge(1, i64::MIN, i64::MIN, Some(i64::MAX)).is_representable());
}

#[test]
fn events_without_a_change_are_always_representable() {
    assert!(EventKind::Unhandled.is_representable());
    assert!(batch(0, i64::MIN).is_representable());
    assert!(merge(0, i64::MIN, i64::MIN, None).is_representable());
}
