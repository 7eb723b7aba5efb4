use differential_logging::channel::{Delivery, OutputChannel};
use differential_logging::event::{EmittedTuple, Value};
use std::time::Duration;

fn ms(millis: u64) -> Duration {
    Duration::from_millis(millis)
}

fn tuple(operator: u64, size: i64, millis: u64) -> EmittedTuple {
    ((Value::Eid(operator), Value::Number(size)), ms(millis), 1)
}

#[test]
fn a_new_channel_is_empty() {
    let channel = OutputChannel::new();
    assert_eq!(channel.len(), 0);
    assert!(channel.deliveries().is_empty());
}

#[test]
fn a_session_keeps_its_time_and_the_order_of_its_tuples() {
    let channel = OutputChannel::new();
    let mut session = channel.session(ms(4));
    assert_eq!(session.time(), ms(4));
    session.give(tuple(1, 10, 1));
    session.give(tuple(2, -3, 2));
    session.give(tuple(1, 10, 1));
    assert_eq!(session.time(), ms(4));
    assert_eq!(
        session.close(),
        Delivery { time: ms(4), tuples: vec![tuple(1, 10, 1), tuple(2, -3, 2), tuple(1, 10, 1)] }
    );
}

#[test]
fn a_session_without_tuples_closes_into_an_empty_delivery() {
    let delivery = OutputChannel::new().session(ms(6)).close();
    assert_eq!(delivery, Delivery { time: ms(6), tuples: vec![] });
}

#[test]
fn deliveries_are_kept_in_the_order_of_their_arrival() {
    let mut channel = OutputChannel::new();
    let mut first = channel.session(ms(1));
    first.give(tuple(1, 1, 1));
    channel.deliver(first.close());
    let second = channel.session(ms(2));
    channel.deliver(second.close());
    let mut third = channel.session(ms(3));
    third.give(tuple(3, 3, 3));
    third.give(tuple(4, 4, 4));
    channel.deliver(third.close());
    assert_eq!(channel.len(), 3);
    assert_eq!(
        channel.deliveries(),
        &vec![
            Delivery { time: ms(1), tuples: vec![tuple(1, 1, 1)] },
            Delivery { time: ms(2), tuples: vec![] },
            Delivery { time: ms(3), tuples: vec![tuple(3, 3, 3), tuple(4, 4, 4)] },
        ]
    );
}
