//! The bridge from the engine's own log records to the events of this
//! library.

use crate::event::{EventBatch, EventKind, RawEvent};
use differential_dataflow::logging::DifferentialEvent;
use std::time::Duration;
use vstd::prelude::*;

verus! {

/// A record of the engine's log with the logical time at which it was logged
/// and the worker that logged it.
pub type LoggedRecord = (Duration, usize, DifferentialEvent);

/// `differential_dataflow::logging::DifferentialEvent`, the record that the
/// engine logs. It is carried through as it is; nothing is known of what it
/// holds.
#[verifier::external_type_specification]
#[verifier::external_body]
pub struct ExDifferentialEvent(differential_dataflow::logging::DifferentialEvent);

/// Reads what a `DifferentialEvent` reports: a `Batch` and a `Merge` with
/// their operator and lengths, every other variant as unhandled. The engine
/// counts in `usize`; a count is taken over by a cast. Nothing is claimed of
/// the result, since the record cannot be described in a contract.
#[verifier::external_body]
fn kind_of(event: &DifferentialEvent) -> (kind: EventKind) {
    match event {
        DifferentialEvent::Batch(x) => EventKind::Batch {
            operator_id: x.operator as u64,
            length: x.length as i64,
        },
        DifferentialEvent::Merge(x) => EventKind::Merge {
            operator_id: x.operator as u64,
            length1: x.length1 as i64,
            length2: x.length2 as i64,
            complete: match x.complete { Some(length) => Some(length as i64), None => None },
        },
        _ => EventKind::Unhandled,
    }
}

impl RawEvent {
    /// The event for a record that `worker_id` logged at `logical_time`.
    /// Time and worker are taken over as given; the kind is whatever the
    /// record reports.
    pub fn from_logged(
        logical_time: Duration,
        worker_id: usize,
        event: &DifferentialEvent,
    ) -> (raw: RawEvent)
        ensures
            raw.logical_time == logical_time,
            raw.worker_id == worker_id,
    {
        RawEvent { logical_time, worker_id, kind: kind_of(event) }
    }
}

impl EventBatch {
    /// The batch for the records that the log delivered under one
    /// notification at `time`: one event per record, in the same order, each
    /// with the logical time and the worker of its record.
    pub fn from_logged(time: Duration, records: &Vec<LoggedRecord>) -> (batch: EventBatch)
        ensures
            batch.time == time,
            batch.events@.len() == records@.len(),
            forall|i: int|
                0 <= i < records@.len() ==> {
                    &&& (#[trigger] batch.events@[i]).logical_time == records@[i].0
                    &&& batch.events@[i].worker_id == records@[i].1
                },
    {
        let mut events: Vec<RawEvent> = Vec::new();
        let mut i: usize = 0;
        while i < records.len()
            invariant
                i <= records@.len(),
                events@.len() == i,
                forall|k: int|
                    0 <= k < i ==> (#[trigger] events@[k]).logical_time == records@[k].0
                        && events@[k].worker_id == records@[k].1,
            decreases records@.len() - i,
        {
            let record = &records[i];
            events.push(RawEvent::from_logged(record.0, record.1, &record.2));
            i += 1;
        }
        EventBatch { time, events }
    }
}

} // verus!
