//! The events that the engine logs and the tuples derived from them.

use std::time::Duration;
use vstd::prelude::*;

verus! {

/// A value that can travel in an output tuple.
#[derive(Clone, Copy, Debug, PartialEq, Eq, PartialOrd, Ord, Hash)]
pub enum Value {
    /// A reference to an entity; here, to a dataflow operator.
    Eid(u64),
    /// A signed quantity.
    Number(i64),
}

/// One record of an output stream: an entity with the value observed for it,
/// the logical time of the observation, and a signed multiplicity.
pub type EmittedTuple = ((Value, Value), Duration, isize);

/// What a logged event reports.
#[derive(Clone, Copy, Debug, PartialEq, Eq, PartialOrd, Ord, Hash)]
pub enum EventKind {
    /// An operator produced a batch of `length` records.
    Batch { operator_id: u64, length: i64 },
    /// An operator merged two batches. `complete` is absent while the merge
    /// is under way and holds the length of the result once it has finished.
    Merge { operator_id: u64, length1: i64, length2: i64, complete: Option<i64> },
    /// Any other event. Nothing is derived from it.
    Unhandled,
}

/// One record of the event log.
#[derive(Clone, Copy, Debug, PartialEq, Eq, PartialOrd, Ord, Hash)]
pub struct RawEvent {
    /// The time at which the instrumented system observed the event.
    pub logical_time: Duration,
    /// The worker that logged the event. Routing does not depend on it.
    pub worker_id: usize,
    pub kind: EventKind,
}

impl EventKind {
    /// The operator that the event is about and the size it reports for it:
    /// the length of a new batch, or the change in size that a finished merge
    /// brought about. Events that report no size have no measurement.
    pub open spec fn measurement(self) -> Option<(u64, int)> {
        match self {
            EventKind::Batch { operator_id, length } => Some((operator_id, length as int)),
            EventKind::Merge { operator_id, length1, length2, complete: Some(merged) } => Some(
                (operator_id, merged - (length1 + length2)),
            ),
            _ => None,
        }
    }

    /// Whether the measurement, if there is one, fits the payload of a tuple.
    pub open spec fn representable(self) -> bool {
        match self.measurement() {
            Some((_, size)) => i64::MIN <= size <= i64::MAX,
            None => true,
        }
    }

    /// Tests whether the event can be turned into a tuple without overflow.
    pub fn is_representable(&self) -> (fits: bool)
        ensures
            fits == self.representable(),
    {
        match *self {
            EventKind::Merge { operator_id: _, length1, length2, complete: Some(merged) } => {
                let delta: i128 = merged as i128 - (length1 as i128 + length2 as i128);
                i64::MIN as i128 <= delta && delta <= i64::MAX as i128
            },
            _ => true,
        }
    }
}

impl RawEvent {
    /// The tuple derived from the event, if any: the measured operator and
    /// size, at the event's own logical time, with multiplicity one.
    pub open spec fn emitted(self) -> Option<EmittedTuple> {
        match self.kind.measurement() {
            Some((operator_id, size)) => Some(
                ((Value::Eid(operator_id), Value::Number(size as i64)), self.logical_time, 1isize),
            ),
            None => None,
        }
    }

    /// Classifies the event and computes the tuple to emit for it. The size
    /// that the event reports must fit a tuple; `EventKind::is_representable`
    /// tests for that.
    pub fn classify(&self) -> (tuple: Option<EmittedTuple>)
        requires
            self.kind.representable(),
        ensures
            tuple == self.emitted(),
    {
        match self.kind {
            EventKind::Batch { operator_id, length } => Some(
                ((Value::Eid(operator_id), Value::Number(length)), self.logical_time, 1),
            ),
            EventKind::Merge { operator_id, length1, length2, complete: Some(merged) } => {
                let delta: i128 = merged as i128 - (length1 as i128 + length2 as i128);
                Some(((Value::Eid(operator_id), Value::Number(delta as i64)), self.logical_time, 1))
            },
            _ => None,
        }
    }
}

/// The tuples derived from a run of events, in the order of the events.
/// Each event contributes its own tuple or nothing.
pub open spec fn emitted_by(events: Seq<RawEvent>) -> Seq<EmittedTuple>
    decreases events.len(),
{
    if events.len() == 0 {
        Seq::empty()
    } else {
        let earlier = emitted_by(events.drop_last());
        match events.last().emitted() {
            Some(tuple) => earlier.push(tuple),
            None => earlier,
        }
    }
}

/// The tuples of two runs of events, one after the other, are the tuples of
/// the first run followed by those of the second.
pub proof fn lemma_emitted_by_concat(first: Seq<RawEvent>, second: Seq<RawEvent>)
    ensures
        emitted_by(first + second) == emitted_by(first) + emitted_by(second),
    decreases second.len(),
{
    if second.len() > 0 {
        lemma_emitted_by_concat(first, second.drop_last());
        assert((first + second).drop_last() =~= first + second.drop_last());
    }
}

/// Every event accounts for at most one tuple, which stands between the
/// tuples of the events before it and those of the events after it.
pub proof fn lemma_emitted_by_around(before: Seq<RawEvent>, event: RawEvent, after: Seq<RawEvent>)
    ensures
        emitted_by(before.push(event) + after) == match event.emitted() {
            Some(tuple) => emitted_by(before).push(tuple) + emitted_by(after),
            None => emitted_by(before) + emitted_by(after),
        },
{
    lemma_emitted_by_concat(before.push(event), after);
    assert(before.push(event).drop_last() =~= before);
}

/// Whether every event of the run can be turned into a tuple without
/// overflow.
pub open spec fn all_representable(events: Seq<RawEvent>) -> bool {
    forall|i: int| 0 <= i < events.len() ==> (#[trigger] events[i]).kind.representable()
}

/// A batch as contracts see it: the time of the notification and the events,
/// in the order of their arrival.
pub type BatchView = (Duration, Seq<RawEvent>);

/// The events that the log delivered under one notification.
#[derive(Debug, PartialEq, Eq, PartialOrd, Ord, Hash)]
pub struct EventBatch {
    /// The time of the notification. The events carry logical times of their
    /// own, which need not agree with it.
    pub time: Duration,
    /// The events, in the order of their arrival.
    pub events: Vec<RawEvent>,
}

impl View for EventBatch {
    type V = BatchView;

    open spec fn view(&self) -> BatchView {
        (self.time, self.events@)
    }
}

impl EventBatch {
    /// Tests whether every event of the batch can be turned into a tuple
    /// without overflow.
    pub fn is_representable(&self) -> (fits: bool)
        ensures
            fits == all_representable(self@.1),
    {
        let mut i: usize = 0;
        while i < self.events.len()
            invariant
                i <= self.events@.len(),
                forall|k: int| 0 <= k < i ==> (#[trigger] self.events@[k]).kind.representable(),
            decreases self.events@.len() - i,
        {
            if !self.events[i].kind.is_representable() {
                return false;
            }
            i += 1;
        }
        true
    }
}

} // verus!
