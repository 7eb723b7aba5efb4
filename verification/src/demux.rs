//! The router that fans the event log out into the attribute streams.

use crate::attribute::{
    collapsed, names, size_name, AsAid, AttributeRegistry, ChannelHandle, SIZE_ATTRIBUTE,
};
use crate::channel::{Delivery, DeliveryView, OutputChannel, Session};
use crate::event::{
    all_representable, emitted_by, lemma_emitted_by_around, lemma_emitted_by_concat, BatchView,
    EmittedTuple, EventBatch, EventKind, RawEvent, Value,
};
use std::time::Duration;
use vstd::prelude::*;

verus! {

/// What the session of `attribute` holds once a batch of events has been
/// routed: every derived tuple if the attribute is the size attribute, and
/// nothing otherwise.
pub open spec fn session_content(attribute: Seq<char>, events: Seq<RawEvent>) -> Seq<EmittedTuple> {
    if attribute == size_name() {
        emitted_by(events)
    } else {
        Seq::empty()
    }
}

/// A log as contracts see it: the batches in the order of their delivery.
pub open spec fn batches(log: Seq<EventBatch>) -> Seq<BatchView> {
    Seq::new(log.len(), |b: int| log[b]@)
}

/// Whether every event of the log can be turned into a tuple without
/// overflow.
pub open spec fn log_representable(log: Seq<BatchView>) -> bool {
    forall|b: int| 0 <= b < log.len() ==> all_representable((#[trigger] log[b]).1)
}

/// Tests whether every event of the log can be turned into a tuple without
/// overflow.
pub fn log_is_representable(log: &Vec<EventBatch>) -> (fits: bool)
    ensures
        fits == log_representable(batches(log@)),
{
    let mut b: usize = 0;
    while b < log.len()
        invariant
            b <= log@.len(),
            forall|k: int| 0 <= k < b ==> all_representable((#[trigger] batches(log@)[k]).1),
        decreases log@.len() - b,
    {
        if !log[b].is_representable() {
            assert(!all_representable(batches(log@)[b as int].1));
            return false;
        }
        b += 1;
    }
    true
}

/// What a log leaves on the channel of `attribute`: one delivery per batch,
/// in the order of the batches, each stamped with the time of its batch.
pub open spec fn recorded(attribute: Seq<char>, log: Seq<BatchView>) -> Seq<DeliveryView> {
    Seq::new(log.len(), |b: int| (log[b].0, session_content(attribute, log[b].1)))
}

/// A batch event puts exactly one tuple on the size attribute: the operator
/// with the length of the batch, at the event's own logical time, with
/// multiplicity one. The tuple stands where the event stood among the events
/// around it.
pub proof fn lemma_batch_reports_length(
    before: Seq<RawEvent>,
    logical_time: Duration,
    worker_id: usize,
    operator_id: u64,
    length: i64,
    after: Seq<RawEvent>,
)
    ensures
        ({
            let event = RawEvent {
                logical_time,
                worker_id,
                kind: EventKind::Batch { operator_id, length },
            };
            session_content(size_name(), before.push(event) + after) == session_content(
                size_name(),
                before,
            ).push(((Value::Eid(operator_id), Value::Number(length)), logical_time, 1isize))
                + session_content(size_name(), after)
        }),
{
    let kind = EventKind::Batch { operator_id, length };
    lemma_emitted_by_around(before, RawEvent { logical_time, worker_id, kind }, after);
}

/// A finished merge puts exactly one tuple on the size attribute: the
/// operator with the length of the result less the lengths of the two inputs,
/// at the event's own logical time, with multiplicity one. The difference is
/// negative where the result is shorter than the inputs together.
pub proof fn lemma_merge_reports_change(
    before: Seq<RawEvent>,
    logical_time: Duration,
    worker_id: usize,
    operator_id: u64,
    length1: i64,
    length2: i64,
    merged: i64,
    after: Seq<RawEvent>,
)
    requires
        i64::MIN <= merged - (length1 + length2) <= i64::MAX,
    ensures
        ({
            let event = RawEvent {
                logical_time,
                worker_id,
                kind: EventKind::Merge { operator_id, length1, length2, complete: Some(merged) },
            };
            let change = (merged - (length1 + length2)) as i64;
            &&& change == merged - (length1 + length2)
            &&& merged < length1 + length2 ==> change < 0
            &&& session_content(size_name(), before.push(event) + after) == session_content(
                size_name(),
                before,
            ).push(((Value::Eid(operator_id), Value::Number(change)), logical_time, 1isize))
                + session_content(size_name(), after)
        }),
{
    let event = RawEvent {
        logical_time,
        worker_id,
        kind: EventKind::Merge { operator_id, length1, length2, complete: Some(merged) },
    };
    lemma_emitted_by_around(before, event, after);
}

/// A merge that has not finished and an event of any other kind put nothing
/// on any attribute: the streams are as if the event had not occurred.
pub proof fn lemma_other_events_report_nothing(
    attribute: Seq<char>,
    before: Seq<RawEvent>,
    event: RawEvent,
    after: Seq<RawEvent>,
)
    requires
        event.kind is Unhandled || (event.kind matches EventKind::Merge { complete, .. }
            && complete is None),
    ensures
        session_content(attribute, before.push(event) + after) == session_content(
            attribute,
            before + after,
        ),
{
    lemma_emitted_by_around(before, event, after);
    lemma_emitted_by_concat(before, after);
}

/// Where the size attribute was not requested, no tuple reaches any stream,
/// whatever the log holds.
pub proof fn lemma_unrequested_size_is_dropped(attributes: Seq<Seq<char>>, log: Seq<BatchView>)
    requires
        !attributes.contains(size_name()),
    ensures
        forall|h: int, b: int|
            0 <= h < attributes.len() && 0 <= b < log.len() ==> (#[trigger] recorded(
                attributes[h],
                log,
            )[b]).1.len() == 0,
{
    assert forall|h: int| 0 <= h < attributes.len() implies attributes[h] != size_name() by {
        assert(attributes.contains(attributes[h]));
    }
}

/// The demultiplexer: the registry of requested attributes and one output
/// channel for each of them.
pub struct Demux<A: AsAid> {
    registry: AttributeRegistry<A>,
    channels: Vec<OutputChannel>,
    size: A,
}

/// The state of a demultiplexer as contracts see it.
#[verifier::ext_equal]
pub ghost struct DemuxView {
    /// The names of the requested attributes, in the order of their handles.
    pub attributes: Seq<Seq<char>>,
    /// For each attribute, what has been delivered on its channel.
    pub streams: Seq<Seq<DeliveryView>>,
}

impl DemuxView {
    /// The state after one more batch: every channel has received one more
    /// delivery, stamped with the time of the notification, and holding what
    /// the batch had for its attribute.
    pub open spec fn after_batch(self, batch: BatchView) -> DemuxView {
        DemuxView {
            attributes: self.attributes,
            streams: Seq::new(
                self.streams.len(),
                |h: int|
                    self.streams[h].push((batch.0, session_content(self.attributes[h], batch.1))),
            ),
        }
    }

    /// The state after a log has been replayed: every channel has received,
    /// behind what it held, what the log leaves for its attribute.
    pub open spec fn after_log(self, log: Seq<BatchView>) -> DemuxView {
        DemuxView {
            attributes: self.attributes,
            streams: Seq::new(
                self.streams.len(),
                |h: int| self.streams[h] + recorded(self.attributes[h], log),
            ),
        }
    }

    /// Replaying a log is processing its batches one after the other: an
    /// empty log changes nothing, and a log with one more batch leaves what
    /// the shorter log leaves, with that batch processed after it.
    pub proof fn lemma_after_log_unfolds(self, log: Seq<BatchView>)
        ensures
            log.len() == 0 ==> self.after_log(log) == self,
            log.len() > 0 ==> self.after_log(log) == self.after_log(log.drop_last()).after_batch(
                log.last(),
            ),
    {
        if log.len() > 0 {
            let shorter = self.after_log(log.drop_last());
            assert forall|h: int| 0 <= h < self.streams.len() implies #[trigger] self.after_log(
                log,
            ).streams[h] == shorter.after_batch(log.last()).streams[h] by {
                assert(recorded(self.attributes[h], log).drop_last() =~= recorded(
                    self.attributes[h],
                    log.drop_last(),
                ));
            }
        }
    }
}

impl<A: AsAid> View for Demux<A> {
    type V = DemuxView;

    closed spec fn view(&self) -> DemuxView {
        DemuxView {
            attributes: self.registry@,
            streams: Seq::new(self.channels@.len(), |h: int| self.channels@[h]@),
        }
    }
}

impl<A: AsAid> Demux<A> {
    /// Every attribute has its own channel, and the key under which sizes
    /// are published stands for the size attribute.
    pub closed spec fn wf(&self) -> bool {
        &&& self.registry.wf()
        &&& self.channels@.len() == self.registry@.len()
        &&& self.size.name() == size_name()
    }

    /// Sets up a demultiplexer for the requested attributes, with an empty
    /// channel for each. An attribute that is requested again gets no second
    /// channel.
    pub fn new(requested: &Vec<A>) -> (demux: Self)
        ensures
            demux.wf(),
            demux@.attributes == collapsed(names(requested@)),
            demux@.attributes.no_duplicates(),
            demux@.streams.len() == demux@.attributes.len(),
            forall|h: int|
                0 <= h < demux@.streams.len() ==> (#[trigger] demux@.streams[h]).len() == 0,
    {
        let registry = AttributeRegistry::new(requested);
        let mut channels: Vec<OutputChannel> = Vec::new();
        let mut h: usize = 0;
        while h < registry.len()
            invariant
                h <= registry@.len(),
                channels@.len() == h,
                forall|k: int| 0 <= k < h ==> (#[trigger] channels@[k])@.len() == 0,
            decreases registry@.len() - h,
        {
            channels.push(OutputChannel::new());
            h += 1;
        }
        Demux { registry, channels, size: A::from_name(SIZE_ATTRIBUTE) }
    }

    /// The registry of the requested attributes.
    pub fn registry(&self) -> (registry: &AttributeRegistry<A>)
        ensures
            registry@ == self@.attributes,
    {
        &self.registry
    }

    /// The channel with the given handle, if there is one.
    pub fn channel(&self, handle: ChannelHandle) -> (channel: Option<&OutputChannel>)
        ensures
            match channel {
                Some(channel) => {
                    &&& handle < self@.streams.len()
                    &&& channel@ == self@.streams[handle as int]
                },
                None => handle >= self@.streams.len(),
            },
    {
        if handle < self.channels.len() {
            Some(&self.channels[handle])
        } else {
            None
        }
    }

    /// Opens one session per channel for the batch notified at `time`, in the
    /// order of the handles.
    fn open_sessions(&self, time: Duration) -> (sessions: Vec<Session>)
        ensures
            sessions@.len() == self.channels@.len(),
            forall|h: int|
                0 <= h < sessions@.len() ==> (#[trigger] sessions@[h])@ == (
                    time,
                    Seq::<EmittedTuple>::empty(),
                ),
    {
        let mut sessions: Vec<Session> = Vec::new();
        let mut h: usize = 0;
        while h < self.channels.len()
            invariant
                h <= self.channels@.len(),
                sessions@.len() == h,
                forall|k: int|
                    0 <= k < h ==> (#[trigger] sessions@[k])@ == (
                        time,
                        Seq::<EmittedTuple>::empty(),
                    ),
            decreases self.channels@.len() - h,
        {
            sessions.push(self.channels[h].session(time));
            h += 1;
        }
        sessions
    }

    /// Closes every session, in the order of the handles.
    fn close_sessions(sessions: Vec<Session>) -> (deliveries: Vec<Delivery>)
        ensures
            deliveries@.len() == sessions@.len(),
            forall|h: int|
                0 <= h < deliveries@.len() ==> (#[trigger] deliveries@[h])@ == sessions@[h]@,
    {
        let ghost opened = sessions@;
        let mut deliveries: Vec<Delivery> = Vec::new();
        for session in it: sessions
            invariant
                it.seq() == opened,
                deliveries@.len() == it.index(),
                forall|k: int| 0 <= k < it.index() ==> (#[trigger] deliveries@[k])@ == opened[k]@,
        {
            deliveries.push(session.close());
        }
        deliveries
    }

    /// Routes one batch of events. A session is opened on every channel for
    /// the time of the notification; each event is classified, and the tuple
    /// derived from it, if there is one, is given to the session of the
    /// attribute it belongs to; then every session is closed. The result is
    /// what the sessions delivered, in the order of the channel handles. A
    /// tuple whose attribute was not requested is dropped.
    ///
    /// Every size that the batch reports must fit a tuple;
    /// `EventBatch::is_representable` tests for that.
    pub fn route(&self, batch: &EventBatch) -> (deliveries: Vec<Delivery>)
        requires
            self.wf(),
            all_representable(batch@.1),
        ensures
            deliveries@.len() == self@.attributes.len(),
            forall|h: int|
                0 <= h < deliveries@.len() ==> (#[trigger] deliveries@[h])@ == (
                    batch@.0,
                    session_content(self@.attributes[h], batch@.1),
                ),
    {
        let time = batch.time;
        let events = &batch.events;
        let mut sessions = self.open_sessions(time);
        let mut i: usize = 0;
        while i < events.len()
            invariant
                self.wf(),
                all_representable(events@),
                i <= events@.len(),
                sessions@.len() == self@.attributes.len(),
                forall|k: int|
                    0 <= k < sessions@.len() ==> (#[trigger] sessions@[k])@ == (
                        time,
                        session_content(self@.attributes[k], events@.take(i as int)),
                    ),
            decreases events@.len() - i,
        {
            assert(events@.take(i + 1).drop_last() =~= events@.take(i as int));
            match events[i].classify() {
                Some(tuple) => {
                    match self.registry.resolve(&self.size) {
                        Some(destination) => {
                            sessions[destination].give(tuple);
                        },
                        None => {},
                    }
                },
                None => {},
            }
            i += 1;
        }
        assert(events@.take(events@.len() as int) =~= events@);
        Self::close_sessions(sessions)
    }

    /// Processes one batch of events. Every channel receives exactly one
    /// delivery for the batch, also a channel for which the batch holds
    /// nothing, and no session is left open when the function returns.
    pub fn process_batch(&mut self, batch: &EventBatch)
        requires
            old(self).wf(),
            all_representable(batch@.1),
        ensures
            final(self).wf(),
            final(self)@ == old(self)@.after_batch(batch@),
    {
        let deliveries = self.route(batch);
        let ghost routed = deliveries@;
        let n = deliveries.len();
        let mut h: usize = 0;
        for delivery in it: deliveries
            invariant
                h == it.index(),
                it.seq() == routed,
                routed.len() == n,
                forall|k: int|
                    0 <= k < n ==> (#[trigger] routed[k])@ == (
                        batch@.0,
                        session_content(old(self)@.attributes[k], batch@.1),
                    ),
                old(self).wf(),
                self.wf(),
                self@.attributes == old(self)@.attributes,
                self@.streams.len() == n,
                old(self)@.streams.len() == n,
                forall|k: int|
                    0 <= k < h ==> #[trigger] self@.streams[k] == old(self)@.streams[k].push(
                        routed[k]@,
                    ),
                forall|k: int| h <= k < n ==> #[trigger] self@.streams[k] == old(self)@.streams[k],
        {
            let ghost before = self@.streams;
            self.channels[h].deliver(delivery);
            assert(self@.streams =~= before.update(
                h as int,
                before[h as int].push(routed[h as int]@),
            ));
            h += 1;
        }
    }

    /// Replays a log: processes its batches in the order of their delivery.
    pub fn replay(&mut self, log: &Vec<EventBatch>)
        requires
            old(self).wf(),
            log_representable(batches(log@)),
        ensures
            final(self).wf(),
            final(self)@ == old(self)@.after_log(batches(log@)),
    {
        let mut b: usize = 0;
        proof {
            old(self)@.lemma_after_log_unfolds(batches(log@).take(0));
        }
        while b < log.len()
            invariant
                b <= log@.len(),
                log_representable(batches(log@)),
                self.wf(),
                self@ == old(self)@.after_log(batches(log@).take(b as int)),
            decreases log@.len() - b,
        {
            assert(all_representable(batches(log@)[b as int].1));
            self.process_batch(&log[b]);
            proof {
                let longer = batches(log@).take(b + 1);
                assert(longer.drop_last() =~= batches(log@).take(b as int));
                old(self)@.lemma_after_log_unfolds(longer);
            }
            b += 1;
        }
        assert(batches(log@).take(log@.len() as int) =~= batches(log@));
    }

    /// Gives up the demultiplexer and hands out every channel with the key of
    /// its attribute, in the order of the handles.
    pub fn into_streams(self) -> (streams: Vec<(A, OutputChannel)>)
        requires
            self.wf(),
        ensures
            streams@.len() == self@.attributes.len(),
            forall|h: int|
                0 <= h < streams@.len() ==> (#[trigger] streams@[h]).0.name() == self@.attributes[h]
                    && streams@[h].1@ == self@.streams[h],
    {
        let ghost state = self@;
        let Demux { registry, channels, size: _ } = self;
        let mut streams: Vec<(A, OutputChannel)> = Vec::new();
        let n = channels.len();
        let mut h: usize = 0;
        for channel in it: channels
            invariant
                h == it.index(),
                it.seq().len() == n,
                it.seq().len() == registry@.len(),
                registry@ == state.attributes,
                state.streams.len() == it.seq().len(),
                forall|k: int|
                    0 <= k < it.seq().len() ==> (#[trigger] it.seq()[k])@ == state.streams[k],
                streams@.len() == h,
                forall|k: int|
                    0 <= k < h ==> (#[trigger] streams@[k]).0.name() == state.attributes[k]
                        && streams@[k].1@ == state.streams[k],
        {
            match registry.key(h) {
                Some(key) => {
                    streams.push((key.duplicate(), channel));
                },
                // Every channel has the key of its attribute.
                None => {},
            }
            h += 1;
        }
        streams
    }
}

} // verus!
