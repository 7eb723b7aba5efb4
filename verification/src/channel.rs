//! Output channels and the sessions through which they are written.
//!
//! A channel records what was delivered on it, one delivery per closed
//! session, so that its consumer can read the stream back.

use crate::event::EmittedTuple;
use std::time::Duration;
use vstd::prelude::*;

verus! {

/// A delivery as contracts see it: the time of the notification and the
/// tuples, in the order in which they were written.
pub type DeliveryView = (Duration, Seq<EmittedTuple>);

/// What one closed session delivered: the tuples written during one batch,
/// in the order in which they were written.
#[derive(Debug, PartialEq, Eq)]
pub struct Delivery {
    /// The time of the notification under which the tuples were sent.
    pub time: Duration,
    pub tuples: Vec<EmittedTuple>,
}

impl View for Delivery {
    type V = DeliveryView;

    open spec fn view(&self) -> DeliveryView {
        (self.time, self.tuples@)
    }
}

/// A write handle on one channel for the span of one batch. Tuples given to
/// it are buffered until the session is closed.
#[derive(Debug, PartialEq, Eq)]
pub struct Session {
    time: Duration,
    buffer: Vec<EmittedTuple>,
}

impl View for Session {
    type V = DeliveryView;

    /// The time the session was opened for and the tuples given so far.
    closed spec fn view(&self) -> DeliveryView {
        (self.time, self.buffer@)
    }
}

impl Session {
    /// The time of the notification that the session belongs to.
    pub fn time(&self) -> (time: Duration)
        ensures
            time == self@.0,
    {
        self.time
    }

    /// Buffers one tuple behind those given before.
    pub fn give(&mut self, tuple: EmittedTuple)
        ensures
            final(self)@ == (old(self)@.0, old(self)@.1.push(tuple)),
    {
        self.buffer.push(tuple);
    }

    /// Closes the session. What it buffered leaves as one delivery under the
    /// time of the session, whether or not it holds any tuple.
    pub fn close(self) -> (delivery: Delivery)
        ensures
            delivery@ == self@,
    {
        Delivery { time: self.time, tuples: self.buffer }
    }
}

/// The stream of one attribute.
#[derive(Debug, PartialEq, Eq)]
pub struct OutputChannel {
    delivered: Vec<Delivery>,
}

impl View for OutputChannel {
    type V = Seq<DeliveryView>;

    /// The deliveries made so far, oldest first.
    closed spec fn view(&self) -> Seq<DeliveryView> {
        Seq::new(self.delivered@.len(), |i: int| self.delivered@[i]@)
    }
}

impl OutputChannel {
    /// A channel on which nothing has been delivered.
    pub fn new() -> (channel: Self)
        ensures
            channel@ == Seq::<DeliveryView>::empty(),
    {
        OutputChannel { delivered: Vec::new() }
    }

    /// Opens a session on the channel for the batch notified at `time`.
    pub fn session(&self, time: Duration) -> (session: Session)
        ensures
            session@ == (time, Seq::<EmittedTuple>::empty()),
    {
        Session { time, buffer: Vec::new() }
    }

    /// Takes in what a closed session delivered, after everything delivered
    /// before.
    pub fn deliver(&mut self, delivery: Delivery)
        ensures
            final(self)@ == old(self)@.push(delivery@),
    {
        self.delivered.push(delivery);
    }

    /// The number of deliveries made so far.
    pub fn len(&self) -> (n: usize)
        ensures
            n == self@.len(),
    {
        self.delivered.len()
    }

    /// The deliveries made so far, oldest first.
    pub fn deliveries(&self) -> (deliveries: &Vec<Delivery>)
        ensures
            deliveries@.len() == self@.len(),
            forall|i: int| 0 <= i < self@.len() ==> (#[trigger] deliveries@[i])@ == self@[i],
    {
        &self.delivered
    }
}

} // verus!
