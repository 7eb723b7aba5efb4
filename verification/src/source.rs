//! The source itself: replaying a captured event log into the streams of the
//! requested attributes.

use crate::attribute::{lemma_collapsed_of_distinct, names, AsAid};
use crate::channel::OutputChannel;
use crate::demux::{batches, log_representable, recorded, Demux};
use crate::event::{BatchView, EventBatch};
use vstd::prelude::*;

verus! {

/// How the consumer of a stream is to read it.
#[derive(Clone, Copy, Debug, PartialEq, Eq, PartialOrd, Ord, Hash)]
pub enum InputSemantics {
    /// The tuples are taken as they come.
    Raw,
    /// The tuples are subject to the consumer's own rules for the attribute.
    Logical,
}

/// The stream of one attribute as the source hands it out: the key of the
/// attribute, how the stream is to be read, and the channel that holds it.
pub type SourcedStream<A> = (A, InputSemantics, OutputChannel);

/// One or more taps into the log of a differential dataflow engine.
#[derive(Hash, PartialEq, Eq, PartialOrd, Ord, Clone, Debug)]
pub struct DifferentialLogging<A: AsAid> {
    /// The log attributes that should be materialized.
    pub attributes: Vec<A>,
}

impl<A: AsAid> DifferentialLogging<A> {
    /// What `source` returns for a log: for every requested attribute, in the
    /// order of the request, its key, the tag for raw input, and the stream
    /// that the log leaves on its channel.
    pub open spec fn sourced(&self, log: Seq<BatchView>, streams: Seq<SourcedStream<A>>) -> bool {
        &&& streams.len() == self.attributes@.len()
        &&& forall|i: int|
            0 <= i < streams.len() ==> {
                &&& (#[trigger] streams[i]).0.name() == self.attributes@[i].name()
                &&& streams[i].1 == InputSemantics::Raw
                &&& streams[i].2@ == recorded(self.attributes@[i].name(), log)
            }
    }

    /// Replays a captured log through a fresh demultiplexer, batch by batch,
    /// and hands out the resulting stream of every requested attribute.
    ///
    /// No attribute may be requested twice, and every size that the log
    /// reports must fit a tuple; `keys_are_distinct` and
    /// `log_is_representable` test for that.
    pub fn source(&self, log: &Vec<EventBatch>) -> (streams: Vec<SourcedStream<A>>)
        requires
            names(self.attributes@).no_duplicates(),
            log_representable(batches(log@)),
        ensures
            self.sourced(batches(log@), streams@),
    {
        let mut demux = Demux::new(&self.attributes);
        let ghost attributes = names(self.attributes@);
        proof {
            lemma_collapsed_of_distinct(attributes);
        }
        demux.replay(log);
        let channels = demux.into_streams();
        let n = channels.len();
        let mut streams: Vec<SourcedStream<A>> = Vec::new();
        let mut h: usize = 0;
        for stream in it: channels
            invariant
                h == it.index(),
                it.seq().len() == n,
                n == attributes.len(),
                attributes == names(self.attributes@),
                forall|k: int|
                    0 <= k < n ==> {
                        &&& (#[trigger] it.seq()[k]).0.name() == attributes[k]
                        &&& it.seq()[k].1@ == recorded(attributes[k], batches(log@))
                    },
                streams@.len() == h,
                forall|k: int|
                    0 <= k < h ==> {
                        &&& (#[trigger] streams@[k]).0.name() == attributes[k]
                        &&& streams@[k].1 == InputSemantics::Raw
                        &&& streams@[k].2@ == recorded(attributes[k], batches(log@))
                    },
        {
            streams.push((stream.0, InputSemantics::Raw, stream.1));
            h += 1;
        }
        streams
    }
}

/// Replaying one log twice, each time through a demultiplexer of its own,
/// gives the same streams: what `source` promises of its result leaves no
/// room for two results that differ in a key, a tag or a delivery.
pub proof fn lemma_replay_is_deterministic<A: AsAid>(
    logging: DifferentialLogging<A>,
    log: Seq<BatchView>,
    first: Seq<SourcedStream<A>>,
    second: Seq<SourcedStream<A>>,
)
    requires
        logging.sourced(log, first),
        logging.sourced(log, second),
    ensures
        first.len() == second.len(),
        forall|i: int|
            0 <= i < first.len() ==> {
                &&& (#[trigger] first[i]).0.name() == second[i].0.name()
                &&& first[i].1 == second[i].1
                &&& first[i].2@ == second[i].2@
            },
{
}

} // verus!
