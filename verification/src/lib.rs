//! A demultiplexer for the event log that a differential dataflow engine
//! keeps about itself.
//!
//! The engine reports, among other things, the size of every batch that an
//! operator produces and the outcome of every trace merge. This library
//! replays such a log and fans it out into one timestamped stream per
//! requested attribute. Every function is verified against a mathematical
//! model of the log and of the streams.
//!
//! - [`event`]: the events of the log and the tuples derived from them.
//! - [`attribute`]: attribute keys and the registry of requested attributes.
//! - [`channel`]: output channels, sessions and deliveries.
//! - [`demux`]: the router that classifies events and fills the channels.
//! - [`source`]: the source that replays a whole log for a set of attributes.
//! - [`adapter`]: the conversion from the engine's records to events.

pub mod adapter;
pub mod attribute;
pub mod channel;
pub mod demux;
pub mod event;
pub mod source;
