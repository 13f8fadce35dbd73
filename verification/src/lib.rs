//! A verified core for a stream-to-storage bridge: records read from a
//! sharded, append-only log stream are classified and decoded into typed
//! domain events, which one or more shard readers hand to a single consumer
//! over a fan-in channel. The decoding rules, the shard reader's state
//! machine and the channel's ordering are stated in contracts and proved;
//! the network calls themselves stay with the caller.

pub mod client;
pub mod configuration;
pub mod dispatcher;
pub mod event;
pub mod json;
pub mod reader;
