//! The transport core of the janu data plane: wire codec, batching and
//! fragmentation, conduits with sequence numbers, multicast peer tables,
//! and the session tables of the transport manager.

pub mod protocol;
pub mod varint;
pub mod fields;
pub mod message;
pub mod codec;
pub mod batch;
pub mod conduit;
pub mod properties;
pub mod link;
pub mod multicast;
pub mod unicast;
pub mod manager;
pub mod endpoint;
pub mod api;
