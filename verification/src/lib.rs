//! A minimal TCP broadcast relay, verified: any connected peer's text message
//! is forwarded to every other connected peer.
//!
//! The library holds the relay's logic: the fixed-width frame codec, the
//! registry of live peer handles, the router's inbound message queue, and the
//! per-step decisions of the peer handler, the broadcast cycle and the client
//! send loop. The surrounding process (sockets, threads, timers) hands these
//! functions plain values and carries out the actions they return.

pub mod client;
pub mod codec;
pub mod registry;
pub mod relay;
pub mod router;
