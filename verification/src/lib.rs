//! Peer-to-peer publish ordering: a fixed set of nodes agrees on one global
//! order in which client messages are released, without a coordinator.
//!
//! The crate holds the protocol's data types and its decisions as verified,
//! sequential code. Sockets, threads, timers and serialisation live with the
//! caller, which feeds events in and carries the resulting actions out.

pub mod time;
pub mod order;
pub mod digest;
pub mod internal;
pub mod state;
pub mod proto;
pub mod semaphore;
pub mod queue;
pub mod pending;
pub mod wrk;
pub mod net;
pub mod req;
pub mod dsc;
pub mod heartbeat;
pub mod client;
