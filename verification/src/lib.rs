//! Transport core of a point-to-point RPC engine.
//!
//! The crate verifies the logic of the engine: the framed wire codec, the
//! per-connection read buffer, the connection registry, the pending-call
//! table, and the decisions the read loop and the call API make.  The
//! asynchronous shells around this logic (sockets, channels, timers) live
//! outside the verified library and drive it with plain values.

pub mod buffer;
pub mod codec;
pub mod kv_batch;
pub mod result;
pub mod rpc_model;
pub mod table;
pub mod write_loop;
