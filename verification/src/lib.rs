//! A cross-process, bidirectional byte-message channel built on OS named
//! pipes, with a length-prefixed wire format and a queue-based send/receive
//! API.
//!
//! This crate holds the verified core: the transport naming scheme, the
//! framing codec (a 4-byte little-endian length prefix before each payload),
//! and the channel facade over the send and receive queues. The unverified
//! shell that owns the OS pipe handles and the two I/O threads lives outside
//! this library and drives it through plain values.

pub mod channel;
pub mod frame;
pub mod naming;
pub mod queue;

pub use channel::IpcClient;
