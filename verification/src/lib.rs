//! A tick-driven core for a non-blocking WebSocket link.
//!
//! The crate holds the decisions of such a link and none of its I/O: which
//! connection slots exist and what each one holds, when a send cycle is due,
//! what goes on the wire, and what an outcome reported by the transport means.
//! A driver performs the handshakes, writes and reads, and hands every
//! outcome back as a plain value.

pub mod channel;
pub mod client;
pub mod pump;
pub mod registry;
pub mod report;
pub mod task;
pub mod timer;
pub mod transform;
