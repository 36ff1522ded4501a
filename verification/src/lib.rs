//! A minimal chat relay: the WebSocket upgrade handshake, the binary text-frame
//! codec, and the append-only message log with per-connection fan-out cursors.
//!
//! The surrounding process (listening socket, HTTP plumbing, JSON encoding of
//! message bodies, threads) lives outside this crate; everything here is the
//! protocol and broadcast logic itself.

pub mod frame;
pub mod handshake;
pub mod key;
pub mod log;
pub mod router;
pub mod worker;

pub use log::ChatMessage;
