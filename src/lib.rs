//! Framing and parsing of peer-to-peer wire messages: the fixed header
//! (network magic, command name, payload length, checksum) around a payload,
//! and the handshake payload that opens a session.

pub mod bytes;
pub mod envelope;
pub mod handshake;
pub mod hashing;
