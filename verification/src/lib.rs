//! Core of a multi-process JSON-RPC tool-server client.
//!
//! Each configured server runs as a child process speaking newline-framed
//! JSON-RPC 2.0 over its standard streams. This crate holds everything that
//! decides: per-connection request/response correlation (`correlate`), the
//! connection lifecycle and handshake sequencing (`lifecycle`), the exact
//! wire framing of outbound requests (`wire`), and the aggregated registry
//! and call facade (`session`). The host performs the I/O these components
//! ask for and feeds back what it read; it takes no decision of its own.

pub mod correlate;
pub mod json;
pub mod lifecycle;
pub mod session;
pub mod tool;
pub mod wire;
