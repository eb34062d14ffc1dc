//! An encrypted TCP tunnel: a SOCKS5-facing local endpoint and a remote
//! endpoint that talk the "v3" framed AEAD protocol.
//!
//! This crate holds the protocol logic: cipher negotiation, nonce counters,
//! record framing, the handshake messages of both sides and the SOCKS5
//! server state machine. Sockets, timers and configuration files are left to
//! the program that drives it.

pub mod buffer;
pub mod client;
pub mod config;
pub mod crypto;
pub mod error;
pub mod net;
pub mod server;
pub mod socks5;
pub mod transfer;
pub mod util;
pub mod v3;
