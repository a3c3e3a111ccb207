//! Core runtime of a client for the Futu OpenD binary gateway protocol:
//! framing codec with SHA-1 integrity, AES-128-ECB body encryption,
//! connection state (serial numbers, mid-session cipher downgrade),
//! request/response dispatch, keepalive failure tracking, and the
//! handshake message encoding.

pub mod digest;
pub mod header;
pub mod codec;
pub mod cipher;
pub mod serial;
pub mod keepalive;
pub mod config;
pub mod session;
pub mod dispatcher;
pub mod wire;
pub mod init;
pub mod client;
pub mod proto;
