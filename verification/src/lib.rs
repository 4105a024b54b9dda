//! The per-connection core of a gateway that answers status queries on behalf
//! of a sleeping game server and hands a logging-in client over to the real
//! server without losing a byte.

pub mod buffer;
pub mod codec;
pub mod config;
pub mod connection;
pub mod gate;
pub mod handshake;
pub mod login;
pub mod packet;
pub mod session;
pub mod status;
pub mod stream;
pub mod varint;
pub mod wire;
