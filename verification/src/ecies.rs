//! The encrypted-session engine: frames, the handshake and the codec.

pub mod algorithm;
pub mod frame;
pub mod proto;
