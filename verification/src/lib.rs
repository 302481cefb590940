//! Encrypted transport handshake and framing for an RLPx-style peer-to-peer
//! session: key derivation primitives, the handshake engine, the frame codec
//! and the decisions of the stream adapter, with machine-checked contracts.

pub mod cipher;
pub mod disc;
pub mod ecies;
pub mod envelope;
pub mod errors;
pub mod kdf;
pub mod keys;
pub mod mac;
pub mod octets;
pub mod rlp;
pub mod secret;
pub mod types;
pub mod util;

pub use crate::disc::{Discovery, NodeRecord};
pub use crate::ecies::algorithm::ECIES;
pub use crate::ecies::proto::{
    ECIESCodec, ECIESState, ECIESStream, EgressECIESValue, IngressECIESValue,
};
pub use crate::errors::{CodecError, CryptoError, ECIESError, HandshakeError};
pub use crate::keys::{PublicKey, SecretKey};
pub use crate::types::PeerId;
