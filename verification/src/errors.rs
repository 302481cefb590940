use vstd::prelude::*;

verus! {

/// Failure of a cryptographic primitive: corruption or an adversarial peer.
#[derive(Clone, Copy, Debug, PartialEq, Eq)]
pub enum CryptoError {
    /// The bytes do not name a point of the curve group other than its identity.
    InvalidPoint,
    /// A key was given with the wrong number of bytes.
    InvalidKeyLength,
    /// An authentication tag does not match the data it came with.
    MacMismatch,
}

/// Failure of the two-message handshake.
#[derive(Clone, Copy, Debug, PartialEq, Eq)]
pub enum HandshakeError {
    /// The auth envelope could not be opened or understood.
    InvalidAuth,
    /// The ack envelope could not be opened or understood.
    InvalidAck,
    /// The peer announced a protocol version older than ours.
    VersionMismatch,
    /// A unit arrived, or was to be sent, that the current state does not allow.
    UnexpectedMessage,
}

/// Failure of the framing layer.
#[derive(Clone, Copy, Debug, PartialEq, Eq)]
pub enum CodecError {
    /// A length field holds a value that no frame can have.
    MalformedLength,
}

/// Any failure of an encrypted session. Every one of them ends the connection.
#[derive(Clone, Copy, Debug, PartialEq, Eq)]
pub enum ECIESError {
    Crypto(CryptoError),
    Handshake(HandshakeError),
    Codec(CodecError),
}

} // verus!
