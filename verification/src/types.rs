use vstd::prelude::*;

verus! {

/// A 32-byte hash value.
pub type H256 = [u8; 32];

/// A peer's identifier: its uncompressed public key without the format byte.
pub type PeerId = [u8; 64];

} // verus!
