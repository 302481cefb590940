use crate::errors::CryptoError;
use crate::keys::{ec_parse_point, is_point_encoding, PublicKey, POINT_TAG_FULL};
use crate::mac::{hasher_digest, hasher_new, hasher_update, keccak_absorbed};
use crate::types::{H256, PeerId};
use hmac::Mac;
use sha2::Digest;
use vstd::prelude::*;

verus! {

/// The Keccak-256 digest of a byte string.
pub uninterp spec fn keccak256_digest(data: Seq<u8>) -> Seq<u8>;

/// The SHA-256 digest of a byte string.
pub uninterp spec fn sha256_digest(data: Seq<u8>) -> Seq<u8>;

/// The HMAC-SHA-256 tag of `input` under `key`.
pub uninterp spec fn hmac_sha256_tag(key: Seq<u8>, input: Seq<u8>) -> Seq<u8>;

/// The Keccak-256 digest of `data`.
pub fn keccak256(data: &[u8]) -> (out: H256)
    ensures
        out@ == keccak256_digest(data@),
{
    let mut hasher = hasher_new();
    hasher_update(&mut hasher, data);
    assert(keccak_absorbed(hasher) =~= data@);
    hasher_digest(&hasher)
}

/// Runs `sha2::Sha256::digest`. Trusted: the 32 bytes returned are the
/// SHA-256 digest of `data`, a function of the bytes alone.
#[verifier::external_body]
pub fn sha256(data: &[u8]) -> (out: H256)
    ensures
        out@ == sha256_digest(data@),
{
    sha2::Sha256::digest(data).into()
}

/// Runs `hmac::Hmac<sha2::Sha256>` once over `input`. Trusted: the 32 bytes
/// returned are the HMAC-SHA-256 tag of `input` under `key`; HMAC takes a key
/// of any length, so the construction never fails.
#[verifier::external_body]
pub fn hmac_sha256(key: &[u8], input: &[u8]) -> (out: H256)
    ensures
        out@ == hmac_sha256_tag(key@, input@),
{
    let mut mac = hmac::Hmac::<sha2::Sha256>::new_from_slice(key).unwrap();
    mac.update(input);
    mac.finalize().into_bytes().into()
}

/// The identifier that a public key encoding stands for: the encoding
/// without its leading format byte.
pub open spec fn spec_pk2id(pk: Seq<u8>) -> Seq<u8> {
    pk.subrange(1, pk.len() as int)
}

/// The full encoding of the public key that an identifier names.
pub open spec fn spec_id2pk(id: Seq<u8>) -> Seq<u8> {
    seq![POINT_TAG_FULL] + id
}

/// The peer identifier of a public key.
pub fn pk2id(pk: &PublicKey) -> (id: PeerId)
    ensures
        id@ == spec_pk2id(pk@),
        is_point_encoding(spec_id2pk(id@)),
{
    let full = pk.serialize();
    let mut id: PeerId = [0u8; 64];
    let mut i: usize = 0;
    while i < 64
        invariant
            i <= 64,
            full@ == pk@,
            forall|j: int| 0 <= j < i ==> id@[j] == full@[j + 1],
        decreases 64 - i,
    {
        id[i] = full[i + 1];
        i += 1;
    }
    assert(id@ =~= spec_pk2id(pk@));
    assert(spec_id2pk(id@) =~= pk@);
    id
}

/// The public key that a peer identifier names, if it names a curve point.
pub fn id2pk(id: PeerId) -> (r: Result<PublicKey, CryptoError>)
    ensures
        r is Ok <==> is_point_encoding(spec_id2pk(id@)),
        r matches Ok(pk) ==> pk@ == spec_id2pk(id@),
        r matches Err(e) ==> e == CryptoError::InvalidPoint,
{
    let mut full: [u8; 65] = [0u8; 65];
    full[0] = POINT_TAG_FULL;
    let mut i: usize = 0;
    while i < 64
        invariant
            i <= 64,
            full@[0] == POINT_TAG_FULL,
            forall|j: int| 0 <= j < i ==> full@[j + 1] == id@[j],
        decreases 64 - i,
    {
        full[i + 1] = id[i];
        i += 1;
    }
    assert(full@ =~= spec_id2pk(id@));
    match ec_parse_point(&full) {
        Ok(bytes) => Ok(PublicKey::from_checked(bytes)),
        Err(_) => Err(CryptoError::InvalidPoint),
    }
}

/// A public key gives an identifier that names the same key again.
pub proof fn lemma_pk2id2pk(pk: Seq<u8>)
    requires
        is_point_encoding(pk),
    ensures
        spec_id2pk(spec_pk2id(pk)) == pk,
        spec_pk2id(pk).len() == 64,
{
    assert(spec_id2pk(spec_pk2id(pk)) =~= pk);
}

} // verus!
