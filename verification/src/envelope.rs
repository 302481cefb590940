use crate::cipher::{aes128_ctr, aes128_ctr_apply, lemma_aes128_ctr_twice};
use crate::errors::CryptoError;
use crate::kdf::{kdf, spec_kdf};
use crate::keys::{
    ecdh, is_point_encoding, secp256k1_public, shared_secret, PublicKey, SecretKey,
};
use crate::octets::{array_from, be16, bytes_eq, slice_to_vec, take, u16_to_be};
use crate::util::{hmac_sha256, hmac_sha256_tag, sha256, sha256_digest};
use vstd::prelude::*;

verus! {

/// Bytes that an envelope adds to what it wraps, its length prefix aside: the
/// sender's one-time public key, the counter block and the tag.
pub const ENVELOPE_OVERHEAD: usize = 113;

/// Bytes of the length prefix of an envelope.
pub const PREFIX_LEN: usize = 2;

/// The longest plaintext that an envelope can wrap under a 16-bit length.
pub const MAX_PLAIN_LEN: usize = 65422;

/// The encryption key of an envelope: the first half of the key material
/// derived from the shared secret.
pub open spec fn envelope_enc_key(shared: Seq<u8>) -> Seq<u8> {
    spec_kdf(shared, Seq::<u8>::empty(), 32).subrange(0, 16)
}

/// The authentication key of an envelope: the hash of the second half of the
/// key material derived from the shared secret.
pub open spec fn envelope_mac_key(shared: Seq<u8>) -> Seq<u8> {
    take(sha256_digest(spec_kdf(shared, Seq::<u8>::empty(), 32).subrange(16, 32)), 32)
}

/// The tag of an envelope: the keyed hash of the counter block, the
/// ciphertext and the length prefix.
pub open spec fn envelope_tag(mac_key: Seq<u8>, iv: Seq<u8>, ct: Seq<u8>, prefix: Seq<u8>) -> Seq<
    u8,
> {
    take(hmac_sha256_tag(mac_key, iv + ct + prefix), 32)
}

/// The envelope that wraps `plain` for the holder of `remote`: the length
/// of what follows, the one-time public key, the counter block, the
/// ciphertext and the tag.
pub open spec fn spec_seal(remote: Seq<u8>, one_time: Seq<u8>, iv: Seq<u8>, plain: Seq<u8>) -> Seq<
    u8,
> {
    let shared = shared_secret(remote, secp256k1_public(one_time));
    let ct = aes128_ctr_apply(envelope_enc_key(shared), iv, plain);
    let prefix = be16((ENVELOPE_OVERHEAD + plain.len()) as nat);
    prefix + secp256k1_public(one_time) + iv + ct + envelope_tag(
        envelope_mac_key(shared),
        iv,
        ct,
        prefix,
    )
}

/// What the holder of the key pair with public key `own` reads from an
/// envelope, length prefix included.
pub open spec fn spec_open(own: Seq<u8>, data: Seq<u8>) -> Result<Seq<u8>, CryptoError> {
    if data.len() < PREFIX_LEN + ENVELOPE_OVERHEAD {
        Err(CryptoError::InvalidKeyLength)
    } else if !is_point_encoding(data.subrange(2, 67)) {
        Err(CryptoError::InvalidPoint)
    } else {
        let shared = shared_secret(data.subrange(2, 67), own);
        let iv = data.subrange(67, 83);
        let ct = data.subrange(83, data.len() - 32);
        let tag = data.subrange(data.len() - 32, data.len() as int);
        if envelope_tag(envelope_mac_key(shared), iv, ct, data.subrange(0, 2)) != tag {
            Err(CryptoError::MacMismatch)
        } else {
            Ok(aes128_ctr_apply(envelope_enc_key(shared), iv, ct))
        }
    }
}

/// The view of what was read from an envelope.
pub open spec fn opened_view(r: Result<Vec<u8>, CryptoError>) -> Result<Seq<u8>, CryptoError> {
    match r {
        Ok(v) => Ok(v@),
        Err(e) => Err(e),
    }
}

/// The two keys of an envelope, from the shared secret.
fn envelope_keys(shared: &[u8; 32]) -> (keys: ([u8; 16], [u8; 32]))
    ensures
        keys.0@ == envelope_enc_key(shared@),
        keys.1@ == envelope_mac_key(shared@),
{
    let empty: Vec<u8> = Vec::new();
    let material = kdf(shared, empty.as_slice(), 32);
    assert(empty@ =~= Seq::<u8>::empty());
    let enc_key = array_from::<16>(material.as_slice(), 0);
    let second = slice_to_vec(material.as_slice(), 16, 32);
    let mac_key = sha256(second.as_slice());
    assert(mac_key@ =~= take(mac_key@, 32));
    (enc_key, mac_key)
}

/// The tag over the counter block, the ciphertext and the length prefix.
fn tag_of(mac_key: &[u8; 32], iv: &[u8], ct: &[u8], prefix: &[u8]) -> (tag: [u8; 32])
    ensures
        tag@ == envelope_tag(mac_key@, iv@, ct@, prefix@),
{
    let mut input: Vec<u8> = Vec::new();
    input.extend_from_slice(iv);
    input.extend_from_slice(ct);
    input.extend_from_slice(prefix);
    assert(input@ =~= iv@ + ct@ + prefix@);
    let tag = hmac_sha256(mac_key, input.as_slice());
    assert(tag@ =~= take(tag@, 32));
    tag
}

/// Wraps `plain` in an envelope that only the holder of `remote` can open,
/// with a one-time key and a counter block that the caller drew.
pub fn seal(remote: &PublicKey, one_time: &SecretKey, iv: &[u8; 16], plain: &[u8]) -> (out: Vec<u8>)
    requires
        plain@.len() <= MAX_PLAIN_LEN,
    ensures
        out@ == spec_seal(remote@, one_time@, iv@, plain@),
        out@.len() == PREFIX_LEN + ENVELOPE_OVERHEAD + plain@.len(),
        spec_open(remote@, out@) == Ok::<Seq<u8>, CryptoError>(plain@),
        is_point_encoding(secp256k1_public(one_time@)),
{
    let one_time_public = PublicKey::from_secret_key(one_time).serialize();
    let shared = ecdh(one_time, remote);
    let (enc_key, mac_key) = envelope_keys(shared.as_bytes());
    let ct = aes128_ctr(&enc_key, iv, plain);
    let prefix = u16_to_be((ENVELOPE_OVERHEAD + plain.len()) as u16);
    let tag = tag_of(&mac_key, iv, ct.as_slice(), &prefix);
    let mut out: Vec<u8> = Vec::new();
    out.extend_from_slice(&prefix);
    out.extend_from_slice(&one_time_public);
    out.extend_from_slice(iv);
    out.extend_from_slice(ct.as_slice());
    out.extend_from_slice(&tag);
    assert(out@ =~= spec_seal(remote@, one_time@, iv@, plain@));
    proof {
        lemma_seal_open(remote@, one_time@, iv@, plain@);
    }
    out
}

/// Opens an envelope, length prefix included, with the secret key that it
/// was sealed for.
pub fn open(own: &SecretKey, data: &[u8]) -> (r: Result<Vec<u8>, CryptoError>)
    ensures
        opened_view(r) == spec_open(secp256k1_public(own@), data@),
{
    let n = data.len();
    if n < PREFIX_LEN + ENVELOPE_OVERHEAD {
        return Err(CryptoError::InvalidKeyLength);
    }
    let key_bytes = array_from::<65>(data, 2);
    let sender = match PublicKey::parse(&key_bytes) {
        Ok(pk) => pk,
        Err(_) => {
            return Err(CryptoError::InvalidPoint);
        },
    };
    let shared = ecdh(own, &sender);
    let (enc_key, mac_key) = envelope_keys(shared.as_bytes());
    let iv = array_from::<16>(data, 67);
    let ct = slice_to_vec(data, 83, n - 32);
    let tag = slice_to_vec(data, n - 32, n);
    let prefix = slice_to_vec(data, 0, 2);
    let expected = tag_of(&mac_key, &iv, ct.as_slice(), prefix.as_slice());
    if !bytes_eq(&expected, tag.as_slice()) {
        return Err(CryptoError::MacMismatch);
    }
    Ok(aes128_ctr(&enc_key, &iv, ct.as_slice()))
}

/// What one side seals for a key pair, the holder of that pair opens to the
/// same plaintext.
pub proof fn lemma_seal_open(remote: Seq<u8>, one_time: Seq<u8>, iv: Seq<u8>, plain: Seq<u8>)
    requires
        is_point_encoding(secp256k1_public(one_time)),
        iv.len() == 16,
        plain.len() <= MAX_PLAIN_LEN,
    ensures
        spec_open(remote, spec_seal(remote, one_time, iv, plain)) == Ok::<Seq<u8>, CryptoError>(
            plain,
        ),
        spec_seal(remote, one_time, iv, plain).len() == PREFIX_LEN + ENVELOPE_OVERHEAD
            + plain.len(),
{
    let public = secp256k1_public(one_time);
    let shared = shared_secret(remote, public);
    let ct = aes128_ctr_apply(envelope_enc_key(shared), iv, plain);
    let prefix = be16((ENVELOPE_OVERHEAD + plain.len()) as nat);
    let tag = envelope_tag(envelope_mac_key(shared), iv, ct, prefix);
    let data = spec_seal(remote, one_time, iv, plain);
    assert(data.len() == 115 + plain.len());
    assert(data.subrange(0, 2) =~= prefix);
    assert(data.subrange(2, 67) =~= public);
    assert(data.subrange(67, 83) =~= iv);
    assert(data.subrange(83, data.len() - 32) =~= ct);
    assert(data.subrange(data.len() - 32, data.len() as int) =~= tag);
    assert(set![public, remote] =~= set![remote, public]);
    lemma_aes128_ctr_twice(envelope_enc_key(shared), iv, plain);
}

/// The tag that the holder of the key pair with public key `own` computes
/// over the fields of an envelope.
pub open spec fn expected_tag(own: Seq<u8>, data: Seq<u8>) -> Seq<u8> {
    envelope_tag(
        envelope_mac_key(shared_secret(data.subrange(2, 67), own)),
        data.subrange(67, 83),
        data.subrange(83, data.len() - 32),
        data.subrange(0, 2),
    )
}

/// An envelope that was changed in one byte on its way is turned down, unless
/// the change is outside the tag and the keyed hash gives the changed fields
/// the tag of the fields as they were sent.
pub proof fn lemma_tampered_envelope_rejected(
    remote: Seq<u8>,
    one_time: Seq<u8>,
    iv: Seq<u8>,
    plain: Seq<u8>,
    at: int,
    byte: u8,
)
    requires
        is_point_encoding(secp256k1_public(one_time)),
        iv.len() == 16,
        plain.len() <= MAX_PLAIN_LEN,
        0 <= at < spec_seal(remote, one_time, iv, plain).len(),
        byte != spec_seal(remote, one_time, iv, plain)[at],
        at < spec_seal(remote, one_time, iv, plain).len() - 32 ==> expected_tag(
            remote,
            spec_seal(remote, one_time, iv, plain).update(at, byte),
        ) != expected_tag(remote, spec_seal(remote, one_time, iv, plain)),
    ensures
        spec_open(remote, spec_seal(remote, one_time, iv, plain).update(at, byte)) is Err,
{
    let public = secp256k1_public(one_time);
    let shared = shared_secret(remote, public);
    let ct = aes128_ctr_apply(envelope_enc_key(shared), iv, plain);
    let prefix = be16((ENVELOPE_OVERHEAD + plain.len()) as nat);
    let tag = envelope_tag(envelope_mac_key(shared), iv, ct, prefix);
    let data = spec_seal(remote, one_time, iv, plain);
    let tampered = data.update(at, byte);
    let n = data.len() as int;
    assert(n == 115 + plain.len());
    assert(data.subrange(0, 2) =~= prefix);
    assert(data.subrange(2, 67) =~= public);
    assert(data.subrange(67, 83) =~= iv);
    assert(data.subrange(83, n - 32) =~= ct);
    assert(data.subrange(n - 32, n) =~= tag);
    assert(set![public, remote] =~= set![remote, public]);
    assert(expected_tag(remote, data) == tag);
    if at >= n - 32 {
        assert(tampered.subrange(0, 2) =~= prefix);
        assert(tampered.subrange(2, 67) =~= public);
        assert(tampered.subrange(67, 83) =~= iv);
        assert(tampered.subrange(83, n - 32) =~= ct);
        assert(tampered.subrange(n - 32, n)[at - (n - 32)] == byte);
        assert(data.subrange(n - 32, n)[at - (n - 32)] == data[at]);
    } else {
        assert(tampered.subrange(n - 32, n) =~= tag);
    }
}

} // verus!
