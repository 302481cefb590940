use aes::cipher::{BlockEncrypt, KeyInit, KeyIvInit, StreamCipher, StreamCipherSeek};
use vstd::prelude::*;

verus! {

/// The byte at `index` of the keystream of AES-128 in counter mode, with a
/// 128-bit big-endian counter that starts at `iv`.
pub uninterp spec fn aes128_ctr_keystream(key: Seq<u8>, iv: Seq<u8>, index: nat) -> u8;

/// The byte at `index` of the keystream of AES-256 in counter mode, with a
/// 128-bit big-endian counter that starts at `iv`.
pub uninterp spec fn aes256_ctr_keystream(key: Seq<u8>, iv: Seq<u8>, index: nat) -> u8;

/// The AES-256 encryption of one 16-byte block.
pub uninterp spec fn aes256_block(key: Seq<u8>, block: Seq<u8>) -> Seq<u8>;

/// `data` under the AES-128 counter-mode keystream from its start.
pub open spec fn aes128_ctr_apply(key: Seq<u8>, iv: Seq<u8>, data: Seq<u8>) -> Seq<u8> {
    Seq::new(data.len(), |i: int| data[i] ^ aes128_ctr_keystream(key, iv, i as nat))
}

/// `data` under the AES-256 counter-mode keystream from byte `pos` on.
pub open spec fn aes256_ctr_apply(key: Seq<u8>, iv: Seq<u8>, pos: nat, data: Seq<u8>) -> Seq<u8> {
    Seq::new(data.len(), |i: int| data[i] ^ aes256_ctr_keystream(key, iv, pos + i as nat))
}

/// Runs `ctr::Ctr128BE<aes::Aes128>` over `data` with `apply_keystream`.
/// Trusted: each byte that comes out is the byte that went in, exclusive-or
/// the keystream byte at its index, and the keystream depends on the key and
/// the initial counter block alone.
#[verifier::external_body]
pub(crate) fn aes128_ctr_raw(key: &[u8; 16], iv: &[u8; 16], data: &[u8]) -> (out: Vec<u8>)
    ensures
        out@.len() == data@.len(),
        forall|i: int|
            0 <= i < data@.len() ==> #[trigger] out@[i] == data@[i] ^ aes128_ctr_keystream(
                key@,
                iv@,
                i as nat,
            ),
{
    let mut out = data.to_vec();
    let mut cipher = ctr::Ctr128BE::<aes::Aes128>::new(key.into(), iv.into());
    cipher.apply_keystream(&mut out);
    out
}

/// Runs `ctr::Ctr128BE<aes::Aes256>` over `data` with `seek` to `pos` and
/// `apply_keystream`. Trusted: each byte that comes out is the byte that went
/// in, exclusive-or the keystream byte at `pos` plus its index, and the
/// keystream depends on the key and the initial counter block alone.
#[verifier::external_body]
pub(crate) fn aes256_ctr_raw(key: &[u8; 32], iv: &[u8; 16], pos: u64, data: &[u8]) -> (out: Vec<u8>)
    requires
        pos + data@.len() <= u64::MAX,
    ensures
        out@.len() == data@.len(),
        forall|i: int|
            0 <= i < data@.len() ==> #[trigger] out@[i] == data@[i] ^ aes256_ctr_keystream(
                key@,
                iv@,
                (pos + i) as nat,
            ),
{
    let mut out = data.to_vec();
    let mut cipher = ctr::Ctr128BE::<aes::Aes256>::new(key.into(), iv.into());
    cipher.seek(pos);
    cipher.apply_keystream(&mut out);
    out
}

/// Runs `aes::Aes256::encrypt_block` on a copy of `block`. Trusted: the 16
/// bytes are the AES-256 encryption of the block under the key.
#[verifier::external_body]
pub(crate) fn aes256_encrypt_block(key: &[u8; 32], block: &[u8; 16]) -> (out: [u8; 16])
    ensures
        out@ == aes256_block(key@, block@),
{
    let mut b = aes::Block::from(*block);
    aes::Aes256::new(key.into()).encrypt_block(&mut b);
    b.into()
}

/// Encrypts or decrypts `data` with AES-128 in counter mode.
pub fn aes128_ctr(key: &[u8; 16], iv: &[u8; 16], data: &[u8]) -> (out: Vec<u8>)
    ensures
        out@ == aes128_ctr_apply(key@, iv@, data@),
{
    let out = aes128_ctr_raw(key, iv, data);
    assert(out@ =~= aes128_ctr_apply(key@, iv@, data@));
    out
}

/// Encrypts or decrypts `data` with AES-256 in counter mode, as the bytes of
/// the stream that start at `pos`.
pub fn aes256_ctr(key: &[u8; 32], iv: &[u8; 16], pos: u64, data: &[u8]) -> (out: Vec<u8>)
    requires
        pos + data@.len() <= u64::MAX,
    ensures
        out@ == aes256_ctr_apply(key@, iv@, pos as nat, data@),
{
    let out = aes256_ctr_raw(key, iv, pos, data);
    assert(out@ =~= aes256_ctr_apply(key@, iv@, pos as nat, data@));
    out
}

/// Counter mode is its own inverse under one key and counter block.
pub proof fn lemma_aes128_ctr_twice(key: Seq<u8>, iv: Seq<u8>, data: Seq<u8>)
    ensures
        aes128_ctr_apply(key, iv, aes128_ctr_apply(key, iv, data)) == data,
{
    let once = aes128_ctr_apply(key, iv, data);
    assert forall|i: int| 0 <= i < data.len() implies aes128_ctr_apply(key, iv, once)[i]
        == data[i] by {
        let x = data[i];
        let k = aes128_ctr_keystream(key, iv, i as nat);
        assert((x ^ k) ^ k == x) by (bit_vector);
    }
    assert(aes128_ctr_apply(key, iv, once) =~= data);
}

/// Counter mode is its own inverse under one key, counter block and position.
pub proof fn lemma_aes256_ctr_twice(key: Seq<u8>, iv: Seq<u8>, pos: nat, data: Seq<u8>)
    ensures
        aes256_ctr_apply(key, iv, pos, aes256_ctr_apply(key, iv, pos, data)) == data,
{
    let once = aes256_ctr_apply(key, iv, pos, data);
    assert forall|i: int| 0 <= i < data.len() implies aes256_ctr_apply(key, iv, pos, once)[i]
        == data[i] by {
        let x = data[i];
        let k = aes256_ctr_keystream(key, iv, pos + i as nat);
        assert((x ^ k) ^ k == x) by (bit_vector);
    }
    assert(aes256_ctr_apply(key, iv, pos, once) =~= data);
}

} // verus!
