use crate::errors::CryptoError;
use crate::octets::array_from;
use crate::secret::Key32;
use rand::RngCore;
use vstd::prelude::*;

verus! {

/// Format byte of an uncompressed point encoding.
pub const POINT_TAG_FULL: u8 = 0x04;

/// The number that a big-endian byte string writes.
pub open spec fn be_nat(b: Seq<u8>) -> nat
    decreases b.len(),
{
    if b.len() == 0 {
        0
    } else {
        be_nat(b.drop_last()) * 256 + b.last() as nat
    }
}

/// The prime of the field over which secp256k1 is defined.
pub open spec fn field_prime() -> nat {
    0xFFFFFFFF_FFFFFFFF_FFFFFFFF_FFFFFFFF_FFFFFFFF_FFFFFFFF_FFFFFFFE_FFFFFC2Fnat
}

/// The order of the secp256k1 group.
pub open spec fn group_order() -> nat {
    0xFFFFFFFF_FFFFFFFF_FFFFFFFF_FFFFFFFE_BAAEDCE6_AF48A03B_BFD25E8C_D0364141nat
}

/// Whether `x` and `y` are reduced coordinates of a point on the curve
/// `y^2 = x^3 + 7`.
pub open spec fn on_curve(x: nat, y: nat) -> bool {
    &&& x < field_prime()
    &&& y < field_prime()
    &&& (y * y) % field_prime() == (x * x * x + 7) % field_prime()
}

/// Whether 32 bytes write a secret scalar: a number from 1 to the group order
/// less one.
pub open spec fn is_secret_scalar(s: Seq<u8>) -> bool {
    &&& s.len() == 32
    &&& 0 < be_nat(s) < group_order()
}

/// Whether 65 bytes are the uncompressed encoding of a curve point: the format
/// byte, then `x` and `y`.
pub open spec fn is_point_encoding(p: Seq<u8>) -> bool {
    &&& p.len() == 65
    &&& p[0] == POINT_TAG_FULL
    &&& on_curve(be_nat(p.subrange(1, 33)), be_nat(p.subrange(33, 65)))
}

/// The uncompressed encoding of the public key of a secret scalar.
pub uninterp spec fn secp256k1_public(sk: Seq<u8>) -> Seq<u8>;

/// The uncompressed encoding of the Diffie-Hellman value of two public keys,
/// given as the set of their uncompressed encodings.
pub uninterp spec fn secp256k1_dh(keys: Set<Seq<u8>>) -> Seq<u8>;

/// The recoverable signature of a 32-byte message under a secret scalar:
/// `r`, `s` and the recovery id.
pub uninterp spec fn secp256k1_sign(msg: Seq<u8>, sk: Seq<u8>) -> Seq<u8>;

/// The uncompressed encoding of the public key that a recoverable signature
/// over a message gives back, if it gives one.
pub uninterp spec fn secp256k1_recover(msg: Seq<u8>, sig: Seq<u8>) -> Option<Seq<u8>>;

/// The secret that two key holders share: the `x` coordinate of the
/// Diffie-Hellman value of their two public keys.
pub open spec fn shared_secret(a: Seq<u8>, b: Seq<u8>) -> Seq<u8> {
    secp256k1_dh(set![a, b]).subrange(1, 33)
}

/// The view of an optional byte array.
pub open spec fn option_bytes<const N: usize>(o: Option<[u8; N]>) -> Option<Seq<u8>> {
    match o {
        Some(a) => Some(a@),
        None => None,
    }
}

/// `libsecp256k1::Error`, the reason that a call into the curve library gives
/// for a failure. It is carried through and never looked into.
#[verifier::external_type_specification]
#[verifier::external_body]
pub struct ExSecpError(libsecp256k1::Error);

/// Runs `libsecp256k1::PublicKey::parse` on bytes that start with the full
/// format byte, and writes the key out again with `serialize`. Trusted: the
/// parse succeeds exactly when the two coordinates are below the field prime
/// and satisfy the curve equation, and the key is written back as it was
/// read.
#[verifier::external_body]
pub(crate) fn ec_parse_point(full: &[u8; 65]) -> (r: Result<[u8; 65], libsecp256k1::Error>)
    requires
        full@[0] == POINT_TAG_FULL,
    ensures
        r is Ok <==> is_point_encoding(full@),
        r matches Ok(p) ==> p@ == full@,
{
    libsecp256k1::PublicKey::parse(full).map(|pk| pk.serialize())
}

/// Runs `libsecp256k1::SecretKey::parse`. Trusted: it accepts exactly the
/// 32-byte strings that write a number from 1 to the group order less one.
#[verifier::external_body]
pub(crate) fn ec_is_secret(sk: &[u8; 32]) -> (ok: bool)
    ensures
        ok == is_secret_scalar(sk@),
{
    libsecp256k1::SecretKey::parse(sk).is_ok()
}

/// Runs `libsecp256k1::PublicKey::from_secret_key`. Trusted: the 65 bytes are
/// the uncompressed encoding of the scalar's multiple of the generator, which
/// is a point of the curve.
#[verifier::external_body]
pub(crate) fn ec_public(sk: &[u8; 32]) -> (pk: [u8; 65])
    requires
        is_secret_scalar(sk@),
    ensures
        pk@ == secp256k1_public(sk@),
        is_point_encoding(pk@),
{
    let sk = libsecp256k1::SecretKey::parse(sk).unwrap();
    libsecp256k1::PublicKey::from_secret_key(&sk).serialize()
}

/// Runs `libsecp256k1::PublicKey::tweak_mul_assign` and writes the product
/// out with `serialize`. Trusted: the 65 bytes are the uncompressed encoding
/// of the scalar's multiple of the point, which is the Diffie-Hellman value of
/// the point and the scalar's own public key.
#[verifier::external_body]
pub(crate) fn ec_multiply(pk: &[u8; 65], sk: &[u8; 32]) -> (product: [u8; 65])
    requires
        is_point_encoding(pk@),
        is_secret_scalar(sk@),
    ensures
        product@ == secp256k1_dh(set![pk@, secp256k1_public(sk@)]),
{
    let mut point = libsecp256k1::PublicKey::parse(pk).unwrap();
    let sk = libsecp256k1::SecretKey::parse(sk).unwrap();
    point.tweak_mul_assign(&sk).unwrap();
    point.serialize()
}

/// Runs `libsecp256k1::sign`. Trusted: `r` and `s`, followed by the recovery
/// id, are the deterministic signature of the message, and recovery from that
/// signature over the same message gives the signer's public key.
#[verifier::external_body]
pub(crate) fn ec_sign(msg: &[u8; 32], sk: &[u8; 32]) -> (sig: ([u8; 64], u8))
    requires
        is_secret_scalar(sk@),
    ensures
        sig.0@.push(sig.1) == secp256k1_sign(msg@, sk@),
        secp256k1_recover(msg@, sig.0@.push(sig.1)) == Some(secp256k1_public(sk@)),
{
    let sk = libsecp256k1::SecretKey::parse(sk).unwrap();
    let (s, id) = libsecp256k1::sign(&libsecp256k1::Message::parse(msg), &sk);
    (s.serialize(), id.serialize())
}

/// Runs `libsecp256k1::recover` on a signature read with
/// `Signature::parse_standard` and `RecoveryId::parse`. Trusted: the result
/// is a function of the message, the 64 signature bytes and the recovery id,
/// and a key that comes out is a point of the curve in uncompressed encoding.
#[verifier::external_body]
pub(crate) fn ec_recover(msg: &[u8; 32], sig: &[u8; 64], id: u8) -> (pk: Option<[u8; 65]>)
    ensures
        option_bytes(pk) == secp256k1_recover(msg@, sig@.push(id)),
        pk matches Some(p) ==> is_point_encoding(p@),
{
    let s = libsecp256k1::Signature::parse_standard(sig).ok()?;
    let id = libsecp256k1::RecoveryId::parse(id).ok()?;
    let m = libsecp256k1::Message::parse(msg);
    libsecp256k1::recover(&m, &s, &id).ok().map(|pk| pk.serialize())
}

/// Runs `libsecp256k1::SecretKey::random` on the operating system's random
/// source. Trusted: whatever is drawn, the bytes write a secret scalar.
#[verifier::external_body]
pub(crate) fn ec_random_secret() -> (sk: [u8; 32])
    ensures
        is_secret_scalar(sk@),
{
    libsecp256k1::SecretKey::random(&mut rand::rngs::OsRng).serialize()
}

/// Fills 32 bytes from the operating system's random source with
/// `rand::RngCore::fill_bytes`. Nothing is promised of them.
#[verifier::external_body]
pub(crate) fn random_32() -> (out: [u8; 32]) {
    let mut out = [0u8; 32];
    rand::rngs::OsRng.fill_bytes(&mut out);
    out
}

/// Fills 16 bytes from the operating system's random source with
/// `rand::RngCore::fill_bytes`. Nothing is promised of them.
#[verifier::external_body]
pub(crate) fn random_16() -> (out: [u8; 16]) {
    let mut out = [0u8; 16];
    rand::rngs::OsRng.fill_bytes(&mut out);
    out
}

/// Draws one number from the operating system's random source with
/// `rand::RngCore::next_u32`. Nothing is promised of it.
#[verifier::external_body]
pub(crate) fn random_u32() -> (out: u32) {
    rand::rngs::OsRng.next_u32()
}

/// A secret scalar of the curve: a static identity key or an ephemeral key.
/// Its bytes are wiped when the key goes out of scope, and it cannot be
/// printed.
pub struct SecretKey {
    key: Key32,
}

impl Clone for SecretKey {
    fn clone(&self) -> (sk: SecretKey)
        ensures
            sk@ == self@,
    {
        proof {
            use_type_invariant(self);
        }
        SecretKey { key: self.key.clone() }
    }
}

/// A public key: a point of the curve, held in uncompressed encoding.
#[derive(Clone, Copy, Debug, PartialEq, Eq)]
pub struct PublicKey {
    bytes: [u8; 65],
}

impl View for SecretKey {
    type V = Seq<u8>;

    closed spec fn view(&self) -> Seq<u8> {
        self.key@
    }
}

impl View for PublicKey {
    type V = Seq<u8>;

    closed spec fn view(&self) -> Seq<u8> {
        self.bytes@
    }
}

impl SecretKey {
    #[verifier::type_invariant]
    spec fn inv(self) -> bool {
        is_secret_scalar(self.key@)
    }

    /// Reads a secret key from 32 bytes.
    pub fn parse(bytes: &[u8; 32]) -> (r: Result<SecretKey, CryptoError>)
        ensures
            r is Ok <==> is_secret_scalar(bytes@),
            r matches Ok(sk) ==> sk@ == bytes@,
            r matches Err(e) ==> e == CryptoError::InvalidPoint,
    {
        if ec_is_secret(bytes) {
            Ok(SecretKey { key: Key32::new(*bytes) })
        } else {
            Err(CryptoError::InvalidPoint)
        }
    }

    /// Reads a secret key from a byte string of any length.
    pub fn parse_slice(bytes: &[u8]) -> (r: Result<SecretKey, CryptoError>)
        ensures
            r is Ok <==> is_secret_scalar(bytes@),
            r matches Ok(sk) ==> sk@ == bytes@,
            r matches Err(e) ==> e == (if bytes@.len() == 32 {
                CryptoError::InvalidPoint
            } else {
                CryptoError::InvalidKeyLength
            }),
    {
        if bytes.len() != 32 {
            return Err(CryptoError::InvalidKeyLength);
        }
        let mut a = [0u8; 32];
        let mut i: usize = 0;
        while i < 32
            invariant
                i <= 32,
                bytes@.len() == 32,
                forall|j: int| 0 <= j < i ==> a@[j] == bytes@[j],
            decreases 32 - i,
        {
            a[i] = bytes[i];
            i += 1;
        }
        assert(a@ =~= bytes@);
        SecretKey::parse(&a)
    }

    /// Draws a fresh secret key.
    pub fn random() -> (sk: SecretKey)
        ensures
            is_secret_scalar(sk@),
    {
        SecretKey { key: Key32::new(ec_random_secret()) }
    }

    /// The 32 bytes of the scalar, for as long as the key is held.
    pub fn as_bytes(&self) -> (out: &[u8; 32])
        ensures
            out@ == self@,
            is_secret_scalar(out@),
    {
        proof {
            use_type_invariant(self);
        }
        self.key.as_bytes()
    }

    /// A copy of the 32 bytes of the scalar. The copy is the caller's to
    /// guard.
    pub fn serialize(&self) -> (out: [u8; 32])
        ensures
            out@ == self@,
            is_secret_scalar(out@),
    {
        *self.as_bytes()
    }
}

impl PublicKey {
    #[verifier::type_invariant]
    spec fn inv(self) -> bool {
        is_point_encoding(self.bytes@)
    }

    pub(crate) fn from_checked(bytes: [u8; 65]) -> (pk: PublicKey)
        requires
            is_point_encoding(bytes@),
        ensures
            pk@ == bytes@,
    {
        PublicKey { bytes }
    }

    /// The public key of a secret key.
    pub fn from_secret_key(sk: &SecretKey) -> (pk: PublicKey)
        ensures
            pk@ == secp256k1_public(sk@),
            is_point_encoding(pk@),
            is_secret_scalar(sk@),
    {
        PublicKey { bytes: ec_public(sk.as_bytes()) }
    }

    /// Reads a public key from its 65-byte uncompressed encoding.
    pub fn parse(full: &[u8; 65]) -> (r: Result<PublicKey, CryptoError>)
        ensures
            r is Ok <==> is_point_encoding(full@),
            r matches Ok(pk) ==> pk@ == full@,
            r matches Err(e) ==> e == CryptoError::InvalidPoint,
    {
        if full[0] != POINT_TAG_FULL {
            return Err(CryptoError::InvalidPoint);
        }
        match ec_parse_point(full) {
            Ok(bytes) => Ok(PublicKey { bytes }),
            Err(_) => Err(CryptoError::InvalidPoint),
        }
    }

    /// The 65 bytes of the uncompressed encoding.
    pub fn serialize(&self) -> (out: [u8; 65])
        ensures
            out@ == self@,
            is_point_encoding(out@),
    {
        proof {
            use_type_invariant(self);
        }
        self.bytes
    }
}

/// The secret that the holder of `secret` shares with the holder of `remote`.
pub fn ecdh(secret: &SecretKey, remote: &PublicKey) -> (x: Key32)
    ensures
        x@ == shared_secret(remote@, secp256k1_public(secret@)),
{
    let product = ec_multiply(&remote.serialize(), secret.as_bytes());
    Key32::new(array_from::<32>(&product, 1))
}

/// Signs a 32-byte message so that the signer's public key can be recovered
/// from the signature: `r`, `s` and the recovery id.
pub fn sign(msg: &[u8; 32], secret: &SecretKey) -> (sig: [u8; 65])
    ensures
        sig@ == secp256k1_sign(msg@, secret@),
        secp256k1_recover(msg@, sig@) == Some(secp256k1_public(secret@)),
        is_secret_scalar(secret@),
{
    let (rs, id) = ec_sign(msg, secret.as_bytes());
    let mut sig = [0u8; 65];
    let mut i: usize = 0;
    while i < 64
        invariant
            i <= 64,
            forall|j: int| 0 <= j < i ==> sig@[j] == rs@[j],
        decreases 64 - i,
    {
        sig[i] = rs[i];
        i += 1;
    }
    sig[64] = id;
    assert(sig@ =~= rs@.push(id));
    sig
}

/// Recovers the signer's public key from a signature over a 32-byte message,
/// if the signature gives one.
pub fn recover(msg: &[u8; 32], sig: &[u8; 65]) -> (r: Option<PublicKey>)
    ensures
        match r {
            Some(pk) => secp256k1_recover(msg@, sig@) == Some(pk@),
            None => secp256k1_recover(msg@, sig@) is None,
        },
{
    let rs = array_from::<64>(sig, 0);
    assert(sig@ =~= rs@.push(sig@[64]));
    match ec_recover(msg, &rs, sig[64]) {
        Some(bytes) => Some(PublicKey { bytes }),
        None => None,
    }
}

} // verus!
