use crate::cipher::{aes256_block, aes256_encrypt_block};
use crate::octets::{array_from, take, xor_array, xor_seq};
use crate::secret::Key32;
use crate::util::keccak256_digest;
use sha3::Digest;
use vstd::prelude::*;

verus! {

/// A running Keccak-256 hash: a `sha3::Keccak256` that takes in bytes piece
/// by piece and can show the digest of all of them at any time.
#[verifier::external_body]
pub struct RunningHash {
    inner: sha3::Keccak256,
}

/// The bytes that a running hash has taken in so far, in order.
pub uninterp spec fn keccak_absorbed(h: RunningHash) -> Seq<u8>;

/// Runs `sha3::Keccak256::new`. Trusted: a new running hash has taken in
/// nothing.
#[verifier::external_body]
pub(crate) fn hasher_new() -> (h: RunningHash)
    ensures
        keccak_absorbed(h) == Seq::<u8>::empty(),
{
    RunningHash { inner: sha3::Keccak256::new() }
}

/// Runs `update` of `sha3::Keccak256`. Trusted: the running hash has then
/// taken in what it had before, followed by `data`.
#[verifier::external_body]
pub(crate) fn hasher_update(h: &mut RunningHash, data: &[u8])
    ensures
        keccak_absorbed(*final(h)) == keccak_absorbed(*old(h)) + data@,
{
    h.inner.update(data);
}

/// Runs `finalize` on a clone of the running hash, which stays as it is.
/// Trusted: the 32 bytes are the Keccak-256 digest of all that the running
/// hash has taken in.
#[verifier::external_body]
pub(crate) fn hasher_digest(h: &RunningHash) -> (out: [u8; 32])
    ensures
        out@ == keccak256_digest(keccak_absorbed(*h)),
{
    h.inner.clone().finalize().into()
}

/// A frame authenticator as the contracts see it: its secret, and all the
/// bytes its running hash has taken in since the session began.
pub struct MacState {
    pub secret: Seq<u8>,
    pub absorbed: Seq<u8>,
}

/// The tag that an authenticator shows: the first half of the digest of all
/// it has taken in.
pub open spec fn mac_digest(m: MacState) -> Seq<u8> {
    take(keccak256_digest(m.absorbed), 16)
}

/// The authenticator after it has taken in `data`.
pub open spec fn mac_update(m: MacState, data: Seq<u8>) -> MacState {
    MacState { secret: m.secret, absorbed: m.absorbed + data }
}

/// The authenticator after an encrypted frame header: it takes in its own
/// tag, encrypted under its secret, exclusive-or the header.
pub open spec fn mac_update_header(m: MacState, header: Seq<u8>) -> MacState {
    mac_update(m, xor_seq(aes256_block(m.secret, mac_digest(m)), header))
}

/// The authenticator after an encrypted frame body: it takes in the body,
/// then its new tag, encrypted under its secret, exclusive-or that tag.
pub open spec fn mac_update_body(m: MacState, body: Seq<u8>) -> MacState {
    let m1 = mac_update(m, body);
    mac_update(m1, xor_seq(aes256_block(m.secret, mac_digest(m1)), mac_digest(m1)))
}

/// An authenticator at the start of a session: seeded with the secret
/// exclusive-or a nonce, then with a handshake message.
pub open spec fn mac_seeded(secret: Seq<u8>, nonce: Seq<u8>, message: Seq<u8>) -> MacState {
    MacState { secret, absorbed: xor_seq(secret, nonce) + message }
}

/// The running authenticator of one direction of a session. It is never
/// reset: each tag depends on every frame that went before.
pub struct MAC {
    secret: Key32,
    hasher: RunningHash,
}

impl View for MAC {
    type V = MacState;

    closed spec fn view(&self) -> MacState {
        MacState { secret: self.secret@, absorbed: keccak_absorbed(self.hasher) }
    }
}

impl MAC {
    /// An authenticator that has taken in nothing.
    pub fn new(secret: [u8; 32]) -> (m: MAC)
        ensures
            m@ == (MacState { secret: secret@, absorbed: Seq::<u8>::empty() }),
    {
        MAC { secret: Key32::new(secret), hasher: hasher_new() }
    }

    /// Takes in `data`.
    pub fn update(&mut self, data: &[u8])
        ensures
            final(self)@ == mac_update(old(self)@, data@),
    {
        hasher_update(&mut self.hasher, data);
    }

    /// The current tag. The authenticator stays as it is.
    pub fn digest(&self) -> (tag: [u8; 16])
        ensures
            tag@ == mac_digest(self@),
    {
        let full = hasher_digest(&self.hasher);
        let tag = array_from::<16>(&full, 0);
        assert(tag@ =~= mac_digest(self@));
        tag
    }

    /// Takes in an encrypted frame header.
    pub fn update_header(&mut self, header: &[u8; 16])
        ensures
            final(self)@ == mac_update_header(old(self)@, header@),
    {
        let tag = self.digest();
        let encrypted = aes256_encrypt_block(self.secret.as_bytes(), &tag);
        let mixed = xor_array(&encrypted, header);
        self.update(&mixed);
    }

    /// Takes in an encrypted frame body.
    pub fn update_body(&mut self, body: &[u8])
        ensures
            final(self)@ == mac_update_body(old(self)@, body@),
    {
        self.update(body);
        let tag = self.digest();
        let encrypted = aes256_encrypt_block(self.secret.as_bytes(), &tag);
        let mixed = xor_array(&encrypted, &tag);
        self.update(&mixed);
    }
}

} // verus!
