use crate::cipher::{aes256_ctr, aes256_ctr_apply, lemma_aes256_ctr_twice};
use crate::errors::CryptoError;
use crate::keys::{ecdh, secp256k1_public, shared_secret, PublicKey, SecretKey};
use crate::mac::{
    mac_digest, mac_seeded, mac_update_body, mac_update_header, MacState, MAC,
};
use crate::octets::{
    array_from, be24, bytes_eq, lemma_be24_read, padded_len, read_be24, round_up_16, slice_to_vec,
    xor_array, zeros,
};
use crate::secret::Key32;
use crate::util::{keccak256, keccak256_digest};
use vstd::prelude::*;

verus! {

/// Bytes of an encrypted frame header on the wire: the header and its tag.
pub const HEADER_LEN: usize = 32;

/// Bytes of a frame tag.
pub const TAG_LEN: usize = 16;

/// The longest payload whose length fits the three bytes of a frame header.
pub const MAX_PAYLOAD: usize = 0xFF_FFFF;

/// The keys and running state of an established session, as the contracts
/// see them. The state of each direction is used up in wire order and never
/// made anew.
pub struct SessionState {
    pub aes_key: Seq<u8>,
    pub egress_pos: nat,
    pub ingress_pos: nat,
    pub egress_mac: MacState,
    pub ingress_mac: MacState,
    pub pending_body: Option<nat>,
}

/// The counter block that the frame cipher starts from.
pub open spec fn frame_iv() -> Seq<u8> {
    zeros(16)
}

/// A frame header before encryption: the payload length, the fixed header
/// data, and zero padding to a full block.
pub open spec fn header_plain(size: nat) -> Seq<u8> {
    be24(size) + seq![0xc2u8, 0x80u8, 0x80u8] + zeros(10)
}

/// Bytes of a frame body on the wire: the payload padded to full blocks, and
/// the tag.
pub open spec fn spec_body_len(size: nat) -> nat {
    padded_len(size) + TAG_LEN as nat
}

/// The session keys that one side derives once it knows both ephemeral
/// public keys, both nonces and both handshake messages.
pub open spec fn spec_session(
    initiator: bool,
    own_ephemeral: Seq<u8>,
    remote_ephemeral: Seq<u8>,
    own_nonce: Seq<u8>,
    remote_nonce: Seq<u8>,
    sent: Seq<u8>,
    received: Seq<u8>,
) -> SessionState {
    let ephemeral = shared_secret(own_ephemeral, remote_ephemeral);
    let nonces = if initiator {
        keccak256_digest(remote_nonce + own_nonce)
    } else {
        keccak256_digest(own_nonce + remote_nonce)
    };
    let master = keccak256_digest(ephemeral + nonces);
    let aes_key = keccak256_digest(ephemeral + master);
    let mac_secret = keccak256_digest(ephemeral + aes_key);
    SessionState {
        aes_key,
        egress_pos: 0,
        ingress_pos: 0,
        egress_mac: mac_seeded(mac_secret, remote_nonce, sent),
        ingress_mac: mac_seeded(mac_secret, own_nonce, received),
        pending_body: None,
    }
}

/// Whether what `sender` sends is what `receiver` expects: one key, one place
/// in the keystream and one authenticator state.
pub open spec fn paired(sender: SessionState, receiver: SessionState) -> bool {
    &&& receiver.aes_key == sender.aes_key
    &&& receiver.ingress_pos == sender.egress_pos
    &&& receiver.ingress_mac == sender.egress_mac
}

/// The session after it has sent the header of a frame of `size` payload
/// bytes, and the 32 bytes sent.
pub open spec fn spec_seal_header(s: SessionState, size: nat) -> (SessionState, Seq<u8>) {
    let ct = aes256_ctr_apply(s.aes_key, frame_iv(), s.egress_pos, header_plain(size));
    let mac = mac_update_header(s.egress_mac, ct);
    (SessionState { egress_pos: s.egress_pos + 16, egress_mac: mac, ..s }, ct + mac_digest(mac))
}

/// The session after it has sent the body of a frame, and the bytes sent.
pub open spec fn spec_seal_body(s: SessionState, payload: Seq<u8>) -> (SessionState, Seq<u8>) {
    let padded = payload + zeros((padded_len(payload.len()) - payload.len()) as nat);
    let ct = aes256_ctr_apply(s.aes_key, frame_iv(), s.egress_pos, padded);
    let mac = mac_update_body(s.egress_mac, ct);
    (
        SessionState { egress_pos: s.egress_pos + padded.len(), egress_mac: mac, ..s },
        ct + mac_digest(mac),
    )
}

/// The session after it was given the 32 bytes of a frame header, and the
/// payload length that they announce. A wrong tag leaves the authenticator
/// advanced and the rest as it was.
pub open spec fn spec_open_header(s: SessionState, data: Seq<u8>) -> (
    SessionState,
    Result<nat, CryptoError>,
) {
    let ct = data.subrange(0, 16);
    let mac = mac_update_header(s.ingress_mac, ct);
    if mac_digest(mac) != data.subrange(16, 32) {
        (SessionState { ingress_mac: mac, ..s }, Err(CryptoError::MacMismatch))
    } else {
        let size = read_be24(aes256_ctr_apply(s.aes_key, frame_iv(), s.ingress_pos, ct));
        (
            SessionState {
                ingress_pos: s.ingress_pos + 16,
                ingress_mac: mac,
                pending_body: Some(size),
                ..s
            },
            Ok(size),
        )
    }
}

/// The session after it was given the bytes of the frame body that its last
/// header announced, and the payload. A wrong tag leaves the authenticator
/// advanced and the rest as it was.
pub open spec fn spec_open_body(s: SessionState, data: Seq<u8>) -> (
    SessionState,
    Result<Seq<u8>, CryptoError>,
) {
    let ct = data.subrange(0, data.len() - 16);
    let mac = mac_update_body(s.ingress_mac, ct);
    if mac_digest(mac) != data.subrange(data.len() - 16, data.len() as int) {
        (SessionState { ingress_mac: mac, ..s }, Err(CryptoError::MacMismatch))
    } else {
        let plain = aes256_ctr_apply(s.aes_key, frame_iv(), s.ingress_pos, ct);
        (
            SessionState {
                ingress_pos: s.ingress_pos + ct.len(),
                ingress_mac: mac,
                pending_body: None,
                ..s
            },
            Ok(plain.subrange(0, s.pending_body.unwrap() as int)),
        )
    }
}

/// The view of a payload that was read or not.
pub open spec fn payload_view(r: Result<Vec<u8>, CryptoError>) -> Result<Seq<u8>, CryptoError> {
    match r {
        Ok(v) => Ok(v@),
        Err(e) => Err(e),
    }
}

/// The view of a payload length that was read or not.
pub open spec fn size_view(r: Result<usize, CryptoError>) -> Result<nat, CryptoError> {
    match r {
        Ok(n) => Ok(n as nat),
        Err(e) => Err(e),
    }
}

/// The keys and running state of an established session.
pub struct Session {
    aes_key: Key32,
    egress_pos: u64,
    ingress_pos: u64,
    egress_mac: MAC,
    ingress_mac: MAC,
    pending_body: Option<usize>,
}

impl View for Session {
    type V = SessionState;

    closed spec fn view(&self) -> SessionState {
        SessionState {
            aes_key: self.aes_key@,
            egress_pos: self.egress_pos as nat,
            ingress_pos: self.ingress_pos as nat,
            egress_mac: self.egress_mac@,
            ingress_mac: self.ingress_mac@,
            pending_body: match self.pending_body {
                Some(n) => Some(n as nat),
                None => None,
            },
        }
    }
}

/// The Keccak-256 digest of `a` followed by `b`.
fn keccak_pair(a: &[u8], b: &[u8]) -> (out: [u8; 32])
    ensures
        out@ == keccak256_digest(a@ + b@),
{
    let mut input: Vec<u8> = Vec::new();
    input.extend_from_slice(a);
    input.extend_from_slice(b);
    assert(input@ =~= a@ + b@);
    keccak256(input.as_slice())
}

/// An authenticator seeded with its secret exclusive-or a nonce, then with a
/// handshake message.
fn seeded_mac(secret: &[u8; 32], nonce: &[u8; 32], message: &[u8]) -> (m: MAC)
    ensures
        m@ == mac_seeded(secret@, nonce@, message@),
{
    let mut m = MAC::new(*secret);
    let seed = xor_array(secret, nonce);
    m.update(&seed);
    m.update(message);
    assert(m@.absorbed =~= mac_seeded(secret@, nonce@, message@).absorbed);
    m
}

impl Session {
    /// Derives the session keys from the secrets and messages of a finished
    /// handshake.
    pub fn derive(
        initiator: bool,
        own_ephemeral: &SecretKey,
        remote_ephemeral: &PublicKey,
        own_nonce: &[u8; 32],
        remote_nonce: &[u8; 32],
        sent: &[u8],
        received: &[u8],
    ) -> (s: Session)
        ensures
            s@ == spec_session(
                initiator,
                secp256k1_public(own_ephemeral@),
                remote_ephemeral@,
                own_nonce@,
                remote_nonce@,
                sent@,
                received@,
            ),
    {
        let ephemeral = ecdh(own_ephemeral, remote_ephemeral);
        assert(set![remote_ephemeral@, secp256k1_public(own_ephemeral@)] =~= set![
            secp256k1_public(own_ephemeral@),
            remote_ephemeral@,
        ]);
        let nonces = if initiator {
            keccak_pair(remote_nonce, own_nonce)
        } else {
            keccak_pair(own_nonce, remote_nonce)
        };
        let master = keccak_pair(ephemeral.as_bytes(), &nonces);
        let aes_key = keccak_pair(ephemeral.as_bytes(), &master);
        let mac_secret = keccak_pair(ephemeral.as_bytes(), &aes_key);
        Session {
            aes_key: Key32::new(aes_key),
            egress_pos: 0,
            ingress_pos: 0,
            egress_mac: seeded_mac(&mac_secret, remote_nonce, sent),
            ingress_mac: seeded_mac(&mac_secret, own_nonce, received),
            pending_body: None,
        }
    }

    /// Keystream bytes that are left for sending.
    pub fn egress_room(&self) -> (n: u64)
        ensures
            n == u64::MAX - self@.egress_pos,
    {
        u64::MAX - self.egress_pos
    }

    /// Keystream bytes that are left for receiving.
    pub fn ingress_room(&self) -> (n: u64)
        ensures
            n == u64::MAX - self@.ingress_pos,
    {
        u64::MAX - self.ingress_pos
    }

    /// The payload length that the last header announced, while its body is
    /// still to come.
    pub fn pending_body(&self) -> (n: Option<usize>)
        ensures
            n is Some == self@.pending_body is Some,
            n matches Some(k) ==> self@.pending_body == Some(k as nat),
    {
        self.pending_body
    }

    /// Bytes of the frame body that the last header announced.
    pub fn body_len(&self) -> (n: usize)
        requires
            self@.pending_body matches Some(size) && size <= MAX_PAYLOAD,
        ensures
            n == spec_body_len(self@.pending_body.unwrap()),
    {
        match self.pending_body {
            Some(size) => round_up_16(size) + TAG_LEN,
            None => 0,
        }
    }

    /// Writes the header of a frame of `size` payload bytes.
    pub fn seal_header(&mut self, size: usize) -> (out: Vec<u8>)
        requires
            size <= MAX_PAYLOAD,
            old(self)@.egress_pos + 16 <= u64::MAX,
        ensures
            (final(self)@, out@) == spec_seal_header(old(self)@, size as nat),
            out@.len() == HEADER_LEN,
    {
        let mut plain = [0u8; 16];
        plain[0] = (size >> 16) as u8;
        plain[1] = ((size >> 8) & 0xff) as u8;
        plain[2] = (size & 0xff) as u8;
        plain[3] = 0xc2;
        plain[4] = 0x80;
        plain[5] = 0x80;
        proof {
            assert((size >> 16) as u8 == ((size as nat / 65536) % 256) as u8) by (bit_vector)
                requires
                    size <= 0xFF_FFFF,
            ;
            assert(((size >> 8) & 0xff) as u8 == ((size as nat / 256) % 256) as u8) by (bit_vector);
            assert((size & 0xff) as u8 == (size as nat % 256) as u8) by (bit_vector);
            assert(plain@ =~= header_plain(size as nat));
        }
        let iv = [0u8; 16];
        assert(iv@ =~= frame_iv());
        let ct_vec = aes256_ctr(self.aes_key.as_bytes(), &iv, self.egress_pos, &plain);
        let ct = array_from::<16>(ct_vec.as_slice(), 0);
        assert(ct@ =~= ct_vec@);
        self.egress_mac.update_header(&ct);
        let tag = self.egress_mac.digest();
        self.egress_pos = self.egress_pos + 16;
        let mut out: Vec<u8> = Vec::new();
        out.extend_from_slice(&ct);
        out.extend_from_slice(&tag);
        assert(out@ =~= ct@ + tag@);
        out
    }

    /// Writes the body of a frame.
    pub fn seal_body(&mut self, payload: &[u8]) -> (out: Vec<u8>)
        requires
            payload@.len() <= MAX_PAYLOAD,
            old(self)@.egress_pos + padded_len(payload@.len()) <= u64::MAX,
        ensures
            (final(self)@, out@) == spec_seal_body(old(self)@, payload@),
            out@.len() == spec_body_len(payload@.len()),
    {
        let padded_size = round_up_16(payload.len());
        let mut padded: Vec<u8> = Vec::new();
        padded.extend_from_slice(payload);
        while padded.len() < padded_size
            invariant
                payload@.len() <= padded@.len() <= padded_size,
                padded@ == payload@ + zeros((padded@.len() - payload@.len()) as nat),
            decreases padded_size - padded@.len(),
        {
            padded.push(0);
            assert(padded@ =~= payload@ + zeros((padded@.len() - payload@.len()) as nat));
        }
        let iv = [0u8; 16];
        assert(iv@ =~= frame_iv());
        let ct = aes256_ctr(self.aes_key.as_bytes(), &iv, self.egress_pos, padded.as_slice());
        self.egress_mac.update_body(ct.as_slice());
        let tag = self.egress_mac.digest();
        self.egress_pos = self.egress_pos + padded_size as u64;
        let mut out: Vec<u8> = Vec::new();
        out.extend_from_slice(ct.as_slice());
        out.extend_from_slice(&tag);
        assert(out@ =~= ct@ + tag@);
        out
    }

    /// Checks and reads the 32 bytes of a frame header.
    pub fn open_header(&mut self, data: &[u8]) -> (r: Result<usize, CryptoError>)
        requires
            data@.len() == HEADER_LEN,
            old(self)@.ingress_pos + 16 <= u64::MAX,
        ensures
            (final(self)@, size_view(r)) == spec_open_header(old(self)@, data@),
            r matches Ok(size) ==> size <= MAX_PAYLOAD,
    {
        let ct = array_from::<16>(data, 0);
        let tag = slice_to_vec(data, 16, 32);
        self.ingress_mac.update_header(&ct);
        let expected = self.ingress_mac.digest();
        if !bytes_eq(&expected, tag.as_slice()) {
            return Err(CryptoError::MacMismatch);
        }
        let iv = [0u8; 16];
        assert(iv@ =~= frame_iv());
        let plain = aes256_ctr(self.aes_key.as_bytes(), &iv, self.ingress_pos, &ct);
        let size = (plain[0] as usize) * 65536 + (plain[1] as usize) * 256 + plain[2] as usize;
        self.ingress_pos = self.ingress_pos + 16;
        self.pending_body = Some(size);
        Ok(size)
    }

    /// Checks and reads the body that the last header announced.
    pub fn open_body(&mut self, data: &[u8]) -> (r: Result<Vec<u8>, CryptoError>)
        requires
            old(self)@.pending_body matches Some(size) && size <= MAX_PAYLOAD && data@.len()
                == spec_body_len(size),
            old(self)@.ingress_pos + data@.len() - 16 <= u64::MAX,
        ensures
            (final(self)@, payload_view(r)) == spec_open_body(old(self)@, data@),
            r matches Ok(payload) ==> payload@.len() == old(self)@.pending_body.unwrap(),
    {
        let n = data.len();
        let ct = slice_to_vec(data, 0, n - 16);
        let tag = slice_to_vec(data, n - 16, n);
        self.ingress_mac.update_body(ct.as_slice());
        let expected = self.ingress_mac.digest();
        if !bytes_eq(&expected, tag.as_slice()) {
            return Err(CryptoError::MacMismatch);
        }
        let iv = [0u8; 16];
        assert(iv@ =~= frame_iv());
        let plain = aes256_ctr(self.aes_key.as_bytes(), &iv, self.ingress_pos, ct.as_slice());
        let size = match self.pending_body {
            Some(size) => size,
            None => 0,
        };
        self.ingress_pos = self.ingress_pos + (n - 16) as u64;
        self.pending_body = None;
        Ok(slice_to_vec(plain.as_slice(), 0, size))
    }
}

/// The two sides of a finished handshake hold the same encryption key, and the
/// authenticator that each sends with is the one that the other receives with.
pub proof fn lemma_session_agreement(
    initiator_ephemeral: Seq<u8>,
    recipient_ephemeral: Seq<u8>,
    initiator_nonce: Seq<u8>,
    recipient_nonce: Seq<u8>,
    auth: Seq<u8>,
    ack: Seq<u8>,
)
    ensures
        ({
            let i = spec_session(
                true,
                initiator_ephemeral,
                recipient_ephemeral,
                initiator_nonce,
                recipient_nonce,
                auth,
                ack,
            );
            let r = spec_session(
                false,
                recipient_ephemeral,
                initiator_ephemeral,
                recipient_nonce,
                initiator_nonce,
                ack,
                auth,
            );
            paired(i, r) && paired(r, i)
        }),
{
    assert(set![initiator_ephemeral, recipient_ephemeral] =~= set![
        recipient_ephemeral,
        initiator_ephemeral,
    ]);
}

/// A frame that one side writes, header and body, the paired side reads back
/// to the same payload, and the two stay paired for the next frame.
pub proof fn lemma_frame_round_trip(sender: SessionState, receiver: SessionState, payload: Seq<u8>)
    requires
        paired(sender, receiver),
        payload.len() <= MAX_PAYLOAD,
    ensures
        ({
            let (s1, header) = spec_seal_header(sender, payload.len());
            let (s2, body) = spec_seal_body(s1, payload);
            let (r1, size) = spec_open_header(receiver, header);
            let (r2, got) = spec_open_body(r1, body);
            &&& header.len() == HEADER_LEN
            &&& body.len() == spec_body_len(payload.len())
            &&& size == Ok::<nat, CryptoError>(payload.len())
            &&& got == Ok::<Seq<u8>, CryptoError>(payload)
            &&& paired(s2, r2)
            &&& r2.pending_body is None
        }),
{
    let n = payload.len();
    let (s1, header) = spec_seal_header(sender, n);
    let (s2, body) = spec_seal_body(s1, payload);
    let hct = aes256_ctr_apply(sender.aes_key, frame_iv(), sender.egress_pos, header_plain(n));
    let hmac = mac_update_header(sender.egress_mac, hct);
    assert(header.subrange(0, 16) =~= hct);
    assert(header.subrange(16, 32) =~= mac_digest(hmac));
    lemma_aes256_ctr_twice(sender.aes_key, frame_iv(), sender.egress_pos, header_plain(n));
    lemma_be24_read(n);
    assert(read_be24(header_plain(n)) == read_be24(be24(n)));
    let (r1, size) = spec_open_header(receiver, header);
    assert(size == Ok::<nat, CryptoError>(n));
    let padded = payload + zeros((padded_len(n) - n) as nat);
    let bct = aes256_ctr_apply(s1.aes_key, frame_iv(), s1.egress_pos, padded);
    let bmac = mac_update_body(s1.egress_mac, bct);
    assert(body.subrange(0, body.len() - 16) =~= bct);
    assert(body.subrange(body.len() - 16, body.len() as int) =~= mac_digest(bmac));
    lemma_aes256_ctr_twice(s1.aes_key, frame_iv(), s1.egress_pos, padded);
    assert(padded.subrange(0, n as int) =~= payload);
}

/// A frame header that was changed in one byte on its way is turned down,
/// unless the change is in the encrypted part and the authenticator gives
/// the changed bytes the tag of the bytes as they were sent.
pub proof fn lemma_tampered_header_rejected(
    sender: SessionState,
    receiver: SessionState,
    size: nat,
    at: int,
    byte: u8,
)
    requires
        paired(sender, receiver),
        0 <= at < HEADER_LEN,
        byte != spec_seal_header(sender, size).1[at],
        at < 16 ==> mac_digest(
            mac_update_header(
                receiver.ingress_mac,
                spec_seal_header(sender, size).1.update(at, byte).subrange(0, 16),
            ),
        ) != mac_digest(
            mac_update_header(
                receiver.ingress_mac,
                spec_seal_header(sender, size).1.subrange(0, 16),
            ),
        ),
    ensures
        spec_open_header(receiver, spec_seal_header(sender, size).1.update(at, byte)).1 == Err::<
            nat,
            CryptoError,
        >(CryptoError::MacMismatch),
{
    let header = spec_seal_header(sender, size).1;
    let tampered = header.update(at, byte);
    let ct = aes256_ctr_apply(sender.aes_key, frame_iv(), sender.egress_pos, header_plain(size));
    let mac = mac_update_header(sender.egress_mac, ct);
    assert(header.subrange(0, 16) =~= ct);
    assert(header.subrange(16, 32) =~= mac_digest(mac));
    if at >= 16 {
        assert(tampered.subrange(0, 16) =~= ct);
        assert(tampered.subrange(16, 32)[at - 16] == byte);
        assert(header.subrange(16, 32)[at - 16] == header[at]);
    } else {
        assert(tampered.subrange(16, 32) =~= mac_digest(mac));
    }
}

/// A frame body that was changed in one byte on its way is turned down,
/// unless the change is in the encrypted part and the authenticator gives
/// the changed bytes the tag of the bytes as they were sent.
pub proof fn lemma_tampered_body_rejected(
    sender: SessionState,
    receiver: SessionState,
    payload: Seq<u8>,
    at: int,
    byte: u8,
)
    requires
        paired(sender, receiver),
        0 <= at < spec_seal_body(sender, payload).1.len(),
        byte != spec_seal_body(sender, payload).1[at],
        at < spec_seal_body(sender, payload).1.len() - 16 ==> mac_digest(
            mac_update_body(
                receiver.ingress_mac,
                spec_seal_body(sender, payload).1.update(at, byte).subrange(
                    0,
                    spec_seal_body(sender, payload).1.len() - 16,
                ),
            ),
        ) != mac_digest(
            mac_update_body(
                receiver.ingress_mac,
                spec_seal_body(sender, payload).1.subrange(
                    0,
                    spec_seal_body(sender, payload).1.len() - 16,
                ),
            ),
        ),
    ensures
        spec_open_body(receiver, spec_seal_body(sender, payload).1.update(at, byte)).1 == Err::<
            Seq<u8>,
            CryptoError,
        >(CryptoError::MacMismatch),
{
    let body = spec_seal_body(sender, payload).1;
    let tampered = body.update(at, byte);
    let n = body.len() as int;
    let padded = payload + zeros((padded_len(payload.len()) - payload.len()) as nat);
    let ct = aes256_ctr_apply(sender.aes_key, frame_iv(), sender.egress_pos, padded);
    let mac = mac_update_body(sender.egress_mac, ct);
    assert(body.subrange(0, n - 16) =~= ct);
    assert(body.subrange(n - 16, n) =~= mac_digest(mac));
    if at >= n - 16 {
        assert(tampered.subrange(0, n - 16) =~= ct);
        assert(tampered.subrange(n - 16, n)[at - (n - 16)] == byte);
        assert(body.subrange(n - 16, n)[at - (n - 16)] == body[at]);
    } else {
        assert(tampered.subrange(n - 16, n) =~= mac_digest(mac));
    }
}

} // verus!
