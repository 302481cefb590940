use crate::ecies::frame::{
    lemma_session_agreement, paired, payload_view, size_view, spec_body_len, spec_open_body,
    spec_open_header, spec_seal_body, spec_seal_header, spec_session, Session, SessionState,
    HEADER_LEN, MAX_PAYLOAD,
};
use crate::envelope::{
    expected_tag, lemma_seal_open, lemma_tampered_envelope_rejected, open, seal, spec_open,
    spec_seal, ENVELOPE_OVERHEAD, MAX_PLAIN_LEN, PREFIX_LEN,
};
use crate::errors::{CryptoError, ECIESError, HandshakeError};
use crate::keys::{
    ecdh, is_point_encoding, is_secret_scalar, random_16, random_32, random_u32, recover,
    secp256k1_public, secp256k1_recover, secp256k1_sign, shared_secret, sign, PublicKey,
    SecretKey,
};
use crate::octets::{array_from, padded_len, slice_to_vec, xor_array, xor_seq, zeros};
use crate::rlp::{
    ack_body, auth_body, decode_ack, decode_auth, encode_ack, encode_auth,
    lemma_ack_body_layout, lemma_ack_body_round_trip, lemma_auth_body_layout,
    lemma_auth_body_round_trip, spec_decode_ack, spec_decode_auth, PROTOCOL_VERSION,
};
use crate::secret::Key32;
use crate::types::PeerId;
use crate::util::{id2pk, lemma_pk2id2pk, spec_id2pk, spec_pk2id};
use vstd::prelude::*;

verus! {

/// The least padding that this side adds to a handshake message.
pub const MIN_PADDING: usize = 100;

/// The most padding that this side adds to a handshake message.
pub const MAX_PADDING: usize = 300;

/// The most padding that a handshake message has room for.
pub const PADDING_LIMIT: usize = 65000;

/// Where a handshake engine stands, as the contracts see it.
pub enum StageState {
    /// Nothing was sent or received yet.
    Start,
    /// The initiator sent its auth message and holds what it drew for it.
    AuthSent { ephemeral: Seq<u8>, nonce: Seq<u8>, auth: Seq<u8> },
    /// The recipient read an auth message and holds what it learned from it.
    AuthReceived { remote_ephemeral: Seq<u8>, remote_nonce: Seq<u8>, auth: Seq<u8> },
    /// Both messages went over; the session keys stand and the ephemeral
    /// secret and the nonces are gone.
    Established { session: SessionState },
}

/// A handshake engine as the contracts see it.
pub struct EngineState {
    pub secret_key: Seq<u8>,
    pub public_key: Seq<u8>,
    pub remote_public_key: Option<Seq<u8>>,
    pub stage: StageState,
}

/// What a recipient learns from an auth message.
pub struct AuthSeen {
    pub remote_public_key: Seq<u8>,
    pub remote_ephemeral: Seq<u8>,
    pub remote_nonce: Seq<u8>,
}

/// What an initiator learns from an ack message.
pub struct AckSeen {
    pub remote_ephemeral: Seq<u8>,
    pub remote_nonce: Seq<u8>,
}

/// What holds of every engine: its keys are a key pair of the curve, a known
/// remote key is a curve point, and each stage holds what the next step needs.
pub open spec fn engine_wf(s: EngineState) -> bool {
    &&& is_secret_scalar(s.secret_key)
    &&& s.public_key == secp256k1_public(s.secret_key)
    &&& is_point_encoding(s.public_key)
    &&& (s.remote_public_key matches Some(r) ==> is_point_encoding(r))
    &&& match s.stage {
        StageState::Start => true,
        StageState::AuthSent { ephemeral, nonce, auth } => s.remote_public_key is Some
            && is_secret_scalar(ephemeral),
        StageState::AuthReceived { remote_ephemeral, remote_nonce, auth } => s.remote_public_key
            is Some && is_point_encoding(remote_ephemeral),
        StageState::Established { session } => s.remote_public_key is Some && (
        session.pending_body matches Some(n) ==> n <= MAX_PAYLOAD),
    }
}

/// The value that the initiator signs with its ephemeral key: the secret that
/// the two static keys share, exclusive-or the initiator's nonce.
pub open spec fn signed_value(a: Seq<u8>, b: Seq<u8>, nonce: Seq<u8>) -> Seq<u8> {
    xor_seq(shared_secret(a, b), nonce)
}

/// The auth message before it is sealed: its body and the padding.
pub open spec fn spec_auth_plain(
    public_key: Seq<u8>,
    remote: Seq<u8>,
    ephemeral: Seq<u8>,
    nonce: Seq<u8>,
    pad_len: nat,
) -> Seq<u8> {
    auth_body(
        secp256k1_sign(signed_value(remote, public_key, nonce), ephemeral),
        spec_pk2id(public_key),
        nonce,
    ) + zeros(pad_len)
}

/// The ack message before it is sealed: its body and the padding.
pub open spec fn spec_ack_plain(ephemeral: Seq<u8>, nonce: Seq<u8>, pad_len: nat) -> Seq<u8> {
    ack_body(spec_pk2id(secp256k1_public(ephemeral)), nonce) + zeros(pad_len)
}

/// What the holder of the key pair with public key `own` learns from an auth
/// envelope, or why it turns the envelope down.
pub open spec fn spec_read_auth(own: Seq<u8>, data: Seq<u8>) -> Result<AuthSeen, HandshakeError> {
    match spec_open(own, data) {
        Err(_) => Err(HandshakeError::InvalidAuth),
        Ok(plain) => match spec_decode_auth(plain) {
            None => Err(HandshakeError::InvalidAuth),
            Some(f) => if f.version < PROTOCOL_VERSION {
                Err(HandshakeError::VersionMismatch)
            } else if !is_point_encoding(spec_id2pk(f.id)) {
                Err(HandshakeError::InvalidAuth)
            } else {
                match secp256k1_recover(signed_value(spec_id2pk(f.id), own, f.nonce), f.sig) {
                    None => Err(HandshakeError::InvalidAuth),
                    Some(ephemeral) => Ok(
                        AuthSeen {
                            remote_public_key: spec_id2pk(f.id),
                            remote_ephemeral: ephemeral,
                            remote_nonce: f.nonce,
                        },
                    ),
                }
            },
        },
    }
}

/// What the holder of the key pair with public key `own` learns from an ack
/// envelope, or why it turns the envelope down.
pub open spec fn spec_read_ack(own: Seq<u8>, data: Seq<u8>) -> Result<AckSeen, HandshakeError> {
    match spec_open(own, data) {
        Err(_) => Err(HandshakeError::InvalidAck),
        Ok(plain) => match spec_decode_ack(plain) {
            None => Err(HandshakeError::InvalidAck),
            Some(f) => if f.version < PROTOCOL_VERSION {
                Err(HandshakeError::VersionMismatch)
            } else if !is_point_encoding(spec_id2pk(f.ephemeral_id)) {
                Err(HandshakeError::InvalidAck)
            } else {
                Ok(
                    AckSeen {
                        remote_ephemeral: spec_id2pk(f.ephemeral_id),
                        remote_nonce: f.nonce,
                    },
                )
            },
        },
    }
}

/// The initiator after it made its auth message with the values drawn for
/// it, and the message.
pub open spec fn spec_create_auth(
    s: EngineState,
    ephemeral: Seq<u8>,
    nonce: Seq<u8>,
    one_time: Seq<u8>,
    iv: Seq<u8>,
    pad_len: nat,
) -> (EngineState, Seq<u8>) {
    let remote = s.remote_public_key.unwrap();
    let out = spec_seal(
        remote,
        one_time,
        iv,
        spec_auth_plain(s.public_key, remote, ephemeral, nonce, pad_len),
    );
    (EngineState { stage: StageState::AuthSent { ephemeral, nonce, auth: out }, ..s }, out)
}

/// The recipient after it was given an auth envelope, or why it turned the
/// envelope down.
pub open spec fn spec_parse_auth(s: EngineState, data: Seq<u8>) -> Result<
    EngineState,
    HandshakeError,
> {
    match spec_read_auth(s.public_key, data) {
        Err(e) => Err(e),
        Ok(seen) => Ok(
            EngineState {
                remote_public_key: Some(seen.remote_public_key),
                stage: StageState::AuthReceived {
                    remote_ephemeral: seen.remote_ephemeral,
                    remote_nonce: seen.remote_nonce,
                    auth: data,
                },
                ..s
            },
        ),
    }
}

/// The recipient after it made its ack message with the values drawn for it,
/// and the message. The session keys stand from here on.
pub open spec fn spec_create_ack(
    s: EngineState,
    ephemeral: Seq<u8>,
    nonce: Seq<u8>,
    one_time: Seq<u8>,
    iv: Seq<u8>,
    pad_len: nat,
) -> (EngineState, Seq<u8>) {
    let out = spec_seal(
        s.remote_public_key.unwrap(),
        one_time,
        iv,
        spec_ack_plain(ephemeral, nonce, pad_len),
    );
    let session = spec_session(
        false,
        secp256k1_public(ephemeral),
        s.stage->remote_ephemeral,
        nonce,
        s.stage->remote_nonce,
        out,
        s.stage->AuthReceived_auth,
    );
    (EngineState { stage: StageState::Established { session }, ..s }, out)
}

/// The initiator after it was given an ack envelope, or why it turned the
/// envelope down. The session keys stand from here on.
pub open spec fn spec_parse_ack(s: EngineState, data: Seq<u8>) -> Result<
    EngineState,
    HandshakeError,
> {
    match spec_read_ack(s.public_key, data) {
        Err(e) => Err(e),
        Ok(seen) => Ok(
            EngineState {
                stage: StageState::Established {
                    session: spec_session(
                        true,
                        secp256k1_public(s.stage->ephemeral),
                        seen.remote_ephemeral,
                        s.stage->nonce,
                        seen.remote_nonce,
                        s.stage->AuthSent_auth,
                        data,
                    ),
                },
                ..s
            },
        ),
    }
}

/// Where a handshake engine stands.
enum Stage {
    Start,
    AuthSent { ephemeral: SecretKey, nonce: Key32, auth: Vec<u8> },
    AuthReceived { remote_ephemeral: [u8; 65], remote_nonce: [u8; 32], auth: Vec<u8> },
    Established { session: Session },
}

/// The handshake engine of one connection. It owns the local identity key
/// and, from message to message, the secrets of the handshake; once both
/// messages went over it holds the session keys and nothing else.
pub struct ECIES {
    secret_key: SecretKey,
    public_key: [u8; 65],
    remote_public_key: Option<[u8; 65]>,
    stage: Stage,
}

impl View for Stage {
    type V = StageState;

    closed spec fn view(&self) -> StageState {
        match self {
            Stage::Start => StageState::Start,
            Stage::AuthSent { ephemeral, nonce, auth } => StageState::AuthSent {
                ephemeral: ephemeral@,
                nonce: nonce@,
                auth: auth@,
            },
            Stage::AuthReceived { remote_ephemeral, remote_nonce, auth } => {
                StageState::AuthReceived {
                    remote_ephemeral: remote_ephemeral@,
                    remote_nonce: remote_nonce@,
                    auth: auth@,
                }
            },
            Stage::Established { session } => StageState::Established { session: session@ },
        }
    }
}

impl View for ECIES {
    type V = EngineState;

    closed spec fn view(&self) -> EngineState {
        EngineState {
            secret_key: self.secret_key@,
            public_key: self.public_key@,
            remote_public_key: match self.remote_public_key {
                Some(r) => Some(r@),
                None => None,
            },
            stage: self.stage@,
        }
    }
}

/// `n` zero bytes appended to `out`.
fn push_zeros(out: &mut Vec<u8>, n: usize)
    ensures
        final(out)@ == old(out)@ + zeros(n as nat),
{
    let mut i: usize = 0;
    assert(out@ =~= old(out)@ + zeros(0));
    while i < n
        invariant
            i <= n,
            out@ == old(out)@ + zeros(i as nat),
        decreases n - i,
    {
        out.push(0);
        i += 1;
        assert(out@ =~= old(out)@ + zeros(i as nat));
    }
}

/// A padding length between the least and the most, from a number drawn at
/// random.
pub fn padding_from(draw: u32) -> (n: usize)
    ensures
        n == MIN_PADDING + draw as nat % 201,
        MIN_PADDING <= n <= MAX_PADDING,
{
    MIN_PADDING + (draw % 201) as usize
}

impl ECIES {
    /// Whether the engine is one that the constructors and methods of this
    /// type can have made.
    pub open spec fn wf(&self) -> bool {
        engine_wf(self@)
    }

    /// An engine for the initiator of a connection to the peer `remote_id`.
    pub fn new_client(secret_key: SecretKey, remote_id: PeerId) -> (r: Result<ECIES, ECIESError>)
        ensures
            r is Ok <==> is_point_encoding(spec_id2pk(remote_id@)),
            r matches Ok(e) ==> e.wf() && e@ == (EngineState {
                secret_key: secret_key@,
                public_key: secp256k1_public(secret_key@),
                remote_public_key: Some(spec_id2pk(remote_id@)),
                stage: StageState::Start,
            }),
            r matches Err(e) ==> e == ECIESError::Crypto(CryptoError::InvalidPoint),
    {
        let remote = match id2pk(remote_id) {
            Ok(pk) => pk,
            Err(e) => {
                return Err(ECIESError::Crypto(e));
            },
        };
        let public_key = PublicKey::from_secret_key(&secret_key).serialize();
        Ok(
            ECIES {
                secret_key,
                public_key,
                remote_public_key: Some(remote.serialize()),
                stage: Stage::Start,
            },
        )
    }

    /// An engine for the recipient of a connection.
    pub fn new_server(secret_key: SecretKey) -> (r: Result<ECIES, ECIESError>)
        ensures
            r matches Ok(e) && e.wf() && e@ == (EngineState {
                secret_key: secret_key@,
                public_key: secp256k1_public(secret_key@),
                remote_public_key: None,
                stage: StageState::Start,
            }),
    {
        let public_key = PublicKey::from_secret_key(&secret_key).serialize();
        Ok(ECIES { secret_key, public_key, remote_public_key: None, stage: Stage::Start })
    }

    /// The identifier of this side.
    pub fn local_id(&self) -> (id: PeerId)
        ensures
            id@ == spec_pk2id(self@.public_key),
    {
        array_from::<64>(&self.public_key, 1)
    }

    /// Whether the remote peer's identity is known: from the start for an
    /// initiator, after the auth message for a recipient.
    pub fn knows_remote(&self) -> (known: bool)
        ensures
            known == self@.remote_public_key is Some,
    {
        self.remote_public_key.is_some()
    }

    /// The identifier of the remote peer.
    pub fn remote_id(&self) -> (id: PeerId)
        requires
            self@.remote_public_key is Some,
        ensures
            id@ == spec_pk2id(self@.remote_public_key.unwrap()),
    {
        match &self.remote_public_key {
            Some(r) => array_from::<64>(r, 1),
            None => [0u8; 64],
        }
    }

    /// Whether nothing was sent or received yet.
    pub fn is_start(&self) -> (b: bool)
        ensures
            b == self@.stage is Start,
    {
        matches!(self.stage, Stage::Start)
    }

    /// Whether this side sent its auth message and waits for the ack.
    pub fn is_auth_sent(&self) -> (b: bool)
        ensures
            b == self@.stage is AuthSent,
    {
        matches!(self.stage, Stage::AuthSent { .. })
    }

    /// Whether this side read an auth message and has its ack still to send.
    pub fn is_auth_received(&self) -> (b: bool)
        ensures
            b == self@.stage is AuthReceived,
    {
        matches!(self.stage, Stage::AuthReceived { .. })
    }

    /// Whether the session keys stand.
    pub fn is_established(&self) -> (b: bool)
        ensures
            b == self@.stage is Established,
    {
        matches!(self.stage, Stage::Established { .. })
    }

    /// Makes the auth message with an ephemeral key, a nonce, a one-time
    /// envelope key, a counter block and a padding length that the caller
    /// drew.
    pub fn create_auth_with(
        &mut self,
        ephemeral: SecretKey,
        nonce: [u8; 32],
        one_time: SecretKey,
        iv: [u8; 16],
        pad_len: usize,
    ) -> (out: Vec<u8>)
        requires
            old(self).wf(),
            old(self)@.stage is Start,
            old(self)@.remote_public_key is Some,
            1 <= pad_len <= PADDING_LIMIT,
        ensures
            final(self).wf(),
            (final(self)@, out@) == spec_create_auth(
                old(self)@,
                ephemeral@,
                nonce@,
                one_time@,
                iv@,
                pad_len as nat,
            ),
            out@.len() == PREFIX_LEN + ENVELOPE_OVERHEAD + 169 + pad_len,
            spec_read_auth(old(self)@.remote_public_key.unwrap(), out@) == Ok::<
                AuthSeen,
                HandshakeError,
            >(
                AuthSeen {
                    remote_public_key: old(self)@.public_key,
                    remote_ephemeral: secp256k1_public(ephemeral@),
                    remote_nonce: nonce@,
                },
            ),
    {
        let remote = match self.remote_public_key {
            Some(r) => r,
            None => {
                return Vec::new();
            },
        };
        let remote = PublicKey::from_checked(remote);
        let shared = ecdh(&self.secret_key, &remote);
        let value = xor_array(shared.as_bytes(), &nonce);
        let sig = sign(&value, &ephemeral);
        let id = array_from::<64>(&self.public_key, 1);
        let mut plain = encode_auth(&sig, &id, &nonce);
        push_zeros(&mut plain, pad_len);
        let out = seal(&remote, &one_time, &iv, plain.as_slice());
        let auth = slice_to_vec(out.as_slice(), 0, out.len());
        assert(auth@ =~= out@);
        proof {
            lemma_auth_round_trip(
                self.public_key@,
                remote@,
                ephemeral@,
                nonce@,
                one_time@,
                iv@,
                pad_len as nat,
            );
        }
        self.stage = Stage::AuthSent { ephemeral, nonce: Key32::new(nonce), auth };
        out
    }

    /// Makes the auth message: draws a fresh ephemeral key, a nonce, a
    /// one-time envelope key, a counter block and a padding length, and seals
    /// the signed message for the remote peer. The peer that holds the remote
    /// key reads from it this side's identity, ephemeral key and nonce.
    pub fn create_auth(&mut self) -> (out: Vec<u8>)
        requires
            old(self).wf(),
            old(self)@.stage is Start,
            old(self)@.remote_public_key is Some,
        ensures
            final(self).wf(),
            is_auth_outcome(old(self)@, final(self)@, out@),
            final(self)@.stage matches StageState::AuthSent { ephemeral, nonce, auth } && auth
                == out@ && spec_read_auth(old(self)@.remote_public_key.unwrap(), out@) == Ok::<
                AuthSeen,
                HandshakeError,
            >(
                AuthSeen {
                    remote_public_key: old(self)@.public_key,
                    remote_ephemeral: secp256k1_public(ephemeral),
                    remote_nonce: nonce,
                },
            ),
            PREFIX_LEN + ENVELOPE_OVERHEAD + 169 + MIN_PADDING <= out@.len() <= PREFIX_LEN
                + ENVELOPE_OVERHEAD + 169 + MAX_PADDING,
    {
        let ephemeral = SecretKey::random();
        let nonce = random_32();
        let one_time = SecretKey::random();
        let iv = random_16();
        let pad_len = padding_from(random_u32());
        let out = self.create_auth_with(ephemeral, nonce, one_time, iv, pad_len);
        assert(is_auth_draw(
            old(self)@,
            self@,
            out@,
            ephemeral@,
            nonce@,
            one_time@,
            iv@,
            pad_len as nat,
        ));
        out
    }

    /// Reads an auth envelope, length prefix included: opens it with the
    /// local static key, reads the initiator's identity and nonce, and
    /// recovers the initiator's ephemeral public key from the signature.
    pub fn parse_auth(&mut self, data: &[u8]) -> (r: Result<(), HandshakeError>)
        requires
            old(self).wf(),
            old(self)@.stage is Start,
            old(self)@.remote_public_key is None,
        ensures
            final(self).wf(),
            match spec_parse_auth(old(self)@, data@) {
                Ok(s) => r is Ok && final(self)@ == s,
                Err(e) => r == Err::<(), HandshakeError>(e) && final(self)@ == old(self)@,
            },
    {
        let plain = match open(&self.secret_key, data) {
            Ok(p) => p,
            Err(_) => {
                return Err(HandshakeError::InvalidAuth);
            },
        };
        let body = match decode_auth(plain.as_slice()) {
            Some(b) => b,
            None => {
                return Err(HandshakeError::InvalidAuth);
            },
        };
        if body.version < PROTOCOL_VERSION {
            return Err(HandshakeError::VersionMismatch);
        }
        let remote = match id2pk(body.id) {
            Ok(pk) => pk,
            Err(_) => {
                return Err(HandshakeError::InvalidAuth);
            },
        };
        let shared = ecdh(&self.secret_key, &remote);
        let value = xor_array(shared.as_bytes(), &body.nonce);
        let remote_ephemeral = match recover(&value, &body.sig) {
            Some(p) => p.serialize(),
            None => {
                return Err(HandshakeError::InvalidAuth);
            },
        };
        let auth = slice_to_vec(data, 0, data.len());
        assert(auth@ =~= data@);
        self.remote_public_key = Some(remote.serialize());
        self.stage = Stage::AuthReceived { remote_ephemeral, remote_nonce: body.nonce, auth };
        Ok(())
    }

    /// Makes the ack message with an ephemeral key, a nonce, a one-time
    /// envelope key, a counter block and a padding length that the caller
    /// drew, and derives the session keys.
    pub fn create_ack_with(
        &mut self,
        ephemeral: SecretKey,
        nonce: [u8; 32],
        one_time: SecretKey,
        iv: [u8; 16],
        pad_len: usize,
    ) -> (out: Vec<u8>)
        requires
            old(self).wf(),
            old(self)@.stage is AuthReceived,
            1 <= pad_len <= PADDING_LIMIT,
        ensures
            final(self).wf(),
            (final(self)@, out@) == spec_create_ack(
                old(self)@,
                ephemeral@,
                nonce@,
                one_time@,
                iv@,
                pad_len as nat,
            ),
            out@.len() == PREFIX_LEN + ENVELOPE_OVERHEAD + 102 + pad_len,
            spec_read_ack(old(self)@.remote_public_key.unwrap(), out@) == Ok::<
                AckSeen,
                HandshakeError,
            >(AckSeen { remote_ephemeral: secp256k1_public(ephemeral@), remote_nonce: nonce@ }),
    {
        let remote = match self.remote_public_key {
            Some(r) => r,
            None => {
                return Vec::new();
            },
        };
        let ephemeral_public = PublicKey::from_secret_key(&ephemeral).serialize();
        let id = array_from::<64>(&ephemeral_public, 1);
        let mut plain = encode_ack(&id, &nonce);
        push_zeros(&mut plain, pad_len);
        let out = seal(&PublicKey::from_checked(remote), &one_time, &iv, plain.as_slice());
        proof {
            lemma_ack_round_trip(remote@, ephemeral@, nonce@, one_time@, iv@, pad_len as nat);
        }
        let session = match &self.stage {
            Stage::AuthReceived { remote_ephemeral, remote_nonce, auth } => Session::derive(
                false,
                &ephemeral,
                &PublicKey::from_checked(*remote_ephemeral),
                &nonce,
                remote_nonce,
                out.as_slice(),
                auth.as_slice(),
            ),
            _ => {
                return Vec::new();
            },
        };
        self.stage = Stage::Established { session };
        out
    }

    /// Makes the ack message: draws a fresh ephemeral key, a nonce, a
    /// one-time envelope key, a counter block and a padding length, seals the
    /// message for the initiator, and derives the session keys. The initiator
    /// reads from it this side's ephemeral key and nonce.
    pub fn create_ack(&mut self) -> (out: Vec<u8>)
        requires
            old(self).wf(),
            old(self)@.stage is AuthReceived,
        ensures
            final(self).wf(),
            is_ack_outcome(old(self)@, final(self)@, out@),
            final(self)@.stage is Established,
            PREFIX_LEN + ENVELOPE_OVERHEAD + 102 + MIN_PADDING <= out@.len() <= PREFIX_LEN
                + ENVELOPE_OVERHEAD + 102 + MAX_PADDING,
    {
        let ephemeral = SecretKey::random();
        let nonce = random_32();
        let one_time = SecretKey::random();
        let iv = random_16();
        let pad_len = padding_from(random_u32());
        let out = self.create_ack_with(ephemeral, nonce, one_time, iv, pad_len);
        assert(is_ack_draw(
            old(self)@,
            self@,
            out@,
            ephemeral@,
            nonce@,
            one_time@,
            iv@,
            pad_len as nat,
        ));
        out
    }

    /// Reads an ack envelope, length prefix included: opens it with the local
    /// static key, reads the recipient's ephemeral key and nonce, and derives
    /// the session keys.
    pub fn parse_ack(&mut self, data: &[u8]) -> (r: Result<(), HandshakeError>)
        requires
            old(self).wf(),
            old(self)@.stage is AuthSent,
        ensures
            final(self).wf(),
            match spec_parse_ack(old(self)@, data@) {
                Ok(s) => r is Ok && final(self)@ == s,
                Err(e) => r == Err::<(), HandshakeError>(e) && final(self)@ == old(self)@,
            },
    {
        let plain = match open(&self.secret_key, data) {
            Ok(p) => p,
            Err(_) => {
                return Err(HandshakeError::InvalidAck);
            },
        };
        let body = match decode_ack(plain.as_slice()) {
            Some(b) => b,
            None => {
                return Err(HandshakeError::InvalidAck);
            },
        };
        if body.version < PROTOCOL_VERSION {
            return Err(HandshakeError::VersionMismatch);
        }
        let remote_ephemeral = match id2pk(body.ephemeral_id) {
            Ok(pk) => pk,
            Err(_) => {
                return Err(HandshakeError::InvalidAck);
            },
        };
        let session = match &self.stage {
            Stage::AuthSent { ephemeral, nonce, auth } => Session::derive(
                true,
                ephemeral,
                &remote_ephemeral,
                nonce.as_bytes(),
                &body.nonce,
                auth.as_slice(),
                data,
            ),
            _ => {
                return Err(HandshakeError::UnexpectedMessage);
            },
        };
        self.stage = Stage::Established { session };
        Ok(())
    }

    /// Bytes of a frame header on the wire.
    pub fn header_len() -> (n: usize)
        ensures
            n == HEADER_LEN,
    {
        HEADER_LEN
    }

    /// Bytes of the frame body that the last header announced.
    pub fn body_len(&self) -> (n: usize)
        requires
            self.wf(),
            self@.stage matches StageState::Established { session } && session.pending_body
                is Some,
        ensures
            n == spec_body_len(self@.stage->session.pending_body.unwrap()),
    {
        match &self.stage {
            Stage::Established { session } => session.body_len(),
            _ => 0,
        }
    }

    /// Whether a header was read whose body is still to come.
    pub fn awaits_body(&self) -> (b: bool)
        ensures
            b == (self@.stage matches StageState::Established { session }
                && session.pending_body is Some),
    {
        match &self.stage {
            Stage::Established { session } => session.pending_body().is_some(),
            _ => false,
        }
    }

    /// Keystream bytes that are left for sending; none before the session
    /// keys stand.
    pub fn egress_room(&self) -> (n: u64)
        ensures
            self@.stage matches StageState::Established { session } ==> n == u64::MAX
                - session.egress_pos,
            !(self@.stage is Established) ==> n == 0,
    {
        match &self.stage {
            Stage::Established { session } => session.egress_room(),
            _ => 0,
        }
    }

    /// Keystream bytes that are left for receiving; none before the session
    /// keys stand.
    pub fn ingress_room(&self) -> (n: u64)
        ensures
            self@.stage matches StageState::Established { session } ==> n == u64::MAX
                - session.ingress_pos,
            !(self@.stage is Established) ==> n == 0,
    {
        match &self.stage {
            Stage::Established { session } => session.ingress_room(),
            _ => 0,
        }
    }

    /// Writes the header of a frame of `size` payload bytes: the length,
    /// encrypted, and its tag.
    pub fn create_header(&mut self, size: usize) -> (out: Vec<u8>)
        requires
            old(self).wf(),
            old(self)@.stage matches StageState::Established { session } && session.egress_pos
                + 16 <= u64::MAX,
            size <= MAX_PAYLOAD,
        ensures
            final(self).wf(),
            final(self)@ == with_session(
                old(self)@,
                spec_seal_header(old(self)@.stage->session, size as nat).0,
            ),
            out@ == spec_seal_header(old(self)@.stage->session, size as nat).1,
            out@.len() == HEADER_LEN,
    {
        match &mut self.stage {
            Stage::Established { session } => session.seal_header(size),
            _ => Vec::new(),
        }
    }

    /// Writes the body of a frame: the payload, padded and encrypted, and its
    /// tag.
    pub fn create_body(&mut self, payload: &[u8]) -> (out: Vec<u8>)
        requires
            old(self).wf(),
            old(self)@.stage matches StageState::Established { session } && session.egress_pos
                + padded_len(payload@.len()) <= u64::MAX,
            payload@.len() <= MAX_PAYLOAD,
        ensures
            final(self).wf(),
            final(self)@ == with_session(
                old(self)@,
                spec_seal_body(old(self)@.stage->session, payload@).0,
            ),
            out@ == spec_seal_body(old(self)@.stage->session, payload@).1,
            out@.len() == spec_body_len(payload@.len()),
    {
        match &mut self.stage {
            Stage::Established { session } => session.seal_body(payload),
            _ => Vec::new(),
        }
    }

    /// Checks the tag of a frame header and reads the payload length that it
    /// announces. A wrong tag is an error, and the session is then of no use.
    pub fn parse_header(&mut self, data: &[u8]) -> (r: Result<usize, CryptoError>)
        requires
            old(self).wf(),
            old(self)@.stage matches StageState::Established { session } && session.ingress_pos
                + 16 <= u64::MAX,
            data@.len() == HEADER_LEN,
        ensures
            final(self).wf(),
            final(self)@ == with_session(
                old(self)@,
                spec_open_header(old(self)@.stage->session, data@).0,
            ),
            size_view(r) == spec_open_header(old(self)@.stage->session, data@).1,
    {
        match &mut self.stage {
            Stage::Established { session } => session.open_header(data),
            _ => Err(CryptoError::MacMismatch),
        }
    }

    /// Checks the tag of a frame body and reads the payload. A wrong tag is
    /// an error, and the session is then of no use.
    pub fn parse_body(&mut self, data: &[u8]) -> (r: Result<Vec<u8>, CryptoError>)
        requires
            old(self).wf(),
            old(self)@.stage matches StageState::Established { session } && (
            session.pending_body matches Some(size) && data@.len() == spec_body_len(size))
                && session.ingress_pos + data@.len() - 16 <= u64::MAX,
        ensures
            final(self).wf(),
            final(self)@ == with_session(
                old(self)@,
                spec_open_body(old(self)@.stage->session, data@).0,
            ),
            payload_view(r) == spec_open_body(old(self)@.stage->session, data@).1,
    {
        match &mut self.stage {
            Stage::Established { session } => session.open_body(data),
            _ => Err(CryptoError::MacMismatch),
        }
    }
}

/// Whether `after` and `out` are what making an auth message gives from
/// `before` with the given draws.
pub open spec fn is_auth_draw(
    before: EngineState,
    after: EngineState,
    out: Seq<u8>,
    ephemeral: Seq<u8>,
    nonce: Seq<u8>,
    one_time: Seq<u8>,
    iv: Seq<u8>,
    pad_len: nat,
) -> bool {
    &&& is_secret_scalar(ephemeral)
    &&& is_secret_scalar(one_time)
    &&& nonce.len() == 32
    &&& iv.len() == 16
    &&& MIN_PADDING <= pad_len <= MAX_PADDING
    &&& (after, out) == spec_create_auth(before, ephemeral, nonce, one_time, iv, pad_len)
}

/// Whether `after` and `out` are what making an auth message gives from
/// `before`, whatever was drawn.
pub open spec fn is_auth_outcome(before: EngineState, after: EngineState, out: Seq<u8>) -> bool {
    exists|ephemeral: Seq<u8>, nonce: Seq<u8>, one_time: Seq<u8>, iv: Seq<u8>, pad_len: nat|
        is_auth_draw(before, after, out, ephemeral, nonce, one_time, iv, pad_len)
}

/// Whether `after` and `out` are what making an ack message gives from
/// `before` with the given draws.
pub open spec fn is_ack_draw(
    before: EngineState,
    after: EngineState,
    out: Seq<u8>,
    ephemeral: Seq<u8>,
    nonce: Seq<u8>,
    one_time: Seq<u8>,
    iv: Seq<u8>,
    pad_len: nat,
) -> bool {
    &&& is_secret_scalar(ephemeral)
    &&& is_secret_scalar(one_time)
    &&& nonce.len() == 32
    &&& iv.len() == 16
    &&& MIN_PADDING <= pad_len <= MAX_PADDING
    &&& (after, out) == spec_create_ack(before, ephemeral, nonce, one_time, iv, pad_len)
}

/// Whether `after` and `out` are what making an ack message gives from
/// `before`, whatever was drawn.
pub open spec fn is_ack_outcome(before: EngineState, after: EngineState, out: Seq<u8>) -> bool {
    exists|ephemeral: Seq<u8>, nonce: Seq<u8>, one_time: Seq<u8>, iv: Seq<u8>, pad_len: nat|
        is_ack_draw(before, after, out, ephemeral, nonce, one_time, iv, pad_len)
}

/// An engine that stands in a session, with the session put in place of the
/// one it had.
pub open spec fn with_session(s: EngineState, session: SessionState) -> EngineState {
    EngineState { stage: StageState::Established { session }, ..s }
}

/// An auth message made for the holder of `remote` is read by that holder,
/// who learns the initiator's public key, ephemeral public key and nonce.
pub proof fn lemma_auth_round_trip(
    public_key: Seq<u8>,
    remote: Seq<u8>,
    ephemeral: Seq<u8>,
    nonce: Seq<u8>,
    one_time: Seq<u8>,
    iv: Seq<u8>,
    pad_len: nat,
)
    requires
        is_point_encoding(public_key),
        is_point_encoding(secp256k1_public(one_time)),
        nonce.len() == 32,
        iv.len() == 16,
        pad_len <= PADDING_LIMIT,
        ({
            let value = signed_value(remote, public_key, nonce);
            let sig = secp256k1_sign(value, ephemeral);
            sig.len() == 65 && secp256k1_recover(value, sig) == Some(secp256k1_public(ephemeral))
        }),
    ensures
        spec_read_auth(
            remote,
            spec_seal(
                remote,
                one_time,
                iv,
                spec_auth_plain(public_key, remote, ephemeral, nonce, pad_len),
            ),
        ) == Ok::<AuthSeen, HandshakeError>(
            AuthSeen {
                remote_public_key: public_key,
                remote_ephemeral: secp256k1_public(ephemeral),
                remote_nonce: nonce,
            },
        ),
{
    let value = signed_value(remote, public_key, nonce);
    let sig = secp256k1_sign(value, ephemeral);
    let id = spec_pk2id(public_key);
    let plain = spec_auth_plain(public_key, remote, ephemeral, nonce, pad_len);
    lemma_pk2id2pk(public_key);
    lemma_auth_body_layout(sig, id, nonce);
    lemma_seal_open(remote, one_time, iv, plain);
    lemma_auth_body_round_trip(sig, id, nonce, zeros(pad_len));
    assert(set![public_key, remote] =~= set![remote, public_key]);
}

/// An ack message made for the holder of `remote` is read by that holder, who
/// learns the recipient's ephemeral public key and nonce.
pub proof fn lemma_ack_round_trip(
    remote: Seq<u8>,
    ephemeral: Seq<u8>,
    nonce: Seq<u8>,
    one_time: Seq<u8>,
    iv: Seq<u8>,
    pad_len: nat,
)
    requires
        is_point_encoding(secp256k1_public(ephemeral)),
        is_point_encoding(secp256k1_public(one_time)),
        nonce.len() == 32,
        iv.len() == 16,
        pad_len <= PADDING_LIMIT,
    ensures
        spec_read_ack(
            remote,
            spec_seal(remote, one_time, iv, spec_ack_plain(ephemeral, nonce, pad_len)),
        ) == Ok::<AckSeen, HandshakeError>(
            AckSeen { remote_ephemeral: secp256k1_public(ephemeral), remote_nonce: nonce },
        ),
{
    let public = secp256k1_public(ephemeral);
    let id = spec_pk2id(public);
    let plain = spec_ack_plain(ephemeral, nonce, pad_len);
    lemma_pk2id2pk(public);
    lemma_ack_body_layout(id, nonce);
    lemma_seal_open(remote, one_time, iv, plain);
    lemma_ack_body_round_trip(id, nonce, zeros(pad_len));
}

/// A handshake envelope that was changed in one byte on its way is turned
/// down as an auth message and as an ack message alike, unless the change is
/// outside the tag and the keyed hash gives the changed fields the tag of the
/// fields as they were sent.
pub proof fn lemma_tampered_handshake_rejected(
    remote: Seq<u8>,
    one_time: Seq<u8>,
    iv: Seq<u8>,
    plain: Seq<u8>,
    at: int,
    byte: u8,
)
    requires
        is_point_encoding(secp256k1_public(one_time)),
        iv.len() == 16,
        plain.len() <= MAX_PLAIN_LEN,
        0 <= at < spec_seal(remote, one_time, iv, plain).len(),
        byte != spec_seal(remote, one_time, iv, plain)[at],
        at < spec_seal(remote, one_time, iv, plain).len() - 32 ==> expected_tag(
            remote,
            spec_seal(remote, one_time, iv, plain).update(at, byte),
        ) != expected_tag(remote, spec_seal(remote, one_time, iv, plain)),
    ensures
        spec_read_auth(remote, spec_seal(remote, one_time, iv, plain).update(at, byte)) == Err::<
            AuthSeen,
            HandshakeError,
        >(HandshakeError::InvalidAuth),
        spec_read_ack(remote, spec_seal(remote, one_time, iv, plain).update(at, byte)) == Err::<
            AckSeen,
            HandshakeError,
        >(HandshakeError::InvalidAck),
{
    lemma_tampered_envelope_rejected(remote, one_time, iv, plain, at, byte);
}

/// Once the recipient has learned from the auth message what the initiator
/// drew, the ack message that it makes is read by the initiator, and the two
/// then hold the same encryption key and paired authenticators in both
/// directions.
pub proof fn lemma_handshake_agreement(
    initiator: EngineState,
    recipient: EngineState,
    ephemeral: Seq<u8>,
    nonce: Seq<u8>,
    one_time: Seq<u8>,
    iv: Seq<u8>,
    pad_len: nat,
)
    requires
        engine_wf(initiator),
        engine_wf(recipient),
        initiator.stage is AuthSent,
        recipient.stage is AuthReceived,
        recipient.remote_public_key == Some(initiator.public_key),
        recipient.stage->remote_ephemeral == secp256k1_public(initiator.stage->ephemeral),
        recipient.stage->remote_nonce == initiator.stage->nonce,
        recipient.stage->AuthReceived_auth == initiator.stage->AuthSent_auth,
        is_point_encoding(secp256k1_public(ephemeral)),
        is_point_encoding(secp256k1_public(one_time)),
        nonce.len() == 32,
        iv.len() == 16,
        pad_len <= PADDING_LIMIT,
    ensures
        ({
            let (r, ack) = spec_create_ack(recipient, ephemeral, nonce, one_time, iv, pad_len);
            let i = spec_parse_ack(initiator, ack);
            &&& i is Ok
            &&& i->Ok_0.stage is Established
            &&& r.stage is Established
            &&& paired(i->Ok_0.stage->session, r.stage->session)
            &&& paired(r.stage->session, i->Ok_0.stage->session)
        }),
{
    let remote = recipient.remote_public_key.unwrap();
    lemma_ack_round_trip(remote, ephemeral, nonce, one_time, iv, pad_len);
    let (r, ack) = spec_create_ack(recipient, ephemeral, nonce, one_time, iv, pad_len);
    lemma_session_agreement(
        secp256k1_public(initiator.stage->ephemeral),
        secp256k1_public(ephemeral),
        initiator.stage->nonce,
        nonce,
        initiator.stage->AuthSent_auth,
        ack,
    );
}

} // verus!
