use crate::ecies::algorithm::{
    engine_wf, is_ack_outcome, is_auth_outcome, lemma_handshake_agreement, spec_ack_plain,
    spec_create_ack, spec_parse_ack, spec_parse_auth, spec_read_auth, with_session, AuthSeen,
    EngineState, StageState, ECIES, PADDING_LIMIT,
};
use crate::ecies::frame::{
    lemma_frame_round_trip, paired, spec_body_len, spec_open_body, spec_open_header,
    spec_seal_body, spec_seal_header, HEADER_LEN, MAX_PAYLOAD,
};
use crate::envelope::{lemma_seal_open, spec_seal, ENVELOPE_OVERHEAD, MAX_PLAIN_LEN, PREFIX_LEN};
use crate::errors::{CodecError, CryptoError, ECIESError, HandshakeError};
use crate::keys::{is_point_encoding, secp256k1_public, SecretKey};
use crate::octets::{be16, lemma_be16_read, padded_len, read_be16, round_up_16, u16_from_be};
use crate::rlp::lemma_ack_body_layout;
use crate::types::PeerId;
use crate::util::{lemma_pk2id2pk, spec_id2pk, spec_pk2id};
use vstd::prelude::*;

verus! {

/// `bytes::BytesMut`, the growable byte buffer that the codec reads from and
/// writes to. Nothing inside it is seen here but through the functions below.
#[verifier::external_type_specification]
#[verifier::external_body]
pub struct ExBytesMut(bytes::BytesMut);

/// The bytes that a buffer holds, in order.
pub uninterp spec fn buffered(buf: bytes::BytesMut) -> Seq<u8>;

/// Runs `bytes::BytesMut::len`. Trusted: it is the number of bytes held.
#[verifier::external_body]
fn buf_len(buf: &bytes::BytesMut) -> (n: usize)
    ensures
        n == buffered(*buf).len(),
{
    buf.len()
}

/// Reads one byte through the slice that `bytes::BytesMut` derefs to.
/// Trusted: it is the byte held at that index.
#[verifier::external_body]
fn buf_get(buf: &bytes::BytesMut, i: usize) -> (b: u8)
    requires
        i < buffered(*buf).len(),
    ensures
        b == buffered(*buf)[i as int],
{
    buf[i]
}

/// Runs `bytes::BytesMut::split_to` and copies what was split off. Trusted:
/// the first `at` bytes come out and the buffer keeps the rest.
#[verifier::external_body]
fn buf_split_to(buf: &mut bytes::BytesMut, at: usize) -> (out: Vec<u8>)
    requires
        at <= buffered(*old(buf)).len(),
    ensures
        out@ == buffered(*old(buf)).subrange(0, at as int),
        buffered(*final(buf)) == buffered(*old(buf)).subrange(
            at as int,
            buffered(*old(buf)).len() as int,
        ),
{
    buf.split_to(at).to_vec()
}

/// Runs `bytes::BytesMut::extend_from_slice`. Trusted: the buffer then holds
/// what it held, followed by `data`.
#[verifier::external_body]
fn buf_extend(buf: &mut bytes::BytesMut, data: &[u8])
    ensures
        buffered(*final(buf)) == buffered(*old(buf)) + data@,
{
    buf.extend_from_slice(data);
}

/// What the read side of a connection waits for.
#[derive(Clone, Copy, Debug, PartialEq, Eq)]
pub enum ECIESState {
    Auth,
    Ack,
    Header,
    Body,
}

/// What the write side can be asked to send.
#[derive(Clone, Debug, PartialEq, Eq)]
pub enum EgressECIESValue {
    Auth,
    Ack,
    Message(Vec<u8>),
}

/// What the read side can yield.
#[derive(Clone, Debug, PartialEq, Eq)]
pub enum IngressECIESValue {
    AuthReceive(PeerId),
    Ack,
    Message(Vec<u8>),
}

/// A unit that was read, as the contracts see it.
pub enum IngressUnit {
    AuthReceive(Seq<u8>),
    Ack,
    Message(Seq<u8>),
}

impl View for IngressECIESValue {
    type V = IngressUnit;

    open spec fn view(&self) -> IngressUnit {
        match self {
            IngressECIESValue::AuthReceive(id) => IngressUnit::AuthReceive(id@),
            IngressECIESValue::Ack => IngressUnit::Ack,
            IngressECIESValue::Message(m) => IngressUnit::Message(m@),
        }
    }
}

/// The view of what a call of `decode` returned.
pub open spec fn decoded_view(r: Result<Option<IngressECIESValue>, ECIESError>) -> Result<
    Option<IngressUnit>,
    ECIESError,
> {
    match r {
        Ok(Some(v)) => Ok(Some(v@)),
        Ok(None) => Ok(None),
        Err(e) => Err(e),
    }
}

/// A codec as the contracts see it: the engine, and what the read side waits
/// for.
pub struct CodecState {
    pub engine: EngineState,
    pub state: ECIESState,
}

/// What a call of `decode` leaves: the codec, the bytes still buffered, and
/// what was returned.
pub struct Decoded {
    pub codec: CodecState,
    pub rest: Seq<u8>,
    pub result: Result<Option<IngressUnit>, ECIESError>,
}

/// What holds of every codec: the engine is well formed, and the read side
/// waits for what the engine's stage can take.
pub open spec fn codec_wf(c: CodecState) -> bool {
    &&& engine_wf(c.engine)
    &&& match c.state {
        ECIESState::Auth => c.engine.stage is Start,
        ECIESState::Ack => c.engine.stage is AuthSent,
        ECIESState::Header => c.engine.stage is AuthReceived || (
        c.engine.stage matches StageState::Established { session } && session.pending_body
            is None),
        ECIESState::Body => c.engine.stage matches StageState::Established { session }
            && session.pending_body is Some,
    }
}

/// Whether the buffer holds a whole handshake envelope: the two bytes of its
/// length, and as many bytes after them as they say.
pub open spec fn envelope_ready(buf: Seq<u8>) -> bool {
    buf.len() >= 2 && buf.len() >= read_be16(buf) + 2
}

/// Not enough data yet: nothing is taken, nothing changes, nothing comes out.
pub open spec fn waiting(c: CodecState, buf: Seq<u8>) -> Decoded {
    Decoded { codec: c, rest: buf, result: Ok(None) }
}

/// The unit at the head of the buffer was taken and turned down.
pub open spec fn failed(c: CodecState, rest: Seq<u8>, e: ECIESError) -> Decoded {
    Decoded { codec: c, rest, result: Err(e) }
}

/// Whether a handshake unit is too short to hold an envelope, so that its
/// length prefix cannot be right.
pub open spec fn too_short(data: Seq<u8>) -> bool {
    data.len() < PREFIX_LEN + ENVELOPE_OVERHEAD
}

/// What the read side does with an auth envelope.
pub open spec fn spec_decode_auth(c: CodecState, data: Seq<u8>, rest: Seq<u8>) -> Decoded {
    if too_short(data) {
        failed(c, rest, ECIESError::Codec(CodecError::MalformedLength))
    } else if c.engine.remote_public_key is Some {
        failed(c, rest, ECIESError::Handshake(HandshakeError::UnexpectedMessage))
    } else {
        match spec_parse_auth(c.engine, data) {
            Ok(e) => Decoded {
                codec: CodecState { engine: e, state: ECIESState::Header },
                rest,
                result: Ok(
                    Some(IngressUnit::AuthReceive(spec_pk2id(e.remote_public_key.unwrap()))),
                ),
            },
            Err(err) => failed(c, rest, ECIESError::Handshake(err)),
        }
    }
}

/// What the read side does with an ack envelope.
pub open spec fn spec_decode_ack(c: CodecState, data: Seq<u8>, rest: Seq<u8>) -> Decoded {
    if too_short(data) {
        failed(c, rest, ECIESError::Codec(CodecError::MalformedLength))
    } else {
        match spec_parse_ack(c.engine, data) {
            Ok(e) => Decoded {
                codec: CodecState { engine: e, state: ECIESState::Header },
                rest,
                result: Ok(Some(IngressUnit::Ack)),
            },
            Err(err) => failed(c, rest, ECIESError::Handshake(err)),
        }
    }
}

/// What the read side does with the 32 bytes of a frame header.
pub open spec fn spec_decode_header(c: CodecState, data: Seq<u8>, rest: Seq<u8>) -> Decoded {
    match c.engine.stage {
        StageState::Established { session } => if session.ingress_pos + 16 > u64::MAX {
            failed(c, rest, ECIESError::Codec(CodecError::MalformedLength))
        } else {
            let (after, r) = spec_open_header(session, data);
            match r {
                Ok(size) => Decoded {
                    codec: CodecState {
                        engine: with_session(c.engine, after),
                        state: ECIESState::Body,
                    },
                    rest,
                    result: Ok(None),
                },
                Err(e) => failed(
                    CodecState { engine: with_session(c.engine, after), state: c.state },
                    rest,
                    ECIESError::Crypto(e),
                ),
            }
        },
        _ => failed(c, rest, ECIESError::Handshake(HandshakeError::UnexpectedMessage)),
    }
}

/// What the read side does with the bytes of a frame body.
pub open spec fn spec_decode_body(c: CodecState, data: Seq<u8>, rest: Seq<u8>) -> Decoded {
    let session = c.engine.stage->session;
    if session.ingress_pos + data.len() - 16 > u64::MAX {
        failed(c, rest, ECIESError::Codec(CodecError::MalformedLength))
    } else {
        let (after, r) = spec_open_body(session, data);
        match r {
            Ok(payload) => Decoded {
                codec: CodecState {
                    engine: with_session(c.engine, after),
                    state: ECIESState::Header,
                },
                rest,
                result: Ok(Some(IngressUnit::Message(payload))),
            },
            Err(e) => failed(
                CodecState { engine: with_session(c.engine, after), state: c.state },
                rest,
                ECIESError::Crypto(e),
            ),
        }
    }
}

/// What one call of `decode` does with the bytes buffered so far: it waits
/// until the unit that the state asks for is there in full, then takes exactly
/// that unit off the buffer and hands it to the engine.
pub open spec fn spec_decode(c: CodecState, buf: Seq<u8>) -> Decoded {
    match c.state {
        ECIESState::Auth => if !envelope_ready(buf) {
            waiting(c, buf)
        } else {
            let total = read_be16(buf) + 2;
            spec_decode_auth(
                c,
                buf.subrange(0, total as int),
                buf.subrange(total as int, buf.len() as int),
            )
        },
        ECIESState::Ack => if !envelope_ready(buf) {
            waiting(c, buf)
        } else {
            let total = read_be16(buf) + 2;
            spec_decode_ack(
                c,
                buf.subrange(0, total as int),
                buf.subrange(total as int, buf.len() as int),
            )
        },
        ECIESState::Header => if buf.len() < HEADER_LEN {
            waiting(c, buf)
        } else {
            spec_decode_header(
                c,
                buf.subrange(0, HEADER_LEN as int),
                buf.subrange(HEADER_LEN as int, buf.len() as int),
            )
        },
        ECIESState::Body => {
            let need = spec_body_len(c.engine.stage->session.pending_body.unwrap());
            if buf.len() < need {
                waiting(c, buf)
            } else {
                spec_decode_body(
                    c,
                    buf.subrange(0, need as int),
                    buf.subrange(need as int, buf.len() as int),
                )
            }
        },
    }
}

/// What sending a message does: the codec after it, the bytes written, and
/// what is returned. A frame is written whole, header and body, or not at
/// all.
pub open spec fn spec_encode_message(c: CodecState, payload: Seq<u8>) -> (
    CodecState,
    Seq<u8>,
    Result<(), ECIESError>,
) {
    match c.engine.stage {
        StageState::Established { session } => if payload.len() > MAX_PAYLOAD
            || session.egress_pos + 16 + padded_len(payload.len()) > u64::MAX {
            (c, Seq::<u8>::empty(), Err(ECIESError::Codec(CodecError::MalformedLength)))
        } else {
            let (s1, header) = spec_seal_header(session, payload.len());
            let (s2, body) = spec_seal_body(s1, payload);
            (
                CodecState { engine: with_session(c.engine, s2), state: c.state },
                header + body,
                Ok(()),
            )
        },
        _ => (
            c,
            Seq::<u8>::empty(),
            Err(ECIESError::Handshake(HandshakeError::UnexpectedMessage)),
        ),
    }
}

/// Whether the write side may send its auth message now: it is the
/// initiator's first step.
pub open spec fn may_send_auth(c: CodecState) -> bool {
    c.state == ECIESState::Auth && c.engine.remote_public_key is Some
}

/// Whether the write side may send its ack message now: the auth message was
/// read and the ack has not gone out.
pub open spec fn may_send_ack(c: CodecState) -> bool {
    c.state == ECIESState::Header && c.engine.stage is AuthReceived
}

/// The codec of one connection: the handshake engine, and the one state
/// field that the read side and the write side both advance.
pub struct ECIESCodec {
    ecies: ECIES,
    state: ECIESState,
}

impl View for ECIESCodec {
    type V = CodecState;

    closed spec fn view(&self) -> CodecState {
        CodecState { engine: self.ecies@, state: self.state }
    }
}

impl ECIESCodec {
    /// Whether the codec is one that the constructors and methods of this
    /// type can have made.
    pub open spec fn wf(&self) -> bool {
        codec_wf(self@)
    }

    /// A codec for the recipient of a connection.
    pub fn new_server(secret_key: SecretKey) -> (r: Result<ECIESCodec, ECIESError>)
        ensures
            r matches Ok(c) && c.wf() && c@.state == ECIESState::Auth && c@.engine == (
            EngineState {
                secret_key: secret_key@,
                public_key: secp256k1_public(secret_key@),
                remote_public_key: None,
                stage: StageState::Start,
            }),
    {
        match ECIES::new_server(secret_key) {
            Ok(ecies) => Ok(ECIESCodec { ecies, state: ECIESState::Auth }),
            Err(e) => Err(e),
        }
    }

    /// A codec for the initiator of a connection to the peer `remote_id`.
    pub fn new_client(secret_key: SecretKey, remote_id: PeerId) -> (r: Result<
        ECIESCodec,
        ECIESError,
    >)
        ensures
            r is Ok <==> is_point_encoding(spec_id2pk(remote_id@)),
            r matches Ok(c) ==> c.wf() && c@.state == ECIESState::Auth && c@.engine == (
            EngineState {
                secret_key: secret_key@,
                public_key: secp256k1_public(secret_key@),
                remote_public_key: Some(spec_id2pk(remote_id@)),
                stage: StageState::Start,
            }),
            r matches Err(e) ==> e == ECIESError::Crypto(CryptoError::InvalidPoint),
    {
        match ECIES::new_client(secret_key, remote_id) {
            Ok(ecies) => Ok(ECIESCodec { ecies, state: ECIESState::Auth }),
            Err(e) => Err(e),
        }
    }

    /// What the read side waits for.
    pub fn state(&self) -> (s: ECIESState)
        ensures
            s == self@.state,
    {
        self.state
    }

    /// The identifier of the remote peer, once it is known.
    pub fn remote_id(&self) -> (id: Option<PeerId>)
        ensures
            id is Some == self@.engine.remote_public_key is Some,
            id matches Some(x) ==> x@ == spec_pk2id(self@.engine.remote_public_key.unwrap()),
    {
        if self.ecies.knows_remote() {
            Some(self.ecies.remote_id())
        } else {
            None
        }
    }

    /// Takes at most one unit off the front of `buf`. Returns `Ok(None)` and
    /// leaves everything as it is while the unit that the state asks for is
    /// not there in full.
    pub fn decode(&mut self, buf: &mut bytes::BytesMut) -> (r: Result<
        Option<IngressECIESValue>,
        ECIESError,
    >)
        requires
            old(self).wf(),
        ensures
            final(self).wf(),
            (Decoded {
                codec: final(self)@,
                rest: buffered(*final(buf)),
                result: decoded_view(r),
            }) == spec_decode(old(self)@, buffered(*old(buf))),
            r matches Ok(Some(v)) ==> match old(self)@.state {
                ECIESState::Auth => v is AuthReceive,
                ECIESState::Ack => v is Ack,
                ECIESState::Header => false,
                ECIESState::Body => v is Message,
            },
    {
        match self.state {
            ECIESState::Auth => {
                let n = buf_len(buf);
                if n < 2 {
                    return Ok(None);
                }
                let payload_size = u16_from_be(buf_get(buf, 0), buf_get(buf, 1)) as usize;
                let total_size = payload_size + 2;
                if n < total_size {
                    return Ok(None);
                }
                let data = buf_split_to(buf, total_size);
                if total_size < PREFIX_LEN + ENVELOPE_OVERHEAD {
                    return Err(ECIESError::Codec(CodecError::MalformedLength));
                }
                if self.ecies.knows_remote() {
                    return Err(ECIESError::Handshake(HandshakeError::UnexpectedMessage));
                }
                match self.ecies.parse_auth(data.as_slice()) {
                    Ok(()) => {
                        self.state = ECIESState::Header;
                        Ok(Some(IngressECIESValue::AuthReceive(self.ecies.remote_id())))
                    },
                    Err(e) => Err(ECIESError::Handshake(e)),
                }
            },
            ECIESState::Ack => {
                let n = buf_len(buf);
                if n < 2 {
                    return Ok(None);
                }
                let payload_size = u16_from_be(buf_get(buf, 0), buf_get(buf, 1)) as usize;
                let total_size = payload_size + 2;
                if n < total_size {
                    return Ok(None);
                }
                let data = buf_split_to(buf, total_size);
                if total_size < PREFIX_LEN + ENVELOPE_OVERHEAD {
                    return Err(ECIESError::Codec(CodecError::MalformedLength));
                }
                match self.ecies.parse_ack(data.as_slice()) {
                    Ok(()) => {
                        self.state = ECIESState::Header;
                        Ok(Some(IngressECIESValue::Ack))
                    },
                    Err(e) => Err(ECIESError::Handshake(e)),
                }
            },
            ECIESState::Header => {
                if buf_len(buf) < ECIES::header_len() {
                    return Ok(None);
                }
                let data = buf_split_to(buf, ECIES::header_len());
                if !self.ecies.is_established() {
                    return Err(ECIESError::Handshake(HandshakeError::UnexpectedMessage));
                }
                if self.ecies.ingress_room() < 16 {
                    return Err(ECIESError::Codec(CodecError::MalformedLength));
                }
                match self.ecies.parse_header(data.as_slice()) {
                    Ok(_) => {
                        self.state = ECIESState::Body;
                        Ok(None)
                    },
                    Err(e) => Err(ECIESError::Crypto(e)),
                }
            },
            ECIESState::Body => {
                let need = self.ecies.body_len();
                if buf_len(buf) < need {
                    return Ok(None);
                }
                let data = buf_split_to(buf, need);
                if self.ecies.ingress_room() < (need - 16) as u64 {
                    return Err(ECIESError::Codec(CodecError::MalformedLength));
                }
                match self.ecies.parse_body(data.as_slice()) {
                    Ok(payload) => {
                        self.state = ECIESState::Header;
                        Ok(Some(IngressECIESValue::Message(payload)))
                    },
                    Err(e) => Err(ECIESError::Crypto(e)),
                }
            },
        }
    }

    /// Writes one unit to the end of `buf`. A unit that the state does not
    /// allow, or a message that no frame can hold, is an error and nothing is
    /// written.
    pub fn encode(&mut self, item: EgressECIESValue, buf: &mut bytes::BytesMut) -> (r: Result<
        (),
        ECIESError,
    >)
        requires
            old(self).wf(),
        ensures
            final(self).wf(),
            buffered(*final(buf)).len() >= buffered(*old(buf)).len(),
            buffered(*final(buf)).subrange(0, buffered(*old(buf)).len() as int) == buffered(
                *old(buf),
            ),
            match item {
                EgressECIESValue::Auth => if may_send_auth(old(self)@) {
                    &&& r is Ok
                    &&& final(self)@.state == ECIESState::Ack
                    &&& is_auth_outcome(
                        old(self)@.engine,
                        final(self)@.engine,
                        written(*old(buf), *final(buf)),
                    )
                    &&& spec_read_auth(
                        old(self)@.engine.remote_public_key.unwrap(),
                        written(*old(buf), *final(buf)),
                    ) matches Ok(seen) && seen.remote_public_key == old(self)@.engine.public_key
                } else {
                    &&& r == Err::<(), ECIESError>(
                        ECIESError::Handshake(HandshakeError::UnexpectedMessage),
                    )
                    &&& final(self)@ == old(self)@
                    &&& buffered(*final(buf)) == buffered(*old(buf))
                },
                EgressECIESValue::Ack => if may_send_ack(old(self)@) {
                    &&& r is Ok
                    &&& final(self)@.state == ECIESState::Header
                    &&& is_ack_outcome(
                        old(self)@.engine,
                        final(self)@.engine,
                        written(*old(buf), *final(buf)),
                    )
                } else {
                    &&& r == Err::<(), ECIESError>(
                        ECIESError::Handshake(HandshakeError::UnexpectedMessage),
                    )
                    &&& final(self)@ == old(self)@
                    &&& buffered(*final(buf)) == buffered(*old(buf))
                },
                EgressECIESValue::Message(payload) => (
                    final(self)@,
                    written(*old(buf), *final(buf)),
                    r,
                ) == spec_encode_message(old(self)@, payload@),
            },
    {
        let ghost before = buffered(*buf);
        match item {
            EgressECIESValue::Auth => {
                let allowed = match self.state {
                    ECIESState::Auth => self.ecies.knows_remote(),
                    _ => false,
                };
                if !allowed {
                    assert(before.subrange(0, before.len() as int) =~= before);
                    return Err(ECIESError::Handshake(HandshakeError::UnexpectedMessage));
                }
                let data = self.ecies.create_auth();
                self.state = ECIESState::Ack;
                buf_extend(buf, data.as_slice());
                assert((before + data@).subrange(0, before.len() as int) =~= before);
                assert((before + data@).subrange(
                    before.len() as int,
                    (before + data@).len() as int,
                ) =~= data@);
                Ok(())
            },
            EgressECIESValue::Ack => {
                let allowed = match self.state {
                    ECIESState::Header => self.ecies.is_auth_received(),
                    _ => false,
                };
                if !allowed {
                    assert(before.subrange(0, before.len() as int) =~= before);
                    return Err(ECIESError::Handshake(HandshakeError::UnexpectedMessage));
                }
                let data = self.ecies.create_ack();
                self.state = ECIESState::Header;
                buf_extend(buf, data.as_slice());
                assert((before + data@).subrange(0, before.len() as int) =~= before);
                assert((before + data@).subrange(
                    before.len() as int,
                    (before + data@).len() as int,
                ) =~= data@);
                Ok(())
            },
            EgressECIESValue::Message(data) => {
                assert(before.subrange(0, before.len() as int) =~= before);
                assert(before.subrange(before.len() as int, before.len() as int)
                    =~= Seq::<u8>::empty());
                if !self.ecies.is_established() {
                    return Err(ECIESError::Handshake(HandshakeError::UnexpectedMessage));
                }
                if data.len() > MAX_PAYLOAD {
                    return Err(ECIESError::Codec(CodecError::MalformedLength));
                }
                let padded = round_up_16(data.len());
                if self.ecies.egress_room() < (padded + 16) as u64 {
                    return Err(ECIESError::Codec(CodecError::MalformedLength));
                }
                let header = self.ecies.create_header(data.len());
                let body = self.ecies.create_body(data.as_slice());
                buf_extend(buf, header.as_slice());
                buf_extend(buf, body.as_slice());
                assert((before + header@ + body@).subrange(0, before.len() as int) =~= before);
                assert((before + header@ + body@).subrange(
                    before.len() as int,
                    (before + header@ + body@).len() as int,
                ) =~= header@ + body@);
                Ok(())
            },
        }
    }
}

/// Whatever the buffer holds, the read side yields only the unit that its
/// state asks for: an auth while it waits for one, an ack while it waits for
/// one, a message while it waits for a frame body, and nothing at all from a
/// frame header. Bytes that do not make up that unit in full are left where
/// they are, and bytes that the engine turns down are an error.
pub proof fn lemma_decode_order(c: CodecState, buf: Seq<u8>)
    requires
        codec_wf(c),
    ensures
        match spec_decode(c, buf).result {
            Ok(Some(unit)) => match c.state {
                ECIESState::Auth => unit is AuthReceive && spec_decode(c, buf).codec.state
                    == ECIESState::Header,
                ECIESState::Ack => unit is Ack && spec_decode(c, buf).codec.state
                    == ECIESState::Header,
                ECIESState::Header => false,
                ECIESState::Body => unit is Message && spec_decode(c, buf).codec.state
                    == ECIESState::Header,
            },
            Ok(None) => spec_decode(c, buf) == waiting(c, buf) || (c.state == ECIESState::Header
                && spec_decode(c, buf).codec.state == ECIESState::Body),
            Err(_) => spec_decode(c, buf).codec.state == c.state,
        },
{
}

/// A message that one codec writes, the codec paired with it reads back in
/// two calls: the first takes the frame header and yields nothing, the second
/// takes the frame body and yields the message. What was buffered behind the
/// frame is left, and the two codecs stay paired.
pub proof fn lemma_message_round_trip(
    sender: CodecState,
    receiver: CodecState,
    payload: Seq<u8>,
    behind: Seq<u8>,
)
    requires
        codec_wf(sender),
        codec_wf(receiver),
        sender.engine.stage is Established,
        receiver.engine.stage is Established,
        receiver.state == ECIESState::Header,
        paired(sender.engine.stage->session, receiver.engine.stage->session),
        payload.len() <= MAX_PAYLOAD,
        sender.engine.stage->session.egress_pos + 16 + padded_len(payload.len()) <= u64::MAX,
    ensures
        ({
            let (after, wire, sent) = spec_encode_message(sender, payload);
            let first = spec_decode(receiver, wire + behind);
            let second = spec_decode(first.codec, first.rest);
            &&& sent is Ok
            &&& wire.len() == HEADER_LEN + spec_body_len(payload.len())
            &&& first.result == Ok::<Option<IngressUnit>, ECIESError>(None)
            &&& first.codec.state == ECIESState::Body
            &&& second.result == Ok::<Option<IngressUnit>, ECIESError>(
                Some(IngressUnit::Message(payload)),
            )
            &&& second.codec.state == ECIESState::Header
            &&& second.rest == behind
            &&& second.codec.engine.stage is Established
            &&& paired(after.engine.stage->session, second.codec.engine.stage->session)
        }),
{
    let s0 = sender.engine.stage->session;
    let r0 = receiver.engine.stage->session;
    lemma_frame_round_trip(s0, r0, payload);
    let (s1, header) = spec_seal_header(s0, payload.len());
    let (s2, body) = spec_seal_body(s1, payload);
    let wire = header + body;
    let buf = wire + behind;
    assert(buf.subrange(0, HEADER_LEN as int) =~= header);
    assert(buf.subrange(HEADER_LEN as int, buf.len() as int) =~= body + behind);
    let first = spec_decode(receiver, buf);
    let (r1, size) = spec_open_header(r0, header);
    assert(first.rest == body + behind);
    let need = spec_body_len(payload.len());
    assert((body + behind).subrange(0, need as int) =~= body);
    assert((body + behind).subrange(need as int, (body + behind).len() as int) =~= behind);
}

/// A sealed envelope is a whole handshake unit: its first two bytes say how
/// many bytes follow them.
pub proof fn lemma_envelope_ready(
    remote: Seq<u8>,
    one_time: Seq<u8>,
    iv: Seq<u8>,
    plain: Seq<u8>,
    behind: Seq<u8>,
)
    requires
        is_point_encoding(secp256k1_public(one_time)),
        iv.len() == 16,
        plain.len() <= MAX_PLAIN_LEN,
    ensures
        ({
            let envelope = spec_seal(remote, one_time, iv, plain);
            &&& envelope_ready(envelope + behind)
            &&& read_be16(envelope + behind) + 2 == envelope.len()
            &&& (envelope + behind).subrange(0, envelope.len() as int) == envelope
            &&& (envelope + behind).subrange(
                envelope.len() as int,
                (envelope + behind).len() as int,
            ) == behind
        }),
{
    let envelope = spec_seal(remote, one_time, iv, plain);
    lemma_seal_open(remote, one_time, iv, plain);
    lemma_be16_read((ENVELOPE_OVERHEAD + plain.len()) as nat);
    let prefix = be16((ENVELOPE_OVERHEAD + plain.len()) as nat);
    assert((envelope + behind)[0] == prefix[0]);
    assert((envelope + behind)[1] == prefix[1]);
    assert((envelope + behind).subrange(0, envelope.len() as int) =~= envelope);
    assert((envelope + behind).subrange(envelope.len() as int, (envelope + behind).len() as int)
        =~= behind);
}

/// An auth envelope that its recipient can read is taken off the recipient's
/// buffer as one unit and yields the identifier of the initiator; the
/// recipient then holds what the envelope told it and waits for frames.
pub proof fn lemma_auth_decoded(
    recipient: CodecState,
    one_time: Seq<u8>,
    iv: Seq<u8>,
    plain: Seq<u8>,
    seen: AuthSeen,
    behind: Seq<u8>,
)
    requires
        codec_wf(recipient),
        recipient.state == ECIESState::Auth,
        recipient.engine.remote_public_key is None,
        is_point_encoding(secp256k1_public(one_time)),
        iv.len() == 16,
        plain.len() <= MAX_PLAIN_LEN,
        spec_read_auth(
            recipient.engine.public_key,
            spec_seal(recipient.engine.public_key, one_time, iv, plain),
        ) == Ok::<AuthSeen, HandshakeError>(seen),
    ensures
        ({
            let auth = spec_seal(recipient.engine.public_key, one_time, iv, plain);
            let d = spec_decode(recipient, auth + behind);
            &&& d.result == Ok::<Option<IngressUnit>, ECIESError>(
                Some(IngressUnit::AuthReceive(spec_pk2id(seen.remote_public_key))),
            )
            &&& d.rest == behind
            &&& d.codec.state == ECIESState::Header
            &&& d.codec.engine.remote_public_key == Some(seen.remote_public_key)
            &&& d.codec.engine.stage == (StageState::AuthReceived {
                remote_ephemeral: seen.remote_ephemeral,
                remote_nonce: seen.remote_nonce,
                auth,
            })
        }),
{
    lemma_envelope_ready(recipient.engine.public_key, one_time, iv, plain, behind);
}

/// The ack message that a recipient makes, once it has learned from the auth
/// message what the initiator drew, is taken off the initiator's buffer as one
/// unit and yields an ack; the two then hold the same encryption key and
/// paired authenticators in both directions.
pub proof fn lemma_ack_decoded(
    initiator: CodecState,
    recipient: EngineState,
    ephemeral: Seq<u8>,
    nonce: Seq<u8>,
    one_time: Seq<u8>,
    iv: Seq<u8>,
    pad_len: nat,
    behind: Seq<u8>,
)
    requires
        codec_wf(initiator),
        engine_wf(recipient),
        initiator.state == ECIESState::Ack,
        recipient.stage is AuthReceived,
        recipient.remote_public_key == Some(initiator.engine.public_key),
        recipient.stage->remote_ephemeral == secp256k1_public(initiator.engine.stage->ephemeral),
        recipient.stage->remote_nonce == initiator.engine.stage->nonce,
        recipient.stage->AuthReceived_auth == initiator.engine.stage->AuthSent_auth,
        is_point_encoding(secp256k1_public(ephemeral)),
        is_point_encoding(secp256k1_public(one_time)),
        nonce.len() == 32,
        iv.len() == 16,
        pad_len <= PADDING_LIMIT,
    ensures
        ({
            let (r, ack) = spec_create_ack(recipient, ephemeral, nonce, one_time, iv, pad_len);
            let d = spec_decode(initiator, ack + behind);
            &&& d.result == Ok::<Option<IngressUnit>, ECIESError>(Some(IngressUnit::Ack))
            &&& d.codec.state == ECIESState::Header
            &&& d.rest == behind
            &&& d.codec.engine.stage is Established
            &&& r.stage is Established
            &&& paired(d.codec.engine.stage->session, r.stage->session)
            &&& paired(r.stage->session, d.codec.engine.stage->session)
        }),
{
    let remote = recipient.remote_public_key.unwrap();
    let plain = spec_ack_plain(ephemeral, nonce, pad_len);
    lemma_ack_body_layout(spec_pk2id(secp256k1_public(ephemeral)), nonce);
    lemma_pk2id2pk(secp256k1_public(ephemeral));
    lemma_envelope_ready(remote, one_time, iv, plain, behind);
    lemma_handshake_agreement(
        initiator.engine,
        recipient,
        ephemeral,
        nonce,
        one_time,
        iv,
        pad_len,
    );
}

/// An established session over some transport, as far as the library is
/// concerned: the identity of the peer at the other end. The transport and
/// the codec are the caller's to hold; the decisions of the two handshake
/// roles and of the message stream are made here.
#[derive(Clone, Copy, Debug, PartialEq, Eq)]
pub struct ECIESStream {
    remote_id: PeerId,
}

impl View for ECIESStream {
    type V = Seq<u8>;

    closed spec fn view(&self) -> Seq<u8> {
        self.remote_id@
    }
}

impl ECIESStream {
    /// Ends the initiator's handshake. `first` is the first unit that came
    /// back after the auth message was sent, or `None` if the stream closed.
    /// Only an ack makes a session.
    pub fn connect(first: Option<IngressECIESValue>, remote_id: PeerId) -> (r: Result<
        ECIESStream,
        ECIESError,
    >)
        ensures
            first matches Some(IngressECIESValue::Ack) ==> r matches Ok(s) && s@ == remote_id@,
            !(first matches Some(IngressECIESValue::Ack)) ==> r == Err::<ECIESStream, ECIESError>(
                ECIESError::Handshake(HandshakeError::UnexpectedMessage),
            ),
    {
        match first {
            Some(IngressECIESValue::Ack) => Ok(ECIESStream { remote_id }),
            _ => Err(ECIESError::Handshake(HandshakeError::UnexpectedMessage)),
        }
    }

    /// Ends the recipient's wait for a peer. `first` is the first unit that
    /// came in, or `None` if the stream closed. Only an auth message makes a
    /// session, with the peer that it names; the caller then sends the ack.
    pub fn incoming(first: Option<IngressECIESValue>) -> (r: Result<ECIESStream, ECIESError>)
        ensures
            first matches Some(IngressECIESValue::AuthReceive(id)) ==> r matches Ok(s) && s@
                == id@,
            !(first matches Some(IngressECIESValue::AuthReceive(_))) ==> r == Err::<
                ECIESStream,
                ECIESError,
            >(ECIESError::Handshake(HandshakeError::UnexpectedMessage)),
    {
        match first {
            Some(IngressECIESValue::AuthReceive(remote_id)) => Ok(ECIESStream { remote_id }),
            _ => Err(ECIESError::Handshake(HandshakeError::UnexpectedMessage)),
        }
    }

    /// The identifier of the peer at the other end.
    pub fn remote_id(&self) -> (id: PeerId)
        ensures
            id@ == self@,
    {
        self.remote_id
    }

    /// What the reader of the session gets for a unit that came in: the
    /// payload of a message, and an error for anything else.
    pub fn poll_next(&self, item: IngressECIESValue) -> (r: Result<Vec<u8>, ECIESError>)
        ensures
            item matches IngressECIESValue::Message(body) ==> r matches Ok(out) && out@ == body@,
            !(item is Message) ==> r == Err::<Vec<u8>, ECIESError>(
                ECIESError::Handshake(HandshakeError::UnexpectedMessage),
            ),
    {
        match item {
            IngressECIESValue::Message(body) => Ok(body),
            _ => Err(ECIESError::Handshake(HandshakeError::UnexpectedMessage)),
        }
    }

    /// What the writer of the session hands to the codec for a payload: one
    /// message, which becomes one frame.
    pub fn start_send(&self, item: Vec<u8>) -> (unit: EgressECIESValue)
        ensures
            unit matches EgressECIESValue::Message(body) && body@ == item@,
    {
        EgressECIESValue::Message(item)
    }
}

/// What a call of `encode` appended to the buffer.
pub open spec fn written(before: bytes::BytesMut, after: bytes::BytesMut) -> Seq<u8> {
    buffered(after).subrange(buffered(before).len() as int, buffered(after).len() as int)
}

} // verus!
