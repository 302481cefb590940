use crate::octets::array_from;
use vstd::prelude::*;

verus! {

/// The protocol version that this side announces in its handshake messages.
pub const PROTOCOL_VERSION: u8 = 4;

/// The encoding of a byte string shorter than 256 bytes.
pub open spec fn rlp_bytes(s: Seq<u8>) -> Seq<u8> {
    if s.len() == 1 && s[0] < 0x80 {
        s
    } else if s.len() <= 55 {
        seq![(0x80 + s.len()) as u8] + s
    } else {
        seq![0xb8u8, s.len() as u8] + s
    }
}

/// The encoding of a list whose items, already encoded, take fewer than 256
/// bytes.
pub open spec fn rlp_list(payload: Seq<u8>) -> Seq<u8> {
    if payload.len() <= 55 {
        seq![(0xc0 + payload.len()) as u8] + payload
    } else {
        seq![0xf8u8, payload.len() as u8] + payload
    }
}

/// The body of an auth message: signature, initiator identifier, nonce and
/// version, as one list.
pub open spec fn auth_body(sig: Seq<u8>, id: Seq<u8>, nonce: Seq<u8>) -> Seq<u8> {
    rlp_list(rlp_bytes(sig) + rlp_bytes(id) + rlp_bytes(nonce) + seq![PROTOCOL_VERSION])
}

/// The body of an ack message: recipient ephemeral key identifier, nonce and
/// version, as one list.
pub open spec fn ack_body(ephemeral_id: Seq<u8>, nonce: Seq<u8>) -> Seq<u8> {
    rlp_list(rlp_bytes(ephemeral_id) + rlp_bytes(nonce) + seq![PROTOCOL_VERSION])
}

/// The length that `count` bytes after the prefix at `pos` write, for a count
/// of one or two; longer lengths cannot fit a handshake message.
pub open spec fn spec_long_len(data: Seq<u8>, pos: int, count: int, end: int) -> Option<int> {
    if count == 1 && pos + 1 < end {
        Some(data[pos + 1] as int)
    } else if count == 2 && pos + 2 < end {
        Some(data[pos + 1] as int * 256 + data[pos + 2] as int)
    } else {
        None
    }
}

/// What the prefix at `pos` announces, before its payload is held against
/// `end`: whether the item is a list, where its payload starts and how long
/// it is.
pub open spec fn spec_raw_header(data: Seq<u8>, pos: int, end: int) -> Option<(bool, int, int)> {
    let b = data[pos] as int;
    if b < 0x80 {
        Some((false, pos, 1int))
    } else if b <= 0xb7 {
        Some((false, pos + 1, b - 0x80))
    } else if b <= 0xbf {
        match spec_long_len(data, pos, b - 0xb7, end) {
            Some(n) => Some((false, pos + 1 + (b - 0xb7), n)),
            None => None,
        }
    } else if b <= 0xf7 {
        Some((true, pos + 1, b - 0xc0))
    } else {
        match spec_long_len(data, pos, b - 0xf7, end) {
            Some(n) => Some((true, pos + 1 + (b - 0xf7), n)),
            None => None,
        }
    }
}

/// The item that starts at `pos` and ends no later than `end`, if there is
/// one: whether it is a list, where its payload starts and how long it is.
pub open spec fn spec_item_header(data: Seq<u8>, pos: int, end: int) -> Option<(bool, int, int)> {
    if 0 <= pos < end <= data.len() {
        match spec_raw_header(data, pos, end) {
            Some((is_list, start, len)) => if start + len <= end {
                Some((is_list, start, len))
            } else {
                None
            },
            None => None,
        }
    } else {
        None
    }
}

/// Where the payload of the byte string at `pos` starts, if that item is a
/// byte string of exactly `n` bytes.
pub open spec fn spec_fixed_field(data: Seq<u8>, pos: int, end: int, n: int) -> Option<int> {
    match spec_item_header(data, pos, end) {
        Some((is_list, start, len)) => if !is_list && len == n {
            Some(start)
        } else {
            None
        },
        None => None,
    }
}

/// The version number at `pos`: an integer of at most one byte.
pub open spec fn spec_version_field(data: Seq<u8>, pos: int, end: int) -> Option<u8> {
    match spec_item_header(data, pos, end) {
        Some((is_list, start, len)) => if is_list {
            None
        } else if len == 0 {
            Some(0u8)
        } else if len == 1 {
            Some(data[start])
        } else {
            None
        },
        None => None,
    }
}

/// Where the payload of the list at the start of `data` begins and ends.
/// Bytes after the list are not looked at.
pub open spec fn spec_list_payload(data: Seq<u8>) -> Option<(int, int)> {
    match spec_item_header(data, 0, data.len() as int) {
        Some((is_list, start, len)) => if is_list {
            Some((start, start + len))
        } else {
            None
        },
        None => None,
    }
}

/// What an auth message says.
pub struct AuthFields {
    pub sig: Seq<u8>,
    pub id: Seq<u8>,
    pub nonce: Seq<u8>,
    pub version: u8,
}

/// What an ack message says.
pub struct AckFields {
    pub ephemeral_id: Seq<u8>,
    pub nonce: Seq<u8>,
    pub version: u8,
}

/// The fields of an auth body. Items after the version, and bytes after the
/// list, are passed over.
pub open spec fn spec_decode_auth(data: Seq<u8>) -> Option<AuthFields> {
    match spec_list_payload(data) {
        None => None,
        Some((p0, end)) => match spec_fixed_field(data, p0, end, 65) {
            None => None,
            Some(s1) => match spec_fixed_field(data, s1 + 65, end, 64) {
                None => None,
                Some(s2) => match spec_fixed_field(data, s2 + 64, end, 32) {
                    None => None,
                    Some(s3) => match spec_version_field(data, s3 + 32, end) {
                        None => None,
                        Some(v) => Some(
                            AuthFields {
                                sig: data.subrange(s1, s1 + 65),
                                id: data.subrange(s2, s2 + 64),
                                nonce: data.subrange(s3, s3 + 32),
                                version: v,
                            },
                        ),
                    },
                },
            },
        },
    }
}

/// The fields of an ack body. Items after the version, and bytes after the
/// list, are passed over.
pub open spec fn spec_decode_ack(data: Seq<u8>) -> Option<AckFields> {
    match spec_list_payload(data) {
        None => None,
        Some((p0, end)) => match spec_fixed_field(data, p0, end, 64) {
            None => None,
            Some(s1) => match spec_fixed_field(data, s1 + 64, end, 32) {
                None => None,
                Some(s2) => match spec_version_field(data, s2 + 32, end) {
                    None => None,
                    Some(v) => Some(
                        AckFields {
                            ephemeral_id: data.subrange(s1, s1 + 64),
                            nonce: data.subrange(s2, s2 + 32),
                            version: v,
                        },
                    ),
                },
            },
        },
    }
}

/// The prefix of an item, read.
#[derive(Clone, Copy, Debug, PartialEq, Eq)]
pub struct ItemHeader {
    pub is_list: bool,
    pub start: usize,
    pub len: usize,
}

/// An auth message, read.
#[derive(Clone, Copy, Debug, PartialEq, Eq)]
pub struct AuthBody {
    pub sig: [u8; 65],
    pub id: [u8; 64],
    pub nonce: [u8; 32],
    pub version: u8,
}

/// An ack message, read.
#[derive(Clone, Copy, Debug, PartialEq, Eq)]
pub struct AckBody {
    pub ephemeral_id: [u8; 64],
    pub nonce: [u8; 32],
    pub version: u8,
}

impl View for AuthBody {
    type V = AuthFields;

    open spec fn view(&self) -> AuthFields {
        AuthFields { sig: self.sig@, id: self.id@, nonce: self.nonce@, version: self.version }
    }
}

impl View for AckBody {
    type V = AckFields;

    open spec fn view(&self) -> AckFields {
        AckFields { ephemeral_id: self.ephemeral_id@, nonce: self.nonce@, version: self.version }
    }
}

/// The view of an item header that was read or not.
pub open spec fn header_view(h: Option<ItemHeader>) -> Option<(bool, int, int)> {
    match h {
        Some(h) => Some((h.is_list, h.start as int, h.len as int)),
        None => None,
    }
}

/// Reads the prefix of the item at `pos` and checks that the item ends no
/// later than `end`.
pub fn item_header(data: &[u8], pos: usize, end: usize) -> (h: Option<ItemHeader>)
    requires
        end <= data@.len(),
    ensures
        header_view(h) == spec_item_header(data@, pos as int, end as int),
        h matches Some(x) ==> pos <= x.start && x.start + x.len <= end,
{
    if pos >= end {
        return None;
    }
    let b = data[pos];
    let is_list = b >= 0xc0;
    let start: usize;
    let len: usize;
    if b < 0x80 {
        start = pos;
        len = 1;
    } else if b <= 0xb7 {
        start = pos + 1;
        len = (b - 0x80) as usize;
    } else if b >= 0xc0 && b <= 0xf7 {
        start = pos + 1;
        len = (b - 0xc0) as usize;
    } else {
        let count: usize = if b <= 0xbf {
            (b - 0xb7) as usize
        } else {
            (b - 0xf7) as usize
        };
        if count == 1 && end - pos > 1 {
            start = pos + 2;
            len = data[pos + 1] as usize;
        } else if count == 2 && end - pos > 2 {
            start = pos + 3;
            len = (data[pos + 1] as usize) * 256 + data[pos + 2] as usize;
        } else {
            return None;
        }
    }
    if len <= end - start {
        Some(ItemHeader { is_list, start, len })
    } else {
        None
    }
}

/// Reads the byte string of exactly `n` bytes at `pos`; gives where its
/// payload starts.
pub fn fixed_field(data: &[u8], pos: usize, end: usize, n: usize) -> (r: Option<usize>)
    requires
        end <= data@.len(),
    ensures
        r matches Some(s) ==> spec_fixed_field(data@, pos as int, end as int, n as int) == Some(
            s as int,
        ) && pos <= s && s + n <= end,
        r is None ==> spec_fixed_field(data@, pos as int, end as int, n as int) is None,
{
    match item_header(data, pos, end) {
        Some(h) => if !h.is_list && h.len == n {
            Some(h.start)
        } else {
            None
        },
        None => None,
    }
}

/// Reads the version number at `pos`.
pub fn version_field(data: &[u8], pos: usize, end: usize) -> (r: Option<u8>)
    requires
        end <= data@.len(),
    ensures
        r == spec_version_field(data@, pos as int, end as int),
{
    match item_header(data, pos, end) {
        Some(h) => if h.is_list {
            None
        } else if h.len == 0 {
            Some(0)
        } else if h.len == 1 {
            Some(data[h.start])
        } else {
            None
        },
        None => None,
    }
}

/// The view of an auth body that was read or not.
pub open spec fn auth_view(r: Option<AuthBody>) -> Option<AuthFields> {
    match r {
        Some(a) => Some(a@),
        None => None,
    }
}

/// The view of an ack body that was read or not.
pub open spec fn ack_view(r: Option<AckBody>) -> Option<AckFields> {
    match r {
        Some(a) => Some(a@),
        None => None,
    }
}

/// Reads an auth body.
pub fn decode_auth(data: &[u8]) -> (r: Option<AuthBody>)
    ensures
        auth_view(r) == spec_decode_auth(data@),
{
    let end0 = data.len();
    let list = item_header(data, 0, end0)?;
    if !list.is_list {
        return None;
    }
    let end = list.start + list.len;
    let s1 = fixed_field(data, list.start, end, 65)?;
    let s2 = fixed_field(data, s1 + 65, end, 64)?;
    let s3 = fixed_field(data, s2 + 64, end, 32)?;
    let version = version_field(data, s3 + 32, end)?;
    Some(
        AuthBody {
            sig: array_from::<65>(data, s1),
            id: array_from::<64>(data, s2),
            nonce: array_from::<32>(data, s3),
            version,
        },
    )
}

/// Reads an ack body.
pub fn decode_ack(data: &[u8]) -> (r: Option<AckBody>)
    ensures
        ack_view(r) == spec_decode_ack(data@),
{
    let end0 = data.len();
    let list = item_header(data, 0, end0)?;
    if !list.is_list {
        return None;
    }
    let end = list.start + list.len;
    let s1 = fixed_field(data, list.start, end, 64)?;
    let s2 = fixed_field(data, s1 + 64, end, 32)?;
    let version = version_field(data, s2 + 32, end)?;
    Some(
        AckBody {
            ephemeral_id: array_from::<64>(data, s1),
            nonce: array_from::<32>(data, s2),
            version,
        },
    )
}

/// Appends the encoding of a byte string shorter than 256 bytes.
pub fn push_bytes(out: &mut Vec<u8>, s: &[u8])
    requires
        s@.len() < 256,
    ensures
        final(out)@ == old(out)@ + rlp_bytes(s@),
{
    let n = s.len();
    if n == 1 && s[0] < 0x80 {
        out.push(s[0]);
        assert(out@ =~= old(out)@ + rlp_bytes(s@));
    } else if n <= 55 {
        out.push(0x80 + n as u8);
        out.extend_from_slice(s);
        assert(out@ =~= old(out)@ + rlp_bytes(s@));
    } else {
        out.push(0xb8);
        out.push(n as u8);
        out.extend_from_slice(s);
        assert(out@ =~= old(out)@ + rlp_bytes(s@));
    }
}

/// Wraps the encoded items of a list, fewer than 256 bytes, in the list's
/// prefix.
pub fn wrap_list(payload: &[u8]) -> (out: Vec<u8>)
    requires
        payload@.len() < 256,
    ensures
        out@ == rlp_list(payload@),
{
    let n = payload.len();
    let mut out: Vec<u8> = Vec::new();
    if n <= 55 {
        out.push(0xc0 + n as u8);
    } else {
        out.push(0xf8);
        out.push(n as u8);
    }
    out.extend_from_slice(payload);
    assert(out@ =~= rlp_list(payload@));
    out
}

/// Writes an auth body.
pub fn encode_auth(sig: &[u8; 65], id: &[u8; 64], nonce: &[u8; 32]) -> (out: Vec<u8>)
    ensures
        out@ == auth_body(sig@, id@, nonce@),
        out@.len() == 169,
{
    let mut payload: Vec<u8> = Vec::new();
    push_bytes(&mut payload, sig);
    push_bytes(&mut payload, id);
    push_bytes(&mut payload, nonce);
    payload.push(PROTOCOL_VERSION);
    assert(payload@ =~= rlp_bytes(sig@) + rlp_bytes(id@) + rlp_bytes(nonce@)
        + seq![PROTOCOL_VERSION]);
    wrap_list(&payload)
}

/// Writes an ack body.
pub fn encode_ack(ephemeral_id: &[u8; 64], nonce: &[u8; 32]) -> (out: Vec<u8>)
    ensures
        out@ == ack_body(ephemeral_id@, nonce@),
        out@.len() == 102,
{
    let mut payload: Vec<u8> = Vec::new();
    push_bytes(&mut payload, ephemeral_id);
    push_bytes(&mut payload, nonce);
    payload.push(PROTOCOL_VERSION);
    assert(payload@ =~= rlp_bytes(ephemeral_id@) + rlp_bytes(nonce@) + seq![PROTOCOL_VERSION]);
    wrap_list(&payload)
}

/// The bytes of an auth body, written out.
pub proof fn lemma_auth_body_layout(sig: Seq<u8>, id: Seq<u8>, nonce: Seq<u8>)
    requires
        sig.len() == 65,
        id.len() == 64,
        nonce.len() == 32,
    ensures
        auth_body(sig, id, nonce) == seq![0xf8u8, 0xa7u8, 0xb8u8, 0x41u8] + sig + seq![
            0xb8u8,
            0x40u8,
        ] + id + seq![0xa0u8] + nonce + seq![PROTOCOL_VERSION],
        auth_body(sig, id, nonce).len() == 169,
{
    let payload = rlp_bytes(sig) + rlp_bytes(id) + rlp_bytes(nonce) + seq![PROTOCOL_VERSION];
    assert(rlp_bytes(sig) =~= seq![0xb8u8, 0x41u8] + sig);
    assert(rlp_bytes(id) =~= seq![0xb8u8, 0x40u8] + id);
    assert(rlp_bytes(nonce) =~= seq![0xa0u8] + nonce);
    assert(payload.len() == 167);
    assert(auth_body(sig, id, nonce) =~= seq![0xf8u8, 0xa7u8, 0xb8u8, 0x41u8] + sig + seq![
        0xb8u8,
        0x40u8,
    ] + id + seq![0xa0u8] + nonce + seq![PROTOCOL_VERSION]);
}

/// The bytes of an ack body, written out.
pub proof fn lemma_ack_body_layout(ephemeral_id: Seq<u8>, nonce: Seq<u8>)
    requires
        ephemeral_id.len() == 64,
        nonce.len() == 32,
    ensures
        ack_body(ephemeral_id, nonce) == seq![0xf8u8, 0x64u8, 0xb8u8, 0x40u8] + ephemeral_id
            + seq![0xa0u8] + nonce + seq![PROTOCOL_VERSION],
        ack_body(ephemeral_id, nonce).len() == 102,
{
    let payload = rlp_bytes(ephemeral_id) + rlp_bytes(nonce) + seq![PROTOCOL_VERSION];
    assert(rlp_bytes(ephemeral_id) =~= seq![0xb8u8, 0x40u8] + ephemeral_id);
    assert(rlp_bytes(nonce) =~= seq![0xa0u8] + nonce);
    assert(payload.len() == 100);
    assert(ack_body(ephemeral_id, nonce) =~= seq![0xf8u8, 0x64u8, 0xb8u8, 0x40u8] + ephemeral_id
        + seq![0xa0u8] + nonce + seq![PROTOCOL_VERSION]);
}

/// An auth body is read back from its encoding, whatever padding follows it.
pub proof fn lemma_auth_body_round_trip(sig: Seq<u8>, id: Seq<u8>, nonce: Seq<u8>, pad: Seq<u8>)
    requires
        sig.len() == 65,
        id.len() == 64,
        nonce.len() == 32,
    ensures
        spec_decode_auth(auth_body(sig, id, nonce) + pad) == Some(
            AuthFields { sig, id, nonce, version: PROTOCOL_VERSION },
        ),
{
    lemma_auth_body_layout(sig, id, nonce);
    let data = auth_body(sig, id, nonce) + pad;
    assert(data[0] == 0xf8 && data[1] == 0xa7);
    assert(spec_list_payload(data) == Some((2int, 169int)));
    assert(data[2] == 0xb8 && data[3] == 0x41);
    assert(spec_fixed_field(data, 2, 169, 65) == Some(4int));
    assert(data[69] == 0xb8 && data[70] == 0x40);
    assert(spec_fixed_field(data, 69, 169, 64) == Some(71int));
    assert(data[135] == 0xa0);
    assert(spec_fixed_field(data, 135, 169, 32) == Some(136int));
    assert(data[168] == PROTOCOL_VERSION);
    assert(spec_version_field(data, 168, 169) == Some(PROTOCOL_VERSION));
    assert(data.subrange(4, 69) =~= sig);
    assert(data.subrange(71, 135) =~= id);
    assert(data.subrange(136, 168) =~= nonce);
}

/// An ack body is read back from its encoding, whatever padding follows it.
pub proof fn lemma_ack_body_round_trip(ephemeral_id: Seq<u8>, nonce: Seq<u8>, pad: Seq<u8>)
    requires
        ephemeral_id.len() == 64,
        nonce.len() == 32,
    ensures
        spec_decode_ack(ack_body(ephemeral_id, nonce) + pad) == Some(
            AckFields { ephemeral_id, nonce, version: PROTOCOL_VERSION },
        ),
{
    lemma_ack_body_layout(ephemeral_id, nonce);
    let data = ack_body(ephemeral_id, nonce) + pad;
    assert(data[0] == 0xf8 && data[1] == 0x64);
    assert(spec_list_payload(data) == Some((2int, 102int)));
    assert(data[2] == 0xb8 && data[3] == 0x40);
    assert(spec_fixed_field(data, 2, 102, 64) == Some(4int));
    assert(data[68] == 0xa0);
    assert(spec_fixed_field(data, 68, 102, 32) == Some(69int));
    assert(data[101] == PROTOCOL_VERSION);
    assert(spec_version_field(data, 101, 102) == Some(PROTOCOL_VERSION));
    assert(data.subrange(4, 68) =~= ephemeral_id);
    assert(data.subrange(69, 101) =~= nonce);
}

} // verus!
