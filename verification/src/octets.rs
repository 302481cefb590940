use vstd::prelude::*;

verus! {

/// The byte-wise exclusive-or of `a` with `b`, as long as `a`.
pub open spec fn xor_seq(a: Seq<u8>, b: Seq<u8>) -> Seq<u8> {
    Seq::new(a.len(), |i: int| a[i] ^ b[i])
}

/// The first `n` bytes of `s`.
pub open spec fn take(s: Seq<u8>, n: nat) -> Seq<u8> {
    Seq::new(n, |i: int| s[i])
}

/// `n` zero bytes.
pub open spec fn zeros(n: nat) -> Seq<u8> {
    Seq::new(n, |i: int| 0u8)
}

/// The two bytes that write `n` big-endian.
pub open spec fn be16(n: nat) -> Seq<u8> {
    seq![((n / 256) % 256) as u8, (n % 256) as u8]
}

/// The three bytes that write `n` big-endian.
pub open spec fn be24(n: nat) -> Seq<u8> {
    seq![((n / 65536) % 256) as u8, ((n / 256) % 256) as u8, (n % 256) as u8]
}

/// The four bytes that write `n` big-endian.
pub open spec fn be32(n: nat) -> Seq<u8> {
    seq![
        ((n / 16777216) % 256) as u8,
        ((n / 65536) % 256) as u8,
        ((n / 256) % 256) as u8,
        (n % 256) as u8,
    ]
}

/// The number that the first two bytes of `s` write big-endian.
pub open spec fn read_be16(s: Seq<u8>) -> nat {
    (s[0] as nat) * 256 + s[1] as nat
}

/// The number that the first three bytes of `s` write big-endian.
pub open spec fn read_be24(s: Seq<u8>) -> nat {
    (s[0] as nat) * 65536 + (s[1] as nat) * 256 + s[2] as nat
}

/// `n` rounded up to a multiple of the cipher's block size.
pub open spec fn padded_len(n: nat) -> nat {
    if n % 16 == 0 {
        n
    } else {
        ((n / 16 + 1) * 16) as nat
    }
}

/// A number below 2^16 is read back from its two bytes.
pub proof fn lemma_be16_read(n: nat)
    requires
        n < 65536,
    ensures
        read_be16(be16(n)) == n,
        be16(n).len() == 2,
{
}

/// A number below 2^24 is read back from its three bytes.
pub proof fn lemma_be24_read(n: nat)
    requires
        n < 16777216,
    ensures
        read_be24(be24(n)) == n,
        be24(n).len() == 3,
{
}

/// The exclusive-or of two arrays of one length.
pub fn xor_array<const N: usize>(a: &[u8; N], b: &[u8; N]) -> (out: [u8; N])
    ensures
        out@ == xor_seq(a@, b@),
{
    let mut out = [0u8; N];
    let mut i: usize = 0;
    while i < N
        invariant
            i <= N,
            forall|j: int| 0 <= j < i ==> out@[j] == a@[j] ^ b@[j],
        decreases N - i,
    {
        out[i] = a[i] ^ b[i];
        i += 1;
    }
    assert(out@ =~= xor_seq(a@, b@));
    out
}

/// The `N` bytes of `s` that start at `start`.
pub fn array_from<const N: usize>(s: &[u8], start: usize) -> (out: [u8; N])
    requires
        start + N <= s@.len(),
    ensures
        out@ == s@.subrange(start as int, start + N),
{
    let n = s.len();
    let mut out = [0u8; N];
    let mut i: usize = 0;
    while i < N
        invariant
            i <= N,
            start + N <= n,
            n == s@.len(),
            forall|j: int| 0 <= j < i ==> out@[j] == s@[start + j],
        decreases N - i,
    {
        out[i] = s[start + i];
        i += 1;
    }
    assert(out@ =~= s@.subrange(start as int, start + N));
    out
}

/// The bytes of `s` from `start` up to `end`.
pub fn slice_to_vec(s: &[u8], start: usize, end: usize) -> (out: Vec<u8>)
    requires
        start <= end <= s@.len(),
    ensures
        out@ == s@.subrange(start as int, end as int),
{
    let mut out: Vec<u8> = Vec::with_capacity(end - start);
    let mut i: usize = start;
    while i < end
        invariant
            start <= i <= end <= s@.len(),
            out@ == s@.subrange(start as int, i as int),
        decreases end - i,
    {
        out.push(s[i]);
        assert(out@ =~= s@.subrange(start as int, i + 1));
        i += 1;
    }
    out
}

/// Whether two byte strings are the same. Every byte of the shorter length is
/// read, whatever differs.
pub fn bytes_eq(a: &[u8], b: &[u8]) -> (same: bool)
    ensures
        same == (a@ == b@),
{
    if a.len() != b.len() {
        return false;
    }
    let mut diff: u8 = 0;
    let mut i: usize = 0;
    assert(a@.subrange(0, 0) =~= b@.subrange(0, 0));
    while i < a.len()
        invariant
            i <= a@.len(),
            a@.len() == b@.len(),
            diff == 0 <==> a@.subrange(0, i as int) == b@.subrange(0, i as int),
        decreases a@.len() - i,
    {
        let x = a[i];
        let y = b[i];
        let d = diff;
        diff = diff | (x ^ y);
        proof {
            assert((d | (x ^ y)) == 0 <==> (d == 0 && x == y)) by (bit_vector);
            let a0 = a@.subrange(0, i as int);
            let b0 = b@.subrange(0, i as int);
            let a1 = a@.subrange(0, i + 1);
            let b1 = b@.subrange(0, i + 1);
            assert(a1 =~= a0.push(a@[i as int]));
            assert(b1 =~= b0.push(b@[i as int]));
            if a1 == b1 {
                assert(a1.drop_last() =~= a0);
                assert(b1.drop_last() =~= b0);
                assert(a1.last() == b1.last());
            }
        }
        i += 1;
    }
    assert(a@.subrange(0, a@.len() as int) =~= a@);
    assert(b@.subrange(0, b@.len() as int) =~= b@);
    diff == 0
}

/// The two bytes that write `n` big-endian.
pub fn u16_to_be(n: u16) -> (out: [u8; 2])
    ensures
        out@ == be16(n as nat),
{
    let out = [(n >> 8) as u8, (n & 0xff) as u8];
    proof {
        assert((n >> 8) as u8 == ((n as nat / 256) % 256) as u8) by (bit_vector);
        assert((n & 0xff) as u8 == (n as nat % 256) as u8) by (bit_vector);
        assert(out@ =~= be16(n as nat));
    }
    out
}

/// The four bytes that write `n` big-endian.
pub fn u32_to_be(n: u32) -> (out: [u8; 4])
    ensures
        out@ == be32(n as nat),
{
    let out = [
        (n >> 24) as u8,
        ((n >> 16) & 0xff) as u8,
        ((n >> 8) & 0xff) as u8,
        (n & 0xff) as u8,
    ];
    proof {
        assert((n >> 24) as u8 == ((n as nat / 16777216) % 256) as u8) by (bit_vector);
        assert(((n >> 16) & 0xff) as u8 == ((n as nat / 65536) % 256) as u8) by (bit_vector);
        assert(((n >> 8) & 0xff) as u8 == ((n as nat / 256) % 256) as u8) by (bit_vector);
        assert((n & 0xff) as u8 == (n as nat % 256) as u8) by (bit_vector);
        assert(out@ =~= be32(n as nat));
    }
    out
}

/// The number that two bytes write big-endian.
pub fn u16_from_be(hi: u8, lo: u8) -> (n: u16)
    ensures
        n as nat == (hi as nat) * 256 + lo as nat,
{
    (hi as u16) * 256 + (lo as u16)
}

/// `n` rounded up to a multiple of the cipher's block size.
pub fn round_up_16(n: usize) -> (out: usize)
    requires
        n + 16 <= usize::MAX,
    ensures
        out == padded_len(n as nat),
        n <= out < n + 16,
        out % 16 == 0,
{
    if n % 16 == 0 {
        n
    } else {
        (n / 16 + 1) * 16
    }
}

} // verus!
