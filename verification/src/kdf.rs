use crate::octets::{be32, take, u32_to_be};
use crate::util::{sha256, sha256_digest};
use vstd::prelude::*;

verus! {

/// The `counter`-th block of key material: the hash of the counter, the
/// shared secret and the other party information.
pub open spec fn kdf_block(secret: Seq<u8>, info: Seq<u8>, counter: nat) -> Seq<u8> {
    take(sha256_digest(be32(counter) + secret + info), 32)
}

/// `len` bytes of key material: the blocks of counters 1, 2, ... one after
/// another, cut off at `len`.
pub open spec fn spec_kdf(secret: Seq<u8>, info: Seq<u8>, len: nat) -> Seq<u8> {
    Seq::new(len, |i: int| kdf_block(secret, info, (i / 32 + 1) as nat)[i % 32])
}

/// Single-step key derivation in counter mode over SHA-256.
pub fn kdf(secret: &[u8; 32], info: &[u8], len: usize) -> (out: Vec<u8>)
    requires
        len / 32 < u32::MAX,
    ensures
        out@ == spec_kdf(secret@, info@, len as nat),
{
    let mut out: Vec<u8> = Vec::with_capacity(len);
    let mut counter: u32 = 1;
    while out.len() < len
        invariant
            len / 32 < u32::MAX,
            out@.len() <= len,
            out@.len() < len ==> out@.len() == (counter - 1) * 32,
            1 <= counter,
            counter - 1 <= len / 32 + 1,
            out@ == spec_kdf(secret@, info@, out@.len() as nat),
        decreases len - out@.len(),
    {
        let mut input: Vec<u8> = Vec::new();
        input.extend_from_slice(&u32_to_be(counter));
        input.extend_from_slice(secret);
        input.extend_from_slice(info);
        assert(input@ =~= be32(counter as nat) + secret@ + info@);
        let block = sha256(&input);
        assert(block@ =~= kdf_block(secret@, info@, counter as nat));
        let ghost base = out@.len();
        let mut j: usize = 0;
        while j < 32 && out.len() < len
            invariant
                j <= 32,
                out@.len() <= len,
                out@.len() == base + j,
                base == (counter - 1) * 32,
                block@ == kdf_block(secret@, info@, counter as nat),
                out@ == spec_kdf(secret@, info@, out@.len() as nat),
            decreases 32 - j,
        {
            let ghost before = out@;
            out.push(block[j]);
            proof {
                let n = out@.len() as nat;
                assert((base + j) / 32 + 1 == counter && (base + j) % 32 == j) by {
                    assert(base + j == 32 * (counter - 1) + j);
                }
                assert(out@ =~= spec_kdf(secret@, info@, n));
            }
            j += 1;
        }
        if out.len() < len {
            assert(j == 32);
            assert(counter - 1 < len / 32 + 1) by {
                assert(out@.len() == counter * 32);
                assert(counter * 32 < len);
            }
            counter += 1;
        }
    }
    out
}

} // verus!
