use crate::octets::zeros;
use vstd::prelude::*;

verus! {

/// Runs `core::hint::black_box` on bytes that were just wiped, so that the
/// writes that wiped them are not taken for dead and left out. Nothing is
/// promised of it.
#[verifier::external_body]
fn keep_wiped(bytes: &[u8; 32])
    opens_invariants none
    no_unwind
{
    core::hint::black_box(bytes);
}

/// Thirty-two bytes of secret material: a scalar, a nonce or a derived key.
/// The bytes are wiped when the value goes out of scope.
pub struct Key32 {
    bytes: [u8; 32],
}

impl Clone for Key32 {
    fn clone(&self) -> (k: Key32)
        ensures
            k@ == self@,
    {
        Key32 { bytes: self.bytes }
    }
}

impl View for Key32 {
    type V = Seq<u8>;

    closed spec fn view(&self) -> Seq<u8> {
        self.bytes@
    }
}

impl Key32 {
    /// Takes the bytes into keeping.
    pub fn new(bytes: [u8; 32]) -> (k: Key32)
        ensures
            k@ == bytes@,
    {
        Key32 { bytes }
    }

    /// The bytes, for as long as the value is held.
    pub fn as_bytes(&self) -> (b: &[u8; 32])
        ensures
            b@ == self@,
    {
        &self.bytes
    }
}

impl Drop for Key32 {
    fn drop(&mut self)
        ensures
            final(self)@ == zeros(32),
        opens_invariants none
        no_unwind
    {
        let mut i: usize = 0;
        while i < 32
            invariant
                i <= 32,
                forall|j: int| 0 <= j < i ==> self.bytes@[j] == 0u8,
            decreases 32 - i,
        {
            self.bytes[i] = 0;
            i += 1;
        }
        keep_wiped(&self.bytes);
        assert(self.bytes@ =~= zeros(32));
    }
}

} // verus!
