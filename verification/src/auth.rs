//! Token comparison.

use vstd::prelude::*;

use crate::text::lemma_encode_injective;

verus! {

/// Folding a difference in never clears an earlier one.
proof fn lemma_fold(diff: u8, a: u8, b: u8)
    ensures
        (diff | (a ^ b)) == 0 <==> diff == 0 && a == b,
{
    assert((diff | (a ^ b)) == 0 <==> diff == 0 && a == b) by (bit_vector);
}

/// Whether `provided` is the `expected` token. Two tokens of one length are
/// compared in time that does not depend on where they differ.
pub fn verify_token(expected: &str, provided: &str) -> (r: bool)
    ensures
        r == (expected@ == provided@),
{
    let x = expected.as_bytes();
    let y = provided.as_bytes();
    if x.len() != y.len() {
        return false;
    }
    let mut diff: u8 = 0;
    let mut i: usize = 0;
    while i < x.len()
        invariant
            x@.len() == y@.len(),
            i <= x@.len(),
            diff == 0 <==> (forall|j: int| 0 <= j < i ==> x@[j] == y@[j]),
        decreases x@.len() - i,
    {
        let ghost before = diff;
        diff = diff | (x[i] ^ y[i]);
        proof {
            lemma_fold(before, x@[i as int], y@[i as int]);
        }
        i += 1;
    }
    proof {
        if diff == 0 {
            assert(x@ =~= y@);
            lemma_encode_injective(expected@, provided@);
        }
    }
    diff == 0
}

} // verus!
