//! Bit sequences and the Hamming distance between them.

use vstd::prelude::*;

verus! {

/// Number of positions at which two equal-length bit sequences differ.
pub open spec fn hamming(a: Seq<bool>, b: Seq<bool>) -> nat
    recommends
        a.len() == b.len(),
    decreases a.len(),
{
    if a.len() == 0 || b.len() == 0 {
        0
    } else {
        hamming(a.drop_last(), b.drop_last()) + (if a.last() != b.last() {
            1nat
        } else {
            0nat
        })
    }
}

/// A sequence is at Hamming distance zero from itself.
pub proof fn lemma_hamming_self(a: Seq<bool>)
    ensures
        hamming(a, a) == 0,
    decreases a.len(),
{
    if a.len() > 0 {
        lemma_hamming_self(a.drop_last());
    }
}

/// The Hamming distance is symmetric.
pub proof fn lemma_hamming_symmetric(a: Seq<bool>, b: Seq<bool>)
    requires
        a.len() == b.len(),
    ensures
        hamming(a, b) == hamming(b, a),
    decreases a.len(),
{
    if a.len() > 0 {
        lemma_hamming_symmetric(a.drop_last(), b.drop_last());
    }
}

/// The Hamming distance never exceeds the length of the sequences.
pub proof fn lemma_hamming_le_len(a: Seq<bool>, b: Seq<bool>)
    requires
        a.len() == b.len(),
    ensures
        hamming(a, b) <= a.len(),
    decreases a.len(),
{
    if a.len() > 0 {
        lemma_hamming_le_len(a.drop_last(), b.drop_last());
    }
}

/// Extending both prefixes by one position adds one to the distance exactly
/// when the new positions differ.
pub proof fn lemma_hamming_take_step(a: Seq<bool>, b: Seq<bool>, i: int)
    requires
        0 <= i < a.len(),
        i < b.len(),
    ensures
        hamming(a.take(i + 1), b.take(i + 1)) == hamming(a.take(i), b.take(i)) + (if a[i] != b[i] {
            1nat
        } else {
            0nat
        }),
{
    let a1 = a.take(i + 1);
    let b1 = b.take(i + 1);
    assert(a1.drop_last() =~= a.take(i));
    assert(b1.drop_last() =~= b.take(i));
    assert(a1.last() == a[i]);
    assert(b1.last() == b[i]);
}

} // verus!
