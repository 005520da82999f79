//! Single bits of a 64-bit word, and what the bitwise operations do to them.

use vstd::prelude::*;

verus! {

/// Whether bit `k` of `word` is set, bit 0 being the least significant one.
pub open spec fn word_bit(word: u64, k: u64) -> bool {
    word & (1u64 << k) != 0
}

/// No bit of the zero word is set.
pub proof fn lemma_zero_word(k: u64)
    by (bit_vector)
    requires
        k < 64,
    ensures
        !word_bit(0u64, k),
{
}

/// Or-ing the mask of bit `k` into a word sets bit `k` and keeps the others.
pub proof fn lemma_raise_bit(word: u64, k: u64, j: u64)
    by (bit_vector)
    requires
        k < 64,
        j < 64,
    ensures
        word_bit(word | (1u64 << k), j) == (j == k || word_bit(word, j)),
{
}

/// And-ing a word with the complement of the mask of bit `k` clears bit `k`
/// and keeps the others.
pub proof fn lemma_lower_bit(word: u64, k: u64, j: u64)
    by (bit_vector)
    requires
        k < 64,
        j < 64,
    ensures
        word_bit(word & !(1u64 << k), j) == (j != k && word_bit(word, j)),
{
}

} // verus!
