//! A fixed-capacity array of bits packed into 64-bit words.

use vstd::prelude::*;
use crate::word::{lemma_lower_bit, lemma_raise_bit, lemma_zero_word, word_bit};

verus! {

/// Number of bits in one storage word.
const BITS_IN_WORD: usize = 64;

/// Shifting a bit index right by this many places gives its word's index.
const SHIFT_OFFSET: usize = 6;

/// The capacity that a bit set asked to hold `requested` bits ends up with:
/// `requested` rounded up to a whole number of words.
pub open spec fn padded_capacity(requested: nat) -> nat {
    ((requested + 63) / 64 * 64) as nat
}

/// `padded_capacity(requested)` is the smallest multiple of the word width
/// that is at least `requested`: it is such a multiple, and no such multiple
/// `other` is smaller.
pub proof fn lemma_padded_capacity_is_least(requested: nat, other: nat)
    ensures
        padded_capacity(requested) % 64 == 0,
        padded_capacity(requested) >= requested,
        other % 64 == 0 && other >= requested ==> padded_capacity(requested) <= other,
{
}

/// The bits of a set of `capacity` bits that has not been written to.
pub open spec fn all_clear(capacity: nat) -> Seq<bool> {
    Seq::new(capacity, |i: int| false)
}

/// Every bit of a bit set that has just been made reads as `false`.
pub proof fn lemma_fresh_bits_are_clear(requested: nat, index: int)
    requires
        0 <= index < padded_capacity(requested),
    ensures
        all_clear(padded_capacity(requested)).len() == padded_capacity(requested),
        !all_clear(padded_capacity(requested))[index],
{
}

/// A bit reads as it was last written: after `value` has been written at
/// `index`, the bit at `index` is `value`, and every other bit is what it
/// was before.
pub proof fn lemma_write_then_read(bits: Seq<bool>, index: int, value: bool, other: int)
    requires
        0 <= index < bits.len(),
        0 <= other < bits.len(),
    ensures
        bits.update(index, value).len() == bits.len(),
        bits.update(index, value)[index] == value,
        other != index ==> bits.update(index, value)[other] == bits[other],
{
}

/// A packed array of bits whose capacity is fixed when it is made.
///
/// Seen through its view it is a `Seq<bool>` with one entry for each bit.
pub struct BitSet {
    capacity_in_bits: usize,
    words: Vec<u64>,
}

impl View for BitSet {
    type V = Seq<bool>;

    closed spec fn view(&self) -> Seq<bool> {
        Seq::new(
            self.words@.len() * 64,
            |i: int| word_bit(self.words@[i / 64], (i % 64) as u64),
        )
    }
}

impl BitSet {
    /// The recorded capacity is that of the storage: 64 bits for each word.
    pub closed spec fn wf(&self) -> bool {
        self.capacity_in_bits == self.words@.len() * 64
    }

    /// Makes a bit set of `capacity_in_bits` bits, rounded up to a whole
    /// number of words, all of them clear.
    pub fn new(capacity_in_bits: usize) -> (set: BitSet)
        requires
            capacity_in_bits >= 1,
            padded_capacity(capacity_in_bits as nat) <= usize::MAX,
        ensures
            set.wf(),
            set@ == all_clear(padded_capacity(capacity_in_bits as nat)),
    {
        let capacity_in_words = BitSet::word_index(capacity_in_bits - 1) + 1;
        assert(capacity_in_words << 6 == capacity_in_words * 64) by {
            vstd::arithmetic::power2::lemma2_to64();
            vstd::bits::lemma_usize_shl_is_mul(capacity_in_words, 6);
        }
        let set = BitSet {
            capacity_in_bits: capacity_in_words << SHIFT_OFFSET,
            words: vec![0; capacity_in_words],
        };
        assert forall|i: int| 0 <= i < set@.len() implies !set@[i] by {
            lemma_zero_word((i % 64) as u64);
        }
        set
    }

    /// Writes `value` to the bit at `bit_index` and returns what the bit held
    /// before.
    pub fn set(&mut self, bit_index: usize, value: bool) -> (old_value: bool)
        requires
            old(self).wf(),
            bit_index < old(self)@.len(),
        ensures
            final(self).wf(),
            final(self)@ == old(self)@.update(bit_index as int, value),
            old_value == old(self)@[bit_index as int],
    {
        let word_index = BitSet::word_index(bit_index);
        let bit: u64 = (bit_index % BITS_IN_WORD) as u64;
        let bit_mask: u64 = 1 << bit;
        let word = self.words[word_index];
        let old_value = word & bit_mask != 0;
        let new_word = if value {
            word | bit_mask
        } else {
            word & !bit_mask
        };
        self.words[word_index] = new_word;
        proof {
            assert forall|i: int| 0 <= i < self@.len() implies self@[i] == old(self)@.update(
                bit_index as int,
                value,
            )[i] by {
                if i / 64 == word_index {
                    if value {
                        lemma_raise_bit(word, bit, (i % 64) as u64);
                    } else {
                        lemma_lower_bit(word, bit, (i % 64) as u64);
                    }
                }
            }
        }
        old_value
    }

    /// Reads the bit at `bit_index`.
    pub fn get(&self, bit_index: usize) -> (value: bool)
        requires
            self.wf(),
            bit_index < self@.len(),
        ensures
            value == self@[bit_index as int],
    {
        let word_index = BitSet::word_index(bit_index);
        let bit_mask: u64 = 1 << ((bit_index % BITS_IN_WORD) as u64);
        self.words[word_index] & bit_mask != 0
    }

    /// The number of bits that the set holds.
    pub fn capacity_in_bits(&self) -> (capacity: usize)
        requires
            self.wf(),
        ensures
            capacity == self@.len(),
    {
        self.capacity_in_bits
    }

    /// The index of the word that holds the bit at `bit_index`.
    fn word_index(bit_index: usize) -> (index: usize)
        ensures
            index == bit_index / 64,
    {
        assert(bit_index >> 6 == bit_index / 64) by (bit_vector);
        bit_index >> SHIFT_OFFSET
    }
}

} // verus!
