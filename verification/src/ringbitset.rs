//! A ring of bits that remembers the most recent writes.

use vstd::prelude::*;
use vstd::arithmetic::div_mod::{lemma_mod_self_0, lemma_small_mod};
use crate::bitset::{all_clear, padded_capacity, BitSet};
use crate::window::{
    count_true, lemma_count_true_bounded, lemma_count_true_drop_first,
    lemma_replay_keeps_most_recent, lemma_slide, most_recent, replay, slide,
};

verus! {

/// A window over the last `capacity` bits written, kept in a [`BitSet`] that
/// is used as a ring: once the window is full, each write overwrites the
/// oldest bit.
///
/// Seen through its view it is the sequence of the bits in the window, from
/// the oldest to the newest. The capacity is the one asked for, not the
/// padded capacity of the storage. The cursor starts at slot 0 and moves on
/// by one slot with each write, back to slot 0 after the last slot of the
/// window.
pub struct RingBitSet {
    bitset: BitSet,
    capacity_in_bits: usize,
    next_index: usize,
    cardinality: usize,
    length: usize,
}

impl View for RingBitSet {
    type V = Seq<bool>;

    closed spec fn view(&self) -> Seq<bool> {
        Seq::new(self.length as nat, |k: int| self.bitset@[self.slot(k)])
    }
}

impl RingBitSet {
    /// The slot of the storage that holds the oldest bit of the window.
    spec fn oldest(&self) -> int {
        if self.length < self.capacity_in_bits {
            0
        } else {
            self.next_index as int
        }
    }

    /// The slot of the storage that holds entry `k` of the window.
    spec fn slot(&self, k: int) -> int {
        if self.oldest() + k < self.capacity_in_bits {
            self.oldest() + k
        } else {
            self.oldest() + k - self.capacity_in_bits
        }
    }

    /// The number of bits that the window holds when it is full.
    pub closed spec fn capacity(&self) -> nat {
        self.capacity_in_bits as nat
    }

    /// The slot of the storage that the next write goes to.
    pub closed spec fn cursor(&self) -> nat {
        self.next_index as nat
    }

    /// The bits of the storage, padding included.
    pub closed spec fn storage(&self) -> Seq<bool> {
        self.bitset@
    }

    /// The storage has room for the window, the cursor and the length stay
    /// within the capacity, the slots not written yet are clear, and the
    /// running count is the number of `true` bits in the window.
    pub closed spec fn wf(&self) -> bool {
        &&& self.bitset.wf()
        &&& self.capacity_in_bits >= 1
        &&& self.bitset@.len() == padded_capacity(self.capacity_in_bits as nat)
        &&& self.length <= self.capacity_in_bits
        &&& self.next_index < self.capacity_in_bits
        &&& self.length < self.capacity_in_bits ==> self.next_index == self.length
        &&& forall|i: int| self.length <= i < self.capacity_in_bits ==> !self.bitset@[i]
        &&& self.cardinality == count_true(self@)
    }

    /// A window has a capacity of at least 1 and never holds more bits than
    /// its capacity; the cursor stays within the capacity, and the storage
    /// has the capacity rounded up to whole words.
    pub proof fn lemma_within_capacity(&self)
        requires
            self.wf(),
        ensures
            self.capacity() >= 1,
            self@.len() <= self.capacity(),
            self.cursor() < self.capacity(),
            self.storage().len() == padded_capacity(self.capacity()),
    {
    }

    /// A window that was made empty and then written to with each of
    /// `values` in turn holds the most recent of them, as many as its
    /// capacity allows: its length is the number of writes capped at the
    /// capacity, and its cardinality is the number of `true` values among
    /// those it holds.
    pub proof fn lemma_holds_most_recent(&self, values: Seq<bool>)
        requires
            self.wf(),
            self@ == replay(Seq::empty(), values, self.capacity()),
        ensures
            self@ == most_recent(values, self.capacity()),
            self@.len() == if values.len() <= self.capacity() {
                values.len()
            } else {
                self.capacity()
            },
            count_true(self@) == count_true(most_recent(values, self.capacity())),
    {
        lemma_replay_keeps_most_recent(values, self.capacity());
    }

    /// Makes an empty window of `capacity_in_bits` bits.
    pub fn new(capacity_in_bits: usize) -> (ring: RingBitSet)
        requires
            capacity_in_bits >= 1,
            padded_capacity(capacity_in_bits as nat) <= usize::MAX,
        ensures
            ring.wf(),
            ring@ == Seq::<bool>::empty(),
            ring.capacity() == capacity_in_bits,
            ring.cursor() == 0,
            ring.storage() == all_clear(padded_capacity(capacity_in_bits as nat)),
    {
        RingBitSet {
            bitset: BitSet::new(capacity_in_bits),
            capacity_in_bits: capacity_in_bits,
            next_index: 0,
            cardinality: 0,
            length: 0,
        }
    }

    /// Writes `value` as the newest bit of the window, in place of the oldest
    /// one if the window is full, and returns the number of `true` bits that
    /// the window then holds.
    pub fn set_next_bit(&mut self, value: bool) -> (cardinality: usize)
        requires
            old(self).wf(),
        ensures
            final(self).wf(),
            final(self).capacity() == old(self).capacity(),
            final(self)@ == slide(old(self)@, value, old(self).capacity()),
            final(self).storage() == old(self).storage().update(old(self).cursor() as int, value),
            final(self).cursor() == (old(self).cursor() + 1) % old(self).capacity(),
            cardinality == count_true(final(self)@),
    {
        proof {
            lemma_slide(self@, value, self.capacity());
            lemma_count_true_bounded(self@);
            if self@.len() > 0 {
                lemma_count_true_drop_first(self@);
                lemma_count_true_bounded(self@.drop_first());
            }
            if self.next_index + 1 < self.capacity_in_bits {
                lemma_small_mod((self.next_index + 1) as nat, self.capacity_in_bits as nat);
            } else {
                lemma_mod_self_0(self.capacity_in_bits as int);
            }
        }
        if self.length < self.capacity_in_bits {
            self.length += 1
        }
        let old_value = self.bitset.set(self.next_index, value);
        self.cardinality = self.cardinality - (old_value as usize) + (value as usize);
        self.next_index = (self.next_index + 1) % self.capacity_in_bits;
        assert(self@ =~= slide(old(self)@, value, old(self).capacity()));
        self.cardinality
    }

    /// The number of `true` bits in the window.
    pub fn cardinality(&self) -> (cardinality: usize)
        requires
            self.wf(),
        ensures
            cardinality == count_true(self@),
    {
        self.cardinality
    }

    /// The number of bits in the window: the number of writes so far, capped
    /// at the capacity.
    pub fn length(&self) -> (length: usize)
        requires
            self.wf(),
        ensures
            length == self@.len(),
    {
        self.length
    }

    /// The number of bits that the window holds when it is full.
    pub fn capacity_in_bits(&self) -> (capacity: usize)
        requires
            self.wf(),
        ensures
            capacity == self.capacity(),
    {
        self.capacity_in_bits
    }
}

} // verus!
