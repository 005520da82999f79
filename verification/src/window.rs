//! The mathematics of a sliding window of booleans.
//!
//! A window is a `Seq<bool>` that lists the values written to it from the
//! oldest to the newest, and never holds more than its capacity.

use vstd::prelude::*;

verus! {

/// 1 for `true` and 0 for `false`.
pub open spec fn bit_value(bit: bool) -> nat {
    if bit {
        1
    } else {
        0
    }
}

/// How many entries of `bits` are `true`.
pub open spec fn count_true(bits: Seq<bool>) -> nat
    decreases bits.len(),
{
    if bits.len() == 0 {
        0
    } else {
        count_true(bits.drop_last()) + bit_value(bits.last())
    }
}

/// The window after `value` has been written to it: `value` becomes the
/// newest entry, and the oldest one leaves if the window was full.
pub open spec fn slide(window: Seq<bool>, value: bool, capacity: nat) -> Seq<bool> {
    if window.len() < capacity {
        window.push(value)
    } else {
        window.drop_first().push(value)
    }
}

/// The window after each of `values` has been written to it in turn.
pub open spec fn replay(window: Seq<bool>, values: Seq<bool>, capacity: nat) -> Seq<bool>
    decreases values.len(),
{
    if values.len() == 0 {
        window
    } else {
        slide(replay(window, values.drop_last(), capacity), values.last(), capacity)
    }
}

/// The last `capacity` entries of `values`, or all of them if there are fewer.
pub open spec fn most_recent(values: Seq<bool>, capacity: nat) -> Seq<bool> {
    if values.len() <= capacity {
        values
    } else {
        values.subrange(values.len() - capacity, values.len() as int)
    }
}

/// A sequence holds no more `true` entries than it has entries.
pub proof fn lemma_count_true_bounded(bits: Seq<bool>)
    ensures
        count_true(bits) <= bits.len(),
    decreases bits.len(),
{
    if bits.len() > 0 {
        lemma_count_true_bounded(bits.drop_last());
    }
}

/// Appending an entry adds its value to the count.
pub proof fn lemma_count_true_push(bits: Seq<bool>, value: bool)
    ensures
        count_true(bits.push(value)) == count_true(bits) + bit_value(value),
{
    assert(bits.push(value).drop_last() =~= bits);
}

/// The count of a non-empty sequence is the value of its first entry plus
/// the count of the rest.
pub proof fn lemma_count_true_drop_first(bits: Seq<bool>)
    requires
        bits.len() > 0,
    ensures
        count_true(bits) == bit_value(bits[0]) + count_true(bits.drop_first()),
    decreases bits.len(),
{
    if bits.len() == 1 {
        assert(bits.drop_last() =~= Seq::<bool>::empty());
        assert(bits.drop_first() =~= Seq::<bool>::empty());
    } else {
        lemma_count_true_drop_first(bits.drop_last());
        assert(bits.drop_last().drop_first() =~= bits.drop_first().drop_last());
    }
}

/// Writing to a window that is not over its capacity leaves one that is not
/// either: it grows by one entry until it is full, and then stays full. The
/// count of `true` entries loses the value of the entry that left, if one
/// did, and gains the value written.
pub proof fn lemma_slide(window: Seq<bool>, value: bool, capacity: nat)
    requires
        capacity >= 1,
        window.len() <= capacity,
    ensures
        slide(window, value, capacity).len() == if window.len() < capacity {
            window.len() + 1
        } else {
            capacity
        },
        slide(window, value, capacity).last() == value,
        window.len() < capacity ==> count_true(slide(window, value, capacity)) == count_true(
            window,
        ) + bit_value(value),
        window.len() == capacity ==> count_true(slide(window, value, capacity)) == count_true(
            window,
        ) - bit_value(window[0]) + bit_value(value),
{
    if window.len() < capacity {
        lemma_count_true_push(window, value);
    } else {
        lemma_count_true_drop_first(window);
        lemma_count_true_push(window.drop_first(), value);
    }
}

/// After any number of writes to a window that started empty, the window
/// holds the most recent `min(n, capacity)` of the `n` values written, from
/// the oldest to the newest.
pub proof fn lemma_replay_keeps_most_recent(values: Seq<bool>, capacity: nat)
    requires
        capacity >= 1,
    ensures
        replay(Seq::empty(), values, capacity) == most_recent(values, capacity),
        replay(Seq::empty(), values, capacity).len() == if values.len() <= capacity {
            values.len()
        } else {
            capacity
        },
        count_true(replay(Seq::empty(), values, capacity)) == count_true(
            most_recent(values, capacity),
        ),
    decreases values.len(),
{
    if values.len() > 0 {
        let earlier = values.drop_last();
        lemma_replay_keeps_most_recent(earlier, capacity);
        assert(slide(most_recent(earlier, capacity), values.last(), capacity) =~= most_recent(
            values,
            capacity,
        ));
    }
}

/// A window of capacity 1 holds exactly the last value written to it, so it
/// is full after the first write and its count is that value.
pub proof fn lemma_unit_window(window: Seq<bool>, value: bool)
    requires
        window.len() <= 1,
    ensures
        slide(window, value, 1) == seq![value],
        count_true(slide(window, value, 1)) == bit_value(value),
{
    assert(slide(window, value, 1) =~= seq![value]);
    assert(seq![value] =~= Seq::<bool>::empty().push(value));
    lemma_count_true_push(Seq::empty(), value);
}

} // verus!
