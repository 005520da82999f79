use circuit_breaker::bitset::BitSet;

#[test]
fn bitset_capacity_rounds_to_the_closest_word() {
    assert_eq!(BitSet::new(16).capacity_in_bits(), 64);
    assert_eq!(BitSet::new(64).capacity_in_bits(), 64);
    assert_eq!(BitSet::new(65).capacity_in_bits(), 128);
    assert_eq!(BitSet::new(150).capacity_in_bits(), 192);
}

#[test]
fn bitset_set_and_get() {
    let mut set = BitSet::new(128);
    for i in 0..(set.capacity_in_bits()) {
        assert_eq!(set.get(i), false);
    }
    for i in 0..(set.capacity_in_bits()) {
        assert_eq!(set.set(i, i % 2 == 0), false);
    }
    for i in 0..(set.capacity_in_bits()) {
        assert_eq!(set.get(i), i % 2 == 0);
    }
}

#[test]
fn bitset_capacity_is_the_least_multiple_of_the_word_width() {
    for requested in 1..=1000usize {
        let capacity = BitSet::new(requested).capacity_in_bits();
        assert_eq!(capacity % 64, 0);
        assert!(capacity >= requested);
        assert!(capacity - 64 < requested);
    }
}

#[test]
fn bitset_capacity_at_the_word_boundaries() {
    assert_eq!(BitSet::new(1).capacity_in_bits(), 64);
    assert_eq!(BitSet::new(63).capacity_in_bits(), 64);
    assert_eq!(BitSet::new(127).capacity_in_bits(), 128);
    assert_eq!(BitSet::new(128).capacity_in_bits(), 128);
    assert_eq!(BitSet::new(129).capacity_in_bits(), 192);
    assert_eq!(BitSet::new(4096).capacity_in_bits(), 4096);
    assert_eq!(BitSet::new(4097).capacity_in_bits(), 4160);
}

#[test]
fn bitset_capacity_does_not_change_when_bits_are_written() {
    let mut set = BitSet::new(100);
    assert_eq!(set.capacity_in_bits(), 128);
    set.set(0, true);
    set.set(127, true);
    set.set(64, false);
    assert_eq!(set.capacity_in_bits(), 128);
}

#[test]
fn bitset_fresh_bits_are_clear_up_to_the_padded_capacity() {
    let set = BitSet::new(1);
    for i in 0..64 {
        assert_eq!(set.get(i), false);
    }
    let set = BitSet::new(200);
    assert_eq!(set.capacity_in_bits(), 256);
    for i in 0..256 {
        assert_eq!(set.get(i), false);
    }
}

#[test]
fn bitset_set_returns_the_previous_value() {
    let mut set = BitSet::new(64);
    assert_eq!(set.set(5, true), false);
    assert_eq!(set.set(5, true), true);
    assert_eq!(set.set(5, false), true);
    assert_eq!(set.set(5, false), false);
    assert_eq!(set.set(5, true), false);
    assert_eq!(set.get(5), true);
}

#[test]
fn bitset_set_changes_one_bit_only() {
    let mut set = BitSet::new(192);
    let target = 70;
    set.set(target, true);
    for i in 0..192 {
        assert_eq!(set.get(i), i == target);
    }
    set.set(6, true);
    set.set(134, true);
    for i in 0..192 {
        assert_eq!(set.get(i), i == 6 || i == target || i == 134);
    }
    set.set(target, false);
    for i in 0..192 {
        assert_eq!(set.get(i), i == 6 || i == 134);
    }
}

#[test]
fn bitset_bits_next_to_a_word_boundary_are_distinct() {
    let mut set = BitSet::new(128);
    assert_eq!(set.set(63, true), false);
    assert_eq!(set.get(62), false);
    assert_eq!(set.get(63), true);
    assert_eq!(set.get(64), false);
    assert_eq!(set.get(127), false);
    assert_eq!(set.set(64, true), false);
    assert_eq!(set.set(63, false), true);
    assert_eq!(set.get(63), false);
    assert_eq!(set.get(64), true);
    assert_eq!(set.get(0), false);
}

#[test]
fn bitset_every_bit_can_be_set_and_cleared() {
    let mut set = BitSet::new(130);
    let capacity = set.capacity_in_bits();
    assert_eq!(capacity, 192);
    for i in 0..capacity {
        assert_eq!(set.set(i, true), false);
    }
    for i in 0..capacity {
        assert_eq!(set.get(i), true);
    }
    for i in 0..capacity {
        assert_eq!(set.set(i, i % 3 == 0), true);
    }
    for i in 0..capacity {
        assert_eq!(set.get(i), i % 3 == 0);
    }
}
