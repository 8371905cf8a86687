use ruyi_slab::Slab;

#[test]
fn example_scenario_reuses_freed_slot() {
    let mut slab = Slab::with_capacity(1);
    assert_eq!(slab.insert(10), 0);
    assert_eq!(slab.insert(20), 1);
    assert_eq!(slab.remove(0), Some(10));
    assert_eq!(slab.insert(30), 0);
    assert_eq!(slab.get(1), Some(&20));
    assert_eq!(slab.len(), 2);
}

#[test]
fn round_trip_values_survive_other_changes() {
    let mut slab = Slab::new();
    let a = slab.insert("a");
    let b = slab.insert("b");
    let c = slab.insert("c");
    assert_eq!(slab.remove(b), Some("b"));
    let d = slab.insert("d");
    assert_eq!(d, b);
    assert_eq!(slab.get(a), Some(&"a"));
    assert_eq!(slab.get(c), Some(&"c"));
    assert_eq!(slab.get(d), Some(&"d"));
}

#[test]
fn len_counts_successful_lookups() {
    let mut slab = Slab::new();
    for v in 0..10u32 {
        slab.insert(v);
    }
    slab.remove(3);
    slab.remove(7);
    slab.remove(7);
    let found = (0..20).filter(|&i| slab.get(i).is_some()).count();
    assert_eq!(slab.len(), 8);
    assert_eq!(found, 8);
}

#[test]
fn absent_remove_changes_nothing() {
    let mut slab = Slab::with_capacity(4);
    let a = slab.insert(1u8);
    slab.insert(2u8);
    assert_eq!(slab.remove(a), Some(1));
    let len = slab.len();
    let cap = slab.capacity();
    assert_eq!(slab.remove(a), None);
    assert_eq!(slab.remove(100), None);
    assert_eq!(slab.remove(usize::MAX), None);
    assert_eq!(slab.len(), len);
    assert_eq!(slab.capacity(), cap);
    assert_eq!(slab.free_entry().index(), a);
}

#[test]
fn freed_slots_are_reused_last_first() {
    let mut slab = Slab::new();
    for v in 0..5u32 {
        slab.insert(v);
    }
    assert_eq!(slab.remove(1), Some(1));
    assert_eq!(slab.remove(3), Some(3));
    assert_eq!(slab.insert(30), 3);
    assert_eq!(slab.insert(10), 1);
    assert_eq!(slab.insert(50), 5);
}

#[test]
fn remove_and_clear_keep_capacity() {
    let mut slab = Slab::with_capacity(16);
    for v in 0..10u64 {
        slab.insert(v);
    }
    let cap = slab.capacity();
    assert!(cap >= 16);
    slab.remove(4);
    assert_eq!(slab.capacity(), cap);
    slab.clear();
    assert_eq!(slab.capacity(), cap);
}

#[test]
fn clear_empties_every_index() {
    let mut slab = Slab::new();
    let idx: Vec<usize> = (0..6u32).map(|v| slab.insert(v)).collect();
    slab.remove(idx[2]);
    slab.clear();
    assert_eq!(slab.len(), 0);
    assert!(slab.is_empty());
    for &i in &idx {
        assert!(slab.get(i).is_none());
    }
    assert_eq!(slab.insert(99), 0);
}

#[test]
fn clear_on_empty_pool_with_free_slots() {
    let mut slab = Slab::new();
    let a = slab.insert(1);
    let b = slab.insert(2);
    slab.remove(a);
    slab.remove(b);
    assert!(slab.is_empty());
    slab.clear();
    assert_eq!(slab.insert(5), 0);
    assert_eq!(slab.get(0), Some(&5));
}

#[test]
fn entry_predicts_and_fills_index() {
    let mut slab = Slab::new();
    slab.insert(1);
    slab.insert(2);
    slab.remove(0);
    let e = slab.free_entry();
    let idx = e.index();
    assert_eq!(idx, 0);
    e.insert(idx * 100);
    assert_eq!(slab.get(idx), Some(&0));
    assert_eq!(slab.len(), 2);
    let e = slab.free_entry();
    let idx = e.index();
    assert_eq!(idx, 2);
    e.insert(idx * 100);
    assert_eq!(slab[2], 200);
    assert_eq!(slab.len(), 3);
}

#[test]
fn dropped_entry_changes_nothing() {
    let mut slab = Slab::with_capacity(2);
    slab.insert('x');
    let cap = slab.capacity();
    let first = slab.free_entry().index();
    {
        let e = slab.free_entry();
        assert_eq!(e.index(), first);
    }
    assert_eq!(slab.len(), 1);
    assert_eq!(slab.capacity(), cap);
    assert_eq!(slab.free_entry().index(), first);
    assert_eq!(first, 1);
}

#[test]
fn new_and_default_are_empty() {
    let a: Slab<i32> = Slab::new();
    let b: Slab<i32> = Slab::default();
    assert_eq!(a.len(), 0);
    assert!(a.is_empty());
    assert_eq!(a.capacity(), 0);
    assert_eq!(b.len(), 0);
    assert!(b.get(0).is_none());
}

#[test]
fn reserve_grows_capacity() {
    let mut slab: Slab<u32> = Slab::new();
    slab.insert(1);
    slab.reserve(10);
    assert!(slab.capacity() >= 11);
    assert_eq!(slab.get(0), Some(&1));
    let mut exact: Slab<u32> = Slab::new();
    exact.insert(1);
    exact.reserve_exact(7);
    assert!(exact.capacity() >= 8);
    assert_eq!(exact.len(), 1);
    assert_eq!(exact.get(0), Some(&1));
}

#[test]
fn with_capacity_zero_allocates_nothing() {
    let slab: Slab<u64> = Slab::with_capacity(0);
    assert_eq!(slab.capacity(), 0);
    let big: Slab<u64> = Slab::with_capacity(5);
    assert!(big.capacity() >= 5);
}

#[test]
fn reserve_keeps_sufficient_capacity() {
    let mut slab: Slab<u8> = Slab::with_capacity(32);
    slab.insert(1);
    let cap = slab.capacity();
    slab.reserve(4);
    assert_eq!(slab.capacity(), cap);
    slab.reserve_exact(4);
    assert_eq!(slab.capacity(), cap);
}

#[test]
fn index_mut_writes_through() {
    let mut slab = Slab::new();
    let a = slab.insert(1);
    slab[a] += 41;
    assert_eq!(slab[a], 42);
    assert_eq!(slab.len(), 1);
}

#[test]
fn slot_size_covers_value() {
    assert!(Slab::<u64>::slot_size() >= std::mem::size_of::<u64>());
    assert!(Slab::<u8>::slot_size() >= std::mem::size_of::<usize>());
}

#[test]
fn get_mut_writes_through() {
    let mut slab = Slab::new();
    let a = slab.insert(String::from("a"));
    slab.get_mut(a).unwrap().push('b');
    assert_eq!(slab.get(a).map(|s| s.as_str()), Some("ab"));
    assert!(slab.get_mut(a + 1).is_none());
}
