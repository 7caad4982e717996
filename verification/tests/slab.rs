use tiling_wm::slab::Slab;

#[test]
fn push_returns_consecutive_handles() {
    let mut slab: Slab<u32> = Slab::new();
    assert_eq!(slab.push(10), 0);
    assert_eq!(slab.push(20), 1);
    assert_eq!(slab.get(0), Some(&10));
    assert_eq!(slab.get(1), Some(&20));
    assert_eq!(slab.get(2), None);
}

#[test]
fn handle_is_stable_until_removed() {
    let mut slab: Slab<&str> = Slab::with_capacity(4);
    let a = slab.push("a");
    let b = slab.push("b");
    let c = slab.push("c");
    assert_eq!(slab.remove(b), Some("b"));
    let d = slab.push("d");
    assert_eq!(slab.get(a), Some(&"a"));
    assert_eq!(slab.get(c), Some(&"c"));
    assert_eq!(slab.get(d), Some(&"d"));
}

#[test]
fn removed_slot_is_reused_and_holds_the_new_value() {
    let mut slab: Slab<u32> = Slab::new();
    let idx = slab.push(1);
    slab.push(2);
    assert_eq!(slab.remove(idx), Some(1));
    assert_eq!(slab.get(idx), None);
    let again = slab.push(3);
    assert_eq!(again, idx);
    assert_eq!(slab.get(idx), Some(&3));
}

#[test]
fn push_fills_the_lowest_vacant_slot() {
    let mut slab: Slab<u32> = Slab::new();
    for v in 0..5 {
        slab.push(v);
    }
    slab.remove(3);
    slab.remove(1);
    assert_eq!(slab.push(10), 1);
    assert_eq!(slab.push(11), 3);
    assert_eq!(slab.push(12), 5);
}

#[test]
fn remove_of_vacant_or_missing_slot_is_none() {
    let mut slab: Slab<u32> = Slab::new();
    slab.push(7);
    assert_eq!(slab.remove(0), Some(7));
    assert_eq!(slab.remove(0), None);
    assert_eq!(slab.remove(9), None);
    assert_eq!(slab.max_len(), 1);
    assert_eq!(slab.len(), 0);
}

#[test]
fn len_counts_occupied_slots_and_max_len_all() {
    let mut slab: Slab<u32> = Slab::new();
    assert_eq!(slab.len(), 0);
    slab.push(1);
    slab.push(2);
    slab.push(3);
    slab.remove(1);
    assert_eq!(slab.len(), 2);
    assert_eq!(slab.max_len(), 3);
}

#[test]
fn clear_leaves_no_slot() {
    let mut slab: Slab<u32> = Slab::new();
    slab.push(1);
    slab.push(2);
    slab.remove(0);
    slab.clear();
    assert_eq!(slab.len(), 0);
    assert_eq!(slab.max_len(), 0);
    assert_eq!(slab.get(1), None);
    assert_eq!(slab.push(5), 0);
}

#[test]
fn iter_yields_live_elements_in_ascending_order() {
    let mut slab: Slab<u32> = Slab::new();
    for v in [10, 20, 30, 40] {
        slab.push(v);
    }
    slab.remove(1);
    let mut it = slab.iter();
    assert_eq!(it.next(), Some(&10));
    assert_eq!(it.next(), Some(&30));
    assert_eq!(it.next(), Some(&40));
    assert_eq!(it.next(), None);
    assert_eq!(it.next(), None);
}

#[test]
fn iter_of_empty_slab_yields_nothing() {
    let slab: Slab<u32> = Slab::new();
    let mut it = slab.iter();
    assert_eq!(it.next(), None);
}

#[test]
fn iter_mut_writes_through() {
    let mut slab: Slab<u32> = Slab::new();
    for v in [1, 2, 3] {
        slab.push(v);
    }
    slab.remove(0);
    {
        let mut it = slab.iter_mut();
        while let Some(v) = it.next() {
            *v *= 10;
        }
    }
    assert_eq!(slab.get(0), None);
    assert_eq!(slab.get(1), Some(&20));
    assert_eq!(slab.get(2), Some(&30));
}

#[test]
fn get_mut_writes_one_slot() {
    let mut slab: Slab<u32> = Slab::new();
    slab.push(1);
    slab.push(2);
    if let Some(v) = slab.get_mut(1) {
        *v = 9;
    }
    assert!(slab.get_mut(5).is_none());
    assert_eq!(slab.get(0), Some(&1));
    assert_eq!(slab.get(1), Some(&9));
}

#[test]
fn index_reads_and_index_mut_writes() {
    let mut slab: Slab<u32> = Slab::new();
    slab.push(4);
    assert_eq!(slab[0], 4);
    *slab.index_mut(0) = 5;
    assert_eq!(slab[0], 5);
}
