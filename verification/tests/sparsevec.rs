use containers::SparseVec;

#[test]
fn get() {
    let mut set = SparseVec::<usize>::new();
    let i0 = set.insert(0);
    let i1 = set.insert(1);

    assert!(set.remove(i0).is_some());
    assert!(set.contains(i1));
    assert!(!set.contains(i0));

    *set.get_mut(i1).unwrap() = 10;
    assert_eq!(set.get(i1), Some(&10));
    assert_eq!(set.get(i0), None);
    assert_eq!(set.get_mut(i0), None);
}

#[test]
fn index() {
    let mut set = SparseVec::<usize>::new();
    let i0 = set.insert(0);
    let i1 = set.insert(1);

    assert!(set.remove(i0).is_some());
    assert!(set.contains(i1));
    assert!(!set.contains(i0));
    assert_eq!(*set.index(i1), 1);

    *set.get_mut(i1).unwrap() = 10;
    assert_eq!(*set.index(i1), 10);
}

#[test]
fn iteration() {
    let mut set = SparseVec::<usize>::new();

    let mut indices = vec![];
    for i in 0..10 {
        indices.push(set.insert(i));
    }

    assert_eq!(indices, set.items().iter().map(|t| t.0).collect::<Vec<_>>());
    assert_eq!(indices, set.items().iter().map(|t| *t.1).collect::<Vec<_>>());
    assert_eq!(indices, set.keys());
    assert_eq!(indices, set.values().to_vec());

    for i in set.values_mut().iter_mut() {
        *i += 1;
    }

    for (n, &m) in indices.iter().zip(set.values().iter()) {
        assert_eq!(n + 1, m);
    }
}

#[test]
fn clear() {
    let mut set = SparseVec::<usize>::new();

    let mut indices = vec![];
    for i in 0..10 {
        indices.push(set.insert(i));
    }

    set.clear();
    assert_eq!(set.len(), 0);

    for i in &indices {
        assert!(!set.contains(*i));
    }

    let mut indices = vec![];
    for i in 0..10 {
        indices.push(set.insert(i));
    }

    assert_eq!(set.len(), 10);

    for i in indices {
        assert!(set.contains(i));
    }
}

#[test]
fn test_deref() {
    let mut set = SparseVec::<usize>::new();

    let mut indices = vec![];
    for i in 0..10 {
        indices.push(set.insert(i));
    }
    let to_remove = indices.remove(0);
    set.remove(to_remove);

    let as_slice: &[usize] = set.as_slice();
    assert_eq!(as_slice, &[9, 1, 2, 3, 4, 5, 6, 7, 8]);
}

#[test]
fn sparsevec_insertion_and_presence() {
    let mut set = SparseVec::<String>::new();

    let mut indices = vec![];
    for _ in 0..10 {
        indices.push(set.insert(String::new()));
    }
    assert_eq!(set.len(), 10);

    for idx in indices {
        assert!(set.contains(idx));
    }
    assert!(!set.contains(10));
}

#[test]
fn sparsevec_removed_values_round_trip() {
    let mut set = SparseVec::<u64>::new();
    let before = set.len();
    let idx = set.insert(42);
    assert_eq!(set.remove(idx), Some(42));
    assert_eq!(set.len(), before);
    assert_eq!(set.remove(idx), None);
}

#[test]
fn sparsevec_lifo_index_reuse() {
    let mut set = SparseVec::<char>::new();
    let a = set.insert('a');
    let b = set.insert('b');
    let c = set.insert('c');
    assert_eq!(set.remove(b), Some('b'));
    let d = set.insert('d');
    assert_eq!(d, b);
    let e = set.insert('e');
    assert_eq!(e, 3);
    assert_eq!(set.get(a), Some(&'a'));
    assert_eq!(set.get(c), Some(&'c'));
    assert_eq!(set.get(d), Some(&'d'));
}

#[test]
fn sparsevec_example_scenario() {
    let mut set = SparseVec::<usize>::new();
    let i0 = set.insert(0);
    let i1 = set.insert(1);
    let i2 = set.insert(2);
    set.remove(i0);
    assert!(!set.contains(i0));
    assert!(set.contains(i1));
    assert!(set.contains(i2));
    assert_eq!(set.len(), 2);
    let again = set.insert(3);
    assert!(again < 2);
    assert_eq!(set.len(), 3);
}

#[test]
fn sparsevec_interleaved_removals_stay_consistent() {
    let mut set = SparseVec::<usize>::new();
    let mut live = std::collections::BTreeMap::new();
    for i in 0..8 {
        let idx = set.insert(i * 100);
        live.insert(idx, i * 100);
    }
    // Remove one index in the middle of the dense storage and one at its
    // end, then reinsert, and check every lookup against a model.
    for victim in [2usize, 7, 0] {
        assert_eq!(set.remove(victim), live.remove(&victim));
        let idx = set.insert(victim * 1000);
        live.insert(idx, victim * 1000);
        for (k, v) in &live {
            assert_eq!(set.get(*k), Some(v));
        }
        assert_eq!(set.len(), live.len());
    }
}
