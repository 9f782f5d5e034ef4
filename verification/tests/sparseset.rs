use containers::sparseset::SparseSet;
use containers::sparseset::StaticSparseSet;

#[test]
fn sparseset_insertion_and_presence() {
    let mut set = SparseSet::<String>::new();

    let mut indices = vec![];
    for _ in 0..10 {
        indices.push(set.insert(String::new()));
    }
    assert_eq!(set.len(), 10);

    for idx in indices {
        assert!(set.contains(idx));
    }
    assert!(!set.contains(10));
}

#[test]
fn sparseset_remove_reuses_low_indices() {
    let mut set = SparseSet::<usize>::new();

    let mut indices = vec![];
    for _ in 0..10 {
        indices.push(set.insert(0));
    }
    assert_eq!(indices.len(), 10);

    for idx in indices.iter().take(5) {
        assert!(set.remove(*idx));
        assert!(!set.remove(*idx));
    }
    for idx in indices.iter().skip(5) {
        assert!(set.contains(*idx));
    }
    assert!(!set.remove(20));
    assert_eq!(set.len(), 5);

    assert!(set.insert(0) < 5);
}

#[test]
fn sparseset_get_dynamic() {
    let mut set = SparseSet::<usize>::new();
    let i0 = set.insert(0);
    let i1 = set.insert(1);

    assert!(set.remove(i0));
    assert!(set.contains(i1));
    assert!(!set.contains(i0));

    *set.get_mut(i1).unwrap() = 10;
    assert_eq!(set.get(i1), Some(&10));
    assert_eq!(set.get(i0), None);
    assert_eq!(set.get_mut(i0), None);
}

#[test]
fn sparseset_get_static() {
    let mut set = StaticSparseSet::<usize, 2>::new();
    let i0 = set.insert(0);
    let i1 = set.insert(1);

    assert!(set.remove(i0));
    assert!(set.contains(i1));
    assert!(!set.contains(i0));

    *set.get_mut(i1).unwrap() = 10;
    assert_eq!(set.get(i1), Some(&10));
    assert_eq!(set.get(i0), None);
    assert_eq!(set.get_mut(i0), None);
    assert_eq!(*set.index(i1), 10);
}

#[test]
fn sparseset_iteration() {
    let mut set = StaticSparseSet::<usize, 20>::new();

    let mut indices = vec![];
    for i in 0..10 {
        indices.push(set.insert(i));
    }

    assert_eq!(indices, set.items().iter().map(|t| t.0).collect::<Vec<_>>());
    assert_eq!(indices, set.items().iter().map(|t| *t.1).collect::<Vec<_>>());
    assert_eq!(indices, set.keys());
    assert_eq!(indices, set.values().iter().map(|v| **v).collect::<Vec<_>>());

    for p in 0..set.len() {
        *set.values_mut(p) += 1;
    }

    for (n, m) in indices.iter().zip(set.values()) {
        assert_eq!(n + 1, *m);
    }
}

#[test]
fn sparseset_removing_last_dense_slot() {
    // Removing the element that happens to sit at the end of the dense
    // storage exercises the no-moved-element path of the swap-remove.
    let mut set = SparseSet::<u32>::new();
    let only = set.insert(1);
    assert!(set.remove(only));
    assert_eq!(set.len(), 0);
    assert!(!set.contains(only));

    let a = set.insert(10);
    let b = set.insert(20);
    assert!(set.remove(b));
    assert_eq!(set.get(a), Some(&10));
    assert_eq!(set.len(), 1);
}
