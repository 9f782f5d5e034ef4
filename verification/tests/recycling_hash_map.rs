use containers::recycling::clear::Probe;
use containers::RecyclingHashMap;

#[test]
fn insert() {
    // 3 cases:
    //  - 1. Element already exists at key
    //  - 2. Dead element available
    //  - 3. Constructor called

    let ctor = || 10;

    let mut data = RecyclingHashMap::<usize, usize>::default();

    // case 3
    let new_element = data.insert(0, ctor, |v| v);
    assert_eq!(*new_element, 10);

    // case 1
    let new_element = data.insert(0, ctor, |v| v);
    assert_eq!(*new_element, 0);
    *new_element = 10;

    // case 2
    data.remove(&0);
    let new_element = data.insert(0, ctor, |v| v);
    assert_eq!(*new_element, 0);

    // case 3
    let new_element = data.insert(1, ctor, |v| v);
    assert_eq!(*new_element, 10);
}

#[test]
fn remove() {
    let ctor = || 10;

    let mut data = RecyclingHashMap::<usize, usize>::default();

    let new_element = data.insert(0, ctor, |v| v);
    assert_eq!(*new_element, 10);

    data.remove(&0);
    assert_eq!(data.len(), 0);
    assert_eq!(data.len(), 0);
    assert_eq!(data.dead_len(), 1);
    assert_eq!(*data.dead_at(0), 0);
}

#[test]
fn direct_insert() {
    let mut data = RecyclingHashMap::<usize, Vec<usize>>::default();
    data.insert(0, || vec![0], |v| v);
    data.insert_default(1);
    data.insert_default(2);
    data.remove(&0);
    assert_eq!(data.len(), 2);
    assert_eq!(data.dead_len(), 1);

    data.insert(
        0,
        || vec![1, 2, 3],
        |mut v| {
            v.push(1);
            v
        },
    );
    assert_eq!(data.len(), 3);
    assert_eq!(*data.index(&0), vec![1]);
    assert_eq!(data.dead_len(), 0);

    data.insert(
        0,
        || vec![1, 2, 3],
        |mut v| {
            v.push(1);
            v
        },
    );
    assert_eq!(data.len(), 3);
    assert_eq!(*data.index(&0), vec![1]);
    assert_eq!(data.dead_len(), 0);

    data.insert(
        10,
        || vec![1, 2, 3],
        |mut v| {
            v.push(1);
            v
        },
    );
    assert_eq!(data.len(), 4);
    assert_eq!(*data.index(&10), vec![1, 2, 3]);
    assert_eq!(data.dead_len(), 0);
}

#[test]
fn map_insert_on_present_key_resets_in_place() {
    let mut data = RecyclingHashMap::<u32, Probe>::default();
    data.insert_default(5);
    assert!(data.index(&5).alive);

    // Inserting on an already-present key clears the existing value rather
    // than constructing a new one: the constructor must not run.
    let element = data.insert(5, || panic!("constructor must not run"), |p| p);
    assert!(!element.alive);
    assert_eq!(data.len(), 1);
    assert_eq!(data.dead_len(), 0);
}

#[test]
fn map_insert_reuses_recycled_value_then_constructs() {
    let mut data = RecyclingHashMap::<u32, Vec<u8>>::default();
    data.insert(0, || vec![9, 9], |v| v);
    data.remove(&0);

    data.insert(
        1,
        || vec![1],
        |mut v| {
            v.push(10);
            v
        },
    );
    data.insert(
        2,
        || vec![2],
        |mut v| {
            v.push(20);
            v
        },
    );
    assert_eq!(*data.index(&1), vec![10]);
    assert_eq!(*data.index(&2), vec![2]);
}

#[test]
fn map_clear_parks_every_value() {
    let mut data = RecyclingHashMap::<usize, Vec<usize>>::default();
    data.insert_default(0);
    data.insert_default(1);
    data.insert_default(2);
    assert_eq!(data.len(), 3);

    data.clear();
    assert_eq!(data.len(), 0);
    assert_eq!(data.dead_len(), 3);
    for i in 0..data.dead_len() {
        assert_eq!(data.dead_at(i).len(), 0);
    }

    // Clearing the now-empty map changes nothing.
    data.clear();
    assert_eq!(data.len(), 0);
    assert_eq!(data.dead_len(), 3);
}

#[test]
fn map_or_insert_draws_from_pool_first() {
    let mut data = RecyclingHashMap::<u32, Vec<u8>>::default();
    data.insert(7, || vec![7], |v| v);
    data.insert(0, || vec![0], |v| v);
    data.remove(&0);
    assert_eq!(data.dead_len(), 1);

    // Occupied entry: untouched, and the pool is not drawn from.
    let v = data.or_insert(7, || vec![8], |v| v);
    assert_eq!(*v, vec![7]);
    assert_eq!(data.dead_len(), 1);

    // Vacant entry with a recycled value available.
    let v = data.or_insert(
        9,
        || vec![8],
        |mut v| {
            v.push(42);
            v
        },
    );
    assert_eq!(*v, vec![42]);
    assert_eq!(data.dead_len(), 0);

    // Vacant entry with an empty pool: constructed.
    let v = data.or_insert_default(11);
    assert_eq!(*v, Vec::<u8>::new());
    assert_eq!(data.len(), 3);
}

#[test]
fn map_get_and_get_mut() {
    let mut data = RecyclingHashMap::<u32, usize>::default();
    data.insert(1, || 10, |v| v);
    assert_eq!(data.get(&1), Some(&10));
    assert_eq!(data.get(&2), None);
    assert!(data.contains_key(&1));
    assert!(!data.contains_key(&2));
    *data.get_mut(1).unwrap() = 11;
    assert_eq!(data.get(&1), Some(&11));
    assert_eq!(data.get_mut(2), None);
}

#[test]
fn map_and_modify_touches_only_present_keys() {
    let mut data = RecyclingHashMap::<u32, usize>::default();
    data.insert(1, || 10, |v| v);
    data.and_modify(1, |v| v + 5);
    assert_eq!(data.get(&1), Some(&15));
    data.and_modify(2, |v| v + 5);
    assert_eq!(data.get(&2), None);
    assert_eq!(data.len(), 1);
    assert_eq!(data.dead_len(), 0);
}

#[test]
fn map_values_lists_every_live_value() {
    let mut data = RecyclingHashMap::<u32, usize>::default();
    data.insert(1, || 10, |v| v);
    data.insert(2, || 20, |v| v);
    data.insert(3, || 30, |v| v);
    data.remove(&2);

    let mut values: Vec<usize> = data.values().into_iter().copied().collect();
    values.sort();
    assert_eq!(values, vec![10, 30]);
}
