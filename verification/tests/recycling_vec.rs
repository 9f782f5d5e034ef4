use containers::recycling::clear::Probe;
use containers::RecyclingVec;

#[test]
fn clear_is_called_at_deletion_time() {
    let mut data = RecyclingVec::<Probe>::default();
    let element = data.push_default();
    assert!(element.alive);

    data.pop();
    assert_eq!(data.len(), 0);
    assert_eq!(data.dead_len(), 1);
    assert!(!data.dead_at(data.dead_len() - 1).alive);
}

#[test]
fn clear_does_not_delete_and_calls_clear() {
    let mut data = RecyclingVec::<Probe>::default();
    let element = data.push_default();
    assert!(element.alive);

    data.clear();
    assert_eq!(data.len(), 0);
    assert_eq!(data.dead_len(), 1);
    assert!(!data.dead_at(0).alive);
}

#[test]
fn clone_only_uses_alive_elements() {
    let mut data = RecyclingVec::<usize>::default();
    data.push_default();
    data.push_default();
    data.push_default();
    data.pop();
    assert_eq!(data.len(), 2);
    assert_eq!(data.len(), 2);
    assert_eq!(data.dead_len(), 1);

    let cloned = data.clone();
    assert_eq!(cloned.len(), 2);
    assert_eq!(cloned.len(), 2);
    assert_eq!(cloned.dead_len(), 0);
}

fn live_elements(data: &RecyclingVec<usize>) -> Vec<usize> {
    (0..data.len()).map(|i| *data.index(i)).collect()
}

#[test]
fn test_push() {
    let mut data = RecyclingVec::<usize>::default();
    data.push_default();
    data.push_default();
    data.push_default();
    data.pop();
    assert_eq!(data.len(), 2);
    assert_eq!(data.len(), 2);
    assert_eq!(data.dead_len(), 1);

    data.push(|| 1, |_val| 2);
    assert_eq!(data.len(), 3);
    assert_eq!(data.len(), 3);
    assert_eq!(data.dead_len(), 0);
    assert_eq!(live_elements(&data), &[0, 0, 2]);

    data.push(|| 1, |_val| 2);
    assert_eq!(data.len(), 4);
    assert_eq!(data.len(), 4);
    assert_eq!(data.dead_len(), 0);
    assert_eq!(live_elements(&data), &[0, 0, 2, 1]);
}

#[test]
fn push_then_pop_observes_reset_and_keeps_capacity() {
    let mut data = RecyclingVec::<Vec<usize>>::default();
    data.push(|| vec![1, 2, 3], |v| v);
    let capacity_before = data.index(0).capacity();
    data.pop();

    let recycled = data.push_default();
    assert_eq!(recycled.len(), 0);
    assert!(recycled.capacity() >= capacity_before);
    assert!(recycled.capacity() >= 3);
}

#[test]
fn push_recycled_only_draws_from_the_pool() {
    let mut data = RecyclingVec::<usize>::default();
    data.push(|| 10, |v| v);
    data.pop();

    // Recycle element, no initialization: the parked value was reset.
    let el = data.push_recycled(|v| v);
    assert_eq!(el, Some(&mut 0));

    // Recycle element, with initialization.
    data.pop();
    let el = data.push_recycled(|_el| 5);
    assert_eq!(el, Some(&mut 5));

    // Can't recycle: the pool is empty.
    let el = data.push_recycled(|_el| 5);
    assert_eq!(el, None);
    assert_eq!(data.len(), 1);
}

#[test]
fn swap_remove_parks_the_removed_element() {
    let mut data = RecyclingVec::<Vec<usize>>::default();
    data.push(|| vec![1, 2, 3], |v| v);
    data.push(|| vec![4, 5, 6], |v| v);
    data.push(|| vec![7, 8, 9], |v| v);
    data.swap_remove(0);

    assert_eq!(*data.index(0), vec![7, 8, 9]);
    assert_eq!(*data.index(1), vec![4, 5, 6]);
    assert_eq!(data.len(), 2);
    assert_eq!(data.dead_len(), 1);
    assert_eq!(data.dead_at(0).len(), 0);
}

#[test]
fn clear_on_empty_is_a_no_op() {
    let mut data = RecyclingVec::<usize>::default();
    data.push_default();
    data.pop();
    assert_eq!(data.len(), 0);
    assert_eq!(data.dead_len(), 1);

    data.clear();
    assert_eq!(data.len(), 0);
    assert_eq!(data.dead_len(), 1);
}
