use containers::StaticVec;
use containers::VecLike;

#[test]
fn staticvec() {
    let mut vec = StaticVec::<usize, 5>::new();
    vec.push(0);
    vec.push(1);
    vec.push(2);
    vec.push(3);
    vec.push(4);

    for n in 0..vec.len() {
        assert_eq!(n, *vec.index(n));
    }

    assert_eq!(vec.pop(), Some(4));
    for n in 0..vec.len() {
        assert_eq!(n, *vec.index(n));
    }
    assert_eq!(vec.pop(), Some(3));
    for n in 0..vec.len() {
        assert_eq!(n, *vec.index(n));
    }
    assert_eq!(vec.pop(), Some(2));
    for n in 0..vec.len() {
        assert_eq!(n, *vec.index(n));
    }
    assert_eq!(vec.pop(), Some(1));
    for n in 0..vec.len() {
        assert_eq!(n, *vec.index(n));
    }

    assert_eq!(vec.len(), 1);
    assert_eq!(vec.pop(), Some(0));
    assert_eq!(vec.len(), 0);
    assert_eq!(vec.pop(), None);
}

#[test]
fn staticvec_swap_remove_and_accessors() {
    let mut vec = StaticVec::<u32, 4>::new();
    vec.push(10);
    vec.push(20);
    vec.push(30);
    assert_eq!(vec.swap_remove(0), 10);
    assert_eq!(*vec.index(0), 30);
    assert_eq!(*vec.index(1), 20);
    assert_eq!(vec.get(1), Some(&20));
    assert_eq!(vec.get(2), None);
    vec.set(1, 99);
    assert_eq!(*vec.index(1), 99);
    *vec.index_mut(0) = 7;
    assert_eq!(*vec.index(0), 7);
}

#[test]
fn veclike_over_growable_vec() {
    let mut vec: Vec<u8> = VecLike::new();
    VecLike::push(&mut vec, 1);
    VecLike::push(&mut vec, 2);
    assert_eq!(VecLike::len(&vec), 2);
    assert_eq!(VecLike::swap_remove(&mut vec, 0), 1);
    assert_eq!(VecLike::pop(&mut vec), Some(2));
    assert_eq!(VecLike::pop(&mut vec), None);
}
