//! The backing-array abstraction: a minimal contiguous-array capability set,
//! implemented both by the growable [`Vec`] and by the fixed-capacity
//! [`StaticVec`].

use vstd::prelude::*;

verus! {

/// The capability set a sparse store needs from its backing arrays:
/// constant-time push, pop, swap-remove and indexed access.
///
/// `view_seq` is the mathematical content of the array (its elements in
/// order); every other contract is stated over it. `spec_can_push` says
/// whether one more element fits: always true for a growable array, a
/// capacity test for a fixed-capacity one.
pub trait VecLike<T>: Sized {
    /// The elements held, in order.
    spec fn view_seq(&self) -> Seq<T>;

    /// Whether one more element fits.
    spec fn spec_can_push(&self) -> bool;

    /// A new, empty array.
    fn new() -> (r: Self)
        ensures
            r.view_seq() == Seq::<T>::empty(),
    ;

    /// Appends `val` at the end.
    fn push(&mut self, val: T)
        requires
            old(self).spec_can_push(),
        ensures
            final(self).view_seq() == old(self).view_seq().push(val),
    ;

    /// Removes and returns the last element, if any.
    fn pop(&mut self) -> (r: Option<T>)
        ensures
            old(self).view_seq().len() == 0 ==> r is None && final(self).view_seq()
                == old(self).view_seq(),
            old(self).view_seq().len() > 0 ==> r == Some(old(self).view_seq().last())
                && final(self).view_seq() == old(self).view_seq().drop_last(),
    ;

    /// The number of elements held.
    fn len(&self) -> (r: usize)
        ensures
            r == self.view_seq().len(),
    ;

    /// Removes the element at `n` by swapping the last element into its
    /// place: constant-time, order-breaking.
    fn swap_remove(&mut self, n: usize) -> (r: T)
        requires
            n < old(self).view_seq().len(),
        ensures
            r == old(self).view_seq()[n as int],
            final(self).view_seq() == old(self).view_seq().update(
                n as int,
                old(self).view_seq().last(),
            ).drop_last(),
    ;

    /// The element at `n`, if `n` is in bounds.
    fn get(&self, n: usize) -> (r: Option<&T>)
        ensures
            n < self.view_seq().len() ==> r is Some && r->0 == &self.view_seq()[n as int],
            n >= self.view_seq().len() ==> r is None,
    ;

    /// The element at `n`; in-bounds access only.
    fn index(&self, n: usize) -> (r: &T)
        requires
            n < self.view_seq().len(),
        ensures
            *r == self.view_seq()[n as int],
    ;

    /// A mutable borrow of the element at `n`; in-bounds access only.
    fn index_mut(&mut self, n: usize) -> (r: &mut T)
        requires
            n < old(self).view_seq().len(),
        ensures
            *r == old(self).view_seq()[n as int],
            final(self).view_seq() == old(self).view_seq().update(n as int, *final(r)),
    ;

    /// Overwrites the element at `n` with `val`; in-bounds access only.
    fn set(&mut self, n: usize, val: T)
        requires
            n < old(self).view_seq().len(),
        ensures
            final(self).view_seq() == old(self).view_seq().update(n as int, val),
    ;
}

impl<T> VecLike<T> for Vec<T> {
    open spec fn view_seq(&self) -> Seq<T> {
        self@
    }

    open spec fn spec_can_push(&self) -> bool {
        true
    }

    fn new() -> (r: Self) {
        Vec::new()
    }

    fn push(&mut self, val: T) {
        self.push(val);
    }

    fn pop(&mut self) -> (r: Option<T>) {
        self.pop()
    }

    fn len(&self) -> (r: usize) {
        Vec::len(self)
    }

    fn swap_remove(&mut self, n: usize) -> (r: T) {
        self.swap_remove(n)
    }

    fn get(&self, n: usize) -> (r: Option<&T>) {
        if n < Vec::len(self) {
            Some(&self[n])
        } else {
            None
        }
    }

    fn index(&self, n: usize) -> (r: &T) {
        &self[n]
    }

    fn index_mut(&mut self, n: usize) -> (r: &mut T) {
        &mut self[n]
    }

    fn set(&mut self, n: usize, val: T) {
        self[n] = val;
    }
}

/// A fixed-capacity array with an explicit length: it holds at most `N`
/// elements and never reallocates past that bound. Pushing past the capacity
/// is a contract violation, not a fallback allocation.
#[derive(Clone, Debug)]
pub struct StaticVec<T, const N: usize> {
    vec: Vec<T>,
}

impl<T, const N: usize> VecLike<T> for StaticVec<T, N> {
    closed spec fn view_seq(&self) -> Seq<T> {
        self.vec@
    }

    closed spec fn spec_can_push(&self) -> bool {
        self.vec@.len() < N
    }

    fn new() -> (r: Self) {
        StaticVec { vec: Vec::new() }
    }

    fn push(&mut self, val: T) {
        self.vec.push(val);
    }

    fn pop(&mut self) -> (r: Option<T>) {
        self.vec.pop()
    }

    fn len(&self) -> (r: usize) {
        Vec::len(&self.vec)
    }

    fn swap_remove(&mut self, n: usize) -> (r: T) {
        self.vec.swap_remove(n)
    }

    fn get(&self, n: usize) -> (r: Option<&T>) {
        if n < Vec::len(&self.vec) {
            Some(&self.vec[n])
        } else {
            None
        }
    }

    fn index(&self, n: usize) -> (r: &T) {
        &self.vec[n]
    }

    fn index_mut(&mut self, n: usize) -> (r: &mut T) {
        &mut self.vec[n]
    }

    fn set(&mut self, n: usize, val: T) {
        self.vec[n] = val;
    }
}

impl<T, const N: usize> StaticVec<T, N> {
    /// Capacity law: one more element fits exactly when fewer than `N` are
    /// held.
    pub proof fn lemma_capacity(self)
        ensures
            self.spec_can_push() <==> self.view_seq().len() < N,
    {
    }
}

} // verus!
