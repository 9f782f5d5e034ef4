//! A stack-like container that never drops removed elements: they are reset
//! through [`Clear`] and parked in a pool for reuse.

use crate::recycling::Clear;
use vstd::prelude::*;

verus! {

/// Wraps a usual [`Vec`] so that no elements are ever dropped. They are kept
/// alive hidden. When pushing a new element, we can reuse one of the
/// previously deleted ones, using the [`Clear`] trait to ensure it's
/// behaving as though just created. This is useful when having a "container
/// of containers" like a `Vec<HashSet<_>>`, where losing the allocations of
/// the inner containers would be wasteful.
///
/// When an element is removed, its [`Clear`] implementation is called right
/// away, so that side effects depending on element "clearing" happen at
/// removal time.
///
/// `live()` is the stack of live elements; `pool()` is the stack of parked,
/// reset elements, drawn from most recent first.
pub struct RecyclingVec<T: Clear> {
    vec: Vec<T>,
    dead: Vec<T>,
}

impl<T: Clear> RecyclingVec<T> {
    /// The live elements, in stack order.
    pub closed spec fn live(self) -> Seq<T> {
        self.vec@
    }

    /// The parked elements, most recently parked last.
    pub closed spec fn pool(self) -> Seq<T> {
        self.dead@
    }

    /// Every parked element is in its pristine state.
    pub open spec fn wf(self) -> bool {
        forall|i: int| 0 <= i < self.pool().len() ==> (#[trigger] self.pool()[i]).cleared()
    }
}

impl<T: Clear> Default for RecyclingVec<T> {
    /// A new, empty container with an empty pool.
    fn default() -> (r: Self)
        ensures
            r.wf(),
            r.live() == Seq::<T>::empty(),
            r.pool() == Seq::<T>::empty(),
    {
        RecyclingVec { vec: Vec::new(), dead: Vec::new() }
    }
}

impl<T: Clear> RecyclingVec<T> {
    /// The number of live elements.
    pub fn len(&self) -> (r: usize)
        ensures
            r == self.live().len(),
    {
        self.vec.len()
    }

    /// The number of parked elements waiting for reuse.
    pub fn dead_len(&self) -> (r: usize)
        ensures
            r == self.pool().len(),
    {
        self.dead.len()
    }

    /// The live element at stack position `i`.
    pub fn index(&self, i: usize) -> (r: &T)
        requires
            i < self.live().len(),
        ensures
            *r == self.live()[i as int],
    {
        &self.vec[i]
    }

    /// The live element at stack position `i`, if `i` is in bounds.
    pub fn get(&self, i: usize) -> (r: Option<&T>)
        ensures
            i < self.live().len() ==> r is Some && *r.unwrap() == self.live()[i as int],
            i >= self.live().len() ==> r is None,
    {
        if i < self.vec.len() {
            Some(&self.vec[i])
        } else {
            None
        }
    }

    /// The parked element at pool position `i`.
    pub fn dead_at(&self, i: usize) -> (r: &T)
        requires
            i < self.pool().len(),
        ensures
            *r == self.pool()[i as int],
    {
        &self.dead[i]
    }

    /// Calls [`Clear`] on every live element and parks them all, emptying
    /// the live stack. The pool only grows; nothing is dropped.
    pub fn clear(&mut self)
        ensures
            final(self).live().len() == 0,
            final(self).pool().len() == old(self).pool().len() + old(self).live().len(),
            forall|i: int|
                0 <= i < old(self).pool().len() ==> final(self).pool()[i] == old(self).pool()[i],
            forall|i: int|
                old(self).pool().len() <= i < final(self).pool().len() ==> (#[trigger] final(self).pool()[i]).cleared(),
            old(self).wf() ==> final(self).wf(),
    {
        while self.vec.len() > 0
            invariant
                self.pool().len() == old(self).pool().len() + (old(self).live().len()
                    - self.live().len()),
                self.live().len() <= old(self).live().len(),
                forall|i: int|
                    0 <= i < old(self).pool().len() ==> self.pool()[i] == old(self).pool()[i],
                forall|i: int|
                    old(self).pool().len() <= i < self.pool().len() ==> (#[trigger] self.pool()[i]).cleared(),
            decreases self.vec@.len(),
        {
            let mut el = self.vec.remove(0);
            el.clear();
            self.dead.push(el);
        }
    }

    /// If a previously deleted element can be recycled, apply `init` to it.
    /// Otherwise, construct a new element using `ctor`; `init` is not
    /// applied to fresh values, since it exists to adapt a recycled value
    /// into its desired start state.
    ///
    /// The new element is added to the stack and a mutable reference to it
    /// is returned.
    pub fn push<C: FnOnce() -> T, I: FnOnce(T) -> T>(&mut self, ctor: C, init: I) -> (r: &mut T)
        requires
            old(self).wf(),
            old(self).pool().len() == 0 ==> call_requires(ctor, ()),
            old(self).pool().len() > 0 ==> call_requires(init, (old(self).pool().last(),)),
        ensures
            final(self).wf(),
            final(self).live() == old(self).live().push(*final(r)),
            old(self).pool().len() > 0 ==> call_ensures(init, (old(self).pool().last(),), *r)
                && old(self).pool().last().cleared() && final(self).pool() == old(self).pool().drop_last(),
            old(self).pool().len() == 0 ==> call_ensures(ctor, (), *r) && final(self).pool()
                == old(self).pool(),
    {
        let new_element = match self.dead.pop() {
            Some(el) => init(el),
            None => ctor(),
        };
        self.vec.push(new_element);
        let at = self.vec.len() - 1;
        &mut self.vec[at]
    }

    /// Tries to add an element by recycling a previously deleted one,
    /// applying `init` to it. Returns the new element, or `None` when the
    /// pool was empty, leaving the stack unchanged.
    pub fn push_recycled<I: FnOnce(T) -> T>(&mut self, init: I) -> (r: Option<&mut T>)
        requires
            old(self).wf(),
            old(self).pool().len() > 0 ==> call_requires(init, (old(self).pool().last(),)),
        ensures
            old(self).pool().len() == 0 ==> r is None && final(self).live() == old(self).live()
                && final(self).pool() == old(self).pool(),
            old(self).pool().len() > 0 ==> r is Some && final(self).wf() && call_ensures(
                init,
                (old(self).pool().last(),),
                *r.unwrap(),
            ) && old(self).pool().last().cleared() && final(self).live() == old(self).live().push(*final(r.unwrap())) && final(self).pool() == old(self).pool().drop_last(),
    {
        let recycled = match self.dead.pop() {
            Some(el) => el,
            None => {
                return None;
            },
        };
        let recycled = init(recycled);
        self.vec.push(recycled);
        let at = self.vec.len() - 1;
        Some(&mut self.vec[at])
    }

    /// If the container has at least one element, calls [`Clear`] on it,
    /// then parks it. Otherwise, does nothing.
    ///
    /// Contrary to other containers, ownership of deleted elements is kept,
    /// so nothing is returned.
    pub fn pop(&mut self)
        requires
            old(self).wf(),
        ensures
            final(self).wf(),
            old(self).live().len() == 0 ==> final(self).live() == old(self).live() && final(self).pool() == old(self).pool(),
            old(self).live().len() > 0 ==> final(self).live() == old(self).live().drop_last()
                && final(self).pool().len() == old(self).pool().len() + 1 && (forall|i: int|
                0 <= i < old(self).pool().len() ==> final(self).pool()[i] == old(self).pool()[i])
                && final(self).pool().last().cleared(),
    {
        if let Some(mut dead) = self.vec.pop() {
            dead.clear();
            self.dead.push(dead);
        }
    }

    /// Removes the live element at `i` by swapping the last live element
    /// into its place, then clears and parks it: constant-time,
    /// order-breaking removal.
    pub fn swap_remove(&mut self, i: usize)
        requires
            old(self).wf(),
            i < old(self).live().len(),
        ensures
            final(self).wf(),
            final(self).live() == old(self).live().update(
                i as int,
                old(self).live().last(),
            ).drop_last(),
            final(self).pool().len() == old(self).pool().len() + 1,
            forall|i: int|
                0 <= i < old(self).pool().len() ==> final(self).pool()[i] == old(self).pool()[i],
            final(self).pool().last().cleared(),
    {
        let mut el = self.vec.swap_remove(i);
        el.clear();
        self.dead.push(el);
    }
}

impl<T: Clear + Default> RecyclingVec<T> {
    /// If no previously deleted element can be reused, create a new element
    /// using the default constructor. Otherwise reuse a previously deleted
    /// element as it stands, in its pristine state, without calling
    /// [`Default::default`].
    ///
    /// Note: to maintain coherence, it is strongly advised that
    /// [`Default::default`] construct an object in the same state as the
    /// state [`Clear::clear`] leaves an object in.
    pub fn push_default(&mut self) -> (r: &mut T)
        requires
            old(self).wf(),
        ensures
            final(self).wf(),
            final(self).live() == old(self).live().push(*final(r)),
            old(self).pool().len() > 0 ==> (*r).cleared() && *r == old(self).pool().last()
                && final(self).pool() == old(self).pool().drop_last(),
            old(self).pool().len() == 0 ==> final(self).pool() == old(self).pool(),
    {
        let new_element = match self.dead.pop() {
            Some(el) => el,
            None => T::default(),
        };
        self.vec.push(new_element);
        let at = self.vec.len() - 1;
        &mut self.vec[at]
    }
}

impl<T: Clear + Clone> Clone for RecyclingVec<T> {
    /// Clones only alive elements, those counted in `len`: the pool of
    /// already-reset elements is not worth duplicating.
    fn clone(&self) -> (r: Self)
        ensures
            r.wf(),
            r.live().len() == self.live().len(),
            forall|i: int|
                #![all_triggers]
                0 <= i < self.live().len() ==> cloned::<T>(self.live()[i], r.live()[i]),
            r.pool() == Seq::<T>::empty(),
    {
        RecyclingVec { vec: self.vec.clone(), dead: Vec::new() }
    }
}

impl<T: Clear> Clear for RecyclingVec<T> {
    /// A recycling container can itself sit inside another recycling
    /// container: pristine means no live element (parked elements may
    /// remain).
    open spec fn cleared(&self) -> bool {
        self.live().len() == 0
    }

    fn clear(&mut self) {
        RecyclingVec::clear(self);
    }
}

impl<T: Clear> RecyclingVec<T> {
    /// Clearing an already-empty container is a no-op: the live stack stays
    /// empty and the pool is untouched. `post` stands for the container
    /// after the call, as `clear` describes it.
    pub proof fn lemma_clear_on_empty(pre: Self, post: Self)
        requires
            pre.live().len() == 0,
            post.live().len() == 0,
            post.pool().len() == pre.pool().len() + pre.live().len(),
            forall|i: int| 0 <= i < pre.pool().len() ==> post.pool()[i] == pre.pool()[i],
        ensures
            post.live() =~= pre.live(),
            post.pool() =~= pre.pool(),
    {
    }
}

} // verus!
