//! This module is meant to be used in conjunction with "recycling
//! containers". The [`Clear`] trait is an analog to `Drop`, but doesn't
//! delete the object, or free allocations: it just resets the object to a
//! pristine state.

use crate::sparsevec::SparseVec;
use vstd::prelude::*;

verus! {

/// Implemented by types that want to communicate their state can be reset
/// to a default state, without giving up their internal allocation.
///
/// `cleared` says what the pristine state is; `clear` reaches it from any
/// state. Implementers must keep `clear` idempotent and allocation-free.
pub trait Clear: Sized {
    /// Whether this value is in its pristine state.
    spec fn cleared(&self) -> bool;

    /// Restores this value to its pristine state without releasing any
    /// backing allocation it holds.
    fn clear(&mut self)
        ensures
            final(self).cleared(),
    ;
}

impl Clear for usize {
    /// Pristine means zero.
    open spec fn cleared(&self) -> bool {
        *self == 0
    }

    fn clear(&mut self) {
        *self = 0;
    }
}

impl<T> Clear for Vec<T> {
    /// Pristine means empty; the backing allocation is retained.
    open spec fn cleared(&self) -> bool {
        self@.len() == 0
    }

    fn clear(&mut self) {
        Vec::clear(self);
    }
}

impl<T> Clear for SparseVec<T> {
    /// Pristine means no live element, no allocated slot and no parked
    /// index: the state a fresh store starts in.
    open spec fn cleared(&self) -> bool {
        &&& self.wf()
        &&& self.dense().len() == 0
        &&& self.slots().len() == 0
        &&& self.free_list().len() == 0
    }

    fn clear(&mut self) {
        SparseVec::clear(self);
    }
}

impl<T, S> Clear for std::collections::HashSet<T, S> {
    /// Pristine means empty; the backing allocation is retained.
    open spec fn cleared(&self) -> bool {
        self@ =~= Set::<T>::empty()
    }

    fn clear(&mut self) {
        std::collections::HashSet::clear(self);
    }
}

impl<K, V, S> Clear for std::collections::HashMap<K, V, S> {
    /// Pristine means empty; the backing allocation is retained.
    open spec fn cleared(&self) -> bool {
        self@ =~= Map::<K, V>::empty()
    }

    fn clear(&mut self) {
        std::collections::HashMap::clear(self);
    }
}

/// A minimal resettable value for observing when [`Clear`] runs: it starts
/// alive, and clearing marks it dead. Useful for checking that recycling
/// containers reset elements exactly at removal time.
pub struct Probe {
    /// Whether the value has not been cleared since construction.
    pub alive: bool,
}

impl Default for Probe {
    /// A fresh probe is alive.
    fn default() -> (r: Self)
        ensures
            r.alive,
    {
        Probe { alive: true }
    }
}

impl Clear for Probe {
    /// Pristine means cleared at least once: no longer alive.
    open spec fn cleared(&self) -> bool {
        !self.alive
    }

    fn clear(&mut self) {
        self.alive = false;
    }
}

} // verus!
