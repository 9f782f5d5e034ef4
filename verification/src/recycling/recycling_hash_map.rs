//! A key-addressed recycling container: a hash map whose removed values are
//! reset through [`Clear`] and parked in a pool for reuse.

use crate::recycling::Clear;
use core::hash::BuildHasher;
use core::hash::Hash;
use std::collections::hash_map::Entry;
use std::collections::hash_map::RandomState;
use std::collections::HashMap;
use vstd::prelude::*;
use vstd::std_specs::hash::builds_valid_hashers;
use vstd::std_specs::hash::obeys_key_model;

verus! {

/// Relies on std's `HashMap::drain`: it empties the map and yields every
/// entry exactly once, in no specified order; the result keeps the values.
#[verifier::external_body]
fn drain_values<K, V, S>(m: &mut HashMap<K, V, S>) -> (r: Vec<V>)
    ensures
        ({
            &&& final(m)@ == Map::<K, V>::empty()
            &&& obeys_key_model::<K>() && builds_valid_hashers::<S>() ==> {
                &&& r@.len() == old(m)@.dom().len()
                &&& forall|i: int|
                    0 <= i < r@.len() ==> exists|k: K| old(m)@.contains_pair(k, #[trigger] r@[i])
            }
        }),
{
    m.drain().map(|(_, v)| v).collect()
}

/// Relies on std's `HashMap::values`: it yields a reference to the value of
/// every live entry exactly once, in no specified order.
#[verifier::external_body]
fn collect_values<'a, K, V, S>(m: &'a HashMap<K, V, S>) -> (r: Vec<&'a V>)
    ensures
        obeys_key_model::<K>() && builds_valid_hashers::<S>() ==> {
            &&& r@.len() == m@.dom().len()
            &&& forall|i: int| 0 <= i < r@.len() ==> m@.contains_value(*(#[trigger] r@[i]))
        },
{
    m.values().collect()
}

/// Wraps a usual [`HashMap`] so that no elements are ever dropped. They are
/// kept alive hidden. When inserting a new element, we can reuse one of the
/// previously deleted ones, using the [`Clear`] trait to ensure it's
/// behaving as though just created. This is useful when having a "container
/// of containers" like a `HashMap<K, Vec<_>>`, where losing the allocations
/// of the inner containers would be wasteful.
///
/// When an element is removed or overwritten, its [`Clear`] implementation
/// is called right away, so that side effects depending on element
/// "clearing" happen at removal time.
///
/// `live_map()` is the abstract map of live entries; `pool()` is the stack
/// of parked, reset values, drawn from most recent first.
#[verifier::reject_recursive_types(K)]
#[verifier::reject_recursive_types(Hasher)]
pub struct RecyclingHashMap<K, V: Clear, Hasher = RandomState> {
    map: HashMap<K, V, Hasher>,
    dead: Vec<V>,
}

impl<K, V: Clear, Hasher> RecyclingHashMap<K, V, Hasher> {
    /// The live entries.
    pub closed spec fn live_map(self) -> Map<K, V> {
        self.map@
    }

    /// The parked values, most recently parked last.
    pub closed spec fn pool(self) -> Seq<V> {
        self.dead@
    }

    /// Every parked value is in its pristine state, and the key type and
    /// hasher fit the hash-table model, so the map behaves like its
    /// abstract [`Self::live_map`].
    pub open spec fn wf(self) -> bool {
        &&& obeys_key_model::<K>()
        &&& builds_valid_hashers::<Hasher>()
        &&& forall|i: int| 0 <= i < self.pool().len() ==> (#[trigger] self.pool()[i]).cleared()
    }
}

impl<K, V: Clear, Hasher: Default> Default for RecyclingHashMap<K, V, Hasher> {
    /// A new, empty container with an empty pool.
    fn default() -> (r: Self)
        ensures
            r.live_map() == Map::<K, V>::empty(),
            r.pool() == Seq::<V>::empty(),
            obeys_key_model::<K>() && builds_valid_hashers::<Hasher>() ==> r.wf(),
    {
        RecyclingHashMap { map: HashMap::default(), dead: Vec::new() }
    }
}

impl<K, V: Clear, Hasher> RecyclingHashMap<K, V, Hasher> {
    /// The number of live entries.
    pub fn len(&self) -> (r: usize)
        requires
            self.wf(),
        ensures
            r == self.live_map().dom().len(),
    {
        self.map.len()
    }

    /// The number of parked values waiting for reuse.
    pub fn dead_len(&self) -> (r: usize)
        ensures
            r == self.pool().len(),
    {
        self.dead.len()
    }

    /// The parked value at pool position `i`.
    pub fn dead_at(&self, i: usize) -> (r: &V)
        requires
            i < self.pool().len(),
        ensures
            *r == self.pool()[i as int],
    {
        &self.dead[i]
    }

    /// References to the values of all live entries, in no specified order.
    pub fn values(&self) -> (r: Vec<&V>)
        requires
            self.wf(),
        ensures
            r@.len() == self.live_map().dom().len(),
            forall|i: int| 0 <= i < r@.len() ==> self.live_map().contains_value(*(#[trigger] r@[i])),
    {
        collect_values(&self.map)
    }

    /// Calls the [`Clear`] trait on every value and parks them all, leaving
    /// the map empty. The pool only grows; nothing is dropped.
    pub fn clear(&mut self)
        ensures
            final(self).live_map() == Map::<K, V>::empty(),
            old(self).wf() ==> final(self).wf() && final(self).pool().len() == old(self).pool().len() + old(self).live_map().dom().len() && (forall|i: int|
                0 <= i < old(self).pool().len() ==> final(self).pool()[i] == old(self).pool()[i]),
    {
        let mut drained = drain_values(&mut self.map);
        while drained.len() > 0
            invariant
                self.map@ == Map::<K, V>::empty(),
                old(self).pool().len() <= self.pool().len(),
                old(self).wf() ==> self.pool().len() + drained@.len() == old(self).pool().len()
                    + old(self).live_map().dom().len(),
                forall|i: int|
                    0 <= i < old(self).pool().len() ==> self.pool()[i] == old(self).pool()[i],
                forall|i: int|
                    old(self).pool().len() <= i < self.pool().len() ==> (#[trigger] self.pool()[i]).cleared(),
            decreases drained@.len(),
        {
            let mut v = drained.pop().unwrap();
            v.clear();
            self.dead.push(v);
        }
    }
}

impl<K, V, Hasher> RecyclingHashMap<K, V, Hasher> where
    V: Clear,
    K: Eq + Hash,
    Hasher: BuildHasher,
 {
    /// Whether a live entry sits under `key`.
    pub fn contains_key(&self, key: &K) -> (r: bool)
        requires
            self.wf(),
        ensures
            r <==> self.live_map().contains_key(*key),
    {
        self.map.contains_key(key)
    }

    /// The value under `key`, if any.
    pub fn get(&self, key: &K) -> (r: Option<&V>)
        requires
            self.wf(),
        ensures
            match r {
                Some(v) => self.live_map().contains_key(*key) && *v == self.live_map()[*key],
                None => !self.live_map().contains_key(*key),
            },
    {
        self.map.get(key)
    }

    /// The value under `key`; the key must be live. This is the checked
    /// counterpart of the indexing operator, for call sites that have
    /// already established presence.
    pub fn index(&self, key: &K) -> (r: &V)
        requires
            self.wf(),
            self.live_map().contains_key(*key),
        ensures
            *r == self.live_map()[*key],
    {
        self.map.get(key).unwrap()
    }

    /// A mutable borrow of the value under `key`, if any.
    pub fn get_mut(&mut self, key: K) -> (r: Option<&mut V>)
        requires
            old(self).wf(),
        ensures
            final(self).pool() == old(self).pool(),
            forall|i: int|
                0 <= i < final(self).pool().len() ==> (#[trigger] final(self).pool()[i]).cleared(),
            final(self).wf(),
            old(self).live_map().contains_key(key) ==> r is Some && *r.unwrap() == old(self).live_map()[key] && final(self).live_map() =~= old(self).live_map().insert(
                key,
                *final(r.unwrap()),
            ),
            !old(self).live_map().contains_key(key) ==> r is None && final(self).live_map() =~= old(self).live_map(),
    {
        if self.map.contains_key(&key) {
            match self.map.entry(key) {
                Entry::Occupied(e) => Some(e.into_mut()),
                Entry::Vacant(_) => None,
            }
        } else {
            None
        }
    }

    /// If an entry already exists for this key, it is cleared in place and
    /// `init` is applied. Otherwise, if a previously deleted value can be
    /// recycled, `init` is applied to it. Otherwise, a new value is
    /// constructed using `ctor` (and `init` is not applied: it exists to
    /// adapt a recycled value into its desired start state).
    ///
    /// The new value sits in the map under `key` and a mutable reference to
    /// it is returned.
    pub fn insert<C: FnOnce() -> V, I: FnOnce(V) -> V>(&mut self, key: K, ctor: C, init: I) -> (r:
        &mut V)
        requires
            old(self).wf(),
            !old(self).live_map().contains_key(key) && old(self).pool().len() == 0
                ==> call_requires(ctor, ()),
            forall|w: V| w.cleared() ==> call_requires(init, (w,)),
        ensures
            final(self).wf(),
            final(self).live_map() =~= old(self).live_map().insert(key, *final(r)),
            old(self).live_map().contains_key(key) ==> (exists|w: V|
                w.cleared() && #[trigger] call_ensures(init, (w,), *r)) && final(self).pool()
                == old(self).pool(),
            !old(self).live_map().contains_key(key) && old(self).pool().len() > 0 ==> call_ensures(
                init,
                (old(self).pool().last(),),
                *r,
            ) && old(self).pool().last().cleared() && final(self).pool() == old(self).pool().drop_last(),
            !old(self).live_map().contains_key(key) && old(self).pool().len() == 0 ==> call_ensures(
                ctor,
                (),
                *r,
            ) && final(self).pool() == old(self).pool(),
    {
        let new_value = if self.map.contains_key(&key) {
            let mut v = self.map.remove(&key).unwrap();
            v.clear();
            init(v)
        } else {
            match self.dead.pop() {
                Some(el) => init(el),
                None => ctor(),
            }
        };
        match self.map.entry(key) {
            Entry::Occupied(_) => vstd::pervasive::unreached(),
            Entry::Vacant(e) => e.insert(new_value),
        }
    }

    /// If the container contains a value at the given key, remove it from
    /// the map, call [`Clear`] on it, then park it in the pool to reuse it
    /// later. Ownership is kept, so nothing is returned.
    pub fn remove(&mut self, key: &K)
        requires
            old(self).wf(),
        ensures
            final(self).wf(),
            final(self).live_map() =~= old(self).live_map().remove(*key),
            old(self).live_map().contains_key(*key) ==> final(self).pool().len() == old(self).pool().len() + 1 && (forall|i: int|
                0 <= i < old(self).pool().len() ==> final(self).pool()[i] == old(self).pool()[i])
                && final(self).pool().last().cleared(),
            !old(self).live_map().contains_key(*key) ==> final(self).pool() == old(self).pool(),
    {
        if let Some(mut dead) = self.map.remove(key) {
            dead.clear();
            self.dead.push(dead);
        }
    }

    /// Applies `f` to the value under `key`, in place, if there is one; a
    /// vacant key is left vacant and the pool untouched.
    pub fn and_modify<F: FnOnce(V) -> V>(&mut self, key: K, f: F)
        requires
            old(self).wf(),
            old(self).live_map().contains_key(key) ==> call_requires(
                f,
                (old(self).live_map()[key],),
            ),
        ensures
            final(self).pool() == old(self).pool(),
            forall|i: int|
                0 <= i < final(self).pool().len() ==> (#[trigger] final(self).pool()[i]).cleared(),
            final(self).wf(),
            old(self).live_map().contains_key(key) ==> exists|v: V|
                #[trigger] call_ensures(f, (old(self).live_map()[key],), v) && final(self).live_map() =~= old(self).live_map().insert(key, v),
            !old(self).live_map().contains_key(key) ==> final(self).live_map() == old(self).live_map(),
    {
        if self.map.contains_key(&key) {
            let v = self.map.remove(&key).unwrap();
            let v = f(v);
            self.map.insert(key, v);
            proof {
                assert(self.map@ =~= old(self).map@.insert(key, v));
            }
        }
    }

    /// If the entry under `key` is vacant, fill it with a recycled value
    /// (with `init` applied to it), or if none exists, with a value built by
    /// `ctor`. An occupied entry is left untouched. Returns the value under
    /// `key`.
    pub fn or_insert<C: FnOnce() -> V, I: FnOnce(V) -> V>(&mut self, key: K, ctor: C, init: I) -> (r:
        &mut V)
        requires
            old(self).wf(),
            !old(self).live_map().contains_key(key) && old(self).pool().len() == 0
                ==> call_requires(ctor, ()),
            !old(self).live_map().contains_key(key) && old(self).pool().len() > 0
                ==> call_requires(init, (old(self).pool().last(),)),
        ensures
            final(self).wf(),
            final(self).live_map() =~= old(self).live_map().insert(key, *final(r)),
            old(self).live_map().contains_key(key) ==> *r == old(self).live_map()[key] && final(self).pool() == old(self).pool(),
            !old(self).live_map().contains_key(key) && old(self).pool().len() > 0 ==> call_ensures(
                init,
                (old(self).pool().last(),),
                *r,
            ) && old(self).pool().last().cleared() && final(self).pool() == old(self).pool().drop_last(),
            !old(self).live_map().contains_key(key) && old(self).pool().len() == 0 ==> call_ensures(
                ctor,
                (),
                *r,
            ) && final(self).pool() == old(self).pool(),
    {
        match self.map.entry(key) {
            Entry::Occupied(e) => e.into_mut(),
            Entry::Vacant(e) => {
                let v = match self.dead.pop() {
                    Some(el) => init(el),
                    None => ctor(),
                };
                e.insert(v)
            },
        }
    }
}

impl<K, V, Hasher> RecyclingHashMap<K, V, Hasher> where
    V: Clear + Default,
    K: Eq + Hash,
    Hasher: BuildHasher,
 {
    /// Works like [`RecyclingHashMap::insert`], using the default
    /// constructor if needed. Notably, the default constructor is not
    /// called if a previously deleted value is available, or a value
    /// already exists at that key; such values keep their pristine state.
    ///
    /// Note: to maintain coherence, it is strongly advised that
    /// [`Default::default`] construct an object in the same state as the
    /// state [`Clear::clear`] leaves an object in.
    pub fn insert_default(&mut self, key: K) -> (r: &mut V)
        requires
            old(self).wf(),
        ensures
            final(self).wf(),
            final(self).live_map() =~= old(self).live_map().insert(key, *final(r)),
            old(self).live_map().contains_key(key) ==> (*r).cleared() && final(self).pool() == old(self).pool(),
            !old(self).live_map().contains_key(key) && old(self).pool().len() > 0 ==> *r == old(self).pool().last() && (*r).cleared() && final(self).pool() == old(self).pool().drop_last(),
            !old(self).live_map().contains_key(key) && old(self).pool().len() == 0 ==> final(self).pool() == old(self).pool(),
    {
        let new_value = if self.map.contains_key(&key) {
            let mut v = self.map.remove(&key).unwrap();
            v.clear();
            v
        } else {
            match self.dead.pop() {
                Some(el) => el,
                None => V::default(),
            }
        };
        match self.map.entry(key) {
            Entry::Occupied(_) => vstd::pervasive::unreached(),
            Entry::Vacant(e) => e.insert(new_value),
        }
    }

    /// If the entry under `key` is vacant, fill it with a recycled value in
    /// its pristine state, or if none exists, with a freshly constructed
    /// default value. An occupied entry is left untouched.
    ///
    /// Note: to maintain coherence, it is strongly advised that
    /// [`Default::default`] construct an object in the same state as the
    /// state [`Clear::clear`] leaves an object in.
    pub fn or_insert_default(&mut self, key: K) -> (r: &mut V)
        requires
            old(self).wf(),
        ensures
            final(self).wf(),
            final(self).live_map() =~= old(self).live_map().insert(key, *final(r)),
            old(self).live_map().contains_key(key) ==> *r == old(self).live_map()[key] && final(self).pool() == old(self).pool(),
            !old(self).live_map().contains_key(key) && old(self).pool().len() > 0 ==> *r == old(self).pool().last() && (*r).cleared() && final(self).pool() == old(self).pool().drop_last(),
            !old(self).live_map().contains_key(key) && old(self).pool().len() == 0 ==> final(self).pool() == old(self).pool(),
    {
        match self.map.entry(key) {
            Entry::Occupied(e) => e.into_mut(),
            Entry::Vacant(e) => {
                let v = match self.dead.pop() {
                    Some(el) => el,
                    None => V::default(),
                };
                e.insert(v)
            },
        }
    }
}

impl<K, V: Clear, Hasher> Clear for RecyclingHashMap<K, V, Hasher> {
    /// A recycling container can itself sit inside another recycling
    /// container: pristine means no live entry (parked values may remain).
    open spec fn cleared(&self) -> bool {
        self.live_map() =~= Map::<K, V>::empty()
    }

    fn clear(&mut self) {
        RecyclingHashMap::clear(self);
    }
}

impl<K, V, Hasher> Clone for RecyclingHashMap<K, V, Hasher> where
    K: Clone,
    V: Clear + Clone,
    Hasher: Clone,
 {
    /// Clones only alive entries, those counted in `len`: the pool of
    /// already-reset values is not worth duplicating.
    fn clone(&self) -> (r: Self)
        ensures
            r.live_map() == self.live_map(),
            r.pool() == Seq::<V>::empty(),
            self.wf() ==> r.wf(),
    {
        RecyclingHashMap { map: self.map.clone(), dead: Vec::new() }
    }
}

} // verus!
