//! Dense unordered storage with stable public indices.

use vstd::prelude::*;

verus! {

/// Sentinel stored in the position array for a public index with no live
/// element.
pub const EMPTY_INDEX: usize = usize::MAX;

/// # SparseVec
/// Implements a dense unordered storage with stable ids.
///
/// Live elements sit packed in `data`; a public index `n` is mapped to its
/// dense slot through `positions[n]`, and `indices` holds the reverse map
/// from a dense slot back to its public index, so that a swap-remove can fix
/// the moved element's position entry in constant time. Removed public
/// indices wait in `free_indices` (a LIFO stack) for reuse.
///
/// The abstract value (`@`) is the partial map from live public indices to
/// their elements.
#[derive(Debug, Clone)]
pub struct SparseVec<T> {
    /// Stores the actual user's data.
    data: Vec<T>,
    /// Maps each slot of `data` back to its public index.
    indices: Vec<usize>,
    /// Maps this store's public indices to a slot in `data`.
    positions: Vec<usize>,
    /// Stores removed indices that are available for re-use.
    free_indices: Vec<usize>,
}

impl<T> SparseVec<T> {
    /// The dense storage: the live elements, packed, in slot order.
    pub closed spec fn dense(self) -> Seq<T> {
        self.data@
    }

    /// The public index that owns each dense slot.
    pub closed spec fn dense_keys(self) -> Seq<usize> {
        self.indices@
    }

    /// The position array: for each public index, its dense slot, or
    /// `usize::MAX` when the index is not live.
    pub closed spec fn slots(self) -> Seq<usize> {
        self.positions@
    }

    /// The stack of public indices free for reuse, most recently freed last.
    pub closed spec fn free_list(self) -> Seq<usize> {
        self.free_indices@
    }

    /// Whether the public index `n` currently addresses a live element.
    pub open spec fn spec_contains(self, n: usize) -> bool {
        n < self.slots().len() && self.slots()[n as int] != EMPTY_INDEX
    }

    /// Structural well-formedness: `positions` and `indices` are inverse on
    /// live slots, the free stack holds exactly vacant indices without
    /// duplicates, and the dense storage never outgrows the position array.
    pub closed spec fn wf(self) -> bool {
        let data = self.data@;
        let idx = self.indices@;
        let pos = self.positions@;
        let free = self.free_indices@;
        &&& idx.len() == data.len()
        &&& data.len() + free.len() <= pos.len()
        &&& forall|p: int|
            0 <= p < idx.len() ==> idx[p] < pos.len() && pos[idx[p] as int] == p
        &&& forall|n: int|
            0 <= n < pos.len() && pos[n] != EMPTY_INDEX ==> pos[n] < data.len()
                && idx[pos[n] as int] == n
        &&& forall|j: int|
            0 <= j < free.len() ==> free[j] < pos.len() && pos[free[j] as int] == EMPTY_INDEX
        &&& forall|j: int, k: int| 0 <= j < k < free.len() ==> free[j] != free[k]
    }
}

impl<T> View for SparseVec<T> {
    type V = Map<usize, T>;

    open spec fn view(&self) -> Map<usize, T> {
        Map::new(
            |n: usize| self.spec_contains(n),
            |n: usize| self.dense()[self.slots()[n as int] as int],
        )
    }
}

impl<T> Default for SparseVec<T> {
    /// A new, empty store.
    fn default() -> (r: Self)
        ensures
            r.wf(),
            r@ == Map::<usize, T>::empty(),
            r.dense() == Seq::<T>::empty(),
            r.dense_keys() == Seq::<usize>::empty(),
            r.slots() == Seq::<usize>::empty(),
            r.free_list() == Seq::<usize>::empty(),
    {
        let r = SparseVec {
            data: Vec::new(),
            indices: Vec::new(),
            positions: Vec::new(),
            free_indices: Vec::new(),
        };
        proof {
            assert(r@ =~= Map::<usize, T>::empty());
        }
        r
    }
}

impl<T> SparseVec<T> {
    /// Constructs a new empty [`SparseVec`].
    pub fn new() -> (r: Self)
        ensures
            r.wf(),
            r@ == Map::<usize, T>::empty(),
            r.dense() == Seq::<T>::empty(),
            r.dense_keys() == Seq::<usize>::empty(),
            r.slots() == Seq::<usize>::empty(),
            r.free_list() == Seq::<usize>::empty(),
    {
        Self::default()
    }

    /// The number of live elements.
    pub fn len(&self) -> (r: usize)
        ensures
            r == self.dense().len(),
    {
        self.data.len()
    }

    /// Whether the store holds no live element.
    pub fn is_empty(&self) -> (r: bool)
        ensures
            r <==> self.dense().len() == 0,
    {
        self.data.is_empty()
    }

    /// Returns the data in this container as a slice. No guarantees on order.
    pub fn as_slice(&self) -> (r: &[T])
        ensures
            r@ == self.dense(),
    {
        self.data.as_slice()
    }

    /// Returns the position in `self.data` of the element at index `n`, if
    /// any.
    fn position(&self, n: usize) -> (r: Option<usize>)
        requires
            self.wf(),
        ensures
            match r {
                Some(p) => self.spec_contains(n) && p == self.slots()[n as int]
                    && p < self.dense().len(),
                None => !self.spec_contains(n),
            },
    {
        if n < self.positions.len() {
            let p = self.positions[n];
            if p != EMPTY_INDEX {
                Some(p)
            } else {
                None
            }
        } else {
            None
        }
    }

    /// Returns whether there is an element at the index `n`.
    pub fn contains(&self, n: usize) -> (r: bool)
        requires
            self.wf(),
        ensures
            r <==> self.spec_contains(n),
            r <==> self@.contains_key(n),
    {
        self.position(n).is_some()
    }

    /// The element at index `n`, if `n` is live.
    pub fn get(&self, n: usize) -> (r: Option<&T>)
        requires
            self.wf(),
        ensures
            match r {
                Some(v) => self@.contains_key(n) && *v == self@[n],
                None => !self@.contains_key(n),
            },
    {
        let position = match self.position(n) {
            Some(p) => p,
            None => {
                return None;
            },
        };
        Some(&self.data[position])
    }

    /// A mutable borrow of the element at index `n`, if `n` is live.
    pub fn get_mut(&mut self, n: usize) -> (r: Option<&mut T>)
        requires
            old(self).wf(),
        ensures
            old(self)@.contains_key(n) ==> r is Some && *r.unwrap() == old(self)@[n]
                && final(self).wf() && final(self)@ =~= old(self)@.insert(
                n,
                *final(r.unwrap()),
            ) && final(self).dense() == old(self).dense().update(
                old(self).slots()[n as int] as int,
                *final(r.unwrap()),
            ) && final(self).dense_keys() == old(self).dense_keys() && final(self).slots()
                == old(self).slots() && final(self).free_list() == old(self).free_list(),
            !old(self)@.contains_key(n) ==> r is None && *final(self) == *old(self),
    {
        let position = match self.position(n) {
            Some(p) => p,
            None => {
                return None;
            },
        };
        Some(&mut self.data[position])
    }

    /// The element at index `n`; the index must be live. This is the checked
    /// counterpart of the indexing operator, for call sites that have already
    /// established presence.
    pub fn index(&self, n: usize) -> (r: &T)
        requires
            self.wf(),
            self@.contains_key(n),
        ensures
            *r == self@[n],
    {
        let position = self.positions[n];
        &self.data[position]
    }

    /// Inserts a new element in the `SparseVec`, returning its index. Reuses
    /// the most recently freed index if one is available, otherwise mints a
    /// fresh one.
    pub fn insert(&mut self, value: T) -> (n: usize)
        requires
            old(self).wf(),
            old(self).dense().len() < usize::MAX,
        ensures
            final(self).wf(),
            !old(self)@.contains_key(n),
            final(self)@.contains_key(n),
            n as int == if old(self).free_list().len() > 0 {
                old(self).free_list().last() as int
            } else {
                old(self).slots().len() as int
            },
            final(self)@ == old(self)@.insert(n, value),
            final(self).dense() == old(self).dense().push(value),
            final(self).dense_keys() == old(self).dense_keys().push(n),
            final(self).free_list() == if old(self).free_list().len() > 0 {
                old(self).free_list().drop_last()
            } else {
                old(self).free_list()
            },
            final(self).slots().len() as int == if old(self).free_list().len() > 0 {
                old(self).slots().len() as int
            } else {
                old(self).slots().len() + 1 as int
            },
    {
        // Store incremented position.
        let position = self.data.len();

        // Reuse empty space in the positions.
        let index = match self.free_indices.pop() {
            None => {
                self.positions.push(position);
                self.positions.len() - 1
            },
            Some(i) => {
                self.positions.set(i, position);
                i
            },
        };
        self.indices.push(index);
        self.data.push(value);

        proof {
            assert(final(self)@ =~= old(self)@.insert(index, value));
        }
        index
    }

    /// Removes the element at index `n` from the `SparseVec`, returning it,
    /// if it was at all present. The last live element is swapped into the
    /// vacated dense slot, and `n` is pushed onto the free stack.
    pub fn remove(&mut self, n: usize) -> (r: Option<T>)
        requires
            old(self).wf(),
        ensures
            final(self).wf(),
            !old(self)@.contains_key(n) ==> r is None && *final(self) == *old(self),
            old(self)@.contains_key(n) ==> {
                let p = old(self).slots()[n as int] as int;
                &&& !final(self)@.contains_key(n)
                &&& r == Some(old(self)@[n])
                &&& final(self)@ == old(self)@.remove(n)
                &&& final(self).dense() == old(self).dense().update(
                    p,
                    old(self).dense().last(),
                ).drop_last()
                &&& final(self).dense_keys() == old(self).dense_keys().update(
                    p,
                    old(self).dense_keys().last(),
                ).drop_last()
                &&& final(self).dense().len() == old(self).dense().len() - 1
                &&& 0 <= p < old(self).dense().len()
                &&& final(self).free_list() == old(self).free_list().push(n)
                &&& final(self).slots().len() == old(self).slots().len()
            },
    {
        let position = match self.position(n) {
            Some(p) => p,
            None => {
                return None;
            },
        };

        let value = self.data.swap_remove(position);
        self.indices.swap_remove(position);
        if position < self.data.len() {
            // The former last element now sits at `position`: repoint its
            // public index.
            let moved = self.indices[position];
            self.positions.set(moved, position);
        }
        self.positions.set(n, EMPTY_INDEX);
        self.free_indices.push(n);

        proof {
            let idx0 = old(self).indices@;
            let pos0 = old(self).positions@;
            let len0 = idx0.len() as int;
            assert forall|q1: int, q2: int|
                0 <= q1 < len0 && 0 <= q2 < len0 && idx0[q1] == idx0[q2] implies q1 == q2 by {
                assert(pos0[idx0[q1] as int] == q1);
                assert(pos0[idx0[q2] as int] == q2);
            }
            let idx1 = self.indices@;
            let pos1 = self.positions@;
            let data1 = self.data@;
            let p = pos0[n as int] as int;
            assert(idx0[p] == n);
            assert(old(self).data.len() == len0);
            assert(len0 - 1 < usize::MAX as int);
            assert forall|q: int| 0 <= q < data1.len() implies idx1[q] < pos1.len()
                && pos1[idx1[q] as int] == q by {
                if q == p {
                    let mj = idx0[len0 - 1];
                    assert(pos0[mj as int] == len0 - 1);
                    assert(mj != n);
                    assert(idx1[q] == mj);
                    assert(pos1[mj as int] == q);
                } else {
                    let j = idx0[q];
                    assert(pos0[j as int] == q);
                    assert(j != n);
                    if p < len0 - 1 {
                        let mj = idx0[len0 - 1];
                        assert(q != len0 - 1);
                        assert(j != mj);
                    }
                    assert(pos1[j as int] == q);
                }
            }
            assert forall|m: int| 0 <= m < pos1.len() && pos1[m] != EMPTY_INDEX implies pos1[m]
                < data1.len() && idx1[pos1[m] as int] == m by {
                if m != n {
                    if p < len0 - 1 && m == idx0[len0 - 1] {
                        assert(pos1[m] == p);
                        assert(idx1[p] == idx0[len0 - 1]);
                    } else {
                        assert(pos1[m] == pos0[m]);
                        assert(idx0[pos0[m] as int] == m);
                        assert(pos0[m] != p);
                        assert(pos0[m] as int != len0 - 1);
                        assert(idx1[pos0[m] as int] == idx0[pos0[m] as int]);
                    }
                }
            }
            let free0 = old(self).free_indices@;
            let free1 = self.free_indices@;
            assert forall|j: int| 0 <= j < free1.len() implies free1[j] < pos1.len()
                && pos1[free1[j] as int] == EMPTY_INDEX by {
                if j < free0.len() {
                    assert(pos0[free0[j] as int] == EMPTY_INDEX);
                    assert(free1[j] != n);
                    if p < len0 - 1 {
                        assert(pos0[idx0[len0 - 1] as int] == len0 - 1);
                        assert(free1[j] != idx0[len0 - 1]);
                    }
                }
            }
            assert forall|j: int, k: int| 0 <= j < k < free1.len() implies free1[j] != free1[k] by {
                if k == free0.len() {
                    assert(pos0[free0[j] as int] == EMPTY_INDEX);
                }
            }
            assert(self.wf());
            assert forall|k: usize| #![auto] self.spec_contains(k) implies k != n
                && old(self).spec_contains(k) && self@[k] == old(self)@[k] by {
                assert(pos1[k as int] != EMPTY_INDEX);
                assert(pos1[k as int] == pos0[k as int] || (p < len0 - 1 && k == idx0[len0 - 1]));
                if p < len0 - 1 && k == idx0[len0 - 1] {
                    assert(self@[k] == data1[p]);
                    assert(data1[p] == old(self).data@[len0 - 1]);
                } else {
                    assert(pos0[k as int] != p);
                    assert(pos0[k as int] as int != len0 - 1 || (p == len0 - 1 && k == n));
                }
            }
            assert forall|k: usize| #![auto] old(self).spec_contains(k) && k != n
                implies self.spec_contains(k) by {
                assert(pos0[k as int] != EMPTY_INDEX);
            }
            assert(self@ =~= old(self)@.remove(n));
        }
        Some(value)
    }

    /// Empties the store: every live element is dropped and every public
    /// index forgotten.
    pub fn clear(&mut self)
        ensures
            final(self).wf(),
            final(self)@ == Map::<usize, T>::empty(),
            final(self).dense() == Seq::<T>::empty(),
            final(self).slots() == Seq::<usize>::empty(),
            final(self).free_list() == Seq::<usize>::empty(),
    {
        self.data.clear();
        self.indices.clear();
        self.positions.clear();
        self.free_indices.clear();
        proof {
            assert(final(self)@ =~= Map::<usize, T>::empty());
        }
    }
}

impl<T> SparseVec<T> {
    /// Returns the data in this container as a mut slice. No guarantees on
    /// order. The slice cannot change the number of elements, so
    /// well-formedness survives any mutation made through it.
    pub fn as_slice_mut(&mut self) -> (r: &mut [T])
        ensures
            r@ == old(self).dense(),
            final(self).dense() == final(r)@,
            final(self).dense_keys() == old(self).dense_keys(),
            final(self).slots() == old(self).slots(),
            final(self).free_list() == old(self).free_list(),
            old(self).wf() && final(r)@.len() == old(self).dense().len() ==> final(self).wf(),
    {
        self.data.as_mut_slice()
    }

    /// Returns all elements of this store, in dense order.
    pub fn values(&self) -> (r: &[T])
        ensures
            r@ == self.dense(),
    {
        self.data.as_slice()
    }

    /// A mutable view of all elements of this store, in dense order. The
    /// slice cannot change the number of elements, so well-formedness
    /// survives any mutation made through it.
    pub fn values_mut(&mut self) -> (r: &mut [T])
        ensures
            r@ == old(self).dense(),
            final(self).dense() == final(r)@,
            final(self).dense_keys() == old(self).dense_keys(),
            final(self).slots() == old(self).slots(),
            final(self).free_list() == old(self).free_list(),
            old(self).wf() && final(r)@.len() == old(self).dense().len() ==> final(self).wf(),
    {
        self.data.as_mut_slice()
    }

    /// Returns all keys of elements of this store, in ascending order.
    pub fn keys(&self) -> (r: Vec<usize>)
        ensures
            r@ == live_keys(self.slots()),
    {
        let mut r: Vec<usize> = Vec::new();
        let mut n: usize = 0;
        while n < self.positions.len()
            invariant
                n <= self.positions@.len(),
                r@ == live_keys(self.positions@.take(n as int)),
            decreases self.positions@.len() - n,
        {
            proof {
                assert(self.positions@.take(n + 1 as int).drop_last() =~= self.positions@.take(
                    n as int,
                ));
                assert(self.positions@.take(n + 1 as int).last() == self.positions@[n as int]);
            }
            if self.positions[n] != EMPTY_INDEX {
                r.push(n);
            }
            n += 1;
        }
        proof {
            assert(self.positions@.take(self.positions@.len() as int) =~= self.positions@);
        }
        r
    }

    /// Returns the keys and elements of this store, paired, in ascending key
    /// order.
    pub fn items(&self) -> (r: Vec<(usize, &T)>)
        requires
            self.wf(),
        ensures
            r@.len() == live_keys(self.slots()).len(),
            forall|i: int|
                0 <= i < r@.len() ==> r@[i].0 == live_keys(self.slots())[i] && self@.contains_key(
                    r@[i].0,
                ) && *r@[i].1 == self@[r@[i].0],
    {
        let mut r: Vec<(usize, &T)> = Vec::new();
        let mut n: usize = 0;
        while n < self.positions.len()
            invariant
                self.wf(),
                n <= self.positions@.len(),
                r@.len() == live_keys(self.positions@.take(n as int)).len(),
                forall|i: int|
                    0 <= i < r@.len() ==> r@[i].0 == live_keys(self.positions@.take(n as int))[i]
                        && self@.contains_key(r@[i].0) && *r@[i].1 == self@[r@[i].0],
            decreases self.positions@.len() - n,
        {
            proof {
                assert(self.positions@.take(n + 1 as int).drop_last() =~= self.positions@.take(
                    n as int,
                ));
                assert(self.positions@.take(n + 1 as int).last() == self.positions@[n as int]);
            }
            let p = self.positions[n];
            if p != EMPTY_INDEX {
                let ghost prev = r@;
                r.push((n, &self.data[p]));
                proof {
                    let lk = live_keys(self.positions@.take(n + 1 as int));
                    assert(lk == live_keys(self.positions@.take(n as int)).push(n));
                    assert forall|i: int| 0 <= i < r@.len() implies r@[i].0 == lk[i]
                        && self@.contains_key(r@[i].0) && *r@[i].1 == self@[r@[i].0] by {
                        if i < r@.len() - 1 {
                            assert(r@[i] == prev[i]);
                        } else {
                            assert(r@[i].0 == n);
                            assert(self.spec_contains(n));
                            assert(self@.dom() =~= Set::new(|k: usize| self.spec_contains(k)));
                            assert(self@.contains_key(n));
                            assert(self@[n] == self.dense()[self.slots()[n as int] as int]);
                        }
                    }
                }
            }
            n += 1;
        }
        proof {
            assert(self.positions@.take(self.positions@.len() as int) =~= self.positions@);
        }
        r
    }

    /// The dense storage never outgrows the position array: the live
    /// elements always fit the already-allocated slots, with no gaps (the
    /// dense sequence is packed by construction).
    pub proof fn lemma_dense_bounded(self)
        requires
            self.wf(),
        ensures
            self.dense().len() <= self.slots().len(),
    {
    }

    /// The free stack is served LIFO: right after a removal parked the
    /// public index `n`, the index that `insert` reuses next is `n` itself,
    /// not an older free index and not a fresh one. `mid` stands for the
    /// store after the removal, as `remove` describes it; `insert` returns
    /// `mid.free_list().last()` whenever the free stack is non-empty.
    pub proof fn lemma_remove_then_insert_reuses_index(pre: Self, mid: Self, n: usize)
        requires
            mid.free_list() == pre.free_list().push(n),
        ensures
            mid.free_list().len() > 0,
            mid.free_list().last() == n,
    {
    }

    /// Round trip: inserting `value` and then removing the returned index
    /// hands `value` back unchanged, restores the live-element count, and
    /// leaves the same public indices live as before the insertion. `mid`
    /// stands for the store after the insertion and `post` for the store
    /// after the removal, each as `insert` and `remove` describe them; `r`
    /// is what the removal returned.
    pub proof fn lemma_insert_remove_round_trip(
        pre: Self,
        mid: Self,
        post: Self,
        n: usize,
        value: T,
        r: Option<T>,
    )
        requires
            !pre@.contains_key(n),
            mid@ == pre@.insert(n, value),
            mid.dense().len() == pre.dense().len() + 1,
            r == Some(mid@[n]),
            post@ == mid@.remove(n),
            post.dense().len() == mid.dense().len() - 1,
        ensures
            r == Some(value),
            post.dense().len() == pre.dense().len(),
            post@.dom() =~= pre@.dom(),
    {
    }
}

/// The public indices marked live in the position array `pos`, in ascending
/// order.
pub open spec fn live_keys(pos: Seq<usize>) -> Seq<usize>
    decreases pos.len(),
{
    if pos.len() == 0 {
        Seq::<usize>::empty()
    } else if pos.last() != EMPTY_INDEX {
        live_keys(pos.drop_last()).push((pos.len() - 1) as usize)
    } else {
        live_keys(pos.drop_last())
    }
}

/// [`live_keys`] lists exactly the live public indices of `pos`, each once,
/// in ascending order.
pub proof fn lemma_live_keys(pos: Seq<usize>)
    requires
        pos.len() <= usize::MAX,
    ensures
        forall|i: int|
            0 <= i < live_keys(pos).len() ==> (#[trigger] live_keys(pos)[i]) < pos.len()
                && pos[live_keys(pos)[i] as int] != EMPTY_INDEX,
        forall|n: usize|
            n < pos.len() && pos[n as int] != EMPTY_INDEX ==> live_keys(pos).contains(n),
        forall|i: int, j: int|
            0 <= i < j < live_keys(pos).len() ==> live_keys(pos)[i] < live_keys(pos)[j],
    decreases pos.len(),
{
    if pos.len() > 0 {
        let prefix = pos.drop_last();
        lemma_live_keys(prefix);
        assert forall|i: int|
            0 <= i < live_keys(pos).len() implies (#[trigger] live_keys(pos)[i]) < pos.len()
                && pos[live_keys(pos)[i] as int] != EMPTY_INDEX by {
            if i < live_keys(prefix).len() {
                assert(live_keys(pos)[i] == live_keys(prefix)[i]);
                assert(live_keys(prefix)[i] < prefix.len());
                assert(prefix[live_keys(prefix)[i] as int] == pos[live_keys(prefix)[i] as int]);
            } else {
                assert(pos.last() != EMPTY_INDEX);
                assert(live_keys(pos)[i] == pos.len() - 1);
            }
        }
        assert forall|i: int, j: int|
            0 <= i < j < live_keys(pos).len() implies live_keys(pos)[i] < live_keys(pos)[j] by {
            if j < live_keys(prefix).len() {
                assert(live_keys(pos)[i] == live_keys(prefix)[i]);
                assert(live_keys(pos)[j] == live_keys(prefix)[j]);
            } else {
                assert(j == live_keys(prefix).len());
                assert(live_keys(pos)[i] == live_keys(prefix)[i]);
                assert(live_keys(prefix)[i] < prefix.len());
                assert(live_keys(pos)[j] == pos.len() - 1);
            }
        }
        assert forall|n: usize|
            n < pos.len() && pos[n as int] != EMPTY_INDEX implies live_keys(pos).contains(n) by {
            if n < pos.len() - 1 {
                assert(prefix[n as int] == pos[n as int]);
                assert(live_keys(prefix).contains(n));
                let i = choose|i: int| 0 <= i < live_keys(prefix).len() && live_keys(prefix)[i] == n;
                assert(live_keys(pos)[i] == n);
            } else {
                assert(pos.last() != EMPTY_INDEX);
                assert(live_keys(pos).last() == n);
            }
        }
    }
}

} // verus!
