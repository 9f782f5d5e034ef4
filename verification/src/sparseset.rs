//! The sparse slot store over pluggable backing arrays: a dense array of
//! `(public index, value)` pairs, a position array, and a free-index stack,
//! all chosen through a container-family marker.

use crate::staticvec::StaticVec;
use crate::staticvec::VecLike;
use vstd::prelude::*;

verus! {

/// Chooses the three backing arrays a [`GenericSparseSet`] is built from.
pub trait SparseSetContainers<T> {
    type DataContainer: VecLike<(usize, T)>;

    type PositionsContainer: VecLike<Option<usize>>;

    type FreeIndicesContainer: VecLike<usize>;
}

/// Backs the store with growable arrays: no capacity bound, amortized
/// allocation.
pub struct DynamicContainerMarker;

impl<T> SparseSetContainers<T> for DynamicContainerMarker {
    type DataContainer = Vec<(usize, T)>;

    type PositionsContainer = Vec<Option<usize>>;

    type FreeIndicesContainer = Vec<usize>;
}

/// Backs the store with fixed-capacity arrays of at most `N` elements: no
/// reallocation ever happens after construction.
pub struct StaticContainerMarker<const N: usize>;

impl<T, const N: usize> SparseSetContainers<T> for StaticContainerMarker<N> {
    type DataContainer = StaticVec<(usize, T), N>;

    type PositionsContainer = StaticVec<Option<usize>, N>;

    type FreeIndicesContainer = StaticVec<usize, N>;
}

/// A sparse slot store over growable backing arrays.
pub type SparseSet<T> = GenericSparseSet<T, DynamicContainerMarker>;

/// A sparse slot store over fixed-capacity backing arrays.
pub type StaticSparseSet<T, const N: usize> = GenericSparseSet<T, StaticContainerMarker<N>>;

/// Dense unordered storage with stable public indices, generic over the
/// backing-array family. Each dense slot holds its public index next to its
/// value, so a swap-remove can repoint the moved element in constant time.
///
/// The abstract value (`@`) is the partial map from live public indices to
/// their elements.
pub struct GenericSparseSet<T, Containers> where Containers: SparseSetContainers<T> {
    data: Containers::DataContainer,
    positions: Containers::PositionsContainer,
    free_indices: Containers::FreeIndicesContainer,
}

impl<T, Containers> GenericSparseSet<T, Containers> where Containers: SparseSetContainers<T> {
    /// The dense storage: `(public index, value)` pairs, packed, in slot
    /// order.
    pub closed spec fn dense_view(self) -> Seq<(usize, T)> {
        self.data.view_seq()
    }

    /// The position array: for each public index, its dense slot, or `None`
    /// when the index is not live.
    pub closed spec fn slots(self) -> Seq<Option<usize>> {
        self.positions.view_seq()
    }

    /// The stack of public indices free for reuse, most recently freed last.
    pub closed spec fn free_list(self) -> Seq<usize> {
        self.free_indices.view_seq()
    }

    /// Whether the public index `n` currently addresses a live element.
    pub open spec fn spec_contains(self, n: usize) -> bool {
        n < self.slots().len() && self.slots()[n as int] is Some
    }

    /// Whether one more element fits in the backing arrays. Always true for
    /// the growable family; a capacity test for the fixed-capacity one.
    pub closed spec fn can_insert(self) -> bool {
        &&& self.data.spec_can_push()
        &&& self.free_list().len() == 0 ==> self.positions.spec_can_push()
    }

    /// Whether the free stack can take one more parked index: what a
    /// removal of a live index `n` needs from the backing arrays. Always
    /// true for the growable family; a capacity test for the fixed-capacity
    /// one.
    pub closed spec fn can_remove(self, n: usize) -> bool {
        self.spec_contains(n) ==> self.free_indices.spec_can_push()
    }

    /// Structural well-formedness: positions and dense keys are inverse on
    /// live slots, the free stack holds exactly vacant indices without
    /// duplicates, and the dense storage never outgrows the position array.
    pub closed spec fn wf(self) -> bool {
        let data = self.data.view_seq();
        let pos = self.positions.view_seq();
        let free = self.free_indices.view_seq();
        &&& data.len() + free.len() <= pos.len()
        &&& forall|p: int|
            0 <= p < data.len() ==> data[p].0 < pos.len() && pos[data[p].0 as int] == Some(
                p as usize,
            )
        &&& forall|n: int|
            0 <= n < pos.len() && pos[n] is Some ==> pos[n].unwrap() < data.len()
                && data[pos[n].unwrap() as int].0 == n
        &&& forall|j: int|
            0 <= j < free.len() ==> free[j] < pos.len() && pos[free[j] as int] is None
        &&& forall|j: int, k: int| 0 <= j < k < free.len() ==> free[j] != free[k]
    }
}

impl<T, Containers> View for GenericSparseSet<T, Containers> where
    Containers: SparseSetContainers<T>,
 {
    type V = Map<usize, T>;

    open spec fn view(&self) -> Map<usize, T> {
        Map::new(
            |n: usize| self.spec_contains(n),
            |n: usize| self.dense_view()[self.slots()[n as int].unwrap() as int].1,
        )
    }
}

impl<T, Containers> GenericSparseSet<T, Containers> where Containers: SparseSetContainers<T> {
    /// Constructs a new empty store.
    pub fn new() -> (r: Self)
        ensures
            r.wf(),
            r@ == Map::<usize, T>::empty(),
            r.dense_view() == Seq::<(usize, T)>::empty(),
            r.slots() == Seq::<Option<usize>>::empty(),
            r.free_list() == Seq::<usize>::empty(),
    {
        let r = GenericSparseSet {
            data: Containers::DataContainer::new(),
            positions: Containers::PositionsContainer::new(),
            free_indices: Containers::FreeIndicesContainer::new(),
        };
        proof {
            assert(r@ =~= Map::<usize, T>::empty());
        }
        r
    }

    /// The number of live elements.
    pub fn len(&self) -> (r: usize)
        ensures
            r == self.dense_view().len(),
    {
        self.data.len()
    }

    /// Returns the position in the dense storage of the element at index
    /// `n`, if any.
    fn position(&self, n: usize) -> (r: Option<usize>)
        requires
            self.wf(),
        ensures
            match r {
                Some(p) => self.spec_contains(n) && Some(p) == self.slots()[n as int] && p
                    < self.dense_view().len(),
                None => !self.spec_contains(n),
            },
    {
        if n < self.positions.len() {
            match self.positions.get(n) {
                Some(p_ref) => *p_ref,
                None => None,
            }
        } else {
            None
        }
    }

    /// Returns whether there is an element at the index `n` in the set.
    pub fn contains(&self, n: usize) -> (r: bool)
        requires
            self.wf(),
        ensures
            r <==> self.spec_contains(n),
            r <==> self@.contains_key(n),
    {
        self.position(n).is_some()
    }

    /// The element at index `n`, if `n` is live.
    pub fn get(&self, n: usize) -> (r: Option<&T>)
        requires
            self.wf(),
        ensures
            match r {
                Some(v) => self@.contains_key(n) && *v == self@[n],
                None => !self@.contains_key(n),
            },
    {
        let position = match self.position(n) {
            Some(p) => p,
            None => {
                return None;
            },
        };
        Some(&self.data.index(position).1)
    }

    /// A mutable borrow of the element at index `n`, if `n` is live.
    pub fn get_mut(&mut self, n: usize) -> (r: Option<&mut T>)
        requires
            old(self).wf(),
        ensures
            old(self)@.contains_key(n) ==> r is Some && *r.unwrap() == old(self)@[n]
                && final(self).wf() && final(self)@ =~= old(self)@.insert(
                n,
                *final(r.unwrap()),
            ) && final(self).dense_view() == old(self).dense_view().update(
                old(self).slots()[n as int].unwrap() as int,
                (n, *final(r.unwrap())),
            ) && final(self).slots() == old(self).slots() && final(self).free_list() == old(
                self,
            ).free_list(),
            !old(self)@.contains_key(n) ==> r is None && *final(self) == *old(self),
    {
        let position = match self.position(n) {
            Some(p) => p,
            None => {
                return None;
            },
        };
        let pair = self.data.index_mut(position);
        Some(&mut pair.1)
    }

    /// The element at index `n`; the index must be live. This is the checked
    /// counterpart of the indexing operator, for call sites that have
    /// already established presence.
    pub fn index(&self, n: usize) -> (r: &T)
        requires
            self.wf(),
            self@.contains_key(n),
        ensures
            *r == self@[n],
    {
        let position = self.position(n).unwrap();
        &self.data.index(position).1
    }

    /// Inserts a new element in the set, returning its index. Reuses the
    /// most recently freed index if one is available, otherwise mints a
    /// fresh one. With fixed-capacity backing arrays the caller must ensure
    /// room remains ([`Self::can_insert`]); growable arrays always have
    /// room.
    pub fn insert(&mut self, value: T) -> (n: usize)
        requires
            old(self).wf(),
            old(self).can_insert(),
        ensures
            final(self).wf(),
            !old(self)@.contains_key(n),
            final(self)@.contains_key(n),
            n as int == if old(self).free_list().len() > 0 {
                old(self).free_list().last() as int
            } else {
                old(self).slots().len() as int
            },
            final(self)@ == old(self)@.insert(n, value),
            final(self).dense_view() == old(self).dense_view().push((n, value)),
            final(self).free_list() == if old(self).free_list().len() > 0 {
                old(self).free_list().drop_last()
            } else {
                old(self).free_list()
            },
            final(self).slots().len() as int == if old(self).free_list().len() > 0 {
                old(self).slots().len() as int
            } else {
                old(self).slots().len() + 1 as int
            },
    {
        let position = self.data.len();

        let index = match self.free_indices.pop() {
            None => {
                self.positions.push(Some(position));
                self.positions.len() - 1
            },
            Some(i) => {
                self.positions.set(i, Some(position));
                i
            },
        };

        self.data.push((index, value));

        proof {
            assert(final(self)@ =~= old(self)@.insert(index, value));
        }
        index
    }

    /// Removes the element at index `n` from the set, returning whether the
    /// element was at all present. The last live element is swapped into the
    /// vacated dense slot, and `n` is pushed onto the free stack, which with
    /// fixed-capacity backing arrays must have room for it
    /// ([`Self::can_remove`]).
    pub fn remove(&mut self, n: usize) -> (r: bool)
        requires
            old(self).wf(),
            old(self).can_remove(n),
        ensures
            final(self).wf(),
            r <==> old(self)@.contains_key(n),
            !old(self)@.contains_key(n) ==> *final(self) == *old(self),
            old(self)@.contains_key(n) ==> {
                let p = old(self).slots()[n as int].unwrap() as int;
                &&& !final(self)@.contains_key(n)
                &&& final(self)@ == old(self)@.remove(n)
                &&& final(self).dense_view() == old(self).dense_view().update(
                    p,
                    old(self).dense_view().last(),
                ).drop_last()
                &&& final(self).dense_view().len() == old(self).dense_view().len() - 1
                &&& 0 <= p < old(self).dense_view().len()
                &&& final(self).free_list() == old(self).free_list().push(n)
                &&& final(self).slots().len() == old(self).slots().len()
            },
    {
        let position = match self.position(n) {
            Some(p) => p,
            None => {
                return false;
            },
        };

        self.data.swap_remove(position);
        if position < self.data.len() {
            // The former last pair now sits at `position`: repoint its
            // public index.
            let moved = self.data.index(position).0;
            self.positions.set(moved, Some(position));
        }
        self.positions.set(n, None);
        self.free_indices.push(n);

        proof {
            let data0 = old(self).data.view_seq();
            let pos0 = old(self).positions.view_seq();
            let free0 = old(self).free_indices.view_seq();
            let data1 = self.data.view_seq();
            let pos1 = self.positions.view_seq();
            let free1 = self.free_indices.view_seq();
            let len0 = data0.len() as int;
            let p = pos0[n as int].unwrap() as int;
            assert(data0[p].0 == n);
            assert forall|q: int| 0 <= q < data1.len() implies data1[q].0 < pos1.len()
                && pos1[data1[q].0 as int] == Some(q as usize) by {
                if q == p {
                    let mj = data0[len0 - 1].0;
                    assert(pos0[mj as int] == Some((len0 - 1) as usize));
                    assert(mj != n);
                    assert(data1[q].0 == mj);
                } else {
                    let j = data0[q].0;
                    assert(pos0[j as int] == Some(q as usize));
                    assert(j != n);
                    if p < len0 - 1 {
                        assert(q != len0 - 1);
                        assert(j != data0[len0 - 1].0);
                    }
                }
            }
            assert forall|m: int| 0 <= m < pos1.len() && pos1[m] is Some implies pos1[m].unwrap()
                < data1.len() && data1[pos1[m].unwrap() as int].0 == m by {
                if m != n {
                    if p < len0 - 1 && m == data0[len0 - 1].0 {
                        assert(pos1[m] == Some(p as usize));
                        assert(data1[p].0 == data0[len0 - 1].0);
                    } else {
                        assert(pos1[m] == pos0[m]);
                        assert(data0[pos0[m].unwrap() as int].0 == m);
                        assert(pos0[m].unwrap() as int != p);
                        assert(pos0[m].unwrap() as int != len0 - 1);
                    }
                }
            }
            assert forall|j: int| 0 <= j < free1.len() implies free1[j] < pos1.len()
                && pos1[free1[j] as int] is None by {
                if j < free0.len() {
                    assert(pos0[free0[j] as int] is None);
                    assert(free1[j] != n);
                    if p < len0 - 1 {
                        assert(pos0[data0[len0 - 1].0 as int] == Some((len0 - 1) as usize));
                        assert(free1[j] != data0[len0 - 1].0);
                    }
                }
            }
            assert forall|j: int, k: int| 0 <= j < k < free1.len() implies free1[j] != free1[k] by {
                if k == free0.len() {
                    assert(pos0[free0[j] as int] is None);
                }
            }
            assert(self.wf());
            assert forall|k: usize| #![auto] self.spec_contains(k) implies k != n && old(
                self,
            ).spec_contains(k) && self@[k] == old(self)@[k] by {
                assert(pos1[k as int] is Some);
                if p < len0 - 1 && k == data0[len0 - 1].0 {
                    assert(self@[k] == data1[p].1);
                    assert(data1[p].1 == data0[len0 - 1].1);
                } else {
                    assert(pos1[k as int] == pos0[k as int]);
                    assert(pos0[k as int].unwrap() as int != p);
                    assert(pos0[k as int].unwrap() as int != len0 - 1);
                }
            }
            assert forall|k: usize| #![auto] old(self).spec_contains(k) && k != n
                implies self.spec_contains(k) by {
                assert(pos0[k as int] is Some);
            }
            assert(self@ =~= old(self)@.remove(n));
        }
        true
    }

    /// Returns the keys and elements of this set, paired, in dense-storage
    /// order.
    pub fn items(&self) -> (r: Vec<(usize, &T)>)
        ensures
            r@.len() == self.dense_view().len(),
            forall|i: int|
                0 <= i < r@.len() ==> r@[i].0 == self.dense_view()[i].0 && *r@[i].1
                    == self.dense_view()[i].1,
    {
        let mut r: Vec<(usize, &T)> = Vec::new();
        let mut p: usize = 0;
        let count = self.data.len();
        while p < count
            invariant
                count == self.dense_view().len(),
                p <= count,
                r@.len() == p,
                forall|i: int|
                    0 <= i < p ==> r@[i].0 == self.dense_view()[i].0 && *r@[i].1
                        == self.dense_view()[i].1,
            decreases count - p,
        {
            let pair = self.data.index(p);
            r.push((pair.0, &pair.1));
            p += 1;
        }
        r
    }

    /// Returns all keys of elements of this set, in dense-storage order.
    pub fn keys(&self) -> (r: Vec<usize>)
        ensures
            r@.len() == self.dense_view().len(),
            forall|i: int| 0 <= i < r@.len() ==> r@[i] == self.dense_view()[i].0,
    {
        let mut r: Vec<usize> = Vec::new();
        let mut p: usize = 0;
        let count = self.data.len();
        while p < count
            invariant
                count == self.dense_view().len(),
                p <= count,
                r@.len() == p,
                forall|i: int| 0 <= i < p ==> r@[i] == self.dense_view()[i].0,
            decreases count - p,
        {
            r.push(self.data.index(p).0);
            p += 1;
        }
        r
    }

    /// Returns all elements of this set, in dense-storage order.
    pub fn values(&self) -> (r: Vec<&T>)
        ensures
            r@.len() == self.dense_view().len(),
            forall|i: int| 0 <= i < r@.len() ==> *r@[i] == self.dense_view()[i].1,
    {
        let mut r: Vec<&T> = Vec::new();
        let mut p: usize = 0;
        let count = self.data.len();
        while p < count
            invariant
                count == self.dense_view().len(),
                p <= count,
                r@.len() == p,
                forall|i: int| 0 <= i < p ==> *r@[i] == self.dense_view()[i].1,
            decreases count - p,
        {
            r.push(&self.data.index(p).1);
            p += 1;
        }
        r
    }

    /// A mutable borrow of the element at the dense position `p`: the
    /// mutable counterpart of walking [`Self::values`].
    pub fn values_mut(&mut self, p: usize) -> (r: &mut T)
        requires
            old(self).wf(),
            p < old(self).dense_view().len(),
        ensures
            *r == old(self).dense_view()[p as int].1,
            final(self).wf(),
            final(self).dense_view() == old(self).dense_view().update(
                p as int,
                (old(self).dense_view()[p as int].0, *final(r)),
            ),
            final(self).slots() == old(self).slots(),
            final(self).free_list() == old(self).free_list(),
    {
        let pair = self.data.index_mut(p);
        &mut pair.1
    }
}

impl<T, Containers> GenericSparseSet<T, Containers> where Containers: SparseSetContainers<T> {
    /// The dense storage never outgrows the position array: the live
    /// elements always fit the already-allocated slots, with no gaps (the
    /// dense sequence is packed by construction).
    pub proof fn lemma_dense_bounded(self)
        requires
            self.wf(),
        ensures
            self.dense_view().len() <= self.slots().len(),
    {
    }

    /// The free stack is served LIFO: right after a removal parked the
    /// public index `n`, the index that `insert` reuses next is `n` itself,
    /// not an older free index and not a fresh one. `mid` stands for the
    /// store after the removal, as `remove` describes it; `insert` returns
    /// `mid.free_list().last()` whenever the free stack is non-empty.
    pub proof fn lemma_remove_then_insert_reuses_index(pre: Self, mid: Self, n: usize)
        requires
            mid.free_list() == pre.free_list().push(n),
        ensures
            mid.free_list().len() > 0,
            mid.free_list().last() == n,
    {
    }
}

impl<T> GenericSparseSet<T, DynamicContainerMarker> {
    /// Growable backing arrays never run out of room: every insertion and
    /// removal is possible in every state.
    pub proof fn lemma_dynamic_unbounded(self)
        ensures
            self.can_insert(),
            forall|n: usize| self.can_remove(n),
    {
    }
}

impl<T, const N: usize> GenericSparseSet<T, StaticContainerMarker<N>> {
    /// Fixed-capacity backing arrays: an insertion fits while fewer than `N`
    /// elements are live and, when a fresh index would be minted, fewer than
    /// `N` slots exist.
    pub proof fn lemma_static_can_insert(self)
        requires
            self.dense_view().len() < N,
            self.free_list().len() == 0 ==> self.slots().len() < N,
        ensures
            self.can_insert(),
    {
        self.data.lemma_capacity();
        self.positions.lemma_capacity();
    }

    /// Fixed-capacity backing arrays: a removal always fits while the
    /// position array itself fits its capacity, because the free stack and
    /// the live elements together never outnumber the slots.
    pub proof fn lemma_static_can_remove(self, n: usize)
        requires
            self.wf(),
            self.slots().len() <= N,
        ensures
            self.can_remove(n),
    {
        self.free_indices.lemma_capacity();
    }
}

} // verus!
