//! A sorted-vector string-keyed map: binary search over a sorted key array
//! with a parallel value array. O(log n) lookup, O(n) insert and remove.

use vstd::prelude::*;

verus! {

/// Strict lexicographic order on character sequences, by code point.
pub open spec fn str_lt(a: Seq<char>, b: Seq<char>) -> bool
    decreases a.len(),
{
    if b.len() == 0 {
        false
    } else if a.len() == 0 {
        true
    } else if a[0] != b[0] {
        (a[0] as u32) < (b[0] as u32)
    } else {
        str_lt(a.skip(1), b.skip(1))
    }
}

/// Unfolds [`str_lt`] at the first index `i` where `a` and `b` can differ:
/// with equal characters before `i`, the order is decided at `i` (or by
/// length when one side is exhausted).
proof fn lemma_str_lt_at(a: Seq<char>, b: Seq<char>, i: int)
    requires
        0 <= i <= a.len(),
        i <= b.len(),
        forall|j: int| 0 <= j < i ==> a[j] == b[j],
        i < a.len() && i < b.len() ==> a[i] != b[i],
    ensures
        i == a.len() && i == b.len() ==> a == b,
        i == a.len() && i < b.len() ==> str_lt(a, b),
        i == b.len() && i < a.len() ==> str_lt(b, a),
        i < a.len() && i < b.len() && (a[i] as u32) < (b[i] as u32) ==> str_lt(a, b),
        i < a.len() && i < b.len() && (b[i] as u32) < (a[i] as u32) ==> str_lt(b, a),
    decreases i,
{
    if i == 0 {
        if a.len() == 0 && b.len() == 0 {
            assert(a =~= b);
        }
    } else {
        assert(a[0] == b[0]);
        lemma_str_lt_at(a.skip(1), b.skip(1), i - 1);
        if i == a.len() && i == b.len() {
            assert(a.skip(1) == b.skip(1));
            assert(a =~= b);
        }
    }
}

/// [`str_lt`] never relates a sequence to itself.
proof fn lemma_str_lt_irreflexive(a: Seq<char>)
    ensures
        !str_lt(a, a),
    decreases a.len(),
{
    if a.len() > 0 {
        lemma_str_lt_irreflexive(a.skip(1));
    }
}

/// [`str_lt`] is transitive.
proof fn lemma_str_lt_transitive(a: Seq<char>, b: Seq<char>, c: Seq<char>)
    requires
        str_lt(a, b),
        str_lt(b, c),
    ensures
        str_lt(a, c),
    decreases b.len(),
{
    if a.len() > 0 {
        if a[0] == b[0] && b[0] == c[0] {
            lemma_str_lt_transitive(a.skip(1), b.skip(1), c.skip(1));
        }
    }
}

/// Three-way comparison outcome of two strings.
enum StrCmp {
    Less,
    Equal,
    Greater,
}

/// Compares two strings character by character, deciding [`str_lt`].
fn str_compare(a: &str, b: &str) -> (r: StrCmp)
    ensures
        match r {
            StrCmp::Less => str_lt(a@, b@),
            StrCmp::Equal => a@ == b@,
            StrCmp::Greater => str_lt(b@, a@),
        },
{
    let a_len = a.unicode_len();
    let b_len = b.unicode_len();
    let mut i: usize = 0;
    while i < a_len && i < b_len
        invariant
            a_len == a@.len(),
            b_len == b@.len(),
            i <= a_len,
            i <= b_len,
            forall|j: int| 0 <= j < i ==> a@[j] == b@[j],
        decreases a_len - i,
    {
        let ca = a.get_char(i);
        let cb = b.get_char(i);
        if ca != cb {
            proof {
                lemma_str_lt_at(a@, b@, i as int);
            }
            if (ca as u32) < (cb as u32) {
                return StrCmp::Less;
            } else {
                return StrCmp::Greater;
            }
        }
        i += 1;
    }
    proof {
        lemma_str_lt_at(a@, b@, i as int);
    }
    if a_len == b_len {
        StrCmp::Equal
    } else if a_len < b_len {
        StrCmp::Less
    } else {
        StrCmp::Greater
    }
}

/// The outcome of locating a key: `Ok` with its position, or `Err` with the
/// position where it would be inserted.
pub type KeyIndex = Result<usize, usize>;

/// This is meant to replace a `HashMap<String, T>` when key cardinality is
/// small and a deterministic order is wanted. Keys are kept sorted; lookups
/// are binary searches.
///
/// The abstract value (`@`) is the partial map from key character sequences
/// to values.
pub struct StringMap<T> {
    keys: Vec<String>,
    values: Vec<T>,
}

impl<T> StringMap<T> {
    /// The keys held, sorted ascending.
    pub closed spec fn key_list(self) -> Seq<String> {
        self.keys@
    }

    /// The values held, parallel to [`Self::key_list`].
    pub closed spec fn value_list(self) -> Seq<T> {
        self.values@
    }

    /// The keys held, as character sequences, sorted ascending.
    pub open spec fn key_views(self) -> Seq<Seq<char>> {
        self.key_list().map_values(|s: String| s@)
    }

    /// Whether some key of the map reads `k`.
    pub open spec fn spec_contains_key(self, k: Seq<char>) -> bool {
        exists|i: int| 0 <= i < self.key_views().len() && self.key_views()[i] == k
    }

    /// The position of the key reading `k`.
    pub closed spec fn idx_of(self, k: Seq<char>) -> int {
        choose|i: int| 0 <= i < self.key_views().len() && self.key_views()[i] == k
    }

    /// Structural well-formedness: one value per key, keys strictly sorted
    /// (hence unique).
    pub open spec fn wf(self) -> bool {
        &&& self.key_list().len() == self.value_list().len()
        &&& forall|i: int, j: int|
            0 <= i < j < self.key_views().len() ==> str_lt(
                #[trigger] self.key_views()[i],
                #[trigger] self.key_views()[j],
            )
    }

    /// Keys at distinct positions read differently, so [`Self::idx_of`]
    /// recovers a key's own position.
    proof fn lemma_at(self, i: int)
        requires
            self.wf(),
            0 <= i < self.key_list().len(),
        ensures
            self.spec_contains_key(self.key_views()[i]),
            self.idx_of(self.key_views()[i]) == i,
            self@.contains_key(self.key_views()[i]),
            self@[self.key_views()[i]] == self.value_list()[i],
    {
        let k = self.key_views()[i];
        assert(self.spec_contains_key(k));
        let j = self.idx_of(k);
        if j < i {
            assert(str_lt(self.key_views()[j], self.key_views()[i]));
            lemma_str_lt_irreflexive(k);
        } else if j > i {
            assert(str_lt(self.key_views()[i], self.key_views()[j]));
            lemma_str_lt_irreflexive(k);
        }
    }
}

impl<T> View for StringMap<T> {
    type V = Map<Seq<char>, T>;

    open spec fn view(&self) -> Map<Seq<char>, T> {
        Map::new(
            |k: Seq<char>| self.spec_contains_key(k),
            |k: Seq<char>| self.value_list()[self.idx_of(k)],
        )
    }
}

impl<T> Default for StringMap<T> {
    /// A new, empty map.
    fn default() -> (r: Self)
        ensures
            r.wf(),
            r@ == Map::<Seq<char>, T>::empty(),
            r.key_list() == Seq::<String>::empty(),
            r.value_list() == Seq::<T>::empty(),
    {
        let r = StringMap { keys: Vec::new(), values: Vec::new() };
        proof {
            assert(r@ =~= Map::<Seq<char>, T>::empty());
        }
        r
    }
}

impl<T> StringMap<T> {
    /// Constructs a new empty [`StringMap`].
    pub fn new() -> (r: Self)
        ensures
            r.wf(),
            r@ == Map::<Seq<char>, T>::empty(),
            r.key_list() == Seq::<String>::empty(),
            r.value_list() == Seq::<T>::empty(),
    {
        Self::default()
    }

    /// The keys, sorted ascending.
    pub fn keys(&self) -> (r: &[String])
        ensures
            r@ == self.key_list(),
    {
        self.keys.as_slice()
    }

    /// The values, in key order.
    pub fn values(&self) -> (r: &[T])
        ensures
            r@ == self.value_list(),
    {
        self.values.as_slice()
    }

    /// The number of keys held.
    pub fn len(&self) -> (r: usize)
        requires
            self.wf(),
        ensures
            r == self.key_list().len(),
            r == self.value_list().len(),
    {
        self.keys.len()
    }

    /// Locates `s` among the keys by binary search: its position, or the
    /// position where it would be inserted.
    pub fn key_idx(&self, s: &str) -> (r: KeyIndex)
        requires
            self.wf(),
        ensures
            match r {
                Ok(i) => i < self.key_views().len() && self.key_views()[i as int] == s@,
                Err(i) => {
                    &&& i <= self.key_views().len()
                    &&& !self.spec_contains_key(s@)
                    &&& forall|j: int| 0 <= j < i ==> str_lt(self.key_views()[j], s@)
                    &&& forall|j: int|
                        i <= j < self.key_views().len() ==> str_lt(s@, self.key_views()[j])
                },
            },
    {
        let mut lo: usize = 0;
        let mut hi: usize = self.keys.len();
        while lo < hi
            invariant
                self.wf(),
                lo <= hi <= self.key_views().len(),
                forall|j: int| 0 <= j < lo ==> str_lt(self.key_views()[j], s@),
                forall|j: int| hi <= j < self.key_views().len() ==> str_lt(s@, self.key_views()[j]),
            decreases hi - lo,
        {
            let mid = lo + (hi - lo) / 2;
            match str_compare(self.keys[mid].as_str(), s) {
                StrCmp::Less => {
                    proof {
                        assert forall|j: int| 0 <= j < mid + 1 implies str_lt(
                            self.key_views()[j],
                            s@,
                        ) by {
                            if j < mid {
                                lemma_str_lt_transitive(
                                    self.key_views()[j],
                                    self.key_views()[mid as int],
                                    s@,
                                );
                            }
                        }
                    }
                    lo = mid + 1;
                },
                StrCmp::Equal => {
                    return Ok(mid);
                },
                StrCmp::Greater => {
                    proof {
                        assert forall|j: int| mid <= j < self.key_views().len() implies str_lt(
                            s@,
                            self.key_views()[j],
                        ) by {
                            if j > mid {
                                lemma_str_lt_transitive(
                                    s@,
                                    self.key_views()[mid as int],
                                    self.key_views()[j],
                                );
                            }
                        }
                    }
                    hi = mid;
                },
            }
        }
        proof {
            if self.spec_contains_key(s@) {
                let i = self.idx_of(s@);
                assert(self.key_views()[i] == s@);
                lemma_str_lt_irreflexive(s@);
            }
        }
        Err(lo)
    }

    /// Whether a key reading `key` is held.
    pub fn contains_key(&self, key: &str) -> (r: bool)
        requires
            self.wf(),
        ensures
            r <==> self.spec_contains_key(key@),
            r <==> self@.contains_key(key@),
    {
        self.key_idx(key).is_ok()
    }

    /// The value under `key`, if any.
    pub fn get(&self, key: &str) -> (r: Option<&T>)
        requires
            self.wf(),
        ensures
            match r {
                Some(v) => self@.contains_key(key@) && *v == self@[key@],
                None => !self@.contains_key(key@),
            },
    {
        match self.key_idx(key) {
            Ok(n) => {
                proof {
                    self.lemma_at(n as int);
                }
                Some(&self.values[n])
            },
            Err(_) => None,
        }
    }

    /// The value under `key`; the key must be held. This is the checked
    /// counterpart of the indexing operator, for call sites that have
    /// already established presence.
    pub fn index(&self, key: &str) -> (r: &T)
        requires
            self.wf(),
            self@.contains_key(key@),
        ensures
            *r == self@[key@],
    {
        self.get(key).unwrap()
    }

    /// A mutable borrow of the value under `key`, if any.
    pub fn get_mut(&mut self, key: &str) -> (r: Option<&mut T>)
        requires
            old(self).wf(),
        ensures
            old(self)@.contains_key(key@) ==> r is Some && *r.unwrap() == old(self)@[key@]
                && final(self).wf() && final(self).key_list() == old(self).key_list()
                && final(self).value_list() == old(self).value_list().update(
                old(self).idx_of(key@),
                *final(r.unwrap()),
            ),
            !old(self)@.contains_key(key@) ==> r is None && *final(self) == *old(self),
    {
        match self.key_idx(key) {
            Ok(n) => {
                proof {
                    self.lemma_at(n as int);
                }
                Some(&mut self.values[n])
            },
            Err(_) => None,
        }
    }

    /// Binds `value` under `key`: replaces and returns the value already
    /// there, or inserts at the sorted position.
    pub fn insert(&mut self, key: String, value: T) -> (r: Option<T>)
        requires
            old(self).wf(),
        ensures
            final(self).wf(),
            final(self)@ == old(self)@.insert(key@, value),
            match r {
                Some(v) => old(self)@.contains_key(key@) && v == old(self)@[key@] && final(self).key_list().len() == old(self).key_list().len(),
                None => !old(self)@.contains_key(key@) && final(self).key_list().len() == old(self).key_list().len() + 1,
            },
    {
        match self.key_idx(key.as_str()) {
            Ok(n) => {
                proof {
                    self.lemma_at(n as int);
                }
                let ghost pre = *self;
                let ghost new_value = value;
                self.keys.set(n, key);
                let mut value = value;
                self.values.set_and_swap(n, &mut value);
                proof {
                    assert(self.key_views() =~= pre.key_views());
                    assert(self.value_list() == pre.value_list().update(n as int, new_value));
                    Self::lemma_value_update(pre, *self, n as int, new_value);
                    assert(pre.key_views()[n as int] == key@);
                    assert(self@ =~= pre@.insert(key@, new_value));
                }
                Some(value)
            },
            Err(n) => {
                let ghost pre = *self;
                self.keys.insert(n, key);
                self.values.insert(n, value);
                proof {
                    assert(self.key_views() =~= pre.key_views().insert(n as int, key@));
                    assert forall|i: int, j: int|
                        0 <= i < j < self.key_views().len() implies str_lt(
                        #[trigger] self.key_views()[i],
                        #[trigger] self.key_views()[j],
                    ) by {
                        if j < n {
                        } else if i < n && j == n {
                            assert(self.key_views()[j] == key@);
                        } else if i == n {
                            assert(self.key_views()[j] == pre.key_views()[j - 1]);
                        } else if i < n && j > n {
                            assert(self.key_views()[i] == pre.key_views()[i]);
                            assert(self.key_views()[j] == pre.key_views()[j - 1]);
                        } else {
                        }
                    }
                    assert(self.wf());
                    assert forall|k: Seq<char>| self.spec_contains_key(k) && k != key@
                        implies pre.spec_contains_key(k) && self@[k] == pre@[k] by {
                        let i = self.idx_of(k);
                        assert(self.key_views()[i] == k);
                        if i < n {
                            assert(pre.key_views()[i] == k);
                            pre.lemma_at(i);
                            self.lemma_at(i);
                        } else {
                            assert(i > n);
                            assert(pre.key_views()[i - 1] == k);
                            pre.lemma_at(i - 1);
                            self.lemma_at(i);
                        }
                    }
                    assert forall|k: Seq<char>| pre.spec_contains_key(k)
                        implies self.spec_contains_key(k) by {
                        let i = pre.idx_of(k);
                        if i < n {
                            assert(self.key_views()[i] == k);
                        } else {
                            assert(self.key_views()[i + 1] == k);
                        }
                    }
                    self.lemma_at(n as int);
                    assert(self@ =~= old(self)@.insert(key@, value));
                }
                None
            },
        }
    }

    /// Removes and returns the value under `key`, if any.
    pub fn remove(&mut self, key: &str) -> (r: Option<T>)
        requires
            old(self).wf(),
        ensures
            final(self).wf(),
            match r {
                Some(v) => old(self)@.contains_key(key@) && v == old(self)@[key@] && final(self)@
                    == old(self)@.remove(key@) && final(self).key_list().len() == old(self).key_list().len() - 1,
                None => !old(self)@.contains_key(key@) && *final(self) == *old(self),
            },
    {
        match self.key_idx(key) {
            Ok(n) => {
                proof {
                    self.lemma_at(n as int);
                }
                let ghost pre = *self;
                self.keys.remove(n);
                let value = self.values.remove(n);
                proof {
                    assert(self.key_views() =~= pre.key_views().remove(n as int));
                    assert forall|k: Seq<char>| self.spec_contains_key(k)
                        implies pre.spec_contains_key(k) && k != key@ && self@[k] == pre@[k] by {
                        let i = self.idx_of(k);
                        assert(self.key_views()[i] == k);
                        if i < n {
                            assert(pre.key_views()[i] == k);
                            pre.lemma_at(i);
                            self.lemma_at(i);
                            if k == key@ {
                                pre.lemma_at(n as int);
                            }
                        } else {
                            assert(pre.key_views()[i + 1] == k);
                            pre.lemma_at(i + 1);
                            self.lemma_at(i);
                            if k == key@ {
                                pre.lemma_at(n as int);
                            }
                        }
                    }
                    assert forall|k: Seq<char>| pre.spec_contains_key(k) && k != key@
                        implies self.spec_contains_key(k) by {
                        let i = pre.idx_of(k);
                        assert(pre.key_views()[i] == k);
                        if i < n {
                            assert(self.key_views()[i] == k);
                        } else {
                            assert(i != n) by {
                                pre.lemma_at(n as int);
                            }
                            assert(self.key_views()[i - 1] == k);
                        }
                    }
                    assert(self@ =~= old(self)@.remove(key@));
                }
                Some(value)
            },
            Err(_) => None,
        }
    }

    /// The keys and values, paired, in key order.
    pub fn items(&self) -> (r: Vec<(&str, &T)>)
        requires
            self.wf(),
        ensures
            r@.len() == self.key_list().len(),
            forall|i: int|
                0 <= i < r@.len() ==> r@[i].0@ == self.key_views()[i] && *r@[i].1
                    == self.value_list()[i],
    {
        let mut r: Vec<(&str, &T)> = Vec::new();
        let mut i: usize = 0;
        let count = self.keys.len();
        while i < count
            invariant
                self.wf(),
                count == self.key_list().len(),
                i <= count,
                r@.len() == i,
                forall|j: int|
                    0 <= j < i ==> r@[j].0@ == self.key_views()[j] && *r@[j].1
                        == self.value_list()[j],
            decreases count - i,
        {
            r.push((self.keys[i].as_str(), &self.values[i]));
            i += 1;
        }
        r
    }
}

impl<T> StringMap<T> {
    /// Replacing the value at position `i` rebinds that position's key and
    /// touches no other entry of the abstract map.
    pub proof fn lemma_value_update(pre: Self, post: Self, i: int, v: T)
        requires
            pre.wf(),
            0 <= i < pre.key_list().len(),
            post.key_views() == pre.key_views(),
            post.value_list() == pre.value_list().update(i, v),
        ensures
            post.wf(),
            post@ =~= pre@.insert(pre.key_views()[i], v),
    {
        assert(post.key_views() =~= pre.key_views());
        assert forall|k: Seq<char>| post.spec_contains_key(k) implies pre.spec_contains_key(k)
            && post.idx_of(k) == pre.idx_of(k) by {
            let j = post.idx_of(k);
            assert(post.key_views()[j] == k);
            assert(pre.key_views()[j] == k);
            post.lemma_at(j);
            pre.lemma_at(j);
        }
        assert forall|k: Seq<char>| pre.spec_contains_key(k)
            implies post.spec_contains_key(k) by {
            let j = pre.idx_of(k);
            assert(post.key_views()[j] == k);
        }
        post.lemma_at(i);
        pre.lemma_at(i);
        assert(post@ =~= pre@.insert(pre.key_views()[i], v));
    }
}

} // verus!
