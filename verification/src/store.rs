//! A keyed store that keeps its entries in the order in which their keys were
//! first written, the shape in which the pallet's storage maps are held here.
use vstd::prelude::*;

verus! {

/// A key of a store: a plain value whose equality the store can test.
pub trait StoreKey: Sized + Copy {
    fn same(&self, other: &Self) -> (b: bool)
        ensures
            b == (*self == *other),
    ;
}

impl StoreKey for u32 {
    fn same(&self, other: &Self) -> (b: bool) {
        *self == *other
    }
}

impl StoreKey for u64 {
    fn same(&self, other: &Self) -> (b: bool) {
        *self == *other
    }
}

/// No key occurs twice in `s`.
pub open spec fn keys_unique<K, V>(s: Seq<(K, V)>) -> bool {
    forall|i: int, j: int| 0 <= i < j < s.len() ==> #[trigger] s[i].0 != #[trigger] s[j].0
}

/// `k` is the key of some entry of `s`.
pub open spec fn has_key<K, V>(s: Seq<(K, V)>, k: K) -> bool {
    exists|i: int| 0 <= i < s.len() && #[trigger] s[i].0 == k
}

/// The position of the entry of `s` whose key is `k` (meaningful when there is one).
pub open spec fn position_of<K, V>(s: Seq<(K, V)>, k: K) -> int {
    choose|i: int| 0 <= i < s.len() && #[trigger] s[i].0 == k
}

/// The map that the entries of `s` stand for.
pub open spec fn entries_map<K, V>(s: Seq<(K, V)>) -> Map<K, V> {
    Map::new(|k: K| has_key(s, k), |k: K| s[position_of(s, k)].1)
}

/// With unique keys, the entry at `i` is the one that the map finds for its key.
pub proof fn lemma_entry_at<K, V>(s: Seq<(K, V)>, i: int)
    requires
        keys_unique(s),
        0 <= i < s.len(),
    ensures
        has_key(s, s[i].0),
        position_of(s, s[i].0) == i,
        entries_map(s).contains_key(s[i].0),
        entries_map(s)[s[i].0] == s[i].1,
{
    let k = s[i].0;
    assert(s[i].0 == k);
    assert(has_key(s, k));
    let j = position_of(s, k);
    assert(0 <= j < s.len() && s[j].0 == k);
    if j < i {
        assert(s[j].0 != s[i].0);
    } else if i < j {
        assert(s[i].0 != s[j].0);
    }
}

/// Writing a new value at an existing position writes that key in the map.
pub proof fn lemma_update_entry<K, V>(s: Seq<(K, V)>, i: int, v: V)
    requires
        keys_unique(s),
        0 <= i < s.len(),
    ensures
        keys_unique(s.update(i, (s[i].0, v))),
        entries_map(s.update(i, (s[i].0, v))) == entries_map(s).insert(s[i].0, v),
{
    let t = s.update(i, (s[i].0, v));
    assert(keys_unique(t)) by {
        assert forall|a: int, b: int| 0 <= a < b < t.len() implies #[trigger] t[a].0 != #[trigger] t[b].0 by {
            assert(t[a].0 == s[a].0);
            assert(t[b].0 == s[b].0);
            assert(s[a].0 != s[b].0);
        }
    }
    let m = entries_map(s).insert(s[i].0, v);
    assert forall|k: K| #[trigger] entries_map(t).contains_key(k) == m.contains_key(k) by {
        if has_key(t, k) {
            let j = choose|j: int| 0 <= j < t.len() && #[trigger] t[j].0 == k;
            assert(s[j].0 == k);
            lemma_entry_at(s, j);
        }
        if has_key(s, k) {
            let j = choose|j: int| 0 <= j < s.len() && #[trigger] s[j].0 == k;
            assert(t[j].0 == k);
        }
    }
    assert forall|k: K| #[trigger] entries_map(t).contains_key(k) implies entries_map(t)[k] == m[k] by {
        let j = choose|j: int| 0 <= j < t.len() && #[trigger] t[j].0 == k;
        lemma_entry_at(t, j);
        lemma_entry_at(s, j);
    }
    assert(entries_map(t) =~= m);
}

/// Appending an entry with a fresh key adds that key to the map.
pub proof fn lemma_push_entry<K, V>(s: Seq<(K, V)>, k: K, v: V)
    requires
        keys_unique(s),
        !has_key(s, k),
    ensures
        keys_unique(s.push((k, v))),
        entries_map(s.push((k, v))) == entries_map(s).insert(k, v),
{
    let t = s.push((k, v));
    assert(keys_unique(t)) by {
        assert forall|a: int, b: int| 0 <= a < b < t.len() implies #[trigger] t[a].0 != #[trigger] t[b].0 by {
            if b == s.len() {
                assert(t[a].0 == s[a].0);
            } else {
                assert(t[a].0 == s[a].0 && t[b].0 == s[b].0);
            }
        }
    }
    let m = entries_map(s).insert(k, v);
    assert forall|q: K| #[trigger] entries_map(t).contains_key(q) == m.contains_key(q) by {
        if has_key(t, q) {
            let j = choose|j: int| 0 <= j < t.len() && #[trigger] t[j].0 == q;
            if j < s.len() {
                assert(s[j].0 == q);
            }
        }
        if has_key(s, q) {
            let j = choose|j: int| 0 <= j < s.len() && #[trigger] s[j].0 == q;
            assert(t[j].0 == q);
        }
        if q == k {
            assert(t[s.len() as int].0 == k);
        }
    }
    assert forall|q: K| #[trigger] entries_map(t).contains_key(q) implies entries_map(t)[q] == m[q] by {
        let j = choose|j: int| 0 <= j < t.len() && #[trigger] t[j].0 == q;
        lemma_entry_at(t, j);
        if j < s.len() {
            assert(s[j].0 == q);
            lemma_entry_at(s, j);
        }
    }
    assert(entries_map(t) =~= m);
}

/// Removing the entry at `i` removes its key from the map.
pub proof fn lemma_remove_entry<K, V>(s: Seq<(K, V)>, i: int)
    requires
        keys_unique(s),
        0 <= i < s.len(),
    ensures
        keys_unique(s.remove(i)),
        entries_map(s.remove(i)) == entries_map(s).remove(s[i].0),
{
    let t = s.remove(i);
    let k = s[i].0;
    assert forall|a: int| 0 <= a < t.len() implies #[trigger] t[a] == (if a < i { s[a] } else { s[a + 1] }) by {}
    assert(keys_unique(t)) by {
        assert forall|a: int, b: int| 0 <= a < b < t.len() implies #[trigger] t[a].0 != #[trigger] t[b].0 by {
            let a2 = if a < i { a } else { a + 1 };
            let b2 = if b < i { b } else { b + 1 };
            assert(t[a] == s[a2]);
            assert(t[b] == s[b2]);
            assert(s[a2].0 != s[b2].0);
        }
    }
    let m = entries_map(s).remove(k);
    assert forall|q: K| #[trigger] entries_map(t).contains_key(q) == m.contains_key(q) by {
        if has_key(t, q) {
            let j = choose|j: int| 0 <= j < t.len() && #[trigger] t[j].0 == q;
            let j2 = if j < i { j } else { j + 1 };
            assert(s[j2].0 == q);
            assert(j2 != i);
            assert(s[i].0 != s[j2].0);
        }
        if has_key(s, q) && q != k {
            let j = choose|j: int| 0 <= j < s.len() && #[trigger] s[j].0 == q;
            assert(j != i);
            let j1 = if j < i { j } else { j - 1 };
            assert(t[j1].0 == q);
        }
    }
    assert forall|q: K| #[trigger] entries_map(t).contains_key(q) implies entries_map(t)[q] == m[q] by {
        let j = choose|j: int| 0 <= j < t.len() && #[trigger] t[j].0 == q;
        let j2 = if j < i { j } else { j + 1 };
        lemma_entry_at(t, j);
        assert(s[j2] == t[j]);
        lemma_entry_at(s, j2);
    }
    assert(entries_map(t) =~= m);
}

/// A keyed store: a map from keys to values that also keeps the order in
/// which the keys were first written.
pub struct Store<K, V> {
    entries: Vec<(K, V)>,
}

impl<K: StoreKey, V> Store<K, V> {
    /// The entries, in the order in which their keys were first written.
    pub closed spec fn entries(&self) -> Seq<(K, V)> {
        self.entries@
    }

    /// The map that the store holds.
    pub open spec fn map(&self) -> Map<K, V> {
        entries_map(self.entries())
    }

    /// No key occurs twice.
    pub open spec fn wf(&self) -> bool {
        keys_unique(self.entries())
    }

    /// An empty store.
    pub fn new() -> (s: Self)
        ensures
            s.wf(),
            s.entries() == Seq::<(K, V)>::empty(),
            s.map() == Map::<K, V>::empty(),
    {
        let s = Store { entries: Vec::new() };
        assert(s.map() =~= Map::<K, V>::empty());
        s
    }

    /// The entries, in the order in which their keys were first written.
    pub fn as_vec(&self) -> (r: &Vec<(K, V)>)
        ensures
            r@ == self.entries(),
    {
        &self.entries
    }

    /// The position of the entry whose key is `k`, if there is one.
    pub fn find(&self, k: &K) -> (r: Option<usize>)
        requires
            self.wf(),
        ensures
            match r {
                Some(i) => i < self.entries().len() && self.entries()[i as int].0 == *k
                    && position_of(self.entries(), *k) == i as int,
                None => !has_key(self.entries(), *k),
            },
            r is Some <==> self.map().contains_key(*k),
    {
        let mut i: usize = 0;
        while i < self.entries.len()
            invariant
                i <= self.entries@.len(),
                keys_unique(self.entries@),
                forall|j: int| 0 <= j < i ==> #[trigger] self.entries@[j].0 != *k,
            decreases self.entries@.len() - i,
        {
            if self.entries[i].0.same(k) {
                proof {
                    lemma_entry_at(self.entries@, i as int);
                }
                return Some(i);
            }
            i = i + 1;
        }
        None
    }

    /// Whether the store holds a value for `k`.
    pub fn contains_key(&self, k: &K) -> (b: bool)
        requires
            self.wf(),
        ensures
            b == self.map().contains_key(*k),
    {
        self.find(k).is_some()
    }

    /// The value held for `k`, if any.
    pub fn get(&self, k: &K) -> (r: Option<&V>)
        requires
            self.wf(),
        ensures
            r == (if self.map().contains_key(*k) {
                Some(&self.map()[*k])
            } else {
                None
            }),
    {
        match self.find(k) {
            Some(i) => {
                proof {
                    lemma_entry_at(self.entries@, i as int);
                }
                Some(&self.entries[i].1)
            },
            None => None,
        }
    }

    /// Writes `v` for `k`: in place where `k` is held, else as a new last entry.
    pub fn insert(&mut self, k: K, v: V)
        requires
            old(self).wf(),
        ensures
            final(self).wf(),
            final(self).map() == old(self).map().insert(k, v),
            final(self).entries() == (if has_key(old(self).entries(), k) {
                old(self).entries().update(position_of(old(self).entries(), k), (k, v))
            } else {
                old(self).entries().push((k, v))
            }),
    {
        match self.find(&k) {
            Some(i) => {
                proof {
                    lemma_update_entry(self.entries@, i as int, v);
                }
                self.entries.set(i, (k, v));
            },
            None => {
                proof {
                    lemma_push_entry(self.entries@, k, v);
                }
                self.entries.push((k, v));
            },
        }
    }

    /// Removes the entry for `k`, if any, and hands back its value.
    pub fn take(&mut self, k: &K) -> (r: Option<V>)
        requires
            old(self).wf(),
        ensures
            final(self).wf(),
            final(self).map() == old(self).map().remove(*k),
            r == (if old(self).map().contains_key(*k) {
                Some(old(self).map()[*k])
            } else {
                None
            }),
    {
        match self.find(k) {
            Some(i) => {
                proof {
                    lemma_entry_at(self.entries@, i as int);
                    lemma_remove_entry(self.entries@, i as int);
                }
                let e = self.entries.remove(i);
                Some(e.1)
            },
            None => {
                assert(self.map() =~= self.map().remove(*k));
                None
            },
        }
    }
}

} // verus!
