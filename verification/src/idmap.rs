//! Small insertion-ordered maps and sets keyed by identifier text.
//!
//! Rooms, users and channels are all keyed by textual identifiers; these
//! containers keep one entry per key and expose their contents as `Map` and
//! `Set` values over the key text.

use vstd::prelude::*;

verus! {

/// Key text of every entry, in storage order.
pub open spec fn keys_of<V>(s: Seq<(String, V)>) -> Seq<Seq<char>> {
    Seq::new(s.len(), |i: int| s[i].0@)
}

/// No two entries share a key.
pub open spec fn unique_keys<V>(s: Seq<(String, V)>) -> bool {
    forall|i: int, j: int|
        0 <= i < s.len() && 0 <= j < s.len() && i != j ==> #[trigger] s[i].0@ != #[trigger] s[j].0@
}

/// Index of an entry with key `k` (meaningful when one exists).
pub open spec fn slot_of<V>(s: Seq<(String, V)>, k: Seq<char>) -> int {
    choose|i: int| 0 <= i < s.len() && #[trigger] s[i].0@ == k
}

/// The map from key text to value that the entries denote.
pub open spec fn map_of<V>(s: Seq<(String, V)>) -> Map<Seq<char>, V> {
    Map::new(
        |k: Seq<char>| exists|i: int| 0 <= i < s.len() && #[trigger] s[i].0@ == k,
        |k: Seq<char>| s[slot_of(s, k)].1,
    )
}

pub proof fn lemma_map_of_at<V>(s: Seq<(String, V)>, i: int)
    requires
        unique_keys(s),
        0 <= i < s.len(),
    ensures
        map_of(s).contains_key(s[i].0@),
        map_of(s)[s[i].0@] == s[i].1,
        slot_of(s, s[i].0@) == i,
{
    let k = s[i].0@;
    assert(exists|j: int| 0 <= j < s.len() && #[trigger] s[j].0@ == k);
    let j = slot_of(s, k);
    assert(s[j].0@ == k);
}

pub proof fn lemma_map_of_not<V>(s: Seq<(String, V)>, k: Seq<char>)
    requires
        forall|i: int| 0 <= i < s.len() ==> #[trigger] s[i].0@ != k,
    ensures
        !map_of(s).contains_key(k),
{
}

pub proof fn lemma_map_of_push<V>(s: Seq<(String, V)>, e: (String, V))
    requires
        unique_keys(s),
        !map_of(s).contains_key(e.0@),
    ensures
        unique_keys(s.push(e)),
        map_of(s.push(e)) =~= map_of(s).insert(e.0@, e.1),
{
    let t = s.push(e);
    assert forall|i: int| 0 <= i < s.len() implies #[trigger] s[i].0@ != e.0@ by {
        lemma_map_of_at(s, i);
    }
    assert(unique_keys(t));
    assert forall|k: Seq<char>| #[trigger] map_of(t).contains_key(k) <==> map_of(s).insert(
        e.0@,
        e.1,
    ).contains_key(k) by {
        if map_of(t).contains_key(k) {
            let i = choose|i: int| 0 <= i < t.len() && #[trigger] t[i].0@ == k;
            if i < s.len() {
                assert(s[i].0@ == k);
            }
        }
        if map_of(s).contains_key(k) {
            let i = choose|i: int| 0 <= i < s.len() && #[trigger] s[i].0@ == k;
            assert(t[i].0@ == k);
        }
        if k == e.0@ {
            assert(t[s.len() as int].0@ == k);
        }
    }
    assert forall|k: Seq<char>| #[trigger] map_of(t).contains_key(k) implies map_of(t)[k]
        == map_of(s).insert(e.0@, e.1)[k] by {
        let i = choose|i: int| 0 <= i < t.len() && #[trigger] t[i].0@ == k;
        lemma_map_of_at(t, i);
        if i < s.len() {
            assert(s[i] == t[i]);
            lemma_map_of_at(s, i);
        }
    }
}

pub proof fn lemma_map_of_remove<V>(s: Seq<(String, V)>, i: int)
    requires
        unique_keys(s),
        0 <= i < s.len(),
    ensures
        unique_keys(s.remove(i)),
        map_of(s.remove(i)) =~= map_of(s).remove(s[i].0@),
        keys_of(s.remove(i)) =~= keys_of(s).remove(i),
{
    let t = s.remove(i);
    let k0 = s[i].0@;
    assert forall|a: int, b: int|
        0 <= a < t.len() && 0 <= b < t.len() && a != b implies #[trigger] t[a].0@
        != #[trigger] t[b].0@ by {
        let a2 = if a < i { a } else { a + 1 };
        let b2 = if b < i { b } else { b + 1 };
        assert(t[a] == s[a2]);
        assert(t[b] == s[b2]);
    }
    assert forall|k: Seq<char>| #[trigger] map_of(t).contains_key(k) <==> map_of(s).remove(
        k0,
    ).contains_key(k) by {
        if map_of(t).contains_key(k) {
            let a = choose|a: int| 0 <= a < t.len() && #[trigger] t[a].0@ == k;
            let a2 = if a < i { a } else { a + 1 };
            assert(t[a] == s[a2]);
            assert(s[a2].0@ == k);
            assert(k != k0);
        }
        if map_of(s).contains_key(k) && k != k0 {
            let a = choose|a: int| 0 <= a < s.len() && #[trigger] s[a].0@ == k;
            assert(a != i);
            let a2 = if a < i { a } else { a - 1 };
            assert(t[a2] == s[a]);
            assert(t[a2].0@ == k);
        }
    }
    assert forall|k: Seq<char>| #[trigger] map_of(t).contains_key(k) implies map_of(t)[k]
        == map_of(s).remove(k0)[k] by {
        let a = choose|a: int| 0 <= a < t.len() && #[trigger] t[a].0@ == k;
        let a2 = if a < i { a } else { a + 1 };
        assert(t[a] == s[a2]);
        lemma_map_of_at(t, a);
        lemma_map_of_at(s, a2);
    }
}

pub proof fn lemma_map_of_insert_at<V>(s: Seq<(String, V)>, i: int, e: (String, V))
    requires
        unique_keys(s),
        0 <= i <= s.len(),
        !map_of(s).contains_key(e.0@),
    ensures
        unique_keys(s.insert(i, e)),
        map_of(s.insert(i, e)) =~= map_of(s).insert(e.0@, e.1),
        keys_of(s.insert(i, e)) =~= keys_of(s).insert(i, e.0@),
{
    let t = s.insert(i, e);
    assert forall|a: int| 0 <= a < s.len() implies #[trigger] s[a].0@ != e.0@ by {
        lemma_map_of_at(s, a);
    }
    assert forall|a: int, b: int|
        0 <= a < t.len() && 0 <= b < t.len() && a != b implies #[trigger] t[a].0@
        != #[trigger] t[b].0@ by {
        if a != i && b != i {
            let a2 = if a < i { a } else { a - 1 };
            let b2 = if b < i { b } else { b - 1 };
            assert(t[a] == s[a2]);
            assert(t[b] == s[b2]);
        } else if a == i {
            let b2 = if b < i { b } else { b - 1 };
            assert(t[b] == s[b2]);
        } else {
            let a2 = if a < i { a } else { a - 1 };
            assert(t[a] == s[a2]);
        }
    }
    assert forall|k: Seq<char>| #[trigger] map_of(t).contains_key(k) <==> map_of(s).insert(
        e.0@,
        e.1,
    ).contains_key(k) by {
        if map_of(t).contains_key(k) {
            let a = choose|a: int| 0 <= a < t.len() && #[trigger] t[a].0@ == k;
            if a != i {
                let a2 = if a < i { a } else { a - 1 };
                assert(t[a] == s[a2]);
                assert(s[a2].0@ == k);
            }
        }
        if map_of(s).contains_key(k) {
            let a = choose|a: int| 0 <= a < s.len() && #[trigger] s[a].0@ == k;
            let a2 = if a < i { a } else { a + 1 };
            assert(t[a2] == s[a]);
            assert(t[a2].0@ == k);
        }
        if k == e.0@ {
            assert(t[i].0@ == k);
        }
    }
    assert forall|k: Seq<char>| #[trigger] map_of(t).contains_key(k) implies map_of(t)[k]
        == map_of(s).insert(e.0@, e.1)[k] by {
        let a = choose|a: int| 0 <= a < t.len() && #[trigger] t[a].0@ == k;
        lemma_map_of_at(t, a);
        if a != i {
            let a2 = if a < i { a } else { a - 1 };
            assert(t[a] == s[a2]);
            lemma_map_of_at(s, a2);
        }
    }
}

/// A map from identifier text to values, one entry per key, in insertion order.
#[derive(Debug)]
pub struct IdMap<V> {
    entries: Vec<(String, V)>,
}

impl<V> IdMap<V> {
    /// Well-formedness: no key occurs twice.
    pub closed spec fn wf(&self) -> bool {
        unique_keys(self.entries@)
    }

    /// The map from key text to value.
    pub closed spec fn map(&self) -> Map<Seq<char>, V> {
        map_of(self.entries@)
    }

    /// The keys in storage order.
    pub closed spec fn key_seq(&self) -> Seq<Seq<char>> {
        keys_of(self.entries@)
    }

    /// Facts that tie the key order to the map.
    pub proof fn lemma_keys(&self)
        requires
            self.wf(),
        ensures
            self.key_seq().no_duplicates(),
            forall|k: Seq<char>| #[trigger]
                self.map().contains_key(k) <==> self.key_seq().contains(k),
            self.map().dom().finite(),
            self.map().len() == self.key_seq().len(),
    {
        let s = self.entries@;
        let ks = keys_of(s);
        assert forall|k: Seq<char>| #[trigger] self.map().contains_key(k) <==> ks.contains(k) by {
            if self.map().contains_key(k) {
                let i = choose|i: int| 0 <= i < s.len() && #[trigger] s[i].0@ == k;
                assert(ks[i] == k);
            }
            if ks.contains(k) {
                let i = choose|i: int| 0 <= i < ks.len() && ks[i] == k;
                assert(s[i].0@ == k);
            }
        }
        assert(self.map().dom() =~= ks.to_set());
        ks.unique_seq_to_set();
    }

    /// Creates an empty map.
    pub fn new() -> (r: Self)
        ensures
            r.wf(),
            r.map() =~= Map::<Seq<char>, V>::empty(),
            r.key_seq() =~= Seq::<Seq<char>>::empty(),
    {
        IdMap { entries: Vec::new() }
    }

    /// Number of entries.
    pub fn len(&self) -> (n: usize)
        ensures
            n == self.key_seq().len(),
    {
        self.entries.len()
    }

    /// Position of the entry with key `k`, if there is one.
    pub fn find(&self, k: &str) -> (r: Option<usize>)
        requires
            self.wf(),
        ensures
            r.is_none() <==> !self.map().contains_key(k@),
            r matches Some(i) ==> i < self.key_seq().len() && self.key_seq()[i as int] == k@,
    {
        let n = self.entries.len();
        let mut i: usize = 0;
        while i < n
            invariant
                n == self.entries@.len(),
                i <= n,
                forall|j: int| 0 <= j < i ==> #[trigger] self.entries@[j].0@ != k@,
            decreases n - i,
        {
            if crate::text::text_eq(self.entries[i].0.as_str(), k) {
                return Some(i);
            }
            i = i + 1;
        }
        proof {
            lemma_map_of_not(self.entries@, k@);
        }
        None
    }

    /// Whether an entry with key `k` exists.
    pub fn contains_key(&self, k: &str) -> (b: bool)
        requires
            self.wf(),
        ensures
            b == self.map().contains_key(k@),
    {
        self.find(k).is_some()
    }

    /// The value stored under `k`, if any.
    pub fn get(&self, k: &str) -> (r: Option<&V>)
        requires
            self.wf(),
        ensures
            r.is_some() == self.map().contains_key(k@),
            r matches Some(v) ==> *v == self.map()[k@],
    {
        match self.find(k) {
            Some(i) => {
                proof {
                    lemma_map_of_at(self.entries@, i as int);
                }
                Some(&self.entries[i].1)
            },
            None => None,
        }
    }

    /// Key of the entry at position `i`.
    pub fn key_at(&self, i: usize) -> (r: &String)
        requires
            self.wf(),
            i < self.key_seq().len(),
        ensures
            r@ == self.key_seq()[i as int],
            self.map().contains_key(r@),
    {
        proof {
            lemma_map_of_at(self.entries@, i as int);
        }
        &self.entries[i].0
    }

    /// Value of the entry at position `i`.
    pub fn value_at(&self, i: usize) -> (r: &V)
        requires
            self.wf(),
            i < self.key_seq().len(),
        ensures
            *r == self.map()[self.key_seq()[i as int]],
            self.map().contains_key(self.key_seq()[i as int]),
    {
        proof {
            lemma_map_of_at(self.entries@, i as int);
        }
        &self.entries[i].1
    }

    /// Removes and returns the entry at position `i`.
    pub fn take_at(&mut self, i: usize) -> (r: (String, V))
        requires
            old(self).wf(),
            i < old(self).key_seq().len(),
        ensures
            final(self).wf(),
            r.0@ == old(self).key_seq()[i as int],
            old(self).map().contains_key(r.0@),
            r.1 == old(self).map()[r.0@],
            final(self).map() =~= old(self).map().remove(r.0@),
            final(self).key_seq() =~= old(self).key_seq().remove(i as int),
    {
        proof {
            lemma_map_of_at(self.entries@, i as int);
            lemma_map_of_remove(self.entries@, i as int);
        }
        self.entries.remove(i)
    }

    /// Puts an entry with a fresh key back at position `i`.
    pub fn put_at(&mut self, i: usize, k: String, v: V)
        requires
            old(self).wf(),
            i <= old(self).key_seq().len(),
            !old(self).map().contains_key(k@),
        ensures
            final(self).wf(),
            final(self).map() =~= old(self).map().insert(k@, v),
            final(self).key_seq() =~= old(self).key_seq().insert(i as int, k@),
    {
        proof {
            lemma_map_of_insert_at(self.entries@, i as int, (k, v));
        }
        self.entries.insert(i, (k, v));
    }

    /// Inserts or replaces the value under `k`.
    pub fn insert(&mut self, k: String, v: V)
        requires
            old(self).wf(),
        ensures
            final(self).wf(),
            final(self).map() =~= old(self).map().insert(k@, v),
    {
        match self.find(k.as_str()) {
            Some(i) => {
                let _old = self.take_at(i);
                self.put_at(i, k, v);
            },
            None => {
                proof {
                    lemma_map_of_push(self.entries@, (k, v));
                }
                self.entries.push((k, v));
            },
        }
    }

    /// Removes the entry under `k`, returning its value if it was present.
    pub fn remove(&mut self, k: &str) -> (r: Option<V>)
        requires
            old(self).wf(),
        ensures
            final(self).wf(),
            r.is_some() == old(self).map().contains_key(k@),
            r matches Some(v) ==> v == old(self).map()[k@],
            final(self).map() =~= old(self).map().remove(k@),
    {
        match self.find(k) {
            Some(i) => {
                let (_key, v) = self.take_at(i);
                Some(v)
            },
            None => None,
        }
    }
}

} // verus!

verus! {

/// A set of identifier texts, in insertion order.
#[derive(Debug)]
pub struct IdSet {
    inner: IdMap<()>,
}

impl IdSet {
    /// Well-formedness: no identifier occurs twice.
    pub closed spec fn wf(&self) -> bool {
        self.inner.wf()
    }

    /// The identifiers held.
    pub closed spec fn set(&self) -> Set<Seq<char>> {
        self.inner.map().dom()
    }

    /// The identifiers in storage order.
    pub closed spec fn item_seq(&self) -> Seq<Seq<char>> {
        self.inner.key_seq()
    }

    /// Facts that tie the storage order to the set.
    pub proof fn lemma_items(&self)
        requires
            self.wf(),
        ensures
            self.item_seq().no_duplicates(),
            forall|k: Seq<char>| #[trigger] self.set().contains(k) <==> self.item_seq().contains(k),
            self.set().finite(),
            self.set().len() == self.item_seq().len(),
    {
        self.inner.lemma_keys();
    }

    /// Creates an empty set.
    pub fn new() -> (r: Self)
        ensures
            r.wf(),
            r.set() =~= Set::<Seq<char>>::empty(),
            r.item_seq() =~= Seq::<Seq<char>>::empty(),
    {
        IdSet { inner: IdMap::new() }
    }

    /// Number of identifiers held.
    pub fn len(&self) -> (n: usize)
        ensures
            n == self.item_seq().len(),
    {
        self.inner.len()
    }

    /// Whether `k` is held.
    pub fn contains(&self, k: &str) -> (b: bool)
        requires
            self.wf(),
        ensures
            b == self.set().contains(k@),
    {
        self.inner.contains_key(k)
    }

    /// The identifier at position `i`.
    pub fn item_at(&self, i: usize) -> (r: &String)
        requires
            self.wf(),
            i < self.item_seq().len(),
        ensures
            r@ == self.item_seq()[i as int],
            self.set().contains(r@),
    {
        self.inner.key_at(i)
    }

    /// Adds `k` (no effect if already held).
    pub fn insert(&mut self, k: String)
        requires
            old(self).wf(),
        ensures
            final(self).wf(),
            final(self).set() =~= old(self).set().insert(k@),
    {
        self.inner.insert(k, ());
    }

    /// Removes `k`, returning whether it was held.
    pub fn remove(&mut self, k: &str) -> (b: bool)
        requires
            old(self).wf(),
        ensures
            final(self).wf(),
            b == old(self).set().contains(k@),
            final(self).set() =~= old(self).set().remove(k@),
    {
        self.inner.remove(k).is_some()
    }
}

} // verus!
