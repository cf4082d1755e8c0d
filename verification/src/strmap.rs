//! A small map from string keys to values that keeps insertion order.
//!
//! Its view is the sequence of `(key, value)` entries in the order in which the
//! keys were first inserted; no key occurs twice.

use vstd::prelude::*;

verus! {

/// Whether `key` is one of the keys of `e`.
pub open spec fn has_key<W>(e: Seq<(Seq<char>, W)>, key: Seq<char>) -> bool {
    exists|i: int| 0 <= i < e.len() && #[trigger] e[i].0 == key
}

/// The value stored under `key` in `e`, if any.
pub open spec fn lookup<W>(e: Seq<(Seq<char>, W)>, key: Seq<char>) -> Option<W> {
    if has_key(e, key) {
        Some(e[choose|i: int| 0 <= i < e.len() && #[trigger] e[i].0 == key].1)
    } else {
        None
    }
}

/// No key occurs twice in `e`.
pub open spec fn keys_unique<W>(e: Seq<(Seq<char>, W)>) -> bool {
    forall|i: int, j: int| 0 <= i < j < e.len() ==> #[trigger] e[i].0 != #[trigger] e[j].0
}

/// The keys of `e`, in order.
pub open spec fn keys_of<W>(e: Seq<(Seq<char>, W)>) -> Seq<Seq<char>> {
    e.map_values(|p: (Seq<char>, W)| p.0)
}

/// In a sequence without repeated keys, the entry at `i` is the one found for its key.
pub proof fn lemma_lookup_at<W>(e: Seq<(Seq<char>, W)>, i: int)
    requires
        keys_unique(e),
        0 <= i < e.len(),
    ensures
        lookup(e, e[i].0) == Some(e[i].1),
{
    let k = e[i].0;
    assert(has_key(e, k));
    let j = choose|j: int| 0 <= j < e.len() && #[trigger] e[j].0 == k;
    if j != i {
        if j < i {
            assert(e[j].0 != e[i].0);
        } else {
            assert(e[i].0 != e[j].0);
        }
    }
}

/// `e` with `value` stored under `key`: the entry for `key` is updated in
/// place, or a new entry is appended.
pub open spec fn map_insert<W>(e: Seq<(Seq<char>, W)>, key: Seq<char>, value: W) -> Seq<(Seq<char>, W)> {
    if has_key(e, key) {
        e.update(choose|i: int| 0 <= i < e.len() && #[trigger] e[i].0 == key, (key, value))
    } else {
        e.push((key, value))
    }
}

/// A map from strings to values, in insertion order.
#[derive(Debug)]
pub struct StrMap<V: View> {
    entries: Vec<(String, V)>,
}

impl<V: View> View for StrMap<V> {
    type V = Seq<(Seq<char>, V::V)>;

    closed spec fn view(&self) -> Seq<(Seq<char>, V::V)> {
        self.entries@.map_values(|p: (String, V)| (p.0@, p.1@))
    }
}

impl<V: View> Default for StrMap<V> {
    fn default() -> (m: Self)
        ensures
            m@ == Seq::<(Seq<char>, V::V)>::empty(),
    {
        StrMap::new()
    }
}

impl<V: View> StrMap<V> {
    #[verifier::type_invariant]
    closed spec fn wf(self) -> bool {
        keys_unique(self@)
    }

    /// An empty map.
    pub fn new() -> (m: Self)
        ensures
            m@ == Seq::<(Seq<char>, V::V)>::empty(),
    {
        let m = StrMap { entries: Vec::new() };
        assert(m@ =~= Seq::<(Seq<char>, V::V)>::empty());
        m
    }

    /// Number of entries.
    pub fn len(&self) -> (n: usize)
        ensures
            n == self@.len(),
            keys_unique(self@),
    {
        proof {
            use_type_invariant(self);
        }
        self.entries.len()
    }

    /// Whether the map has no entry.
    pub fn is_empty(&self) -> (b: bool)
        ensures
            b == (self@.len() == 0),
    {
        self.entries.len() == 0
    }

    /// The key of the entry at position `i`.
    pub fn key_at(&self, i: usize) -> (k: &String)
        requires
            i < self@.len(),
        ensures
            k@ == self@[i as int].0,
    {
        &self.entries[i].0
    }

    /// The value of the entry at position `i`.
    pub fn value_at(&self, i: usize) -> (v: &V)
        requires
            i < self@.len(),
        ensures
            v@ == self@[i as int].1,
    {
        &self.entries[i].1
    }

    /// Position of the entry for `key`, if any.
    pub fn position(&self, key: &str) -> (r: Option<usize>)
        ensures
            match r {
                Some(i) => i < self@.len() && self@[i as int].0 == key@,
                None => !has_key(self@, key@),
            },
    {
        let mut i: usize = 0;
        while i < self.entries.len()
            invariant
                i <= self@.len(),
                self@.len() == self.entries@.len(),
                forall|j: int| 0 <= j < i ==> self@[j].0 != key@,
            decreases self@.len() - i,
        {
            assert(self@[i as int].0 == self.entries@[i as int].0@);
            if crate::text::str_eq(self.entries[i].0.as_str(), key) {
                return Some(i);
            }
            i = i + 1;
        }
        None
    }

    /// The value stored under `key`, if any.
    pub fn get(&self, key: &str) -> (r: Option<&V>)
        ensures
            match r {
                Some(v) => lookup(self@, key@) == Some(v@),
                None => lookup(self@, key@) is None,
            },
    {
        proof {
            use_type_invariant(self);
        }
        match self.position(key) {
            Some(i) => {
                proof {
                    lemma_lookup_at(self@, i as int);
                }
                Some(&self.entries[i].1)
            },
            None => None,
        }
    }

    /// Whether `key` has an entry.
    pub fn contains_key(&self, key: &str) -> (b: bool)
        ensures
            b == has_key(self@, key@),
    {
        self.position(key).is_some()
    }

    /// Stores `value` under `key`, replacing the value of an existing entry in
    /// place or appending a new entry.
    pub fn insert(&mut self, key: String, value: V)
        ensures
            final(self)@ == map_insert(old(self)@, key@, value@),
    {
        proof {
            use_type_invariant(&*self);
        }
        let ghost old_view = self@;
        match self.position(key.as_str()) {
            Some(i) => {
                proof {
                    let j = choose|j: int| 0 <= j < old_view.len() && #[trigger] old_view[j].0 == key@;
                    if j != i as int {
                        if j < i as int {
                            assert(old_view[j].0 != old_view[i as int].0);
                        } else {
                            assert(old_view[i as int].0 != old_view[j].0);
                        }
                    }
                }
                let mut entries: Vec<(String, V)> = Vec::new();
                std::mem::swap(&mut entries, &mut self.entries);
                entries.set(i, (key, value));
                proof {
                    let nv = entries@.map_values(|p: (String, V)| (p.0@, p.1@));
                    assert(nv =~= old_view.update(i as int, (key@, value@)));
                    assert(keys_unique(nv));
                }
                self.entries = entries;
            },
            None => {
                let mut entries: Vec<(String, V)> = Vec::new();
                std::mem::swap(&mut entries, &mut self.entries);
                entries.push((key, value));
                proof {
                    let nv = entries@.map_values(|p: (String, V)| (p.0@, p.1@));
                    assert(nv =~= old_view.push((key@, value@)));
                    assert forall|a: int, b: int| 0 <= a < b < nv.len() implies #[trigger] nv[a].0
                        != #[trigger] nv[b].0 by {
                        if b == nv.len() - 1 {
                            assert(nv[a].0 == old_view[a].0);
                        }
                    }
                }
                self.entries = entries;
            },
        }
    }

    /// Replaces the value of the entry at position `i`, keeping its key.
    pub fn set_value_at(&mut self, i: usize, value: V)
        requires
            i < old(self)@.len(),
        ensures
            final(self)@ == old(self)@.update(i as int, (old(self)@[i as int].0, value@)),
    {
        proof {
            use_type_invariant(&*self);
        }
        let ghost old_view = self@;
        let mut entries: Vec<(String, V)> = Vec::new();
        std::mem::swap(&mut entries, &mut self.entries);
        let key = entries[i].0.clone();
        entries.set(i, (key, value));
        proof {
            let nv = entries@.map_values(|p: (String, V)| (p.0@, p.1@));
            assert(nv =~= old_view.update(i as int, (old_view[i as int].0, value@)));
            assert(keys_unique(nv));
        }
        self.entries = entries;
    }

    /// Removes every entry.
    pub fn clear(&mut self)
        ensures
            final(self)@ == Seq::<(Seq<char>, V::V)>::empty(),
    {
        self.entries = Vec::new();
        assert(self@ =~= Seq::<(Seq<char>, V::V)>::empty());
    }
}


/// A lookup of a key gives back what was last stored under it, and storing
/// under a key leaves the other keys as they were and repeats no key.
pub proof fn law_insert_then_lookup<W>(e: Seq<(Seq<char>, W)>, key: Seq<char>, value: W, other: Seq<char>)
    requires
        keys_unique(e),
    ensures
        lookup(map_insert(e, key, value), key) == Some(value),
        other != key ==> lookup(map_insert(e, key, value), other) == lookup(e, other),
        keys_unique(map_insert(e, key, value)),
{
    let e2 = map_insert(e, key, value);
    if has_key(e, key) {
        let idx = choose|i: int| 0 <= i < e.len() && #[trigger] e[i].0 == key;
        assert(e2 == e.update(idx, (key, value)));
        assert(keys_unique(e2)) by {
            assert forall|i: int, j: int| 0 <= i < j < e2.len() implies #[trigger] e2[i].0 != #[trigger] e2[j].0 by {
                assert(e[i].0 != e[j].0);
            }
        }
        lemma_lookup_at(e2, idx);
        if other != key {
            if has_key(e, other) {
                let j = choose|i: int| 0 <= i < e.len() && #[trigger] e[i].0 == other;
                lemma_lookup_at(e, j);
                assert(e2[j] == e[j]);
                lemma_lookup_at(e2, j);
            } else {
                assert(!has_key(e2, other)) by {
                    if has_key(e2, other) {
                        let j = choose|i: int| 0 <= i < e2.len() && #[trigger] e2[i].0 == other;
                        assert(e[j].0 == other);
                    }
                }
            }
        }
    } else {
        assert(e2 == e.push((key, value)));
        assert(keys_unique(e2)) by {
            assert forall|i: int, j: int| 0 <= i < j < e2.len() implies #[trigger] e2[i].0 != #[trigger] e2[j].0 by {
                if j == e.len() {
                    assert(e2[i].0 == e[i].0);
                } else {
                    assert(e[i].0 != e[j].0);
                }
            }
        }
        lemma_lookup_at(e2, e.len() as int);
        if other != key {
            if has_key(e, other) {
                let j = choose|i: int| 0 <= i < e.len() && #[trigger] e[i].0 == other;
                lemma_lookup_at(e, j);
                assert(e2[j] == e[j]);
                lemma_lookup_at(e2, j);
            } else {
                assert(!has_key(e2, other)) by {
                    if has_key(e2, other) {
                        let j = choose|i: int| 0 <= i < e2.len() && #[trigger] e2[i].0 == other;
                        if j < e.len() {
                            assert(e[j].0 == other);
                        }
                    }
                }
            }
        }
    }
}

} // verus!
