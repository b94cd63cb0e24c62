use vstd::prelude::*;
use vstd::hash_map::StringHashMap;

verus! {

broadcast use vstd::hash_map::group_hash_map_axioms;

/// Some entry of `e` has key `k`.
pub open spec fn has_key<W>(e: Seq<(Seq<char>, W)>, k: Seq<char>) -> bool {
    exists|i: int| 0 <= i < e.len() && #[trigger] e[i].0 == k
}

/// A position of `e` whose entry has key `k`.
pub open spec fn key_position<W>(e: Seq<(Seq<char>, W)>, k: Seq<char>) -> int {
    choose|i: int| 0 <= i < e.len() && #[trigger] e[i].0 == k
}

/// The value stored under `k` in `e`.
pub open spec fn lookup<W>(e: Seq<(Seq<char>, W)>, k: Seq<char>) -> Option<W> {
    if has_key(e, k) {
        Some(e[key_position(e, k)].1)
    } else {
        None
    }
}

/// No two entries of `e` have the same key.
pub open spec fn unique_keys<W>(e: Seq<(Seq<char>, W)>) -> bool {
    forall|i: int, j: int|
        0 <= i < e.len() && 0 <= j < e.len() && #[trigger] e[i].0 == #[trigger] e[j].0 ==> i == j
}

/// `e` after storing `v` under `k`: the entry with key `k` gets value `v` where there is
/// one; otherwise a new entry comes last.
pub open spec fn inserted<W>(e: Seq<(Seq<char>, W)>, k: Seq<char>, v: W) -> Seq<(Seq<char>, W)> {
    if has_key(e, k) {
        e.update(key_position(e, k), (k, v))
    } else {
        e.push((k, v))
    }
}

/// Storing a value and reading it back: after `v` is stored under `k`, reading `k` gives
/// `v`, reading any other key gives what it gave before, keys stay unique, and the
/// number of entries grows by one exactly when `k` was new.
pub proof fn lemma_lookup_after_insert<W>(e: Seq<(Seq<char>, W)>, k: Seq<char>, v: W, other: Seq<char>)
    requires
        unique_keys(e),
    ensures
        unique_keys(inserted(e, k, v)),
        lookup(inserted(e, k, v), k) == Some(v),
        other != k ==> lookup(inserted(e, k, v), other) == lookup(e, other),
        inserted(e, k, v).len() == if has_key(e, k) {
            e.len()
        } else {
            e.len() + 1
        },
{
    let n = inserted(e, k, v);
    if has_key(e, k) {
        let p = key_position(e, k);
        assert(n[p].0 == k);
        assert(has_key(n, k));
        assert(n[key_position(n, k)].0 == k);
        if other != k {
            if has_key(e, other) {
                let q = key_position(e, other);
                assert(n[q].0 == other);
                assert(has_key(n, other));
            } else {
                assert forall|i: int| 0 <= i < n.len() implies #[trigger] n[i].0 != other by {
                    if i != p {
                        assert(n[i] == e[i]);
                    }
                }
            }
        }
    } else {
        let p = e.len() as int;
        assert(n[p].0 == k);
        assert(has_key(n, k));
        if other != k && has_key(e, other) {
            let q = key_position(e, other);
            assert(n[q].0 == other);
            assert(has_key(n, other));
        }
    }
}

/// A collection of values stored under text keys, each key at most once, that keeps the
/// order in which keys were first stored.
pub struct KeyedIndex<V> {
    positions: StringHashMap<usize>,
    entries: Vec<(String, V)>,
}

/// The keys and views of a vector of entries.
pub open spec fn entry_views<V: View>(e: Seq<(String, V)>) -> Seq<(Seq<char>, V::V)> {
    e.map_values(|x: (String, V)| (x.0@, x.1@))
}

impl<V: View> View for KeyedIndex<V> {
    type V = Seq<(Seq<char>, V::V)>;

    closed spec fn view(&self) -> Seq<(Seq<char>, V::V)> {
        entry_views(self.entries@)
    }
}

impl<V: View> KeyedIndex<V> {
    /// The index is consistent: the position map finds exactly the stored entries.
    pub closed spec fn wf(&self) -> bool {
        &&& forall|k: Seq<char>| #[trigger]
            self.positions@.contains_key(k) ==> {
                &&& self.positions@[k] < self.entries@.len()
                &&& self.entries@[self.positions@[k] as int].0@ == k
            }
        &&& forall|i: int|
            0 <= i < self.entries@.len() ==> {
                &&& #[trigger] self.positions@.contains_key(self.entries@[i].0@)
                &&& self.positions@[self.entries@[i].0@] == i
            }
    }

    proof fn lemma_wf_unique(&self)
        requires
            self.wf(),
        ensures
            unique_keys(self@),
            forall|k: Seq<char>| #[trigger]
                self.positions@.contains_key(k) <==> has_key(self@, k),
            forall|k: Seq<char>| #[trigger]
                has_key(self@, k) ==> key_position(self@, k) == self.positions@[k] as int,
    {
        let e = self@;
        assert forall|i: int, j: int|
            0 <= i < e.len() && 0 <= j < e.len() && #[trigger] e[i].0 == #[trigger] e[j].0 implies i
            == j by {
            assert(e[i].0 == self.entries@[i].0@);
            assert(e[j].0 == self.entries@[j].0@);
            assert(self.positions@.contains_key(self.entries@[i].0@));
            assert(self.positions@.contains_key(self.entries@[j].0@));
            assert(self.positions@[self.entries@[i].0@] == i);
            assert(self.positions@[self.entries@[j].0@] == j);
        }
        assert forall|k: Seq<char>| #[trigger]
            self.positions@.contains_key(k) implies has_key(self@, k) by {
            let p = self.positions@[k] as int;
            assert(e[p].0 == k);
        }
        assert forall|k: Seq<char>| #[trigger] has_key(self@, k) implies key_position(self@, k)
            == self.positions@[k] as int by {
            let p = key_position(e, k);
            assert(e[p].0 == k);
            assert(e[p].0 == self.entries@[p].0@);
            assert(self.positions@.contains_key(self.entries@[p].0@));
        }
    }

    /// The keys of this index are unique.
    pub proof fn lemma_unique_keys(&self)
        requires
            self.wf(),
        ensures
            unique_keys(self@),
    {
        self.lemma_wf_unique();
    }

    /// An empty index.
    pub fn new() -> (r: Self)
        ensures
            r.wf(),
            r@ == Seq::<(Seq<char>, V::V)>::empty(),
    {
        let r = KeyedIndex { positions: StringHashMap::new(), entries: Vec::new() };
        assert(r@ =~= Seq::<(Seq<char>, V::V)>::empty());
        r
    }

    /// The number of entries.
    pub fn len(&self) -> (r: usize)
        ensures
            r == self@.len(),
    {
        self.entries.len()
    }

    /// The key and value of the entry at position `i`.
    pub fn entry(&self, i: usize) -> (r: &(String, V))
        requires
            i < self@.len(),
        ensures
            r.0@ == self@[i as int].0,
            r.1@ == self@[i as int].1,
    {
        &self.entries[i]
    }

    /// Stores `value` under `key` (`HashMap::insert`).
    pub fn insert(&mut self, key: String, value: V)
        requires
            old(self).wf(),
        ensures
            final(self).wf(),
            final(self)@ == inserted(old(self)@, key@, value@),
    {
        proof {
            self.lemma_wf_unique();
        }
        let ghost e = self@;
        match self.positions.get(key.as_str()) {
            Some(p) => {
                let p = *p;
                assert(key_position(e, key@) == p);
                let ghost old_entries = self.entries@;
                self.entries.set(p, (key, value));
                assert(self@ =~= e.update(p as int, (key@, value@)));
                assert forall|i: int| 0 <= i < self.entries@.len() implies {
                    &&& #[trigger] self.positions@.contains_key(self.entries@[i].0@)
                    &&& self.positions@[self.entries@[i].0@] == i
                } by {
                    if i != p {
                        assert(self.entries@[i] == old_entries[i]);
                    }
                }
            },
            None => {
                let p = self.entries.len();
                let ghost old_positions = self.positions@;
                let ghost old_entries = self.entries@;
                self.positions.insert(key.clone(), p);
                self.entries.push((key, value));
                assert(self@ =~= e.push((key@, value@)));
                assert forall|i: int| 0 <= i < self.entries@.len() implies #[trigger] self.positions@.contains_key(self.entries@[i].0@)
                    && self.positions@[self.entries@[i].0@] == i by {
                    if i < p {
                        assert(self.entries@[i] == old_entries[i]);
                        assert(old_positions.contains_key(old_entries[i].0@));
                        assert(old_positions[old_entries[i].0@] == i);
                        assert(old_entries[i].0@ != key@);
                        assert(self.positions@.contains_key(old_entries[i].0@));
                        assert(self.positions@[old_entries[i].0@] == i);
                    } else {
                        assert(self.entries@[i].0@ == key@);
                    }
                }
                assert forall|k: Seq<char>| #[trigger] self.positions@.contains_key(k) implies
                    self.positions@[k] < self.entries@.len() && self.entries@[self.positions@[k] as int].0@ == k by {
                    if k != key@ {
                        assert(old_positions.contains_key(k));
                        assert(self.entries@[old_positions[k] as int] == old_entries[old_positions[k] as int]);
                    }
                }
            },
        }
    }

    /// The value stored under `key`, if any (`HashMap::get`).
    pub fn get(&self, key: &str) -> (r: Option<&V>)
        requires
            self.wf(),
        ensures
            match lookup(self@, key@) {
                Some(v) => r is Some && r->0@ == v,
                None => r is None,
            },
    {
        proof {
            self.lemma_wf_unique();
        }
        match self.positions.get(key) {
            Some(p) => {
                let p = *p;
                Some(&self.entries[p].1)
            },
            None => None,
        }
    }
}

} // verus!
