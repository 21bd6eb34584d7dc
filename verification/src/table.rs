//! An ordered table from 128-bit identifiers to values.
//!
//! The table remembers the order in which keys were first inserted, so that
//! walking over it is deterministic: the state machines in this crate send
//! their notifications in that order.

use vstd::prelude::*;

verus! {

/// `s.index_of(s[i])` is `i` when `s` holds no key twice.
pub proof fn lemma_index_of_unique(s: Seq<u128>, i: int)
    requires
        s.no_duplicates(),
        0 <= i < s.len(),
    ensures
        s.index_of(s[i]) == i,
{
    assert(s.contains(s[i]));
}

/// Ordered association table keyed by identifiers.
pub struct Table<V> {
    keys: Vec<u128>,
    values: Vec<V>,
}

impl<V> Table<V> {
    /// The table is well formed: one value per key, and no key twice.
    pub closed spec fn wf(self) -> bool {
        &&& self.keys@.len() == self.values@.len()
        &&& self.keys@.no_duplicates()
    }

    /// The keys of the table, in the order in which they were first inserted.
    pub closed spec fn key_seq(self) -> Seq<u128> {
        self.keys@
    }

    /// The value stored against each key.
    pub closed spec fn map(self) -> Map<u128, V> {
        Map::new(
            |k: u128| self.keys@.contains(k),
            |k: u128| self.values@[self.keys@.index_of(k)],
        )
    }

    /// The domain of the map is exactly the set of keys.
    pub proof fn lemma_dom(self)
        requires
            self.wf(),
        ensures
            forall|k: u128| self.map().dom().contains(k) <==> #[trigger] self.key_seq().contains(k),
            self.key_seq().no_duplicates(),
    {
    }

    /// Creates an empty table.
    pub fn new() -> (t: Self)
        ensures
            t.wf(),
            t.map() == Map::<u128, V>::empty(),
            t.key_seq() == Seq::<u128>::empty(),
    {
        let t = Table { keys: Vec::new(), values: Vec::new() };
        assert(t.map() =~= Map::<u128, V>::empty());
        t
    }

    /// The number of entries in the table.
    pub fn len(&self) -> (n: usize)
        requires
            self.wf(),
        ensures
            n == self.key_seq().len(),
    {
        self.keys.len()
    }

    /// The position of a key in the insertion order, if it is present.
    pub fn position(&self, key: u128) -> (pos: Option<usize>)
        requires
            self.wf(),
        ensures
            match pos {
                Some(i) => i < self.key_seq().len() && self.key_seq()[i as int] == key
                    && self.key_seq().index_of(key) == i,
                None => !self.key_seq().contains(key),
            },
            pos.is_some() == self.map().dom().contains(key),
    {
        let mut i: usize = 0;
        while i < self.keys.len()
            invariant
                self.wf(),
                i <= self.keys@.len(),
                forall|j: int| 0 <= j < i ==> self.keys@[j] != key,
            decreases self.keys@.len() - i,
        {
            if self.keys[i] == key {
                proof {
                    lemma_index_of_unique(self.keys@, i as int);
                }
                return Some(i);
            }
            i = i + 1;
        }
        None
    }

    /// True if the key is in the table.
    pub fn contains_key(&self, key: u128) -> (r: bool)
        requires
            self.wf(),
        ensures
            r == self.map().dom().contains(key),
            r == self.key_seq().contains(key),
    {
        self.position(key).is_some()
    }

    /// The key stored at a position in the insertion order.
    pub fn key_at(&self, i: usize) -> (k: u128)
        requires
            self.wf(),
            i < self.key_seq().len(),
        ensures
            k == self.key_seq()[i as int],
    {
        self.keys[i]
    }

    /// The value stored at a position in the insertion order.
    pub fn value_at(&self, i: usize) -> (v: &V)
        requires
            self.wf(),
            i < self.key_seq().len(),
        ensures
            *v == self.map()[self.key_seq()[i as int]],
    {
        proof {
            lemma_index_of_unique(self.keys@, i as int);
        }
        &self.values[i]
    }

    /// Looks up the value for a key.
    pub fn get(&self, key: u128) -> (r: Option<&V>)
        requires
            self.wf(),
        ensures
            match r {
                Some(v) => self.map().dom().contains(key) && *v == self.map()[key],
                None => !self.map().dom().contains(key),
            },
    {
        match self.position(key) {
            Some(i) => Some(&self.values[i]),
            None => None,
        }
    }

    /// A copy of the keys, in insertion order.
    pub fn keys(&self) -> (ks: Vec<u128>)
        requires
            self.wf(),
        ensures
            ks@ == self.key_seq(),
    {
        let mut ks: Vec<u128> = Vec::new();
        let mut i: usize = 0;
        while i < self.keys.len()
            invariant
                self.wf(),
                i <= self.keys@.len(),
                ks@ == self.keys@.subrange(0, i as int),
            decreases self.keys@.len() - i,
        {
            ks.push(self.keys[i]);
            i = i + 1;
            assert(ks@ =~= self.keys@.subrange(0, i as int));
        }
        assert(ks@ =~= self.keys@);
        ks
    }

    /// Stores a value against a key, replacing any value already there.
    /// A new key goes to the end of the insertion order; an existing key keeps its place.
    pub fn insert(&mut self, key: u128, value: V)
        requires
            old(self).wf(),
        ensures
            final(self).wf(),
            final(self).map() == old(self).map().insert(key, value),
            final(self).key_seq() == (if old(self).key_seq().contains(key) {
                old(self).key_seq()
            } else {
                old(self).key_seq().push(key)
            }),
    {
        let ghost old_keys = self.keys@;
        let ghost old_values = self.values@;
        let ghost old_map = self.map();
        match self.position(key) {
            Some(i) => {
                self.values.set(i, value);
                proof {
                    assert forall|k: u128| #[trigger] self.map().dom().contains(k)
                        <==> old_map.insert(key, value).dom().contains(k) by {}
                    assert forall|k: u128| self.map().dom().contains(k)
                        implies #[trigger] self.map()[k] == old_map.insert(key, value)[k] by {
                        let p = self.keys@.index_of(k);
                        lemma_index_of_unique(self.keys@, p);
                    }
                    assert(self.map() =~= old_map.insert(key, value));
                }
            },
            None => {
                self.keys.push(key);
                self.values.push(value);
                proof {
                    assert(self.keys@.no_duplicates()) by {
                        assert forall|a: int, b: int|
                            0 <= a < self.keys@.len() && 0 <= b < self.keys@.len() && a != b
                            implies self.keys@[a] != self.keys@[b] by {
                            if a < old_keys.len() && b < old_keys.len() {
                            } else if a < old_keys.len() {
                                assert(old_keys.contains(old_keys[a]));
                            } else {
                                assert(old_keys.contains(old_keys[b]));
                            }
                        }
                    }
                    assert forall|k: u128| #[trigger] self.map().dom().contains(k)
                        <==> old_map.insert(key, value).dom().contains(k) by {
                        if self.keys@.contains(k) && k != key {
                            let p = choose|p: int| 0 <= p < self.keys@.len() && self.keys@[p] == k;
                            assert(old_keys[p] == k);
                        }
                        if k == key {
                            assert(self.keys@[old_keys.len() as int] == key);
                        }
                        if old_keys.contains(k) {
                            let p = choose|p: int| 0 <= p < old_keys.len() && old_keys[p] == k;
                            assert(self.keys@[p] == k);
                        }
                    }
                    assert forall|k: u128| self.map().dom().contains(k)
                        implies #[trigger] self.map()[k] == old_map.insert(key, value)[k] by {
                        let p = self.keys@.index_of(k);
                        lemma_index_of_unique(self.keys@, p);
                        if k != key {
                            lemma_index_of_unique(old_keys, p);
                        }
                    }
                    assert(self.map() =~= old_map.insert(key, value));
                }
            },
        }
    }

    /// Removes a key, returning the value that was stored against it.
    /// The other keys keep their relative order.
    pub fn remove(&mut self, key: u128) -> (r: Option<V>)
        requires
            old(self).wf(),
        ensures
            final(self).wf(),
            final(self).map() == old(self).map().remove(key),
            match r {
                Some(v) => old(self).map().dom().contains(key) && v == old(self).map()[key]
                    && final(self).key_seq() == old(self).key_seq().remove(old(self).key_seq().index_of(key)),
                None => !old(self).map().dom().contains(key) && final(self).key_seq() == old(self).key_seq(),
            },
    {
        let ghost old_keys = self.keys@;
        let ghost old_values = self.values@;
        let ghost old_map = self.map();
        match self.position(key) {
            Some(i) => {
                self.keys.remove(i);
                let v = self.values.remove(i);
                proof {
                    let ni = i as int;
                    assert forall|a: int| 0 <= a < self.keys@.len()
                        implies #[trigger] self.keys@[a] == old_keys[if a < ni { a } else { a + 1 }] by {}
                    assert(self.keys@.no_duplicates()) by {
                        assert forall|a: int, b: int|
                            0 <= a < self.keys@.len() && 0 <= b < self.keys@.len() && a != b
                            implies self.keys@[a] != self.keys@[b] by {
                            let oa = if a < ni { a } else { a + 1 };
                            let ob = if b < ni { b } else { b + 1 };
                            assert(self.keys@[a] == old_keys[oa]);
                            assert(self.keys@[b] == old_keys[ob]);
                        }
                    }
                    assert forall|k: u128| #[trigger] self.map().dom().contains(k)
                        <==> old_map.remove(key).dom().contains(k) by {
                        if self.keys@.contains(k) {
                            let p = choose|p: int| 0 <= p < self.keys@.len() && self.keys@[p] == k;
                            let op = if p < ni { p } else { p + 1 };
                            assert(old_keys[op] == k);
                            assert(old_keys.contains(k));
                            if k == key {
                                assert(old_keys[ni] == key);
                            }
                        }
                        if old_keys.contains(k) && k != key {
                            let p = choose|p: int| 0 <= p < old_keys.len() && old_keys[p] == k;
                            assert(p != ni);
                            let np = if p < ni { p } else { p - 1 };
                            assert(self.keys@[np] == k);
                        }
                    }
                    assert forall|k: u128| self.map().dom().contains(k)
                        implies #[trigger] self.map()[k] == old_map.remove(key)[k] by {
                        let p = self.keys@.index_of(k);
                        lemma_index_of_unique(self.keys@, p);
                        let op = if p < ni { p } else { p + 1 };
                        assert(old_keys[op] == k);
                        lemma_index_of_unique(old_keys, op);
                    }
                    assert(self.map() =~= old_map.remove(key));
                    lemma_index_of_unique(old_keys, ni);
                }
                Some(v)
            },
            None => {
                proof {
                    assert(self.map() =~= old_map.remove(key));
                }
                None
            },
        }
    }
}

} // verus!
