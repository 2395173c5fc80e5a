//! A map kept as a vector of `(key, value)` entries with distinct keys: the
//! model of one storage map of the pallet.

use vstd::prelude::*;

verus! {

/// Keys that can be compared for equality in executable code.
pub trait Key: Sized {
    /// Whether the two keys are equal.
    fn key_eq(&self, other: &Self) -> (r: bool)
        ensures
            r == (*self == *other),
    ;
}

impl Key for u64 {
    fn key_eq(&self, other: &Self) -> (r: bool) {
        *self == *other
    }
}

impl Key for [u8; 32] {
    fn key_eq(&self, other: &Self) -> (r: bool) {
        let mut i: usize = 0;
        while i < 32
            invariant
                0 <= i <= 32,
                forall|j: int| 0 <= j < i ==> self[j] == other[j],
            decreases 32 - i,
        {
            if self[i] != other[i] {
                return false;
            }
            i = i + 1;
        }
        assert(*self =~= *other);
        true
    }
}

/// The map that a sequence of entries stands for: each key that occurs is
/// mapped to the value of an entry with that key.
pub open spec fn entries_map<K, V>(s: Seq<(K, V)>) -> Map<K, V> {
    Map::new(
        |k: K| exists|i: int| 0 <= i < s.len() && s[i].0 == k,
        |k: K| s[choose|i: int| 0 <= i < s.len() && s[i].0 == k].1,
    )
}

/// No key occurs in two entries.
pub open spec fn distinct_keys<K, V>(s: Seq<(K, V)>) -> bool {
    forall|i: int, j: int| 0 <= i < s.len() && 0 <= j < s.len() && i != j ==> s[i].0 != s[j].0
}

/// An entry of a sequence with distinct keys gives the map's value at its key.
pub proof fn lemma_entry_in_map<K, V>(s: Seq<(K, V)>, i: int)
    requires
        distinct_keys(s),
        0 <= i < s.len(),
    ensures
        entries_map(s).contains_key(s[i].0),
        entries_map(s)[s[i].0] == s[i].1,
{
    let k = s[i].0;
    assert(exists|j: int| 0 <= j < s.len() && s[j].0 == k);
    let j = choose|j: int| 0 <= j < s.len() && s[j].0 == k;
    assert(j == i);
}

/// The keys of a sequence of entries, in order.
pub open spec fn entry_keys<K, V>(s: Seq<(K, V)>) -> Seq<K> {
    s.map_values(|e: (K, V)| e.0)
}

/// A map from keys to values, kept as a vector of entries with distinct keys.
pub struct Table<K, V> {
    entries: Vec<(K, V)>,
}

impl<K, V> View for Table<K, V> {
    type V = Map<K, V>;

    closed spec fn view(&self) -> Map<K, V> {
        entries_map(self.entries@)
    }
}

impl<K: Key, V> Table<K, V> {
    /// The table is well formed: no key occurs twice.
    pub closed spec fn wf(&self) -> bool {
        distinct_keys(self.entries@)
    }

    /// An empty table.
    pub fn new() -> (r: Self)
        ensures
            r.wf(),
            r@ == Map::<K, V>::empty(),
    {
        let r = Table { entries: Vec::new() };
        assert(r@ =~= Map::<K, V>::empty());
        r
    }

    /// The position of the entry with key `key`, if there is one.
    fn find(&self, key: &K) -> (r: Option<usize>)
        requires
            self.wf(),
        ensures
            match r {
                Some(i) => i < self.entries@.len() && self.entries@[i as int].0 == *key,
                None => !self@.contains_key(*key),
            },
    {
        let mut i: usize = 0;
        while i < self.entries.len()
            invariant
                0 <= i <= self.entries@.len(),
                forall|j: int| 0 <= j < i ==> self.entries@[j].0 != *key,
            decreases self.entries@.len() - i,
        {
            if self.entries[i].0.key_eq(key) {
                return Some(i);
            }
            i = i + 1;
        }
        None
    }

    /// Whether the table holds a value for `key`.
    pub fn contains_key(&self, key: &K) -> (r: bool)
        requires
            self.wf(),
        ensures
            r == self@.contains_key(*key),
    {
        match self.find(key) {
            Some(i) => {
                proof {
                    lemma_entry_in_map(self.entries@, i as int);
                }
                true
            },
            None => false,
        }
    }

    /// The value held for `key`, if there is one.
    pub fn get(&self, key: &K) -> (r: Option<&V>)
        requires
            self.wf(),
        ensures
            match r {
                Some(v) => self@.contains_key(*key) && *v == self@[*key],
                None => !self@.contains_key(*key),
            },
    {
        match self.find(key) {
            Some(i) => {
                proof {
                    lemma_entry_in_map(self.entries@, i as int);
                }
                Some(&self.entries[i].1)
            },
            None => None,
        }
    }

    /// Stores `value` under `key`, in place of any value held for it.
    pub fn insert(&mut self, key: K, value: V)
        requires
            old(self).wf(),
        ensures
            final(self).wf(),
            final(self)@ == old(self)@.insert(key, value),
    {
        let ghost old_entries = self.entries@;
        match self.find(&key) {
            Some(i) => {
                self.entries.set(i, (key, value));
                proof {
                    let s = self.entries@;
                    assert(self@ =~= old(self)@.insert(key, value)) by {
                        assert forall|k: K|
                            self@.contains_key(k) <==> old(self)@.insert(key, value).contains_key(
                                k,
                            ) by {
                            if k == key {
                                lemma_entry_in_map(s, i as int);
                            } else if old(self)@.contains_key(k) {
                                let j = choose|j: int|
                                    0 <= j < old_entries.len() && old_entries[j].0 == k;
                                assert(s[j].0 == k);
                            } else if self@.contains_key(k) {
                                let j = choose|j: int| 0 <= j < s.len() && s[j].0 == k;
                                assert(old_entries[j].0 == k);
                            }
                        }
                        assert forall|k: K| #[trigger]
                            self@.contains_key(k) implies self@[k] == old(self)@.insert(
                            key,
                            value,
                        )[k] by {
                            if k == key {
                                lemma_entry_in_map(s, i as int);
                            } else {
                                let j = choose|j: int| 0 <= j < s.len() && s[j].0 == k;
                                lemma_entry_in_map(s, j);
                                lemma_entry_in_map(old_entries, j);
                            }
                        }
                    }
                }
            },
            None => {
                self.entries.push((key, value));
                proof {
                    let s = self.entries@;
                    let n = old_entries.len() as int;
                    assert(self@ =~= old(self)@.insert(key, value)) by {
                        assert forall|k: K|
                            self@.contains_key(k) <==> old(self)@.insert(key, value).contains_key(
                                k,
                            ) by {
                            if k == key {
                                lemma_entry_in_map(s, n);
                            } else if old(self)@.contains_key(k) {
                                let j = choose|j: int|
                                    0 <= j < old_entries.len() && old_entries[j].0 == k;
                                assert(s[j].0 == k);
                            } else if self@.contains_key(k) {
                                let j = choose|j: int| 0 <= j < s.len() && s[j].0 == k;
                                assert(old_entries[j].0 == k);
                            }
                        }
                        assert forall|k: K| #[trigger]
                            self@.contains_key(k) implies self@[k] == old(self)@.insert(
                            key,
                            value,
                        )[k] by {
                            if k == key {
                                lemma_entry_in_map(s, n);
                            } else {
                                let j = choose|j: int| 0 <= j < s.len() && s[j].0 == k;
                                lemma_entry_in_map(s, j);
                                lemma_entry_in_map(old_entries, j);
                            }
                        }
                    }
                }
            },
        }
    }

    /// Removes the entry for `key`, if there is one.
    pub fn remove(&mut self, key: &K)
        requires
            old(self).wf(),
        ensures
            final(self).wf(),
            final(self)@ == old(self)@.remove(*key),
    {
        let ghost old_entries = self.entries@;
        match self.find(key) {
            Some(i) => {
                let _ = self.entries.remove(i);
                proof {
                    let s = self.entries@;
                    assert(forall|j: int| 0 <= j < i ==> s[j] == old_entries[j]);
                    assert(forall|j: int| i <= j < s.len() ==> s[j] == old_entries[j + 1]);
                    assert(self@ =~= old(self)@.remove(*key)) by {
                        assert forall|k: K|
                            self@.contains_key(k) <==> old(self)@.remove(*key).contains_key(k) by {
                            if self@.contains_key(k) {
                                let j = choose|j: int| 0 <= j < s.len() && s[j].0 == k;
                                if j < i {
                                    assert(old_entries[j].0 == k);
                                } else {
                                    assert(old_entries[j + 1].0 == k);
                                }
                            }
                            if old(self)@.remove(*key).contains_key(k) {
                                let j = choose|j: int|
                                    0 <= j < old_entries.len() && old_entries[j].0 == k;
                                if j < i {
                                    assert(s[j].0 == k);
                                } else {
                                    assert(s[j - 1].0 == k);
                                }
                            }
                        }
                        assert forall|k: K| #[trigger]
                            self@.contains_key(k) implies self@[k] == old(self)@.remove(
                            *key,
                        )[k] by {
                            let j = choose|j: int| 0 <= j < s.len() && s[j].0 == k;
                            lemma_entry_in_map(s, j);
                            if j < i {
                                lemma_entry_in_map(old_entries, j);
                            } else {
                                lemma_entry_in_map(old_entries, j + 1);
                            }
                        }
                    }
                }
            },
            None => {
                assert(self@ =~= old(self)@.remove(*key));
            },
        }
    }

    /// The number of entries, which is the number of keys the table maps.
    pub fn len(&self) -> (r: usize)
        requires
            self.wf(),
        ensures
            self@.dom().finite(),
            r == self@.len(),
    {
        proof {
            let s = self.entries@;
            let ks = entry_keys(s);
            assert(self@.dom() =~= ks.to_set()) by {
                assert forall|k: K| self@.dom().contains(k) <==> ks.to_set().contains(k) by {
                    if self@.dom().contains(k) {
                        let j = choose|j: int| 0 <= j < s.len() && s[j].0 == k;
                        assert(ks[j] == k);
                    }
                    if ks.to_set().contains(k) {
                        let j = choose|j: int| 0 <= j < ks.len() && ks[j] == k;
                        assert(s[j].0 == k);
                    }
                }
            }
            assert(ks.no_duplicates());
            ks.unique_seq_to_set();
            vstd::seq_lib::seq_to_set_is_finite(ks);
        }
        self.entries.len()
    }
}

} // verus!
