//! Tables: one for keys that are not numbers, kept in the order of insertion, and what is done to
//! maps of numbers.

use std::collections::HashMap;
use vstd::prelude::*;
use vstd::std_specs::iter::IteratorSpec;

verus! {

/// A key that can be compared.
pub trait TableKey: Copy {
    /// Whether two keys are the same.
    fn same(self, other: Self) -> (r: bool)
        ensures
            r == (self == other),
    ;
}

/// Values by key, each key at most once.
#[derive(Debug)]
pub struct Table<K: TableKey, V> {
    entries: Vec<(K, V)>,
}

/// Whether no key occurs twice.
pub open spec fn distinct_keys<K, V>(entries: Seq<(K, V)>) -> bool {
    forall|i: int, j: int|
        0 <= i < j < entries.len() ==> (#[trigger] entries[i]).0 != (#[trigger] entries[j]).0
}

/// Whether a key occurs.
pub open spec fn has_key<K, V>(entries: Seq<(K, V)>, key: K) -> bool {
    exists|i: int| 0 <= i < entries.len() && (#[trigger] entries[i]).0 == key
}

/// The value beside a key.
pub open spec fn value_of<K, V>(entries: Seq<(K, V)>, key: K) -> V {
    let i = choose|i: int| 0 <= i < entries.len() && (#[trigger] entries[i]).0 == key;
    entries[i].1
}

/// The contents of a list of entries.
pub open spec fn entries_map<K, V>(entries: Seq<(K, V)>) -> Map<K, V> {
    Map::new(|key: K| has_key(entries, key), |key: K| value_of(entries, key))
}

proof fn lemma_at<K, V>(entries: Seq<(K, V)>, i: int)
    requires
        distinct_keys(entries),
        0 <= i < entries.len(),
    ensures
        has_key(entries, entries[i].0),
        value_of(entries, entries[i].0) == entries[i].1,
{
    let key = entries[i].0;
    let j = choose|j: int| 0 <= j < entries.len() && (#[trigger] entries[j]).0 == key;
    if j < i {
        assert(entries[j].0 != entries[i].0);
    } else if i < j {
        assert(entries[i].0 != entries[j].0);
    }
}

impl<K: TableKey, V> Table<K, V> {
    /// No key occurs twice.
    pub closed spec fn valid(self) -> bool {
        distinct_keys(self.entries@)
    }

    /// The contents.
    pub closed spec fn map(self) -> Map<K, V> {
        entries_map(self.entries@)
    }

    /// An empty table.
    pub fn new() -> (r: Self)
        ensures
            r.valid(),
            r.map() == Map::<K, V>::empty(),
    {
        let r: Table<K, V> = Table { entries: Vec::new() };
        proof {
            assert(r.map() =~= Map::<K, V>::empty());
        }
        r
    }

    fn position(&self, key: K) -> (r: Option<usize>)
        requires
            self.valid(),
        ensures
            match r {
                Some(i) => i < self.entries@.len() && self.entries@[i as int].0 == key
                    && self.map().contains_key(key) && self.map()[key]
                    == self.entries@[i as int].1,
                None => !self.map().contains_key(key),
            },
    {
        let mut i: usize = 0;
        while i < self.entries.len()
            invariant
                self.valid(),
                i <= self.entries.len(),
                forall|j: int| 0 <= j < i ==> (#[trigger] self.entries@[j]).0 != key,
            decreases self.entries.len() - i,
        {
            if self.entries[i].0.same(key) {
                proof {
                    lemma_at(self.entries@, i as int);
                }
                return Some(i);
            }
            i = i + 1;
        }
        None
    }

    /// The value beside a key.
    pub fn get(&self, key: K) -> (r: Option<&V>)
        requires
            self.valid(),
        ensures
            match r {
                Some(v) => self.map().contains_key(key) && self.map()[key] == *v,
                None => !self.map().contains_key(key),
            },
    {
        match self.position(key) {
            Some(i) => Some(&self.entries[i].1),
            None => None,
        }
    }

    fn remove_at(&mut self, i: usize) -> (r: V)
        requires
            old(self).valid(),
            i < old(self).entries@.len(),
        ensures
            final(self).valid(),
            final(self).entries@ == old(self).entries@.remove(i as int),
            final(self).map() == old(self).map().remove(old(self).entries@[i as int].0),
            r == old(self).entries@[i as int].1,
    {
        let ghost before = self.entries@;
        let ghost key = before[i as int].0;
        let entry = self.entries.remove(i);
        proof {
            let after = self.entries@;
            assert forall|a: int, b: int| 0 <= a < b < after.len() implies (#[trigger] after[a]).0
                != (#[trigger] after[b]).0 by {
                let x = if a < i {
                    a
                } else {
                    a + 1
                };
                let y = if b < i {
                    b
                } else {
                    b + 1
                };
                assert(after[a] == before[x] && after[b] == before[y]);
            }
            lemma_at(before, i as int);
            assert forall|k: K| has_key(after, k) == (has_key(before, k) && k != key) by {
                if has_key(after, k) {
                    let a = choose|a: int| 0 <= a < after.len() && (#[trigger] after[a]).0 == k;
                    let x = if a < i {
                        a
                    } else {
                        a + 1
                    };
                    assert(before[x] == after[a]);
                    if k == key {
                        assert(before[x].0 != before[i as int].0);
                    }
                }
                if has_key(before, k) && k != key {
                    let x = choose|x: int| 0 <= x < before.len() && (#[trigger] before[x]).0 == k;
                    let a = if x < i {
                        x
                    } else {
                        x - 1
                    };
                    assert(after[a] == before[x]);
                }
            }
            assert forall|k: K| has_key(after, k) implies value_of(after, k) == value_of(
                before,
                k,
            ) by {
                let a = choose|a: int| 0 <= a < after.len() && (#[trigger] after[a]).0 == k;
                let x = if a < i {
                    a
                } else {
                    a + 1
                };
                assert(before[x] == after[a]);
                lemma_at(before, x);
                lemma_at(after, a);
            }
            assert(entries_map(after) =~= entries_map(before).remove(key));
        }
        entry.1
    }

    /// Takes the value beside a key out of the table.
    pub fn take(&mut self, key: K) -> (r: Option<V>)
        requires
            old(self).valid(),
        ensures
            final(self).valid(),
            final(self).map() == old(self).map().remove(key),
            match r {
                Some(v) => old(self).map().contains_key(key) && old(self).map()[key] == v,
                None => !old(self).map().contains_key(key),
            },
    {
        match self.position(key) {
            Some(i) => Some(self.remove_at(i)),
            None => {
                proof {
                    assert(self.map() =~= self.map().remove(key));
                }
                None
            },
        }
    }

    /// Puts a value beside a key, in place of any earlier one.
    pub fn insert(&mut self, key: K, value: V)
        requires
            old(self).valid(),
        ensures
            final(self).valid(),
            final(self).map() == old(self).map().insert(key, value),
    {
        let _ = self.take(key);
        let ghost before = self.entries@;
        proof {
            assert(entries_map(before) == old(self).map().remove(key));
            assert(!entries_map(before).contains_key(key));
            assert(!has_key(before, key));
        }
        self.entries.push((key, value));
        proof {
            let after = self.entries@;
            let last = before.len() as int;
            assert forall|a: int, b: int| 0 <= a < b < after.len() implies (#[trigger] after[a]).0
                != (#[trigger] after[b]).0 by {
                assert(after[a] == before[a]);
                if b < last {
                    assert(after[b] == before[b]);
                }
            }
            assert(after[last] == (key, value));
            lemma_at(after, last);
            assert forall|k: K| has_key(after, k) == (has_key(before, k) || k == key) by {
                if has_key(after, k) && k != key {
                    let a = choose|a: int| 0 <= a < after.len() && (#[trigger] after[a]).0 == k;
                    assert(before[a] == after[a]);
                }
                if has_key(before, k) {
                    let a = choose|a: int| 0 <= a < before.len() && (#[trigger] before[a]).0 == k;
                    assert(before[a] == after[a]);
                }
            }
            assert forall|k: K| has_key(before, k) implies value_of(after, k) == value_of(
                before,
                k,
            ) by {
                let a = choose|a: int| 0 <= a < before.len() && (#[trigger] before[a]).0 == k;
                assert(before[a] == after[a]);
                lemma_at(before, a);
                lemma_at(after, a);
            }
            assert forall|k: K| #[trigger] entries_map(before).contains_key(k) == has_key(
                before,
                k,
            ) by {}
            assert(entries_map(after) =~= entries_map(before).insert(key, value));
            assert(old(self).map().remove(key).insert(key, value) =~= old(self).map().insert(
                key,
                value,
            ));
        }
    }

    /// Takes the entries of some keys out of the table, and no other.
    pub fn remove_all(&mut self, keys: &Vec<K>)
        requires
            old(self).valid(),
        ensures
            final(self).valid(),
            forall|key: K| #[trigger]
                final(self).map().contains_key(key) <==> old(self).map().contains_key(key)
                    && !keys@.contains(key),
            forall|key: K| #[trigger]
                final(self).map().contains_key(key) ==> final(self).map()[key] == old(
                    self,
                ).map()[key],
    {
        let ghost before = self.map();
        let mut i: usize = 0;
        while i < keys.len()
            invariant
                self.valid(),
                i <= keys.len(),
                forall|key: K| #[trigger]
                    self.map().contains_key(key) <==> before.contains_key(key) && !keys@.take(
                        i as int,
                    ).contains(key),
                forall|key: K| #[trigger]
                    self.map().contains_key(key) ==> self.map()[key] == before[key],
            decreases keys.len() - i,
        {
            let ghost mid = self.map();
            let _ = self.take(keys[i]);
            proof {
                let gone = keys@[i as int];
                assert forall|key: K| keys@.take(i + 1).contains(key) <==> keys@.take(
                    i as int,
                ).contains(key) || key == gone by {
                    if keys@.take(i + 1).contains(key) {
                        let taken = keys@.take(i + 1);
                        let j = choose|j: int| 0 <= j < taken.len() && taken[j] == key;
                        if j < i {
                            assert(keys@.take(i as int)[j] == key);
                        }
                    }
                    if keys@.take(i as int).contains(key) {
                        let taken = keys@.take(i as int);
                        let j = choose|j: int| 0 <= j < taken.len() && taken[j] == key;
                        assert(keys@.take(i + 1)[j] == key);
                    }
                    assert(keys@.take(i + 1)[i as int] == gone);
                }
                assert forall|key: K| #[trigger] self.map().contains_key(key) <==> before.contains_key(
                    key,
                ) && !keys@.take(i + 1).contains(key) by {
                    assert(mid.contains_key(key) <==> before.contains_key(key) && !keys@.take(
                        i as int,
                    ).contains(key));
                }
                assert forall|key: K| #[trigger] self.map().contains_key(key) implies self.map()[key]
                    == before[key] by {
                    assert(mid.contains_key(key));
                }
            }
            i = i + 1;
        }
        proof {
            assert(keys@.take(i as int) =~= keys@);
        }
    }

    /// The number of entries.
    pub fn len(&self) -> (r: usize)
        ensures
            r == self.size(),
    {
        self.entries.len()
    }

    /// The number of entries.
    pub closed spec fn size(self) -> nat {
        self.entries@.len()
    }

    /// The key of the entry at a position.
    pub closed spec fn key_at(self, i: int) -> K {
        self.entries@[i].0
    }

    /// The key and the value at a position.
    pub fn entry(&self, i: usize) -> (r: (K, &V))
        requires
            self.valid(),
            i < self.size(),
        ensures
            r.0 == self.key_at(i as int),
            self.map().contains_key(r.0),
            self.map()[r.0] == *r.1,
    {
        proof {
            lemma_at(self.entries@, i as int);
        }
        (self.entries[i].0, &self.entries[i].1)
    }

    /// The entries are reached by their positions, each key at one position.
    pub proof fn positions(self)
        requires
            self.valid(),
        ensures
            forall|i: int|
                0 <= i < self.size() ==> self.map().contains_key(#[trigger] self.key_at(i)),
            forall|i: int, j: int|
                0 <= i < j < self.size() ==> #[trigger] self.key_at(i) != #[trigger] self.key_at(j),
            forall|key: K| #[trigger] self.map().contains_key(key) ==> exists|i: int|
                0 <= i < self.size() && #[trigger] self.key_at(i) == key,
    {
        assert forall|i: int| 0 <= i < self.size() implies self.map().contains_key(
            #[trigger] self.key_at(i),
        ) by {
            lemma_at(self.entries@, i);
        }
        assert forall|i: int, j: int| 0 <= i < j < self.size() implies #[trigger] self.key_at(i)
            != #[trigger] self.key_at(j) by {
            assert(self.entries@[i].0 != self.entries@[j].0);
        }
        assert forall|key: K| #[trigger] self.map().contains_key(key) implies exists|i: int|
            0 <= i < self.size() && #[trigger] self.key_at(i) == key by {
            let i = choose|i: int|
                0 <= i < self.entries@.len() && (#[trigger] self.entries@[i]).0 == key;
            assert(self.key_at(i) == key);
        }
    }
}

/// A value that lives until an instant.
pub trait Expires {
    /// The instant.
    spec fn deadline(&self) -> u64;

    /// The instant.
    fn expires_at(&self) -> (r: u64)
        ensures
            r == self.deadline(),
    ;
}

impl<K: TableKey, V: Expires> Table<K, V> {
    /// Forgets every entry that does not live beyond an instant, and no other.
    pub fn expire(&mut self, now_ns: u64)
        requires
            old(self).valid(),
        ensures
            final(self).valid(),
            forall|key: K| #[trigger]
                final(self).map().contains_key(key) <==> old(self).map().contains_key(key) && old(
                    self,
                ).map()[key].deadline() > now_ns,
            forall|key: K| #[trigger]
                final(self).map().contains_key(key) ==> final(self).map()[key] == old(
                    self,
                ).map()[key],
    {
        let ghost map = self.map();
        let mut gone: Vec<K> = Vec::new();
        let mut i: usize = 0;
        while i < self.len()
            invariant
                self.valid(),
                map == self.map(),
                i <= self.size(),
                forall|k: int|
                    0 <= k < gone@.len() ==> map.contains_key(#[trigger] gone@[k])
                        && map[gone@[k]].deadline() <= now_ns,
                forall|j: int|
                    0 <= j < i && map[self.key_at(j)].deadline() <= now_ns ==> gone@.contains(
                        #[trigger] self.key_at(j),
                    ),
            decreases self.size() - i,
        {
            let entry = self.entry(i);
            let ghost before = gone@;
            if entry.1.expires_at() <= now_ns {
                gone.push(entry.0);
                proof {
                    assert forall|j: int|
                        0 <= j < i + 1 && map[self.key_at(j)].deadline() <= now_ns implies
                        gone@.contains(#[trigger] self.key_at(j)) by {
                        if j < i {
                            let k = choose|k: int|
                                0 <= k < before.len() && before[k] == self.key_at(j);
                            assert(gone@[k] == self.key_at(j));
                        } else {
                            assert(gone@[before.len() as int] == self.key_at(j));
                        }
                    }
                }
            }
            i = i + 1;
        }
        proof {
            self.positions();
            assert forall|key: K| map.contains_key(key) && map[key].deadline() <= now_ns implies
                gone@.contains(key) by {
                let j = choose|j: int| 0 <= j < self.size() && #[trigger] self.key_at(j) == key;
                assert(gone@.contains(self.key_at(j)));
            }
        }
        self.remove_all(&gone);
        proof {
            assert forall|key: K| #[trigger] self.map().contains_key(key) <==> map.contains_key(key)
                && map[key].deadline() > now_ns by {
                assert(self.map().contains_key(key) <==> map.contains_key(key) && !gone@.contains(
                    key,
                ));
                if gone@.contains(key) {
                    let k = choose|k: int| 0 <= k < gone@.len() && gone@[k] == key;
                    assert(map[gone@[k]].deadline() <= now_ns);
                }
            }
        }
    }
}

/// The keys of a map, each once, in any order.
pub fn numbers_of<V>(map: &HashMap<u64, V>) -> (r: Vec<u64>)
    ensures
        r@.no_duplicates(),
        forall|key: u64| #[trigger] r@.contains(key) <==> map@.contains_key(key),
{
    let mut out: Vec<u64> = Vec::new();
    let keys = map.keys();
    let ghost all = keys.remaining().unref();
    for key in iter: keys
        invariant
            iter.seq().unref() == all,
            out@ == all.take(iter.index() as int),
    {
        out.push(*key);
    }
    proof {
        assert(all.take(all.len() as int) =~= all);
        assert forall|key: u64| #[trigger] out@.contains(key) <==> map@.contains_key(key) by {
            assert(all.to_set().contains(key) <==> map@.dom().contains(key));
        }
    }
    out
}

/// Forgets every entry whose key is below `oldest`, and no other.
pub fn keep_from<V>(map: &mut HashMap<u64, V>, oldest: u64)
    ensures
        final(map)@ == old(map)@.restrict(Set::new(|key: u64| key >= oldest)),
{
    let keys = numbers_of(map);
    let ghost before = map@;
    let mut i: usize = 0;
    while i < keys.len()
        invariant
            i <= keys.len(),
            forall|key: u64| #[trigger] keys@.contains(key) <==> before.contains_key(key),
            forall|j: int|
                0 <= j < i && (#[trigger] keys@[j]) < oldest ==> !map@.contains_key(keys@[j]),
            forall|key: u64| #[trigger]
                map@.contains_key(key) ==> before.contains_key(key) && before[key] == map@[key],
            forall|key: u64|
                key >= oldest && #[trigger] before.contains_key(key) ==> map@.contains_key(key),
        decreases keys.len() - i,
    {
        let key: u64 = keys[i];
        if key < oldest {
            let _ = map.remove(&key);
        }
        i = i + 1;
    }
    proof {
        assert forall|key: u64| #[trigger] map@.contains_key(key) implies key >= oldest by {
            assert(keys@.contains(key));
            let j = choose|j: int| 0 <= j < keys@.len() && keys@[j] == key;
            assert(keys@[j] == key);
        }
        assert(map@ =~= before.restrict(Set::new(|key: u64| key >= oldest)));
    }
}

} // verus!
