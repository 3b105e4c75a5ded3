//! A map from text keys to values, held in key order.

use crate::order::{
    lemma_ascending_distinct,
    lemma_lt_irreflexive,
    lemma_lt_total,
    lemma_lt_transitive,
    precedes,
    strictly_ascending,
    text_lt,
};
use vstd::prelude::*;

verus! {

/// One key with its value.
pub struct Entry<V> {
    pub key: String,
    pub value: V,
}

/// The keys of a run of entries, in order.
pub open spec fn keys_of<V>(entries: Seq<Entry<V>>) -> Seq<Seq<char>> {
    Seq::new(entries.len(), |i: int| entries[i].key@)
}

/// The value of the entry of `entries` whose key is `key`.
pub open spec fn lookup<V>(entries: Seq<Entry<V>>, key: Seq<char>) -> V {
    entries[keys_of(entries).index_of(key)].value
}

/// Replacing the value of one entry changes that key's value and no other.
pub proof fn lemma_replace_entry<V>(entries: Seq<Entry<V>>, at: int, entry: Entry<V>)
    requires
        strictly_ascending(keys_of(entries)),
        0 <= at < entries.len(),
        entry.key@ == entries[at].key@,
    ensures
        keys_of(entries.update(at, entry)) == keys_of(entries),
        forall|k: Seq<char>| #[trigger]
            keys_of(entries).contains(k) ==> lookup(entries.update(at, entry), k) == (if k
                == entry.key@ {
                entry.value
            } else {
                lookup(entries, k)
            }),
{
    let after = entries.update(at, entry);
    let keys = keys_of(entries);
    assert(keys_of(after) =~= keys);
    assert forall|k: Seq<char>| #[trigger] keys.contains(k) implies lookup(after, k) == (if k
        == entry.key@ {
        entry.value
    } else {
        lookup(entries, k)
    }) by {
        let i = keys.index_of(k);
        if k == entry.key@ {
            assert(keys[at] == k);
            lemma_ascending_distinct(keys, i, at);
        }
    }
}

/// Inserting an entry at the place that keeps the keys ascending adds its key
/// and leaves every other key's value as it was.
pub proof fn lemma_insert_entry<V>(entries: Seq<Entry<V>>, at: int, entry: Entry<V>)
    requires
        strictly_ascending(keys_of(entries)),
        0 <= at <= entries.len(),
        forall|i: int| 0 <= i < at ==> text_lt(#[trigger] keys_of(entries)[i], entry.key@),
        forall|i: int| at <= i < entries.len() ==> text_lt(entry.key@, #[trigger] keys_of(entries)[i]),
    ensures
        strictly_ascending(keys_of(entries.insert(at, entry))),
        !keys_of(entries).contains(entry.key@),
        forall|k: Seq<char>| #[trigger]
            keys_of(entries.insert(at, entry)).contains(k) <==> keys_of(entries).contains(k) || k
                == entry.key@,
        lookup(entries.insert(at, entry), entry.key@) == entry.value,
        forall|k: Seq<char>| #[trigger]
            keys_of(entries).contains(k) ==> lookup(entries.insert(at, entry), k) == lookup(
                entries,
                k,
            ),
{
    let name = entry.key@;
    let keys = keys_of(entries);
    let after = keys_of(entries.insert(at, entry));
    assert(after =~= keys.insert(at, name));
    assert forall|i: int, j: int| 0 <= i < j < after.len() implies text_lt(
        #[trigger] after[i],
        #[trigger] after[j],
    ) by {
        if j < at {
            assert(text_lt(keys[i], keys[j]));
        } else if j == at {
            assert(text_lt(keys[i], name));
        } else if i < at {
            assert(text_lt(keys[i], keys[j - 1]));
        } else if i == at {
            assert(text_lt(name, keys[j - 1]));
        } else {
            assert(text_lt(keys[i - 1], keys[j - 1]));
        }
    }
    assert forall|i: int| 0 <= i < keys.len() implies keys[i] != name by {
        lemma_lt_irreflexive(name);
    }
    assert(after[at] == name);
    assert forall|k: Seq<char>| #[trigger] after.contains(k) <==> keys.contains(k) || k
        == name by {
        if after.contains(k) {
            let i = after.index_of(k);
            if k != name {
                if i < at {
                    assert(keys[i] == k);
                } else {
                    assert(keys[i - 1] == k);
                }
            }
        }
        if keys.contains(k) {
            let i = keys.index_of(k);
            if i < at {
                assert(after[i] == k);
            } else {
                assert(after[i + 1] == k);
            }
        }
    }
    lemma_ascending_distinct(after, after.index_of(name), at);
    assert forall|k: Seq<char>| #[trigger] keys.contains(k) implies lookup(
        entries.insert(at, entry),
        k,
    ) == lookup(entries, k) by {
        let o = keys.index_of(k);
        let moved = if o < at {
            o
        } else {
            o + 1
        };
        assert(after[moved] == k);
        lemma_ascending_distinct(after, after.index_of(k), moved);
    }
}

/// A map from text to `V` whose entries stand in ascending key order, so that
/// walking it visits the keys in order and no key occurs twice.
pub struct TextMap<V> {
    entries: Vec<Entry<V>>,
}

impl<V> TextMap<V> {
    #[verifier::type_invariant]
    spec fn ordered(self) -> bool {
        strictly_ascending(keys_of(self.entries@))
    }

    /// The entries in key order.
    pub closed spec fn entries(self) -> Seq<Entry<V>> {
        self.entries@
    }

    /// The keys in ascending order.
    pub open spec fn keys(self) -> Seq<Seq<char>> {
        keys_of(self.entries())
    }

    /// The map from each key to its value.
    pub open spec fn view(self) -> Map<Seq<char>, V> {
        Map::new(|k: Seq<char>| self.has(k), |k: Seq<char>| self.at(k))
    }

    /// Whether `key` has an entry.
    pub open spec fn has(self, key: Seq<char>) -> bool {
        self.keys().contains(key)
    }

    /// The value stored under `key`, which must have an entry.
    pub open spec fn at(self, key: Seq<char>) -> V {
        self.entries()[self.keys().index_of(key)].value
    }

    /// An empty map.
    pub fn new() -> (out: Self)
        ensures
            out.entries().len() == 0,
            out@ == Map::<Seq<char>, V>::empty(),
    {
        let out = TextMap { entries: Vec::new() };
        proof {
            assert(out@ =~= Map::<Seq<char>, V>::empty());
        }
        out
    }

    /// The number of entries.
    pub fn len(&self) -> (n: usize)
        ensures
            n == self.entries().len(),
            strictly_ascending(self.keys()),
    {
        proof {
            use_type_invariant(self);
        }
        self.entries.len()
    }

    /// The key of the entry at index `i`.
    pub fn key_at(&self, i: usize) -> (out: &String)
        requires
            i < self.entries().len(),
        ensures
            out@ == self.keys()[i as int],
            strictly_ascending(self.keys()),
            self.has(out@),
    {
        proof {
            use_type_invariant(self);
        }
        &self.entries[i].key
    }

    /// The value of the entry at index `i`.
    pub fn value_at(&self, i: usize) -> (out: &V)
        requires
            i < self.entries().len(),
        ensures
            *out == self.at(self.keys()[i as int]),
    {
        proof {
            use_type_invariant(self);
            let keys = self.keys();
            lemma_ascending_distinct(keys, keys.index_of(keys[i as int]), i as int);
        }
        &self.entries[i].value
    }

    /// The place of `key` among the entries: its index if it has an entry,
    /// else the index at which it would have to be inserted.
    pub fn locate(&self, key: &str) -> (out: (usize, bool))
        ensures
            out.0 <= self.entries().len(),
            out.1 == self.has(key@),
            out.1 ==> out.0 < self.entries().len() && self.keys()[out.0 as int] == key@,
            forall|i: int| 0 <= i < out.0 ==> text_lt(#[trigger] self.keys()[i], key@),
            forall|i: int|
                out.0 <= i < self.entries().len() && !(out.1 && i == out.0) ==> text_lt(
                    key@,
                    #[trigger] self.keys()[i],
                ),
    {
        proof {
            use_type_invariant(self);
        }
        let ghost keys = self.keys();
        let mut low: usize = 0;
        let mut high: usize = self.entries.len();
        while low < high
            invariant
                keys == keys_of(self.entries@),
                strictly_ascending(keys),
                low <= high <= self.entries.len(),
                forall|i: int| 0 <= i < low ==> text_lt(#[trigger] keys[i], key@),
                forall|i: int| high <= i < keys.len() ==> text_lt(key@, #[trigger] keys[i]),
            decreases high - low,
        {
            let mid: usize = low + (high - low) / 2;
            let here = self.entries[mid].key.as_str();
            if precedes(here, key) {
                proof {
                    assert forall|i: int| 0 <= i < mid + 1 implies text_lt(
                        #[trigger] keys[i],
                        key@,
                    ) by {
                        if i < mid {
                            lemma_lt_transitive(keys[i], keys[mid as int], key@);
                        }
                    }
                }
                low = mid + 1;
            } else if precedes(key, here) {
                proof {
                    assert forall|i: int| mid <= i < keys.len() implies text_lt(
                        key@,
                        #[trigger] keys[i],
                    ) by {
                        if i > mid {
                            lemma_lt_transitive(key@, keys[mid as int], keys[i]);
                        }
                    }
                }
                high = mid;
            } else {
                proof {
                    lemma_lt_total(keys[mid as int], key@);
                    assert(keys[mid as int] == key@);
                    assert forall|i: int| 0 <= i < mid implies text_lt(#[trigger] keys[i], key@) by {
                    }
                    assert forall|i: int| mid < i < keys.len() implies text_lt(
                        key@,
                        #[trigger] keys[i],
                    ) by {
                    }
                }
                return (mid, true);
            }
        }
        proof {
            assert forall|i: int| 0 <= i < keys.len() implies keys[i] != key@ by {
                if i < low {
                    lemma_lt_irreflexive(key@);
                } else {
                    lemma_lt_irreflexive(key@);
                }
            }
        }
        (low, false)
    }

    /// Stores `value` under `key`, in place of what was stored there before.
    pub fn insert(&mut self, key: String, value: V)
        ensures
            final(self)@ == old(self)@.insert(key@, value),
    {
        let (at, found) = self.locate(key.as_str());
        proof {
            use_type_invariant(&*self);
        }
        let ghost before = self.entries@;
        let entry = Entry { key, value };
        let mut entries: Vec<Entry<V>> = Vec::new();
        std::mem::swap(&mut self.entries, &mut entries);
        proof {
            if found {
                lemma_replace_entry(before, at as int, entry);
            } else {
                lemma_insert_entry(before, at as int, entry);
            }
        }
        if found {
            entries.set(at, entry);
        } else {
            entries.insert(at, entry);
        }
        self.entries = entries;
        proof {
            assert(self@ =~= old(self)@.insert(entry.key@, entry.value));
        }
    }

    /// The value stored under `key`, if any.
    pub fn get(&self, key: &str) -> (out: Option<&V>)
        ensures
            out is Some <==> self.has(key@),
            out matches Some(v) ==> *v == self.at(key@),
    {
        let (at, found) = self.locate(key);
        if found {
            proof {
                use_type_invariant(self);
                let keys = self.keys();
                let first = keys.index_of(key@);
                lemma_ascending_distinct(keys, first, at as int);
            }
            Some(&self.entries[at].value)
        } else {
            None
        }
    }
}

impl<T> TextMap<Vec<T>> {
    /// Appends `item` to the group stored under `key`, opening the group if
    /// the key has none yet.
    pub fn append(&mut self, key: &str, item: T)
        ensures
            final(self)@.dom() == old(self)@.dom().insert(key@),
            final(self)@[key@]@ == (if old(self).has(key@) {
                old(self)@[key@]@.push(item)
            } else {
                seq![item]
            }),
            forall|k: Seq<char>|
                k != key@ && old(self).has(k) ==> #[trigger] final(self)@[k] == old(self)@[k],
    {
        let (at, found) = self.locate(key);
        proof {
            use_type_invariant(&*self);
        }
        let ghost before = self.entries@;
        let mut entries: Vec<Entry<Vec<T>>> = Vec::new();
        std::mem::swap(&mut self.entries, &mut entries);
        if found {
            let mut entry = entries.remove(at);
            entry.value.push(item);
            proof {
                lemma_replace_entry(before, at as int, entry);
                assert(before.remove(at as int).insert(at as int, entry) =~= before.update(
                    at as int,
                    entry,
                ));
                lemma_ascending_distinct(
                    keys_of(before),
                    keys_of(before).index_of(key@),
                    at as int,
                );
            }
            entries.insert(at, entry);
        } else {
            let mut group: Vec<T> = Vec::new();
            group.push(item);
            let entry = Entry { key: crate::text::owned(key), value: group };
            proof {
                lemma_insert_entry(before, at as int, entry);
            }
            entries.insert(at, entry);
        }
        self.entries = entries;
        proof {
            assert(self@.dom() =~= old(self)@.dom().insert(key@));
        }
    }
}

} // verus!
