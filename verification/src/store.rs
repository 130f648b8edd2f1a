//! A finite map from text keys to values.
//!
//! The entries are kept in a vector in which no key occurs twice; the
//! model of a store is the map from each key's characters to its value.

use vstd::prelude::*;

verus! {

/// Entry `i` of `entries` exists and carries the key `key`.
pub open spec fn entry_has_key<V>(entries: Seq<(String, V)>, key: Seq<char>, i: int) -> bool {
    0 <= i < entries.len() && entries[i].0@ == key
}

/// No two entries carry the same key.
pub open spec fn keys_distinct<V>(entries: Seq<(String, V)>) -> bool {
    forall|i: int, j: int|
        0 <= i < j < entries.len() ==> #[trigger] entries[i].0@ != #[trigger] entries[j].0@
}

/// The map that a list of entries stands for.
pub open spec fn entries_to_map<V>(entries: Seq<(String, V)>) -> Map<Seq<char>, V> {
    Map::new(
        |key: Seq<char>| exists|i: int| entry_has_key(entries, key, i),
        |key: Seq<char>| entries[choose|i: int| entry_has_key(entries, key, i)].1,
    )
}

/// With distinct keys, the entry that carries a key decides the value stored under it.
pub proof fn lemma_entry_decides<V>(entries: Seq<(String, V)>, key: Seq<char>, i: int)
    requires
        keys_distinct(entries),
        entry_has_key(entries, key, i),
    ensures
        entries_to_map(entries).contains_key(key),
        entries_to_map(entries)[key] == entries[i].1,
{
    let j = choose|j: int| entry_has_key(entries, key, j);
    assert(entry_has_key(entries, key, j));
    if i < j {
        assert(entries[i].0@ != entries[j].0@);
    } else if j < i {
        assert(entries[j].0@ != entries[i].0@);
    }
}

/// A list of entries stands for a map with finitely many keys.
pub proof fn lemma_entries_finite<V>(entries: Seq<(String, V)>)
    ensures
        entries_to_map(entries).dom().finite(),
    decreases entries.len(),
{
    if entries.len() == 0 {
        assert(entries_to_map(entries).dom() =~= Set::<Seq<char>>::empty());
    } else {
        let earlier = entries.drop_last();
        let last = entries.len() - 1;
        lemma_entries_finite(earlier);
        assert forall|key: Seq<char>|
            entries_to_map(entries).dom().contains(key) == entries_to_map(earlier).dom().insert(
                entries[last].0@,
            ).contains(key) by {
            if entries_to_map(entries).dom().contains(key) {
                let i = choose|i: int| entry_has_key(entries, key, i);
                if i < last {
                    assert(entry_has_key(earlier, key, i));
                }
            }
            if entries_to_map(earlier).dom().contains(key) {
                let i = choose|i: int| entry_has_key(earlier, key, i);
                assert(entry_has_key(entries, key, i));
            }
            assert(entry_has_key(entries, entries[last].0@, last));
        }
        assert(entries_to_map(entries).dom() =~= entries_to_map(earlier).dom().insert(
            entries[last].0@,
        ));
    }
}

/// The index of the entry that carries `key`, if there is one.
fn find_entry<V>(entries: &Vec<(String, V)>, key: &String) -> (found: Option<usize>)
    ensures
        match found {
            Some(i) => entry_has_key(entries@, key@, i as int),
            None => forall|i: int| !entry_has_key(entries@, key@, i),
        },
{
    let mut i: usize = 0;
    while i < entries.len()
        invariant
            i <= entries@.len(),
            forall|j: int| 0 <= j < i ==> entries@[j].0@ != key@,
        decreases entries@.len() - i,
    {
        if entries[i].0 == *key {
            return Some(i);
        }
        i += 1;
    }
    None
}

/// Writes `value` under `key`: over the entry that carries the key, or as a new last entry.
fn put_entry<V>(entries: &mut Vec<(String, V)>, key: String, value: V)
    requires
        keys_distinct(old(entries)@),
    ensures
        keys_distinct(final(entries)@),
        entries_to_map(final(entries)@) == entries_to_map(old(entries)@).insert(key@, value),
{
    let ghost before = entries@;
    let ghost slot: int;
    match find_entry(entries, &key) {
        Some(i) => {
            entries[i].1 = value;
            proof {
                slot = i as int;
            }
        },
        None => {
            entries.push((key, value));
            proof {
                slot = before.len() as int;
            }
        },
    }
    proof {
        let after = entries@;
        assert(entry_has_key(after, key@, slot));
        assert forall|j: int| 0 <= j < after.len() && j != slot implies j < before.len()
            && after[j] == before[j] && after[j].0@ != key@ by {
            if slot < before.len() {
                if j < slot {
                    assert(before[j].0@ != before[slot].0@);
                } else {
                    assert(before[slot].0@ != before[j].0@);
                }
            } else {
                assert(!entry_has_key(before, key@, j));
            }
        }
        assert(keys_distinct(after));
        assert forall|k: Seq<char>| #[trigger]
            entries_to_map(after).contains_key(k) == entries_to_map(before).insert(
                key@,
                value,
            ).contains_key(k) by {
            if entries_to_map(after).contains_key(k) && k != key@ {
                let j = choose|j: int| entry_has_key(after, k, j);
                assert(entry_has_key(before, k, j));
            }
            if entries_to_map(before).contains_key(k) {
                let j = choose|j: int| entry_has_key(before, k, j);
                assert(entry_has_key(after, k, j));
            }
        }
        assert forall|k: Seq<char>| #[trigger]
            entries_to_map(after).contains_key(k) implies entries_to_map(after)[k]
            == entries_to_map(before).insert(key@, value)[k] by {
            let j = choose|j: int| entry_has_key(after, k, j);
            lemma_entry_decides(after, k, j);
            if k != key@ {
                assert(entry_has_key(before, k, j));
                lemma_entry_decides(before, k, j);
            } else {
                lemma_entry_decides(after, k, slot);
            }
        }
        assert(entries_to_map(after) =~= entries_to_map(before).insert(key@, value));
    }
}

/// Takes out the entry that carries `key`, if there is one; the others keep their order.
fn drop_entry<V>(entries: &mut Vec<(String, V)>, key: &String)
    requires
        keys_distinct(old(entries)@),
    ensures
        keys_distinct(final(entries)@),
        entries_to_map(final(entries)@) == entries_to_map(old(entries)@).remove(key@),
{
    let ghost before = entries@;
    match find_entry(entries, key) {
        Some(i) => {
            entries.remove(i);
            proof {
                let after = entries@;
                assert forall|j: int| 0 <= j < after.len() implies after[j] == before[if j
                    < i { j } else { j + 1 }] by {}
                assert forall|k: Seq<char>| #[trigger]
                    entries_to_map(after).contains_key(k) == entries_to_map(before).remove(
                        key@,
                    ).contains_key(k) by {
                    if entries_to_map(after).contains_key(k) {
                        let j = choose|j: int| entry_has_key(after, k, j);
                        let m = if j < i { j } else { j + 1 };
                        assert(entry_has_key(before, k, m));
                        if k == key@ {
                            if m < i {
                                assert(before[m].0@ != before[i as int].0@);
                            } else {
                                assert(before[i as int].0@ != before[m].0@);
                            }
                        }
                    }
                    if entries_to_map(before).contains_key(k) && k != key@ {
                        let m = choose|m: int| entry_has_key(before, k, m);
                        let j = if m < i { m } else { m - 1 };
                        assert(entry_has_key(after, k, j));
                    }
                }
                assert forall|k: Seq<char>| #[trigger]
                    entries_to_map(after).contains_key(k) implies entries_to_map(after)[k]
                    == entries_to_map(before).remove(key@)[k] by {
                    let j = choose|j: int| entry_has_key(after, k, j);
                    let m = if j < i { j } else { j + 1 };
                    lemma_entry_decides(after, k, j);
                    assert(entry_has_key(before, k, m));
                    lemma_entry_decides(before, k, m);
                }
                assert(entries_to_map(after) =~= entries_to_map(before).remove(key@));
            }
        },
        None => {
            assert(entries_to_map(before) =~= entries_to_map(before).remove(key@));
        },
    }
}

/// A finite map from `String` keys to values of type `V`.
#[derive(Debug)]
pub struct KeyedStore<V> {
    entries: Vec<(String, V)>,
}

impl<V> View for KeyedStore<V> {
    type V = Map<Seq<char>, V>;

    closed spec fn view(&self) -> Map<Seq<char>, V> {
        entries_to_map(self.entries@)
    }
}

impl<V> KeyedStore<V> {
    #[verifier::type_invariant]
    spec fn well_formed(&self) -> bool {
        keys_distinct(self.entries@)
    }

    /// A store holds finitely many keys.
    pub proof fn lemma_view_finite(&self)
        ensures
            self@.dom().finite(),
    {
        lemma_entries_finite(self.entries@);
    }

    /// An empty store.
    pub fn new() -> (store: Self)
        ensures
            store@ == Map::<Seq<char>, V>::empty(),
    {
        let store = KeyedStore { entries: Vec::new() };
        assert(store@ =~= Map::<Seq<char>, V>::empty());
        store
    }

    /// Whether a value is stored under `key`.
    pub fn contains_key(&self, key: &String) -> (found: bool)
        ensures
            found == self@.contains_key(key@),
    {
        match find_entry(&self.entries, key) {
            Some(i) => {
                proof {
                    use_type_invariant(self);
                    lemma_entry_decides(self.entries@, key@, i as int);
                }
                true
            },
            None => false,
        }
    }

    /// The value stored under `key`, if there is one.
    pub fn get(&self, key: &String) -> (found: Option<&V>)
        ensures
            match found {
                Some(value) => self@.contains_key(key@) && self@[key@] == *value,
                None => !self@.contains_key(key@),
            },
    {
        match find_entry(&self.entries, key) {
            Some(i) => {
                proof {
                    use_type_invariant(self);
                    lemma_entry_decides(self.entries@, key@, i as int);
                }
                Some(&self.entries[i].1)
            },
            None => None,
        }
    }

    /// Stores `value` under `key`, in place of what was stored under it.
    pub fn insert(&mut self, key: String, value: V)
        ensures
            final(self)@ == old(self)@.insert(key@, value),
    {
        proof {
            use_type_invariant(&*self);
        }
        let mut entries: Vec<(String, V)> = Vec::new();
        core::mem::swap(&mut self.entries, &mut entries);
        put_entry(&mut entries, key, value);
        core::mem::swap(&mut self.entries, &mut entries);
    }

    /// Removes what is stored under `key`, if anything is.
    pub fn remove(&mut self, key: &String)
        ensures
            final(self)@ == old(self)@.remove(key@),
    {
        proof {
            use_type_invariant(&*self);
        }
        let mut entries: Vec<(String, V)> = Vec::new();
        core::mem::swap(&mut self.entries, &mut entries);
        drop_entry(&mut entries, key);
        core::mem::swap(&mut self.entries, &mut entries);
    }
}

} // verus!
