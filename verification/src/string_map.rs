//! A map from strings to strings that keeps its entries in insertion order.
//!
//! Header sets are held in this map: inserting a key that is already present
//! replaces its value in place, so no key occurs twice.

use vstd::prelude::*;
use crate::text::str_eq;

verus! {

/// The map that a list of entries denotes, a later entry overriding an
/// earlier one with the same key.
pub open spec fn entries_to_map(entries: Seq<(String, String)>) -> Map<Seq<char>, Seq<char>>
    decreases entries.len(),
{
    if entries.len() == 0 {
        Map::empty()
    } else {
        entries_to_map(entries.drop_last()).insert(entries.last().0@, entries.last().1@)
    }
}

/// No two entries share a key.
pub open spec fn keys_distinct(entries: Seq<(String, String)>) -> bool {
    forall|i: int, j: int|
        0 <= i < entries.len() && 0 <= j < entries.len() && i != j ==> #[trigger] entries[i].0@
            != #[trigger] entries[j].0@
}

/// String-to-string map with distinct keys in insertion order.
#[derive(Debug)]
pub struct StringMap {
    entries: Vec<(String, String)>,
}

impl StringMap {
    #[verifier::type_invariant]
    spec fn inv(self) -> bool {
        keys_distinct(self.entries@)
    }

    /// The entries, in insertion order.
    pub closed spec fn entries_seq(self) -> Seq<(String, String)> {
        self.entries@
    }

    /// The map that this value stands for.
    pub open spec fn view(self) -> Map<Seq<char>, Seq<char>> {
        entries_to_map(self.entries_seq())
    }

    /// The empty map.
    pub fn new() -> (r: StringMap)
        ensures
            r.entries_seq() == Seq::<(String, String)>::empty(),
            r.view() == Map::<Seq<char>, Seq<char>>::empty(),
    {
        StringMap { entries: Vec::new() }
    }

    /// Where `key` stands among the entries.
    fn position(&self, key: &str) -> (r: Option<usize>)
        ensures
            match r {
                Some(i) => i < self.entries@.len() && self.entries@[i as int].0@ == key@,
                None => forall|i: int|
                    0 <= i < self.entries@.len() ==> #[trigger] self.entries@[i].0@ != key@,
            },
    {
        let mut i: usize = 0;
        while i < self.entries.len()
            invariant
                0 <= i <= self.entries@.len(),
                forall|j: int| 0 <= j < i ==> #[trigger] self.entries@[j].0@ != key@,
            decreases self.entries@.len() - i,
        {
            if str_eq(self.entries[i].0.as_str(), key) {
                return Some(i);
            }
            i = i + 1;
        }
        None
    }

    /// Sets `key` to `value`, replacing the value of an existing entry in
    /// place or appending a new entry.
    pub fn insert(&mut self, key: String, value: String)
        ensures
            final(self).view() == old(self).view().insert(key@, value@),
            old(self).view().contains_key(key@) ==> exists|i: int|
                0 <= i < old(self).entries_seq().len() && #[trigger] old(self).entries_seq()[i].0@
                    == key@ && final(self).entries_seq() == old(self).entries_seq().update(
                    i,
                    (key, value),
                ),
            !old(self).view().contains_key(key@) ==> final(self).entries_seq() == old(self).entries_seq().push((key, value)),
    {
        proof {
            use_type_invariant(&*self);
        }
        let found = self.position(key.as_str());
        let ghost k = key@;
        let mut entries: Vec<(String, String)> = Vec::new();
        std::mem::swap(&mut entries, &mut self.entries);
        let ghost before = entries@;
        match found {
            Some(i) => {
                entries.set(i, (key, value));
                proof {
                    lemma_replace_entry(before, i as int, entries@);
                    lemma_lookup_entry(before, i as int);
                    assert(before[i as int].0@ == k);
                }
            },
            None => {
                entries.push((key, value));
                proof {
                    lemma_absent_key(before, k);
                    assert(entries@.drop_last() =~= before);
                    assert(keys_distinct(entries@)) by {
                        assert forall|a: int, b: int|
                            0 <= a < entries@.len() && 0 <= b < entries@.len() && a != b implies #[trigger] entries@[a].0@
                            != #[trigger] entries@[b].0@ by {
                            if a < before.len() && b < before.len() {
                                assert(entries@[a] == before[a]);
                                assert(entries@[b] == before[b]);
                            } else if a < before.len() {
                                assert(entries@[a] == before[a]);
                                assert(entries@[b].0@ == k);
                                assert(before[a].0@ != k);
                            } else {
                                assert(entries@[b] == before[b]);
                                assert(entries@[a].0@ == k);
                                assert(before[b].0@ != k);
                            }
                        }
                    }
                }
            },
        }
        self.entries = entries;
    }

    /// The value stored under `key`.
    pub fn get(&self, key: &str) -> (r: Option<&String>)
        ensures
            match r {
                Some(v) => self.view().contains_key(key@) && self.view()[key@] == v@,
                None => !self.view().contains_key(key@),
            },
    {
        proof {
            use_type_invariant(self);
        }
        match self.position(key) {
            Some(i) => {
                proof {
                    lemma_lookup_entry(self.entries@, i as int);
                }
                Some(&self.entries[i].1)
            },
            None => {
                proof {
                    lemma_absent_key(self.entries@, key@);
                }
                None
            },
        }
    }

    /// The number of entries, which is the number of keys.
    pub fn len(&self) -> (r: usize)
        ensures
            r == self.entries_seq().len(),
            r == self.view().len(),
    {
        proof {
            use_type_invariant(self);
            lemma_map_len(self.entries@);
        }
        self.entries.len()
    }

    /// The entries, in insertion order; their keys are distinct.
    pub fn entries(&self) -> (r: &Vec<(String, String)>)
        ensures
            r@ == self.entries_seq(),
            keys_distinct(r@),
    {
        proof {
            use_type_invariant(self);
        }
        &self.entries
    }
}

impl Clone for StringMap {
    /// A copy with the same entries in the same order.
    fn clone(&self) -> (r: StringMap)
        ensures
            r.entries_seq() == self.entries_seq(),
    {
        proof {
            use_type_invariant(self);
        }
        let mut entries: Vec<(String, String)> = Vec::new();
        let mut i: usize = 0;
        while i < self.entries.len()
            invariant
                0 <= i <= self.entries@.len(),
                entries@ == self.entries@.take(i as int),
            decreases self.entries@.len() - i,
        {
            let key = self.entries[i].0.clone();
            let value = self.entries[i].1.clone();
            entries.push((key, value));
            proof {
                assert(self.entries@.take(i + 1) =~= self.entries@.take(i as int).push(
                    self.entries@[i as int],
                ));
            }
            i = i + 1;
        }
        proof {
            assert(self.entries@.take(i as int) =~= self.entries@);
        }
        StringMap { entries }
    }
}

/// A key that no entry holds is not in the map.
proof fn lemma_absent_key(entries: Seq<(String, String)>, key: Seq<char>)
    requires
        forall|i: int| 0 <= i < entries.len() ==> #[trigger] entries[i].0@ != key,
    ensures
        !entries_to_map(entries).contains_key(key),
    decreases entries.len(),
{
    if entries.len() > 0 {
        let prefix = entries.drop_last();
        assert forall|i: int| 0 <= i < prefix.len() implies #[trigger] prefix[i].0@ != key by {
            assert(prefix[i] == entries[i]);
        }
        lemma_absent_key(prefix, key);
    }
}

/// With distinct keys, the entry at `i` gives the map's value for its key.
proof fn lemma_lookup_entry(entries: Seq<(String, String)>, i: int)
    requires
        keys_distinct(entries),
        0 <= i < entries.len(),
    ensures
        entries_to_map(entries).contains_key(entries[i].0@),
        entries_to_map(entries)[entries[i].0@] == entries[i].1@,
    decreases entries.len(),
{
    let prefix = entries.drop_last();
    if i < entries.len() - 1 {
        assert(prefix[i] == entries[i]);
        assert(keys_distinct(prefix)) by {
            assert forall|a: int, b: int|
                0 <= a < prefix.len() && 0 <= b < prefix.len() && a != b implies #[trigger] prefix[a].0@
                != #[trigger] prefix[b].0@ by {
                assert(prefix[a] == entries[a]);
                assert(prefix[b] == entries[b]);
            }
        }
        lemma_lookup_entry(prefix, i);
        assert(entries[i].0@ != entries.last().0@);
    }
}

/// With distinct keys, the map has one key per entry.
proof fn lemma_map_len(entries: Seq<(String, String)>)
    requires
        keys_distinct(entries),
    ensures
        entries_to_map(entries).dom().finite(),
        entries_to_map(entries).len() == entries.len(),
    decreases entries.len(),
{
    if entries.len() > 0 {
        let prefix = entries.drop_last();
        assert(keys_distinct(prefix)) by {
            assert forall|a: int, b: int|
                0 <= a < prefix.len() && 0 <= b < prefix.len() && a != b implies #[trigger] prefix[a].0@
                != #[trigger] prefix[b].0@ by {
                assert(prefix[a] == entries[a]);
                assert(prefix[b] == entries[b]);
            }
        }
        lemma_map_len(prefix);
        assert forall|i: int| 0 <= i < prefix.len() implies #[trigger] prefix[i].0@
            != entries.last().0@ by {
            assert(prefix[i] == entries[i]);
        }
        lemma_absent_key(prefix, entries.last().0@);
    }
}

/// Replacing the value of the entry at `i` (same key) updates that key.
proof fn lemma_replace_entry(before: Seq<(String, String)>, i: int, after: Seq<(String, String)>)
    requires
        0 <= i < before.len(),
        after.len() == before.len(),
        after[i].0@ == before[i].0@,
        forall|j: int| 0 <= j < before.len() && j != i ==> after[j] == before[j],
        keys_distinct(before),
    ensures
        keys_distinct(after),
        entries_to_map(after) == entries_to_map(before).insert(after[i].0@, after[i].1@),
    decreases before.len(),
{
    assert(keys_distinct(after)) by {
        assert forall|a: int, b: int|
            0 <= a < after.len() && 0 <= b < after.len() && a != b implies #[trigger] after[a].0@
            != #[trigger] after[b].0@ by {
            if a != i && b != i {
                assert(after[a] == before[a]);
                assert(after[b] == before[b]);
            } else if a == i {
                assert(after[b] == before[b]);
                assert(before[a].0@ != before[b].0@);
            } else {
                assert(after[a] == before[a]);
                assert(before[a].0@ != before[b].0@);
            }
        }
    }
    let bp = before.drop_last();
    let ap = after.drop_last();
    if i == before.len() - 1 {
        assert(ap =~= bp);
        assert(entries_to_map(after) =~= entries_to_map(before).insert(after[i].0@, after[i].1@));
    } else {
        assert forall|j: int| 0 <= j < bp.len() && j != i implies ap[j] == bp[j] by {
            assert(ap[j] == after[j]);
            assert(bp[j] == before[j]);
        }
        assert(keys_distinct(bp)) by {
            assert forall|a: int, b: int|
                0 <= a < bp.len() && 0 <= b < bp.len() && a != b implies #[trigger] bp[a].0@
                != #[trigger] bp[b].0@ by {
                assert(bp[a] == before[a]);
                assert(bp[b] == before[b]);
            }
        }
        lemma_replace_entry(bp, i, ap);
        assert(after.last() == before.last());
        assert(before.last().0@ != before[i].0@);
        assert(entries_to_map(after) =~= entries_to_map(before).insert(after[i].0@, after[i].1@));
    }
}

/// With distinct keys, every entry is in the map with its value, and every
/// key of the map is the key of an entry.
pub proof fn lemma_entries_map(entries: Seq<(String, String)>)
    requires
        keys_distinct(entries),
    ensures
        forall|i: int|
            0 <= i < entries.len() ==> entries_to_map(entries).contains_key(#[trigger] entries[i].0@)
                && entries_to_map(entries)[entries[i].0@] == entries[i].1@,
        forall|k: Seq<char>|
            #[trigger] entries_to_map(entries).contains_key(k) ==> exists|i: int|
                0 <= i < entries.len() && #[trigger] entries[i].0@ == k,
{
    assert forall|i: int| 0 <= i < entries.len() implies entries_to_map(entries).contains_key(
        #[trigger] entries[i].0@,
    ) && entries_to_map(entries)[entries[i].0@] == entries[i].1@ by {
        lemma_lookup_entry(entries, i);
    }
    assert forall|k: Seq<char>| #[trigger] entries_to_map(entries).contains_key(k) implies exists|i: int|
        0 <= i < entries.len() && #[trigger] entries[i].0@ == k by {
        if !(exists|i: int| 0 <= i < entries.len() && #[trigger] entries[i].0@ == k) {
            lemma_absent_key(entries, k);
        }
    }
}

} // verus!
