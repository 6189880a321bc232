//! A small dictionary from names to texts that remembers the order in which
//! its names were first set.

use vstd::prelude::*;

verus! {

/// The entries of a table as contracts see them: name and text, as characters.
pub type Entries = Seq<(Seq<char>, Seq<char>)>;

/// Pairs of strings as pairs of character sequences.
pub open spec fn pairs(entries: Seq<(String, String)>) -> Entries {
    Seq::new(entries.len(), |i: int| (entries[i].0@, entries[i].1@))
}

/// Whether some entry carries the name `key`.
pub open spec fn has_key(entries: Entries, key: Seq<char>) -> bool {
    exists|i: int| 0 <= i < entries.len() && (#[trigger] entries[i]).0 == key
}

/// The place of an entry named `key`, where there is one.
pub open spec fn position(entries: Entries, key: Seq<char>) -> int {
    choose|i: int| 0 <= i < entries.len() && (#[trigger] entries[i]).0 == key
}

/// No two entries carry the same name.
pub open spec fn distinct_keys(entries: Entries) -> bool {
    forall|i: int, j: int|
        #![trigger entries[i], entries[j]]
        0 <= i < j < entries.len() ==> entries[i].0 != entries[j].0
}

/// The mapping that the entries stand for.
pub open spec fn map_of(entries: Entries) -> Map<Seq<char>, Seq<char>> {
    Map::new(|key: Seq<char>| has_key(entries, key), |key: Seq<char>| entries[position(entries, key)].1)
}

/// The entries after `key` has been set to `value`: an entry of that name is
/// overwritten where it stands, a new name goes to the end.
pub open spec fn entries_with(entries: Entries, key: Seq<char>, value: Seq<char>) -> Entries {
    if has_key(entries, key) {
        entries.update(position(entries, key), (key, value))
    } else {
        entries.push((key, value))
    }
}

/// In entries with distinct names, an entry is found at its own place.
pub proof fn lemma_position_unique(entries: Entries, i: int)
    requires
        distinct_keys(entries),
        0 <= i < entries.len(),
    ensures
        has_key(entries, entries[i].0),
        position(entries, entries[i].0) == i,
{
    let key = entries[i].0;
    let p = position(entries, key);
    assert(0 <= p < entries.len() && entries[p].0 == key);
    if p < i {
        assert(entries[p].0 != entries[i].0);
    } else if i < p {
        assert(entries[i].0 != entries[p].0);
    }
}

/// Setting a name keeps the names distinct and updates the mapping at that
/// name only.
pub proof fn lemma_entries_with(entries: Entries, key: Seq<char>, value: Seq<char>)
    requires
        distinct_keys(entries),
    ensures
        distinct_keys(entries_with(entries, key, value)),
        map_of(entries_with(entries, key, value)) == map_of(entries).insert(key, value),
{
    let after = entries_with(entries, key, value);
    if has_key(entries, key) {
        let p = position(entries, key);
        assert(0 <= p < entries.len() && entries[p].0 == key);
        assert forall|i: int, j: int|
            #![trigger after[i], after[j]]
            0 <= i < j < after.len() implies after[i].0 != after[j].0 by {
            assert(entries[i].0 != entries[j].0);
        }
        assert forall|k: Seq<char>| has_key(after, k) == has_key(entries, k) by {
            if has_key(after, k) {
                let i = position(after, k);
                assert(entries[i].0 == k);
            }
            if has_key(entries, k) {
                let i = position(entries, k);
                assert(after[i].0 == k);
            }
        }
        assert forall|k: Seq<char>| has_key(after, k) implies #[trigger] map_of(after)[k] == map_of(
            entries,
        ).insert(key, value)[k] by {
            let i = position(after, k);
            assert(0 <= i < after.len() && after[i].0 == k);
            lemma_position_unique(after, i);
            assert(entries[i].0 == k);
            lemma_position_unique(entries, i);
        }
        assert(map_of(after) =~= map_of(entries).insert(key, value));
    } else {
        assert forall|i: int, j: int|
            #![trigger after[i], after[j]]
            0 <= i < j < after.len() implies after[i].0 != after[j].0 by {
            if j < entries.len() {
                assert(entries[i].0 != entries[j].0);
            } else {
                assert(entries[i].0 == after[i].0);
            }
        }
        assert forall|k: Seq<char>| has_key(after, k) == (has_key(entries, k) || k == key) by {
            if has_key(after, k) {
                let i = position(after, k);
                if i < entries.len() {
                    assert(entries[i].0 == k);
                }
            }
            if has_key(entries, k) {
                let i = position(entries, k);
                assert(after[i].0 == k);
            }
            if k == key {
                assert(after[entries.len() as int].0 == k);
            }
        }
        assert forall|k: Seq<char>| has_key(after, k) implies #[trigger] map_of(after)[k] == map_of(
            entries,
        ).insert(key, value)[k] by {
            let i = position(after, k);
            assert(0 <= i < after.len() && after[i].0 == k);
            lemma_position_unique(after, i);
            if i < entries.len() {
                assert(entries[i].0 == k);
                lemma_position_unique(entries, i);
            }
        }
        assert(map_of(after) =~= map_of(entries).insert(key, value));
    }
}

/// Names and their texts, each name at most once, in the order in which the
/// names were first set.
pub struct Table {
    entries: Vec<(String, String)>,
}

impl View for Table {
    type V = Map<Seq<char>, Seq<char>>;

    /// The mapping from each name to its text.
    open spec fn view(&self) -> Map<Seq<char>, Seq<char>> {
        map_of(self.entries())
    }
}

impl Table {
    #[verifier::type_invariant]
    spec fn names_are_distinct(self) -> bool {
        distinct_keys(self.entries())
    }

    /// The entries in the order in which their names were first set.
    pub closed spec fn entries(&self) -> Entries {
        pairs(self.entries@)
    }

    /// An empty table.
    pub fn new() -> (table: Self)
        ensures
            table.entries() == Entries::empty(),
            table@ == Map::<Seq<char>, Seq<char>>::empty(),
    {
        let table = Table { entries: Vec::new() };
        assert(table.entries() == Entries::empty());
        assert(map_of(Entries::empty()) =~= Map::<Seq<char>, Seq<char>>::empty());
        table
    }

    /// The number of names.
    pub fn len(&self) -> (n: usize)
        ensures
            n == self.entries().len(),
    {
        self.entries.len()
    }

    /// The name of the entry at `index`.
    pub fn key_at(&self, index: usize) -> (key: &String)
        requires
            index < self.entries().len(),
        ensures
            key@ == self.entries()[index as int].0,
    {
        &self.entries[index].0
    }

    /// The text of the entry at `index`.
    pub fn value_at(&self, index: usize) -> (value: &String)
        requires
            index < self.entries().len(),
        ensures
            value@ == self.entries()[index as int].1,
    {
        &self.entries[index].1
    }

    fn find(&self, key: &String) -> (found: Option<usize>)
        ensures
            match found {
                Some(i) => i < self.entries().len() && self.entries()[i as int].0 == key@
                    && has_key(self.entries(), key@) && position(self.entries(), key@) == i,
                None => !has_key(self.entries(), key@),
            },
    {
        proof {
            use_type_invariant(self);
        }
        let mut i: usize = 0;
        while i < self.entries.len()
            invariant
                i <= self.entries.len(),
                distinct_keys(self.entries()),
                forall|j: int| 0 <= j < i ==> (#[trigger] self.entries()[j]).0 != key@,
            decreases self.entries.len() - i,
        {
            if self.entries[i].0 == *key {
                proof {
                    lemma_position_unique(self.entries(), i as int);
                }
                return Some(i);
            }
            i += 1;
        }
        None
    }

    /// The text that `key` stands for, if it stands for one.
    pub fn get(&self, key: &str) -> (value: Option<&String>)
        ensures
            match value {
                Some(text) => self@.contains_key(key@) && self@[key@] == text@,
                None => !self@.contains_key(key@),
            },
    {
        let owned = key.to_owned();
        match self.find(&owned) {
            Some(i) => Some(&self.entries[i].1),
            None => None,
        }
    }

    /// Lets `key` stand for `value` and returns the text it stood for before.
    pub fn set(&mut self, key: String, value: String) -> (previous: Option<String>)
        ensures
            final(self)@ == old(self)@.insert(key@, value@),
            final(self).entries() == entries_with(old(self).entries(), key@, value@),
            match previous {
                Some(text) => old(self)@.contains_key(key@) && old(self)@[key@] == text@,
                None => !old(self)@.contains_key(key@),
            },
    {
        proof {
            use_type_invariant(&*self);
            lemma_entries_with(self.entries(), key@, value@);
        }
        let ghost before = self.entries();
        let found = self.find(&key);
        let mut entries: Vec<(String, String)> = Vec::new();
        core::mem::swap(&mut self.entries, &mut entries);
        let previous = match found {
            Some(i) => {
                let replaced = entries.remove(i);
                entries.insert(i, (key, value));
                Some(replaced.1)
            },
            None => {
                entries.push((key, value));
                None
            },
        };
        assert(pairs(entries@) == entries_with(before, key@, value@));
        self.entries = entries;
        previous
    }
}

} // verus!
