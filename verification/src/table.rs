//! A small table from strings to strings, kept in the order of entry.
//!
//! The table is a vector of pairs that is searched from its end. What `get`
//! answers is so proved from the entries themselves; a map of the standard
//! library would answer by its own hashing or ordering of `String`, of which
//! nothing is known here.

use vstd::prelude::*;
use crate::text::same;

verus! {

/// The map that a list of `(key, value)` pairs stands for; a later pair
/// replaces an earlier one with the same key.
pub open spec fn entries_map(entries: Seq<(String, String)>) -> Map<Seq<char>, Seq<char>>
    decreases entries.len(),
{
    if entries.len() == 0 {
        Map::empty()
    } else {
        entries_map(entries.drop_last()).insert(entries.last().0@, entries.last().1@)
    }
}

/// If no pair of `entries[from..]` has the key `key`, the map of `entries`
/// says of `key` what the map of `entries[..from]` says.
proof fn lemma_entries_tail(entries: Seq<(String, String)>, from: int, key: Seq<char>)
    requires
        0 <= from <= entries.len(),
        forall|j: int| from <= j < entries.len() ==> entries[j].0@ != key,
    ensures
        entries_map(entries).contains_key(key) == entries_map(
            entries.subrange(0, from),
        ).contains_key(key),
        entries_map(entries).contains_key(key) ==> entries_map(entries)[key] == entries_map(
            entries.subrange(0, from),
        )[key],
    decreases entries.len() - from,
{
    if from == entries.len() {
        assert(entries.subrange(0, from) == entries);
    } else {
        let shorter = entries.drop_last();
        lemma_entries_tail(shorter, from, key);
        assert(shorter.subrange(0, from) == entries.subrange(0, from));
    }
}

/// A table from strings to strings.
#[derive(Debug)]
pub struct Table {
    entries: Vec<(String, String)>,
}

impl View for Table {
    type V = Map<Seq<char>, Seq<char>>;

    closed spec fn view(&self) -> Map<Seq<char>, Seq<char>> {
        entries_map(self.entries@)
    }
}

impl Table {
    /// A table without entries.
    pub fn new() -> (table: Self)
        ensures
            table@ == Map::<Seq<char>, Seq<char>>::empty(),
    {
        Table { entries: Vec::new() }
    }

    /// Enters `value` under `key`, in place of what stood there.
    pub fn insert(&mut self, key: String, value: String)
        ensures
            final(self)@ == old(self)@.insert(key@, value@),
    {
        self.entries.push((key, value));
        assert(self.entries@.drop_last() == old(self).entries@);
    }

    /// What stands under `key`, if anything.
    pub fn get(&self, key: &str) -> (value: Option<&String>)
        ensures
            match value {
                Some(found) => self@.contains_key(key@) && self@[key@] == found@,
                None => !self@.contains_key(key@),
            },
    {
        let mut i: usize = self.entries.len();
        while i > 0
            invariant
                i <= self.entries.len(),
                forall|j: int| i <= j < self.entries.len() ==> self.entries@[j].0@ != key@,
            decreases i,
        {
            i -= 1;
            if same(self.entries[i].0.as_str(), key) {
                proof {
                    lemma_entries_tail(self.entries@, i + 1, key@);
                    let upto = self.entries@.subrange(0, i + 1);
                    assert(upto.last() == self.entries@[i as int]);
                }
                return Some(&self.entries[i].1);
            }
        }
        proof {
            lemma_entries_tail(self.entries@, 0, key@);
            assert(self.entries@.subrange(0, 0).len() == 0);
        }
        None
    }
}

} // verus!
