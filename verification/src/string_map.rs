//! Values kept by name.

use crate::text::same_text;
use vstd::prelude::*;

verus! {

/// What a list of entries says about each name: the last entry of a name counts.
pub open spec fn entry_map<V>(entries: Seq<(String, V)>) -> Map<Seq<char>, V>
    decreases entries.len(),
{
    if entries.len() == 0 {
        Map::empty()
    } else {
        entry_map(entries.drop_last()).insert(entries.last().0@, entries.last().1)
    }
}

/// A map from names to values.
#[derive(Debug)]
pub struct StringMap<V> {
    entries: Vec<(String, V)>,
}

impl<V> View for StringMap<V> {
    type V = Map<Seq<char>, V>;

    closed spec fn view(&self) -> Map<Seq<char>, V> {
        entry_map(self.entries@)
    }
}

proof fn lemma_entry_map_skips<V>(entries: Seq<(String, V)>, key: Seq<char>, from: int)
    requires
        0 <= from <= entries.len(),
        forall|j: int| from <= j < entries.len() ==> (#[trigger] entries[j]).0@ != key,
    ensures
        entry_map(entries).contains_key(key) == entry_map(entries.take(from)).contains_key(key),
        entry_map(entries).contains_key(key) ==> entry_map(entries)[key] == entry_map(
            entries.take(from),
        )[key],
    decreases entries.len() - from,
{
    if from < entries.len() {
        lemma_entry_map_skips(entries.drop_last(), key, from);
        assert(entries.drop_last().take(from) =~= entries.take(from));
        assert(entries.last() == entries[entries.len() - 1]);
    } else {
        assert(entries.take(from) =~= entries);
    }
}

proof fn lemma_entry_map_finite<V>(entries: Seq<(String, V)>)
    ensures
        entry_map(entries).dom().finite(),
    decreases entries.len(),
{
    if entries.len() > 0 {
        lemma_entry_map_finite(entries.drop_last());
    }
}

impl<V> StringMap<V> {
    /// The map without entries.
    pub fn new() -> (map: Self)
        ensures
            map@ == Map::<Seq<char>, V>::empty(),
    {
        StringMap { entries: Vec::new() }
    }

    /// Gives the name this value, in place of one that it may have had.
    pub fn insert(&mut self, key: String, value: V)
        ensures
            final(self)@ == old(self)@.insert(key@, value),
    {
        self.entries.push((key, value));
        proof {
            assert(self.entries@.drop_last() =~= old(self).entries@);
        }
    }

    /// The value of a name.
    pub fn get<'a>(&'a self, key: &str) -> (value: Option<&'a V>)
        ensures
            match value {
                Some(v) => self@.contains_key(key@) && *v == self@[key@],
                None => !self@.contains_key(key@),
            },
    {
        let mut i: usize = self.entries.len();
        while i > 0
            invariant
                i <= self.entries@.len(),
                forall|j: int|
                    i <= j < self.entries@.len() ==> (#[trigger] self.entries@[j]).0@ != key@,
            decreases i,
        {
            i -= 1;
            let found = same_text(self.entries[i].0.as_str(), key);
            if found {
                proof {
                    lemma_entry_map_skips(self.entries@, key@, i + 1);
                    assert(self.entries@.take(i + 1).last() == self.entries@[i as int]);
                }
                return Some(&self.entries[i].1);
            }
        }
        proof {
            lemma_entry_map_skips(self.entries@, key@, 0);
            assert(self.entries@.take(0) =~= Seq::empty());
        }
        None
    }

    /// Whether the name has a value.
    pub fn contains_key(&self, key: &str) -> (found: bool)
        ensures
            found == self@.contains_key(key@),
    {
        self.get(key).is_some()
    }

    /// A map has finitely many names.
    pub proof fn lemma_finite(&self)
        ensures
            self@.dom().finite(),
    {
        lemma_entry_map_finite(self.entries@);
    }
}

} // verus!
