//! A map from text to values that remembers the order in which keys arrived.

use vstd::prelude::*;
use crate::text::text_eq;

verus! {

/// The place of `key` among `entries`, where it has one.
pub open spec fn place_of<V>(entries: Seq<(String, V)>, key: Seq<char>) -> int {
    choose|i: int| 0 <= i < entries.len() && (#[trigger] entries[i]).0@ == key
}

/// Whether one of the entries has this key.
pub open spec fn has_key<V>(entries: Seq<(String, V)>, key: Seq<char>) -> bool {
    exists|i: int| 0 <= i < entries.len() && (#[trigger] entries[i]).0@ == key
}

/// Whether no key occurs twice.
pub open spec fn distinct_keys<V>(entries: Seq<(String, V)>) -> bool {
    forall|i: int, j: int|
        0 <= i < j < entries.len() ==> (#[trigger] entries[i]).0@ != (#[trigger] entries[j]).0@
}

/// A map from text to values.
pub struct TextMap<V> {
    entries: Vec<(String, V)>,
}

impl<V> View for TextMap<V> {
    type V = Map<Seq<char>, V>;

    closed spec fn view(&self) -> Map<Seq<char>, V> {
        Map::new(
            |key: Seq<char>| has_key(self.entries@, key),
            |key: Seq<char>| self.entries@[place_of(self.entries@, key)].1,
        )
    }
}

impl<V> TextMap<V> {
    /// No key occurs twice.
    pub closed spec fn well_formed(&self) -> bool {
        distinct_keys(self.entries@)
    }

    /// The map without entries.
    pub fn new() -> (map: Self)
        ensures
            map.well_formed(),
            map@ == Map::<Seq<char>, V>::empty(),
    {
        let map = TextMap { entries: Vec::new() };
        assert(map@ =~= Map::<Seq<char>, V>::empty());
        map
    }

    fn find(&self, key: &str) -> (place: Option<usize>)
        ensures
            match place {
                Some(i) => i < self.entries@.len() && self.entries@[i as int].0@ == key@,
                None => !has_key(self.entries@, key@),
            },
    {
        let mut i: usize = 0;
        while i < self.entries.len()
            invariant
                i <= self.entries@.len(),
                forall|j: int| 0 <= j < i ==> (#[trigger] self.entries@[j]).0@ != key@,
            decreases self.entries.len() - i,
        {
            if text_eq(self.entries[i].0.as_str(), key) {
                return Some(i);
            }
            i += 1;
        }
        None
    }

    /// The value of `key`, where the map has one.
    pub fn get(&self, key: &str) -> (value: Option<&V>)
        requires
            self.well_formed(),
        ensures
            match value {
                Some(v) => self@.contains_key(key@) && *v == self@[key@],
                None => !self@.contains_key(key@),
            },
    {
        match self.find(key) {
            Some(i) => {
                assert(place_of(self.entries@, key@) == i);
                Some(&self.entries[i].1)
            },
            None => None,
        }
    }

    /// Gives `key` the value `value`, in place of the value that it had.
    pub fn insert(&mut self, key: String, value: V)
        requires
            old(self).well_formed(),
        ensures
            final(self).well_formed(),
            final(self)@ == old(self)@.insert(key@, value),
    {
        let ghost before = self.entries@;
        match self.find(key.as_str()) {
            Some(i) => {
                self.entries.set(i, (key, value));
                proof {
                    let after = self.entries@;
                    assert forall|k: Seq<char>| #![auto] has_key(after, k) == (has_key(before, k)) by {
                        if has_key(before, k) {
                            let p = place_of(before, k);
                            assert(after[p].0@ == k);
                        }
                        if has_key(after, k) {
                            let p = place_of(after, k);
                            assert(before[p].0@ == k);
                        }
                    }
                    assert(after[i as int].0@ == key@);
                    assert forall|k: Seq<char>| has_key(before, k) implies place_of(after, k)
                        == place_of(before, k) by {
                        let p = place_of(before, k);
                        assert(after[p].0@ == k);
                    }
                    assert(self@ =~= old(self)@.insert(key@, value));
                }
            },
            None => {
                self.entries.push((key, value));
                proof {
                    let after = self.entries@;
                    assert(after.last().0@ == key@);
                    assert forall|k: Seq<char>| #![auto] has_key(after, k) == (has_key(before, k)
                        || k == key@) by {
                        if has_key(before, k) {
                            let p = place_of(before, k);
                            assert(after[p].0@ == k);
                        }
                        if k == key@ {
                            assert(after[before.len() as int].0@ == k);
                        }
                        if has_key(after, k) && k != key@ {
                            let p = place_of(after, k);
                            assert(before[p].0@ == k);
                        }
                    }
                    assert forall|k: Seq<char>| has_key(before, k) implies place_of(after, k)
                        == place_of(before, k) by {
                        let p = place_of(before, k);
                        assert(after[p].0@ == k);
                    }
                    assert(place_of(after, key@) == before.len());
                    assert(self@ =~= old(self)@.insert(key@, value));
                }
            },
        }
    }

    /// The entries: every key once, with its value.
    pub fn entries(&self) -> (entries: &Vec<(String, V)>)
        requires
            self.well_formed(),
        ensures
            distinct_keys(entries@),
            forall|key: Seq<char>| #[trigger] self@.contains_key(key) == has_key(entries@, key),
            forall|i: int|
                0 <= i < entries@.len() ==> self@[(#[trigger] entries@[i]).0@] == entries@[i].1,
    {
        assert forall|i: int| 0 <= i < self.entries@.len() implies self@[(
        #[trigger] self.entries@[i]).0@] == self.entries@[i].1 by {
            let key = self.entries@[i].0@;
            assert(has_key(self.entries@, key));
            assert(place_of(self.entries@, key) == i);
        }
        &self.entries
    }
}

} // verus!
