//! The specs that wait for a constraint, in the order in which they were added.

use vstd::prelude::*;

verus! {

/// The insertion-ordered map of the `indexmap` crate.
#[verifier::external_type_specification]
#[verifier::external_body]
#[verifier::reject_recursive_types(K)]
#[verifier::reject_recursive_types(V)]
#[verifier::reject_recursive_types(S)]
pub struct ExIndexMap<K, V, S>(indexmap::IndexMap<K, V, S>);

/// The entries of a map from names to places, in the order of the map.
pub uninterp spec fn entries_of(map: indexmap::IndexMap<String, usize>) -> Seq<(Seq<char>, usize)>;

/// Whether the entry at place `i` has the key `key`.
pub open spec fn has_name(entries: Seq<(Seq<char>, usize)>, i: int, key: Seq<char>) -> bool {
    0 <= i < entries.len() && entries[i].0 == key
}

/// The entries after `key` was given the value `value`: where the key is there already, it keeps
/// its place, else it comes last.
pub open spec fn inserted(
    entries: Seq<(Seq<char>, usize)>,
    key: Seq<char>,
    value: usize,
) -> Seq<(Seq<char>, usize)> {
    if exists|i: int| has_name(entries, i, key) {
        entries.update(choose|i: int| has_name(entries, i, key), (key, value))
    } else {
        entries.push((key, value))
    }
}

/// Creates a map with `IndexMap::new`, which has no entries.
#[verifier::external_body]
pub(crate) fn new_map() -> (map: indexmap::IndexMap<String, usize>)
    ensures
        entries_of(map) == Seq::<(Seq<char>, usize)>::empty(),
{
    indexmap::IndexMap::new()
}

/// Gives a key a value with `IndexMap::insert`. The claim: a key that is there keeps its place and
/// gets the new value, another comes last.
#[verifier::external_body]
pub(crate) fn insert(map: &mut indexmap::IndexMap<String, usize>, key: String, value: usize)
    ensures
        entries_of(*final(map)) == inserted(entries_of(*old(map)), key@, value),
{
    map.insert(key, value);
}

/// The entry at a place, with `IndexMap::get_index`: nothing exactly if the place is behind the
/// last entry.
#[verifier::external_body]
pub(crate) fn get_index(map: &indexmap::IndexMap<String, usize>, place: usize) -> (entry: Option<
    (&String, &usize),
>)
    ensures
        match entry {
            Some((key, value)) => place < entries_of(*map).len() && entries_of(*map)[place as int]
                == (key@, *value),
            None => place >= entries_of(*map).len(),
        },
{
    map.get_index(place)
}

/// A key that is there keeps its place, and the other entries stay as they are; one that is not
/// there comes behind all others. Either way it has the new value, and no key is there twice that
/// was not.
pub proof fn law_inserted(entries: Seq<(Seq<char>, usize)>, key: Seq<char>, value: usize)
    requires
        forall|i: int, j: int|
            0 <= i < j < entries.len() ==> (#[trigger] entries[i]).0 != (#[trigger] entries[j]).0,
    ensures
        forall|i: int|
            0 <= i < entries.len() ==> #[trigger] inserted(entries, key, value)[i] == (
            if entries[i].0 == key {
                (key, value)
            } else {
                entries[i]
            }),
        (exists|i: int| 0 <= i < entries.len() && (#[trigger] entries[i]).0 == key) ==> inserted(
            entries,
            key,
            value,
        ).len() == entries.len(),
        !(exists|i: int| 0 <= i < entries.len() && (#[trigger] entries[i]).0 == key) ==> inserted(
            entries,
            key,
            value,
        ) == entries.push((key, value)),
        forall|i: int, j: int|
            0 <= i < j < inserted(entries, key, value).len() ==> (
            #[trigger] inserted(entries, key, value)[i]).0 != (
            #[trigger] inserted(entries, key, value)[j]).0,
{
    if exists|i: int| 0 <= i < entries.len() && (#[trigger] entries[i]).0 == key {
        let i = choose|i: int| 0 <= i < entries.len() && (#[trigger] entries[i]).0 == key;
        assert(has_name(entries, i, key));
    }
}

} // verus!
