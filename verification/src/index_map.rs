//! The ordered maps of an OpenAPI document, held in `indexmap::IndexMap`.
//!
//! Two kinds of map occur: maps from names to handles (components and
//! extensions, whose values the merge never reads) and the map from paths to
//! path entries. Their contents are named by `handle_entries` and
//! `path_entries`: the key-value pairs in the map's order.
use vstd::prelude::*;
use indexmap::IndexMap;
use crate::document::{PathEntry, PathEntryView, PathItemView};

verus! {

#[verifier::external_type_specification]
#[verifier::external_body]
#[verifier::reject_recursive_types(K)]
#[verifier::reject_recursive_types(V)]
#[verifier::reject_recursive_types(S)]
pub struct ExIndexMap<K, V, S>(IndexMap<K, V, S>);

/// The entries of a map from names to handles, in the map's order.
pub uninterp spec fn handle_entries(m: IndexMap<String, u64>) -> Seq<(Seq<char>, u64)>;

/// The entries of a map from paths to path entries, in the map's order.
pub uninterp spec fn path_entries(m: IndexMap<String, PathEntry>) -> Seq<(Seq<char>, PathEntryView)>;

/// The keys of a sequence of entries, in order.
pub open spec fn keys_of<V>(entries: Seq<(Seq<char>, V)>) -> Seq<Seq<char>> {
    entries.map_values(|e: (Seq<char>, V)| e.0)
}

/// Whether some entry has the key `k`.
pub open spec fn has_key<V>(entries: Seq<(Seq<char>, V)>, k: Seq<char>) -> bool {
    exists|i: int| 0 <= i < entries.len() && #[trigger] entries[i].0 == k
}

/// No two entries share a key.
pub open spec fn keys_unique<V>(entries: Seq<(Seq<char>, V)>) -> bool {
    forall|i: int, j: int|
        0 <= i < entries.len() && 0 <= j < entries.len() && i != j ==> #[trigger] entries[i].0
            != #[trigger] entries[j].0
}

/// `IndexMap::new` for a map from names to handles: no entries.
#[verifier::external_body]
pub fn new_handle_map() -> (m: IndexMap<String, u64>)
    ensures
        handle_entries(m) == Seq::<(Seq<char>, u64)>::empty(),
{
    IndexMap::new()
}

/// `IndexMap::new` for a map from paths: no entries.
#[verifier::external_body]
pub fn new_path_map() -> (m: IndexMap<String, PathEntry>)
    ensures
        path_entries(m) == Seq::<(Seq<char>, PathEntryView)>::empty(),
{
    IndexMap::new()
}

/// `IndexMap::entry(key).or_insert(value)` on a map from names to handles:
/// an entry with the key stays as it is; without one, `(key, value)` is
/// appended at the end of the map's order.
#[verifier::external_body]
pub fn handle_or_insert(m: &mut IndexMap<String, u64>, key: String, value: u64)
    ensures
        has_key(handle_entries(*old(m)), key@) ==> handle_entries(*final(m)) == handle_entries(*old(m)),
        !has_key(handle_entries(*old(m)), key@) ==> handle_entries(*final(m))
            == handle_entries(*old(m)).push((key@, value)),
{
    m.entry(key).or_insert(value);
}

/// `IndexMap::into_iter` on a map from names to handles, collected: the
/// entries in the map's order; a map never holds two entries with one key.
#[verifier::external_body]
pub fn handle_map_into_entries(m: IndexMap<String, u64>) -> (v: Vec<(String, u64)>)
    ensures
        v@.len() == handle_entries(m).len(),
        forall|i: int|
            0 <= i < v@.len() ==> (#[trigger] v@[i]).0@ == handle_entries(m)[i].0 && v@[i].1
                == handle_entries(m)[i].1,
        forall|i: int, j: int|
            0 <= i < v@.len() && 0 <= j < v@.len() && i != j ==> (#[trigger] v@[i]).0@
                != (#[trigger] v@[j]).0@,
{
    m.into_iter().collect()
}

/// `IndexMap::iter` on a map from paths, collected: the entries in the map's
/// order; a map never holds two entries with one key.
#[verifier::external_body]
pub fn path_map_iter(m: &IndexMap<String, PathEntry>) -> (v: Vec<(&String, &PathEntry)>)
    ensures
        v@.len() == path_entries(*m).len(),
        forall|i: int|
            0 <= i < v@.len() ==> (#[trigger] v@[i]).0@ == path_entries(*m)[i].0 && v@[i].1@
                == path_entries(*m)[i].1,
        forall|i: int, j: int|
            0 <= i < v@.len() && 0 <= j < v@.len() && i != j ==> (#[trigger] v@[i]).0@
                != (#[trigger] v@[j]).0@,
{
    m.iter().collect()
}

/// `IndexMap::entry(key).or_insert_with(PathEntry::empty_item)` on a map from
/// paths. With an entry for the key, the reference points at its value, and
/// what is written through it replaces that value in place; without one, an
/// empty path item is appended under the key, and the reference points at it.
#[verifier::external_body]
pub fn path_or_insert_empty(m: &mut IndexMap<String, PathEntry>, key: String) -> (r: &mut PathEntry)
    ensures
        forall|i: int|
            0 <= i < path_entries(*old(m)).len() && #[trigger] path_entries(*old(m))[i].0 == key@
                ==> (*r)@ == path_entries(*old(m))[i].1 && path_entries(*final(m))
                == path_entries(*old(m)).update(i, (key@, (*final(r))@)),
        !has_key(path_entries(*old(m)), key@) ==> (*r)@ == PathEntryView::Item(PathItemView::empty())
            && path_entries(*final(m)) == path_entries(*old(m)).push((key@, (*final(r))@)),
{
    m.entry(key).or_insert_with(PathEntry::empty_item)
}

} // verus!
