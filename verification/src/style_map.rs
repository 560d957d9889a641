//! The structured style map is an insertion-ordered key/value map from the
//! `indexmap` crate.  Verified code sees its contents through
//! [`style_map_entries`], the sequence of key/value pairs in the map's
//! order, and calls it only through the wrappers below.

use vstd::prelude::*;
use crate::cascade::insert_entry;
use crate::cascade::value_at;
use indexmap::IndexMap;

verus! {

#[verifier::external_type_specification]
#[verifier::external_body]
#[verifier::reject_recursive_types(K)]
#[verifier::reject_recursive_types(V)]
#[verifier::reject_recursive_types(S)]
pub struct ExIndexMap<K, V, S>(IndexMap<K, V, S>);

/// What a structured style map holds: its key/value pairs, first-inserted
/// first, at the level of character sequences.
pub uninterp spec fn style_map_entries(m: IndexMap<String, Option<String>>) -> Seq<
    (Seq<char>, Option<Seq<char>>),
>;

/// Relies on `IndexMap::new`: creates an empty map.
#[verifier::external_body]
pub fn style_map_new() -> (m: IndexMap<String, Option<String>>)
    ensures
        style_map_entries(m) == Seq::<(Seq<char>, Option<Seq<char>>)>::empty(),
{
    IndexMap::new()
}

/// Relies on `IndexMap::len`: the number of key-value pairs in the map.
#[verifier::external_body]
pub fn style_map_len(m: &IndexMap<String, Option<String>>) -> (n: usize)
    ensures
        n == style_map_entries(*m).len(),
{
    m.len()
}

/// Relies on `IndexMap::insert`: a key already present keeps its place in
/// the order and only its value is updated; a new key is appended last.
#[verifier::external_body]
pub fn style_map_insert(
    m: &mut IndexMap<String, Option<String>>,
    key: String,
    value: Option<String>,
)
    ensures
        style_map_entries(*final(m)) == insert_entry(
            style_map_entries(*old(m)),
            key@,
            value.deep_view(),
        ),
{
    m.insert(key, value);
}

/// Relies on `IndexMap::get_index`: the key-value pair at the given
/// position of the order; positions below `len` are valid.
#[verifier::external_body]
pub fn style_map_entry_at(m: &IndexMap<String, Option<String>>, i: usize) -> (kv: (
    String,
    Option<String>,
))
    requires
        i < style_map_entries(*m).len(),
    ensures
        kv.0@ == style_map_entries(*m)[i as int].0,
        kv.1.deep_view() == style_map_entries(*m)[i as int].1,
{
    let (k, v) = m.get_index(i).unwrap();
    (k.clone(), v.clone())
}

/// Relies on `IndexMap::get`: the value stored for the key whose characters
/// equal `key`, if such a key is present.
#[verifier::external_body]
pub fn style_map_get(m: &IndexMap<String, Option<String>>, key: &str) -> (r: Option<Option<String>>)
    ensures
        r.deep_view() == value_at(style_map_entries(*m), key@),
{
    m.get(key).map(|v| v.clone())
}

} // verus!
