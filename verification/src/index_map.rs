//! The verifier's interface to `indexmap::IndexMap`, the insertion-ordered
//! map that backs every column registry in this crate.
//!
//! A map value is opaque here; everything the registries prove rests on
//! [`entries_of`], the map's key/value pairs in insertion order, and on the
//! contracts of the small wrappers below.

use vstd::prelude::*;

verus! {

/// `indexmap::IndexMap` declared for the verifier. Values of the type are
/// opaque; [`entries_of`] names what a map holds.
#[verifier::external_type_specification]
#[verifier::external_body]
#[verifier::reject_recursive_types(K)]
#[verifier::reject_recursive_types(V)]
#[verifier::reject_recursive_types(S)]
pub struct ExIndexMap<K, V, S>(indexmap::IndexMap<K, V, S>);

/// What an `indexmap::IndexMap<String, usize>` holds: its key/value pairs in
/// insertion order, each key taken as its character sequence.
pub uninterp spec fn entries_of(m: indexmap::IndexMap<String, usize>) -> Seq<(Seq<char>, usize)>;

/// Whether some pair of `s` carries the key `k`.
pub open spec fn has_key(s: Seq<(Seq<char>, usize)>, k: Seq<char>) -> bool {
    exists|i: int| 0 <= i < s.len() && s[i].0 == k
}

/// Whether some pair of `s` is exactly `(k, v)`.
pub open spec fn has_pair(s: Seq<(Seq<char>, usize)>, k: Seq<char>, v: usize) -> bool {
    exists|i: int| 0 <= i < s.len() && s[i] == (k, v)
}

/// Relies on `indexmap::IndexMap::new`: a new map is empty.
#[verifier::external_body]
pub(crate) fn new_index_map() -> (m: indexmap::IndexMap<String, usize>)
    ensures
        entries_of(m) == Seq::<(Seq<char>, usize)>::empty(),
{
    indexmap::IndexMap::new()
}

/// Relies on `indexmap::IndexMap::len`: the number of pairs in the map, which
/// the map counts in a `usize`.
#[verifier::external_body]
pub(crate) fn index_map_len(m: &indexmap::IndexMap<String, usize>) -> (n: usize)
    ensures
        n == entries_of(*m).len(),
{
    m.len()
}

/// Relies on `indexmap::IndexMap::contains_key`: whether a key equivalent to
/// the argument is present; two text keys are equivalent exactly when their
/// characters are equal.
#[verifier::external_body]
pub(crate) fn index_map_contains_key(m: &indexmap::IndexMap<String, usize>, key: &str) -> (b: bool)
    ensures
        b == has_key(entries_of(*m), key@),
{
    m.contains_key(key)
}

/// Relies on `indexmap::IndexMap::get`: the value stored for the key, if an
/// equivalent key is present, else nothing.
#[verifier::external_body]
pub(crate) fn index_map_get(m: &indexmap::IndexMap<String, usize>, key: &str) -> (r: Option<usize>)
    ensures
        match r {
            Some(v) => has_pair(entries_of(*m), key@, v),
            None => !has_key(entries_of(*m), key@),
        },
{
    m.get(key).copied()
}

/// Relies on `indexmap::IndexMap::insert`: a key of which no equivalent is
/// present goes in last in order.
#[verifier::external_body]
pub(crate) fn index_map_insert_new(
    m: &mut indexmap::IndexMap<String, usize>,
    key: &str,
    value: usize,
)
    requires
        !has_key(entries_of(*old(m)), key@),
    ensures
        entries_of(*final(m)) == entries_of(*old(m)).push((key@, value)),
{
    m.insert(key.to_string(), value);
}

/// Relies on `indexmap::IndexMap::keys`: the keys come out in their order.
#[verifier::external_body]
pub(crate) fn index_map_keys(m: &indexmap::IndexMap<String, usize>) -> (r: Vec<String>)
    ensures
        r@.len() == entries_of(*m).len(),
        forall|i: int| 0 <= i < r@.len() ==> r@[i]@ == entries_of(*m)[i].0,
{
    m.keys().cloned().collect()
}

} // verus!
