//! An insertion-ordered string-to-string map, backed by `indexmap::IndexMap`.
//!
//! The map's abstract contents are its entries in order, as modelled by
//! `crate::entries`: inserting an existing key updates its value in place,
//! inserting a new key appends it.

use vstd::prelude::*;

use crate::entries::{lookup, upsert, Entry};

verus! {

#[verifier::external_type_specification]
#[verifier::external_body]
#[verifier::reject_recursive_types(K)]
#[verifier::reject_recursive_types(V)]
#[verifier::reject_recursive_types(S)]
pub struct ExIndexMap<K, V, S>(indexmap::IndexMap<K, V, S>);

/// The entries an `IndexMap` holds, in its iteration order, as pairs of the
/// key's and the value's character sequences.
pub uninterp spec fn im_entries(m: indexmap::IndexMap<String, String>) -> Seq<Entry>;

/// Relies on `indexmap::IndexMap::new`: the new map is empty.
#[verifier::external_body]
fn im_new() -> (m: indexmap::IndexMap<String, String>)
    ensures
        im_entries(m) == Seq::<Entry>::empty(),
{
    indexmap::IndexMap::new()
}

/// Relies on `indexmap::IndexMap::insert`: an existing key keeps its place in
/// the order and gets the new value; a new key is appended last.
#[verifier::external_body]
fn im_upsert(m: &mut indexmap::IndexMap<String, String>, k: String, v: String)
    ensures
        im_entries(*final(m)) == upsert(im_entries(*old(m)), k@, v@),
{
    m.insert(k, v);
}

/// Relies on `indexmap::IndexMap::get`: returns the value stored under an
/// equivalent key, or `None` when the key is absent.
#[verifier::external_body]
fn im_get(m: &indexmap::IndexMap<String, String>, k: &String) -> (r: Option<String>)
    ensures
        match r {
            Some(v) => lookup(im_entries(*m), k@) == Some(v@),
            None => lookup(im_entries(*m), k@) is None,
        },
{
    m.get(k).cloned()
}

/// Relies on `indexmap::IndexMap::len`: the number of entries.
#[verifier::external_body]
fn im_len(m: &indexmap::IndexMap<String, String>) -> (n: usize)
    ensures
        n == im_entries(*m).len(),
{
    m.len()
}

/// Relies on `indexmap::IndexMap::get_index`: returns the pair at the given
/// position in the iteration order; `Some` whenever the index is in range.
#[verifier::external_body]
fn im_pair_at(m: &indexmap::IndexMap<String, String>, i: usize) -> (p: (String, String))
    requires
        i < im_entries(*m).len(),
    ensures
        p.0@ == im_entries(*m)[i as int].0,
        p.1@ == im_entries(*m)[i as int].1,
{
    let (k, v) = m.get_index(i).unwrap();
    (k.clone(), v.clone())
}

/// A string-to-string map that preserves insertion order and updates values
/// in place on key collision.
pub struct OrderedIndex {
    inner: indexmap::IndexMap<String, String>,
}

impl View for OrderedIndex {
    type V = Seq<Entry>;

    closed spec fn view(&self) -> Seq<Entry> {
        im_entries(self.inner)
    }
}

impl OrderedIndex {
    /// Creates an empty map.
    pub fn new() -> (m: Self)
        ensures
            m@ == Seq::<Entry>::empty(),
    {
        OrderedIndex { inner: im_new() }
    }

    /// Inserts or updates: an existing key keeps its place and gets the new
    /// value, a new key is appended last.
    pub fn upsert(&mut self, k: String, v: String)
        ensures
            final(self)@ == upsert(old(self)@, k@, v@),
    {
        im_upsert(&mut self.inner, k, v);
    }

    /// Looks up the value stored under `k`.
    pub fn get(&self, k: &String) -> (r: Option<String>)
        ensures
            match r {
                Some(v) => lookup(self@, k@) == Some(v@),
                None => lookup(self@, k@) is None,
            },
    {
        im_get(&self.inner, k)
    }

    /// The number of entries.
    pub fn len(&self) -> (n: usize)
        ensures
            n == self@.len(),
    {
        im_len(&self.inner)
    }

    /// The key/value pair at position `i` in insertion order.
    pub fn pair_at(&self, i: usize) -> (p: (String, String))
        requires
            i < self@.len(),
        ensures
            p.0@ == self@[i as int].0,
            p.1@ == self@[i as int].1,
    {
        im_pair_at(&self.inner, i)
    }
}

} // verus!
