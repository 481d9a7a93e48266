//! The two hash tables behind the interning map.
//!
//! The forward table maps owned text to an identifier, the backward table
//! maps an identifier back to the text. Both are hash maps of an outside
//! crate held in opaque wrapper structs; their contents are named by the
//! spec functions [`fwd_view`] and [`bwd_view`], and the few operations the
//! interning map needs are small trusted functions whose contracts state
//! what the hash map's documentation promises of them.

use hashbrown::HashMap;
use std::hash::RandomState;
use vstd::prelude::*;

verus! {

/// The forward table: owned text to identifier.
#[verifier::external_body]
pub struct FwdTable {
    inner: HashMap<String, u32, RandomState>,
}

/// The contents of a forward table, as a map from text to identifier.
pub uninterp spec fn fwd_view(t: FwdTable) -> Map<Seq<char>, u32>;

/// The backward table: identifier to owned text.
#[verifier::external_body]
pub struct BwdTable {
    inner: HashMap<u32, String, RandomState>,
}

/// The contents of a backward table, as a map from identifier to text.
pub uninterp spec fn bwd_view(t: BwdTable) -> Map<u32, Seq<char>>;

/// The contents of a forward table with nothing in it.
pub open spec fn fwd_empty() -> Map<Seq<char>, u32> {
    Map::<Seq<char>, u32>::empty()
}

/// The contents of a backward table with nothing in it.
pub open spec fn bwd_empty() -> Map<u32, Seq<char>> {
    Map::<u32, Seq<char>>::empty()
}

/// Relies on `hashbrown::HashMap::with_hasher`: creates an empty map using
/// the given hash builder.
#[verifier::external_body]
pub(crate) fn fwd_with_hasher(h: RandomState) -> (t: FwdTable)
    ensures
        fwd_view(t) == fwd_empty(),
{
    FwdTable { inner: HashMap::with_hasher(h) }
}

/// Relies on `hashbrown::HashMap::get`: returns the value the key is mapped
/// to, or `None` if the key is not in the map.
#[verifier::external_body]
pub(crate) fn fwd_get(t: &FwdTable, key: &str) -> (r: Option<u32>)
    ensures
        match r {
            Some(id) => fwd_view(*t).contains_key(key@) && fwd_view(*t)[key@] == id,
            None => !fwd_view(*t).contains_key(key@),
        },
{
    t.inner.get(key).copied()
}

/// Relies on `hashbrown::HashMap::insert`: maps the key to the value,
/// replacing any earlier value of that key.
#[verifier::external_body]
pub(crate) fn fwd_insert(t: &mut FwdTable, key: String, val: u32)
    ensures
        fwd_view(*final(t)) == fwd_view(*old(t)).insert(key@, val),
{
    t.inner.insert(key, val);
}

/// Relies on `hashbrown::HashMap::with_hasher`: creates an empty map using
/// the given hash builder.
#[verifier::external_body]
pub(crate) fn bwd_with_hasher(h: RandomState) -> (t: BwdTable)
    ensures
        bwd_view(t) == bwd_empty(),
{
    BwdTable { inner: HashMap::with_hasher(h) }
}

/// Relies on `hashbrown::HashMap::get`: returns the value the key is mapped
/// to, or `None` if the key is not in the map. The text is handed out as a
/// clone of the stored `String`.
#[verifier::external_body]
pub(crate) fn bwd_get(t: &BwdTable, key: u32) -> (r: Option<String>)
    ensures
        match r {
            Some(s) => bwd_view(*t).contains_key(key) && s@ == bwd_view(*t)[key],
            None => !bwd_view(*t).contains_key(key),
        },
{
    t.inner.get(&key).cloned()
}

/// Relies on `hashbrown::HashMap::insert`: maps the key to the value,
/// replacing any earlier value of that key.
#[verifier::external_body]
pub(crate) fn bwd_insert(t: &mut BwdTable, key: u32, val: String)
    ensures
        bwd_view(*final(t)) == bwd_view(*old(t)).insert(key, val@),
{
    t.inner.insert(key, val);
}

/// Relies on `std::hash::RandomState::new`: a randomly seeded hash builder;
/// nothing is stated of the seed it picked.
#[verifier::external_body]
pub(crate) fn random_state() -> RandomState {
    RandomState::new()
}

} // verus!
