//! Trusted interface to dashmap's concurrent hash map.
//!
//! The engine keeps its shared per-source state in `dashmap::DashMap`, the
//! concurrent associative container the surrounding event callbacks mutate
//! without a single global lock.  Verus does not read dashmap, so the map
//! type is declared opaque here, its contents are named by an
//! uninterpreted function, and each method the engine calls is wrapped
//! with the contract dashmap's source shows.

use vstd::prelude::*;

verus! {

#[verifier::external_type_specification]
#[verifier::external_body]
#[verifier::reject_recursive_types(K)]
#[verifier::reject_recursive_types(V)]
#[verifier::reject_recursive_types(S)]
pub struct ExDashMap<K, V, S>(dashmap::DashMap<K, V, S>);

/// The entries a map holds, as a mathematical map.
pub uninterp spec fn dash_entries(m: dashmap::DashMap<u32, u64>) -> Map<u32, u64>;

/// The contents of a map with no entries.
pub open spec fn no_entries() -> Map<u32, u64> {
    Map::empty()
}

/// Relies on dashmap::DashMap::new: a fresh map holds no entries.
#[verifier::external_body]
pub(crate) fn dash_new() -> (r: dashmap::DashMap<u32, u64>)
    ensures
        dash_entries(r) == no_entries(),
{
    dashmap::DashMap::new()
}

/// Relies on dashmap::DashMap::insert: maps the key to the value and keeps
/// every other entry.
#[verifier::external_body]
pub(crate) fn dash_insert(m: &mut dashmap::DashMap<u32, u64>, k: u32, v: u64)
    ensures
        dash_entries(*final(m)) == dash_entries(*old(m)).insert(k, v),
{
    let _ = m.insert(k, v);
}

/// Relies on dashmap::DashMap::get: returns the value the key maps to, if
/// any.
#[verifier::external_body]
pub(crate) fn dash_get(m: &dashmap::DashMap<u32, u64>, k: u32) -> (r: Option<u64>)
    ensures
        r == if dash_entries(*m).contains_key(k) {
            Some(dash_entries(*m)[k])
        } else {
            None::<u64>
        },
{
    match m.get(&k) {
        Some(entry) => Some(*entry),
        None => None,
    }
}

} // verus!
