//! The concurrent maps that hold shared gateway state.
//!
//! The maps are `dashmap::DashMap` values. Their code is not verified here:
//! every function in this file states, without proof, what the corresponding
//! `DashMap` method does to the key/value pairs a map holds.
//!
//! `DashMap` lets a shared reference change a map. Here a function that
//! changes a map takes it by exclusive reference, so that its contract can
//! speak of the map before and after the call.

use dashmap::DashMap;
use vstd::prelude::*;

verus! {

#[verifier::external_type_specification]
#[verifier::external_body]
#[verifier::reject_recursive_types(K)]
#[verifier::reject_recursive_types(V)]
#[verifier::reject_recursive_types(S)]
pub struct ExDashMap<K, V, S>(DashMap<K, V, S>);

/// The pairs held by a map of counters: text key to number.
pub uninterp spec fn counter_entries(m: DashMap<String, u64>) -> Map<Seq<char>, u64>;

/// The pairs held by a failure-record map: client key to
/// `(failures, time of the first failure)`.
pub uninterp spec fn failure_entries(m: DashMap<String, (u32, u128)>) -> Map<
    Seq<char>,
    (u32, u128),
>;

/// The map of counters that holds nothing.
pub open spec fn no_counters() -> Map<Seq<char>, u64> {
    Map::empty()
}

/// The failure-record map that holds nothing.
pub open spec fn no_failures() -> Map<Seq<char>, (u32, u128)> {
    Map::empty()
}

/// `DashMap::new`: a fresh map holds nothing.
#[verifier::external_body]
pub(crate) fn counter_new() -> (m: DashMap<String, u64>)
    ensures
        counter_entries(m) == no_counters(),
{
    DashMap::new()
}

/// `DashMap::get`: the value stored under `key`, if any.
#[verifier::external_body]
pub(crate) fn counter_get(m: &DashMap<String, u64>, key: &str) -> (r: Option<u64>)
    ensures
        r == (if counter_entries(*m).contains_key(key@) {
            Some(counter_entries(*m)[key@])
        } else {
            None
        }),
{
    m.get(key).map(|v| *v)
}

/// `DashMap::insert`: afterwards `key` maps to `value` and every other key
/// is as before.
#[verifier::external_body]
pub(crate) fn counter_insert(m: &mut DashMap<String, u64>, key: String, value: u64)
    ensures
        counter_entries(*final(m)) == counter_entries(*old(m)).insert(key@, value),
{
    m.insert(key, value);
}

/// `DashMap::clear`: afterwards the map holds nothing.
#[verifier::external_body]
pub(crate) fn counter_clear(m: &mut DashMap<String, u64>)
    ensures
        counter_entries(*final(m)) == no_counters(),
{
    m.clear();
}

/// `DashMap::iter`: every stored pair exactly once, in an order that the
/// map does not promise.
#[verifier::external_body]
pub(crate) fn counter_pairs(m: &DashMap<String, u64>) -> (r: Vec<(String, u64)>)
    ensures
        forall|i: int|
            0 <= i < r@.len() ==> counter_entries(*m).contains_key(#[trigger] r@[i].0@)
                && counter_entries(*m)[r@[i].0@] == r@[i].1,
        forall|k: Seq<char>| #[trigger]
            counter_entries(*m).contains_key(k) ==> exists|i: int|
                0 <= i < r@.len() && #[trigger] r@[i].0@ == k,
        forall|i: int, j: int|
            0 <= i < j < r@.len() ==> #[trigger] r@[i].0@ != #[trigger] r@[j].0@,
{
    m.iter().map(|e| (e.key().clone(), *e.value())).collect()
}

/// `DashMap::new`: a fresh map holds nothing.
#[verifier::external_body]
pub(crate) fn failures_new() -> (m: DashMap<String, (u32, u128)>)
    ensures
        failure_entries(m) == no_failures(),
{
    DashMap::new()
}

/// `DashMap::get`: the value stored under `key`, if any.
#[verifier::external_body]
pub(crate) fn failures_get(m: &DashMap<String, (u32, u128)>, key: &str) -> (r: Option<
    (u32, u128),
>)
    ensures
        r == (if failure_entries(*m).contains_key(key@) {
            Some(failure_entries(*m)[key@])
        } else {
            None
        }),
{
    m.get(key).map(|v| *v)
}

/// `DashMap::insert`: afterwards `key` maps to `value` and every other key
/// is as before.
#[verifier::external_body]
pub(crate) fn failures_insert(m: &mut DashMap<String, (u32, u128)>, key: String, value: (u32, u128))
    ensures
        failure_entries(*final(m)) == failure_entries(*old(m)).insert(key@, value),
{
    m.insert(key, value);
}

/// `DashMap::remove`: afterwards `key` is absent and every other key is as
/// before.
#[verifier::external_body]
pub(crate) fn failures_remove(m: &mut DashMap<String, (u32, u128)>, key: &str)
    ensures
        failure_entries(*final(m)) == failure_entries(*old(m)).remove(key@),
{
    m.remove(key);
}

} // verus!
