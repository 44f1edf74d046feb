//! The sharded concurrent tables that back the store, seen through their
//! contents.

use dashmap::{DashMap, DashSet};
use std::collections::hash_map::RandomState;
use vstd::prelude::*;

verus! {

#[verifier::external_type_specification]
#[verifier::external_body]
#[verifier::reject_recursive_types(K)]
#[verifier::reject_recursive_types(V)]
#[verifier::reject_recursive_types(S)]
pub struct ExDashMap<K, V, S>(DashMap<K, V, S>);

#[verifier::external_type_specification]
#[verifier::external_body]
#[verifier::reject_recursive_types(K)]
#[verifier::reject_recursive_types(S)]
pub struct ExDashSet<K, S>(DashSet<K, S>);

/// What a counter table holds: key to counter value.
pub uninterp spec fn counts_of(m: DashMap<String, u64, RandomState>) -> Map<Seq<char>, u64>;

/// Relies on `DashMap::new`: a new map holds no entry.
#[verifier::external_body]
pub(crate) fn counter_table_new() -> (r: DashMap<String, u64, RandomState>)
    ensures
        counts_of(r) =~= Map::empty(),
{
    DashMap::new()
}

/// Relies on `DashMap::get`: the value stored under `k`, if any.
#[verifier::external_body]
pub(crate) fn counter_get(m: &DashMap<String, u64, RandomState>, k: &str) -> (r: Option<u64>)
    ensures
        r == (if counts_of(*m).contains_key(k@) {
            Some(counts_of(*m)[k@])
        } else {
            None
        }),
{
    m.get(k).map(|v| *v)
}


/// Relies on `DashMap::insert`: the entry under `k` becomes `v`.
#[verifier::external_body]
pub(crate) fn counter_set(m: &mut DashMap<String, u64, RandomState>, k: &str, v: u64)
    ensures
        counts_of(*final(m)) == counts_of(*old(m)).insert(k@, v),
{
    m.insert(k.to_string(), v);
}

/// Relies on `DashMap::remove`: the entry under `k` leaves; whether there was
/// one is returned.
#[verifier::external_body]
pub(crate) fn counter_remove(m: &mut DashMap<String, u64, RandomState>, k: &str) -> (r: bool)
    ensures
        counts_of(*final(m)) == counts_of(*old(m)).remove(k@),
        r == counts_of(*old(m)).contains_key(k@),
{
    m.remove(k).is_some()
}

/// Relies on `DashMap::iter`: every entry once, in no particular order.
#[verifier::external_body]
pub(crate) fn counter_entries(m: &DashMap<String, u64, RandomState>) -> (r: Vec<(String, u64)>)
    ensures
        forall|i: int|
            0 <= i < r@.len() ==> #[trigger] counts_of(*m).contains_key(r@[i].0@)
                && counts_of(*m)[r@[i].0@] == r@[i].1,
        forall|k: Seq<char>|
            #[trigger] counts_of(*m).contains_key(k) ==> exists|i: int|
                0 <= i < r@.len() && #[trigger] r@[i].0@ == k,
        forall|i: int, j: int|
            0 <= i < r@.len() && 0 <= j < r@.len() && i != j ==> #[trigger] r@[i].0@ != #[trigger] r@[j].0@,
{
    m.iter().map(|e| (e.key().clone(), *e.value())).collect()
}

/// Relies on `DashMap::clear`: no entry is left.
#[verifier::external_body]
pub(crate) fn counter_clear(m: &mut DashMap<String, u64, RandomState>)
    ensures
        counts_of(*final(m)) =~= Map::empty(),
{
    m.clear();
}

/// What a display table holds: key to the host or path first seen for it.
pub uninterp spec fn labels_of(m: DashMap<String, String, RandomState>) -> Map<Seq<char>, Seq<char>>;

/// Relies on `DashMap::new`: a new map holds no entry.
#[verifier::external_body]
pub(crate) fn label_table_new() -> (r: DashMap<String, String, RandomState>)
    ensures
        labels_of(r) =~= Map::empty(),
{
    DashMap::new()
}

/// Relies on `DashMap::get`: a copy of the text stored under `k`, if any.
#[verifier::external_body]
pub(crate) fn label_get(m: &DashMap<String, String, RandomState>, k: &str) -> (r: Option<String>)
    ensures
        r is Some <==> labels_of(*m).contains_key(k@),
        r is Some ==> r->0@ == labels_of(*m)[k@],
{
    m.get(k).map(|v| v.value().clone())
}

/// Relies on `DashMap::insert`: the entry under `k` becomes `v`.
#[verifier::external_body]
pub(crate) fn label_set(m: &mut DashMap<String, String, RandomState>, k: &str, v: &str)
    ensures
        labels_of(*final(m)) == labels_of(*old(m)).insert(k@, v@),
{
    m.insert(k.to_string(), v.to_string());
}

/// Relies on `DashMap::remove`: the entry under `k` leaves.
#[verifier::external_body]
pub(crate) fn label_remove(m: &mut DashMap<String, String, RandomState>, k: &str)
    ensures
        labels_of(*final(m)) == labels_of(*old(m)).remove(k@),
{
    m.remove(k);
}

/// Relies on `DashMap::iter`: every key once, in no particular order.
#[verifier::external_body]
pub(crate) fn label_keys(m: &DashMap<String, String, RandomState>) -> (r: Vec<String>)
    ensures
        forall|i: int| 0 <= i < r@.len() ==> #[trigger] labels_of(*m).contains_key(r@[i]@),
        forall|k: Seq<char>|
            #[trigger] labels_of(*m).contains_key(k) ==> exists|i: int|
                0 <= i < r@.len() && #[trigger] r@[i]@ == k,
{
    m.iter().map(|e| e.key().clone()).collect()
}

/// Relies on `DashMap::clear`: no entry is left.
#[verifier::external_body]
pub(crate) fn label_clear(m: &mut DashMap<String, String, RandomState>)
    ensures
        labels_of(*final(m)) =~= Map::empty(),
{
    m.clear();
}

/// What the visitor table holds: site key to the set of visitor hashes seen.
pub uninterp spec fn visitor_sets_of(m: DashMap<String, DashSet<u64, RandomState>, RandomState>) -> Map<Seq<char>, Set<u64>>;

/// Relies on `DashMap::new`: a new map holds no entry.
#[verifier::external_body]
pub(crate) fn visitor_table_new() -> (r: DashMap<String, DashSet<u64, RandomState>, RandomState>)
    ensures
        visitor_sets_of(r) =~= Map::empty(),
{
    DashMap::new()
}

/// Relies on `DashMap::contains_key`: whether `k` has an entry.
#[verifier::external_body]
pub(crate) fn visitors_contains(m: &DashMap<String, DashSet<u64, RandomState>, RandomState>, k: &str) -> (r: bool)
    ensures
        r == visitor_sets_of(*m).contains_key(k@),
{
    m.contains_key(k)
}

/// Relies on `DashMap::entry` with `Entry::or_default`: `k` gets an empty set
/// when it has none, and a present set is left as it is.
#[verifier::external_body]
pub(crate) fn visitors_ensure(m: &mut DashMap<String, DashSet<u64, RandomState>, RandomState>, k: &str)
    ensures
        visitor_sets_of(*final(m)) == (if visitor_sets_of(*old(m)).contains_key(k@) {
            visitor_sets_of(*old(m))
        } else {
            visitor_sets_of(*old(m)).insert(k@, Set::empty())
        }),
{
    m.entry(k.to_string()).or_default();
}

/// Relies on `DashMap::entry`, `Entry::or_default` and `DashSet::insert`: `h`
/// joins the set of `k` (made empty first when absent); the result says
/// whether it was new there.
#[verifier::external_body]
pub(crate) fn visitors_insert(m: &mut DashMap<String, DashSet<u64, RandomState>, RandomState>, k: &str, h: u64) -> (r: bool)
    ensures
        visitor_sets_of(*final(m)) == visitor_sets_of(*old(m)).insert(
            k@,
            (if visitor_sets_of(*old(m)).contains_key(k@) {
                visitor_sets_of(*old(m))[k@]
            } else {
                Set::empty()
            }).insert(h),
        ),
        r == !(visitor_sets_of(*old(m)).contains_key(k@) && visitor_sets_of(*old(m))[k@].contains(h)),
{
    m.entry(k.to_string()).or_default().insert(h)
}

/// Relies on `DashMap::remove`: the set of `k` leaves.
#[verifier::external_body]
pub(crate) fn visitors_remove(m: &mut DashMap<String, DashSet<u64, RandomState>, RandomState>, k: &str)
    ensures
        visitor_sets_of(*final(m)) == visitor_sets_of(*old(m)).remove(k@),
{
    m.remove(k);
}

/// Relies on `DashMap::get` and `DashSet::iter`: the members of the set of
/// `k`, each once; none when `k` has no set.
#[verifier::external_body]
pub(crate) fn visitors_members(m: &DashMap<String, DashSet<u64, RandomState>, RandomState>, k: &str) -> (r: Vec<u64>)
    ensures
        r@.no_duplicates(),
        r@.to_set() == (if visitor_sets_of(*m).contains_key(k@) {
            visitor_sets_of(*m)[k@]
        } else {
            Set::empty()
        }),
{
    match m.get(k) {
        Some(s) => s.iter().map(|h| *h).collect(),
        None => Vec::new(),
    }
}

/// Relies on `DashMap::iter`: every key once, in no particular order.
#[verifier::external_body]
pub(crate) fn visitors_sites(m: &DashMap<String, DashSet<u64, RandomState>, RandomState>) -> (r: Vec<String>)
    ensures
        forall|i: int| 0 <= i < r@.len() ==> #[trigger] visitor_sets_of(*m).contains_key(r@[i]@),
        forall|k: Seq<char>|
            #[trigger] visitor_sets_of(*m).contains_key(k) ==> exists|i: int|
                0 <= i < r@.len() && #[trigger] r@[i]@ == k,
        forall|i: int, j: int|
            0 <= i < r@.len() && 0 <= j < r@.len() && i != j ==> #[trigger] r@[i]@ != #[trigger] r@[j]@,
{
    m.iter().map(|e| e.key().clone()).collect()
}

/// Relies on `DashMap::clear`: no entry is left.
#[verifier::external_body]
pub(crate) fn visitors_clear(m: &mut DashMap<String, DashSet<u64, RandomState>, RandomState>)
    ensures
        visitor_sets_of(*final(m)) =~= Map::empty(),
{
    m.clear();
}

} // verus!
