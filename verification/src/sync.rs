//! Concurrent maps and sets from the dashmap crate, behind trusted
//! declarations.
//!
//! The identity service interns identifiers in `DashMap`s and the writer
//! tracks already-written rows in `DashSet`s.  Verified code holds each
//! collection exclusively (through `&mut`), so its contents can be
//! modelled as a mathematical `Map` or `Set` threaded through the
//! contracts.

use vstd::prelude::*;
use dashmap::DashMap;
use dashmap::DashSet;
use std::collections::hash_map::RandomState;

verus! {

#[verifier::external_type_specification]
#[verifier::external_body]
#[verifier::reject_recursive_types(K)]
#[verifier::reject_recursive_types(V)]
#[verifier::reject_recursive_types(S)]
pub struct ExDashMap<K, V, S>(DashMap<K, V, S>);

#[verifier::external_type_specification]
#[verifier::external_body]
#[verifier::reject_recursive_types(K)]
#[verifier::reject_recursive_types(S)]
pub struct ExDashSet<K, S>(DashSet<K, S>);

/// What a record-identifier map holds: primary identifier to record
/// identifier.
pub uninterp spec fn rid_map_contents(m: DashMap<String, String, RandomState>) -> Map<
    Seq<char>,
    Seq<char>,
>;

/// Relies on DashMap::new: the new map is empty.
#[verifier::external_body]
pub(crate) fn rid_map_new() -> (m: DashMap<String, String, RandomState>)
    ensures
        (rid_map_contents(m) == Map::<Seq<char>, Seq<char>>::empty()),
{
    DashMap::new()
}

/// Relies on DashMap::get: returns the value stored under the key, if
/// the key is present.
#[verifier::external_body]
pub(crate) fn rid_map_get(m: &DashMap<String, String, RandomState>, k: &String) -> (r: Option<
    String,
>)
    ensures
        match r {
            Some(v) => rid_map_contents(*m).contains_key(k@) && v@ == rid_map_contents(*m)[k@],
            None => !rid_map_contents(*m).contains_key(k@),
        },
{
    m.get(k).map(|entry| entry.value().clone())
}

/// Relies on DashMap::insert: afterwards the key maps to the value.
#[verifier::external_body]
pub(crate) fn rid_map_insert(m: &mut DashMap<String, String, RandomState>, k: &String, v: &String)
    ensures
        rid_map_contents(*final(m)) == rid_map_contents(*old(m)).insert(k@, v@),
{
    m.insert(k.clone(), v.clone());
}

/// The view of a `(value_type, content)` interning key.
pub open spec fn vid_key_view(k: (String, String)) -> (Seq<char>, Seq<char>) {
    (k.0@, k.1@)
}

/// What a value-identifier map holds: `(value_type, content)` to value
/// identifier.
pub uninterp spec fn vid_map_contents(m: DashMap<(String, String), String, RandomState>) -> Map<
    (Seq<char>, Seq<char>),
    Seq<char>,
>;

/// Relies on DashMap::new: the new map is empty.
#[verifier::external_body]
pub(crate) fn vid_map_new() -> (m: DashMap<(String, String), String, RandomState>)
    ensures
        (vid_map_contents(m) == Map::<(Seq<char>, Seq<char>), Seq<char>>::empty()),
{
    DashMap::new()
}

/// Relies on DashMap::get: returns the value stored under the key, if
/// the key is present.
#[verifier::external_body]
pub(crate) fn vid_map_get(
    m: &DashMap<(String, String), String, RandomState>,
    k: &(String, String),
) -> (r: Option<String>)
    ensures
        match r {
            Some(v) => vid_map_contents(*m).contains_key(vid_key_view(*k)) && v@ == vid_map_contents(
                *m,
            )[vid_key_view(*k)],
            None => !vid_map_contents(*m).contains_key(vid_key_view(*k)),
        },
{
    m.get(k).map(|entry| entry.value().clone())
}

/// Relies on DashMap::insert: afterwards the key maps to the value.
#[verifier::external_body]
pub(crate) fn vid_map_insert(
    m: &mut DashMap<(String, String), String, RandomState>,
    k: &(String, String),
    v: &String,
)
    ensures
        vid_map_contents(*final(m)) == vid_map_contents(*old(m)).insert(vid_key_view(*k), v@),
{
    m.insert((k.0.clone(), k.1.clone()), v.clone());
}

/// What a set of written value identifiers holds.
pub uninterp spec fn id_set_contents(s: DashSet<String, RandomState>) -> Set<Seq<char>>;

/// Relies on DashSet::new: the new set is empty.
#[verifier::external_body]
pub(crate) fn id_set_new() -> (s: DashSet<String, RandomState>)
    ensures
        id_set_contents(s) == Set::<Seq<char>>::empty(),
{
    DashSet::new()
}

/// Relies on DashSet::insert: adds the value and reports whether it was
/// absent before.
#[verifier::external_body]
pub(crate) fn id_set_insert(s: &mut DashSet<String, RandomState>, k: &String) -> (r: bool)
    ensures
        id_set_contents(*final(s)) == id_set_contents(*old(s)).insert(k@),
        r == !id_set_contents(*old(s)).contains(k@),
{
    s.insert(k.clone())
}

/// The view of a process-value relationship key: process identifier,
/// value identifier, relationship type.
pub open spec fn pvr_key_view(k: (String, String, String)) -> (Seq<char>, Seq<char>, Seq<char>) {
    (k.0@, k.1@, k.2@)
}

/// What a set of written process-value relationship keys holds.
pub uninterp spec fn pvr_set_contents(s: DashSet<(String, String, String), RandomState>) -> Set<
    (Seq<char>, Seq<char>, Seq<char>),
>;

/// Relies on DashSet::new: the new set is empty.
#[verifier::external_body]
pub(crate) fn pvr_set_new() -> (s: DashSet<(String, String, String), RandomState>)
    ensures
        pvr_set_contents(s) == Set::<(Seq<char>, Seq<char>, Seq<char>)>::empty(),
{
    DashSet::new()
}

/// Relies on DashSet::insert: adds the value and reports whether it was
/// absent before.
#[verifier::external_body]
pub(crate) fn pvr_set_insert(
    s: &mut DashSet<(String, String, String), RandomState>,
    k: &(String, String, String),
) -> (r: bool)
    ensures
        pvr_set_contents(*final(s)) == pvr_set_contents(*old(s)).insert(pvr_key_view(*k)),
        r == !pvr_set_contents(*old(s)).contains(pvr_key_view(*k)),
{
    s.insert((k.0.clone(), k.1.clone(), k.2.clone()))
}

/// The view of a value-value relationship key: source and target value
/// identifiers, relationship type, and optional ordinal.
pub open spec fn vvr_key_view(k: (String, String, String, Option<usize>)) -> (
    Seq<char>,
    Seq<char>,
    Seq<char>,
    Option<int>,
) {
    (
        k.0@,
        k.1@,
        k.2@,
        match k.3 {
            Some(o) => Some(o as int),
            None => None,
        },
    )
}

/// What a set of written value-value relationship keys holds.
pub uninterp spec fn vvr_set_contents(
    s: DashSet<(String, String, String, Option<usize>), RandomState>,
) -> Set<(Seq<char>, Seq<char>, Seq<char>, Option<int>)>;

/// Relies on DashSet::new: the new set is empty.
#[verifier::external_body]
pub(crate) fn vvr_set_new() -> (s: DashSet<(String, String, String, Option<usize>), RandomState>)
    ensures
        vvr_set_contents(s) == Set::<(Seq<char>, Seq<char>, Seq<char>, Option<int>)>::empty(),
{
    DashSet::new()
}

/// Relies on DashSet::insert: adds the value and reports whether it was
/// absent before.
#[verifier::external_body]
pub(crate) fn vvr_set_insert(
    s: &mut DashSet<(String, String, String, Option<usize>), RandomState>,
    k: &(String, String, String, Option<usize>),
) -> (r: bool)
    ensures
        vvr_set_contents(*final(s)) == vvr_set_contents(*old(s)).insert(vvr_key_view(*k)),
        r == !vvr_set_contents(*old(s)).contains(vvr_key_view(*k)),
{
    s.insert((k.0.clone(), k.1.clone(), k.2.clone(), k.3))
}

} // verus!
