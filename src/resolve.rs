use vstd::prelude::*;
use crate::record::ProcessView;
use crate::store::{DumpConfig, find_id, lemma_find_id_found};
use crate::text::{parse_u32, parse_u32_spec};

verus! {

/// Index of the first record at or after `start` whose name is `name`.
pub open spec fn find_name_from(recs: Seq<ProcessView>, name: Seq<char>, start: int) -> Option<int>
    decreases recs.len() - start,
{
    if start < 0 || start >= recs.len() {
        None
    } else if recs[start].name == name {
        Some(start)
    } else {
        find_name_from(recs, name, start + 1)
    }
}

/// Index of the first record whose name is `name`.
pub open spec fn find_name(recs: Seq<ProcessView>, name: Seq<char>) -> Option<int> {
    find_name_from(recs, name, 0)
}

/// The record a target designates: when the target reads as a number, the
/// first record with that id; failing that, the first record with the target
/// as its exact name.
pub open spec fn resolve_spec(recs: Seq<ProcessView>, target: Seq<char>) -> Option<int> {
    match parse_u32_spec(target) {
        Some(id) => match find_id(recs, id) {
            Some(i) => Some(i),
            None => find_name(recs, target),
        },
        None => find_name(recs, target),
    }
}

/// A name search that finds something finds a record within bounds.
pub proof fn lemma_find_name_bounds(recs: Seq<ProcessView>, name: Seq<char>, start: int)
    requires
        0 <= start,
    ensures
        find_name_from(recs, name, start) matches Some(i) ==> start <= i < recs.len() && recs[i].name == name,
    decreases recs.len() - start,
{
    if start < recs.len() {
        lemma_find_name_bounds(recs, name, start + 1);
    }
}

/// A resolved target designates a record within bounds.
pub proof fn lemma_resolve_bounds(recs: Seq<ProcessView>, target: Seq<char>)
    ensures
        resolve_spec(recs, target) matches Some(i) ==> 0 <= i < recs.len(),
{
    lemma_find_name_bounds(recs, target, 0);
    if let Some(id) = parse_u32_spec(target) {
        lemma_find_id_found(recs, id, 0);
    }
}

/// Position of the first record whose name is exactly `name`.
pub fn find_name_index(store: &DumpConfig, name: &String) -> (r: Option<usize>)
    ensures
        r matches Some(i) ==> i < store@.len() && find_name(store@, name@) == Some(i as int),
        r is None ==> find_name(store@, name@) is None,
{
    let mut i: usize = 0;
    while i < store.len()
        invariant
            i <= store@.len(),
            find_name(store@, name@) == find_name_from(store@, name@, i as int),
        decreases store@.len() - i,
    {
        if store.get(i).name == *name {
            return Some(i);
        }
        i += 1;
    }
    None
}

/// Resolves a user-supplied target to the position of a record: a numeric
/// target matches a record id first, then any target matches an exact name;
/// `None` when nothing matches.
pub fn resolve_target(store: &DumpConfig, target: &str) -> (r: Option<usize>)
    ensures
        r matches Some(i) ==> i < store@.len() && resolve_spec(store@, target@) == Some(i as int),
        r is None ==> resolve_spec(store@, target@) is None,
{
    proof {
        lemma_resolve_bounds(store@, target@);
    }
    let name = String::from_str(target);
    match parse_u32(target) {
        Some(id) => match store.find_index(id) {
            Some(i) => Some(i),
            None => find_name_index(store, &name),
        },
        None => find_name_index(store, &name),
    }
}

/// A numeric target that matches some record id designates that record,
/// whatever names other records carry.
pub proof fn lemma_id_takes_precedence(recs: Seq<ProcessView>, target: Seq<char>, id: u32)
    requires
        parse_u32_spec(target) == Some(id),
        find_id(recs, id) is Some,
    ensures
        resolve_spec(recs, target) == find_id(recs, id),
{
}

} // verus!
