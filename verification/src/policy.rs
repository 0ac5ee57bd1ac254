//! Selection policy: a pure choice of one adapter out of a non-empty
//! candidate list.
//!
//! The default (and currently only) policy is deterministic first-in-list
//! selection: the earliest-registered adapter wins. Duplicate registrations
//! are inert under this policy; they only matter once a weighted policy is
//! introduced.

use vstd::prelude::*;

verus! {

/// The views of a list of adapter ids.
pub open spec fn id_views(v: Seq<String>) -> Seq<Seq<char>> {
    v.map_values(|s: String| s@)
}

/// What the default policy picks from a non-empty candidate list: the
/// first (earliest-registered) entry.
pub open spec fn spec_selected(candidates: Seq<Seq<char>>) -> Seq<char> {
    candidates[0]
}

/// Chooses one adapter from a non-empty ordered candidate list.
/// Pure and side-effect free; the default policy is "first registered".
pub fn select_adapter(candidates: &Vec<String>) -> (r: String)
    requires
        candidates@.len() > 0,
    ensures
        r@ == spec_selected(id_views(candidates@)),
{
    candidates[0].clone()
}

} // verus!
