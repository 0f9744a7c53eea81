//! The order of BTreeMap keys that are (year, month) pairs.

use vstd::prelude::*;
use vstd::std_specs::cmp::OrdSpec;

use crate::align::month_before;

verus! {

broadcast use vstd::std_specs::btree::group_btree_axioms, vstd::laws_cmp::group_laws_cmp;

/// (year, month) pairs obey the order model of vstd's `BTreeMap`
/// specification, so that its insertions, lookups and iteration act on
/// its map view.
pub open spec fn month_keys_ordered() -> bool {
    &&& vstd::laws_cmp::obeys_cmp::<(i32, u32)>()
    &&& vstd::std_specs::btree::key_obeys_cmp_spec::<(i32, u32)>()
}

/// (year, month) pairs obey the order model of vstd's `BTreeMap`
/// specification.
pub proof fn lemma_month_keys_ordered()
    ensures
        month_keys_ordered(),
{
}

/// Keys that a `BTreeMap` lists in increasing order are in increasing
/// (year, month) order.
pub proof fn lemma_increasing_months(ks: Seq<(i32, u32)>, i: int, j: int)
    requires
        vstd::std_specs::btree::increasing_seq(ks),
        0 <= i < j < ks.len(),
    ensures
        month_before(ks[i], ks[j]),
{
    assert(ks[i].cmp_spec(&ks[j]) is Less);
}

} // verus!
