//! Order facts about the keys that a `BTreeMap` walks through.
use vstd::prelude::*;

use vstd::std_specs::btree::increasing_seq;
use vstd::std_specs::cmp::OrdSpec;

verus! {

/// A key sequence that a `BTreeMap` reports as increasing is strictly increasing.
pub proof fn lemma_increasing_keys(ks: Seq<&u64>)
    requires
        increasing_seq(ks),
    ensures
        forall|i: int, j: int| 0 <= i < j < ks.len() ==> *#[trigger] ks[i] < *#[trigger] ks[j],
{
    broadcast use {vstd::laws_cmp::group_laws_cmp, vstd::laws_cmp::lemma_ref_obeys_cmp_spec};

    assert(vstd::laws_cmp::obeys_cmp::<&u64>());
    vstd::std_specs::btree::axiom_increasing_seq_meaning(ks);
    assert forall|i: int, j: int| 0 <= i < j < ks.len() implies *#[trigger] ks[i] < *#[trigger] ks[j] by {
        assert((&ks[i]).cmp_spec(&ks[j]) is Less);
    }
}

} // verus!
