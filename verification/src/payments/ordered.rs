//! Ordering facts about account ids that the ordered maps of the fee
//! aggregation rest on.

use vstd::prelude::*;
use vstd::std_specs::cmp::OrdSpec;

verus! {

/// Account ids compare as the ordered maps expect.
pub open spec fn account_keys_ordered() -> bool {
    vstd::std_specs::btree::key_obeys_cmp_spec::<u64>()
}

/// Account ids compare as the ordered maps expect.
pub proof fn lemma_account_keys_ordered()
    ensures
        account_keys_ordered(),
{
    broadcast use vstd::std_specs::btree::group_btree_axioms, vstd::laws_cmp::group_laws_cmp;

}

/// Account ids listed in increasing order are ascending integers.
pub proof fn lemma_increasing_accounts(s: Seq<u64>)
    requires
        vstd::std_specs::btree::increasing_seq(s),
    ensures
        forall|i: int, j: int| 0 <= i < j < s.len() ==> s[i] < s[j],
{
    broadcast use vstd::std_specs::btree::group_btree_axioms, vstd::laws_cmp::group_laws_cmp;

    assert forall|i: int, j: int| 0 <= i < j < s.len() implies s[i] < s[j] by {
        assert(s[i].cmp_spec(&s[j]) is Less);
    }
}

} // verus!
