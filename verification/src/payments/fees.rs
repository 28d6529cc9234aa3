//! Fees per recipient: the fee list of one role aggregated per account.

use vstd::prelude::*;
use std::collections::BTreeMap;
use vstd::std_specs::btree::increasing_seq;
use crate::payments::ordered::{
    account_keys_ordered, lemma_account_keys_ordered, lemma_increasing_accounts,
};
use crate::payments::types::{AccountId, Balance, Error, FeeDetails};

verus! {

/// The sum of the fees that `a` receives in `fees`.
pub open spec fn fee_sum(fees: Seq<(AccountId, Balance)>, a: AccountId) -> int
    decreases fees.len(),
{
    if fees.len() == 0 {
        0
    } else {
        fee_sum(fees.drop_last(), a) + if fees.last().0 == a {
            fees.last().1 as int
        } else {
            0
        }
    }
}

/// The sum of all fees in `fees`.
pub open spec fn fee_total(fees: Seq<(AccountId, Balance)>) -> int
    decreases fees.len(),
{
    if fees.len() == 0 {
        0
    } else {
        fee_total(fees.drop_last()) + fees.last().1 as int
    }
}

/// `a` receives some fee in `fees`.
pub open spec fn pays_to(fees: Seq<(AccountId, Balance)>, a: AccountId) -> bool {
    exists|i: int| 0 <= i < fees.len() && #[trigger] fees[i].0 == a
}

/// No account's fees add up to more than a balance can hold.
pub open spec fn fees_fit(fees: Seq<(AccountId, Balance)>) -> bool {
    forall|a: AccountId| #[trigger] fee_sum(fees, a) <= u128::MAX
}

/// `x` as a balance that wraps around: `x` modulo the number of balances.
pub open spec fn wrap_balance(x: int) -> Balance {
    (x % 0x1_0000_0000_0000_0000_0000_0000_0000_0000int) as Balance
}

/// `out` is `fees` aggregated per account: one entry for each account that
/// receives a fee, in ascending order of account, holding the sum of that
/// account's fees (wrapping around past the largest balance, as balance
/// addition does in the runtime).
pub open spec fn is_fee_aggregate(
    out: Seq<(AccountId, Balance)>,
    fees: Seq<(AccountId, Balance)>,
) -> bool {
    &&& forall|i: int, j: int| 0 <= i < j < out.len() ==> out[i].0 < out[j].0
    &&& forall|i: int|
        0 <= i < out.len() ==> pays_to(fees, #[trigger] out[i].0) && out[i].1 == wrap_balance(
            fee_sum(fees, out[i].0),
        )
    &&& forall|a: AccountId| pays_to(fees, a) ==> pays_to(out, a)
}

/// `out` aggregates `fees` with each account's sum held exactly.
spec fn is_exact_fee_aggregate(
    out: Seq<(AccountId, Balance)>,
    fees: Seq<(AccountId, Balance)>,
) -> bool {
    &&& forall|i: int, j: int| 0 <= i < j < out.len() ==> out[i].0 < out[j].0
    &&& forall|i: int|
        0 <= i < out.len() ==> pays_to(fees, #[trigger] out[i].0) && out[i].1 == fee_sum(
            fees,
            out[i].0,
        )
    &&& forall|a: AccountId| pays_to(fees, a) ==> pays_to(out, a)
}

/// The fees aggregated per account.
pub open spec fn fee_aggregate(fees: Seq<(AccountId, Balance)>) -> Seq<(AccountId, Balance)> {
    choose|out: Seq<(AccountId, Balance)>| is_fee_aggregate(out, fees)
}

/// The total of the fees, saturating at the largest balance.
pub open spec fn saturated_total(fees: Seq<(AccountId, Balance)>) -> Balance {
    if fee_total(fees) > u128::MAX {
        u128::MAX
    } else {
        fee_total(fees) as Balance
    }
}

proof fn lemma_fee_sum_nonneg(fees: Seq<(AccountId, Balance)>, a: AccountId)
    ensures
        fee_sum(fees, a) >= 0,
    decreases fees.len(),
{
    if fees.len() > 0 {
        lemma_fee_sum_nonneg(fees.drop_last(), a);
    }
}

/// A fee total is never negative.
pub proof fn lemma_fee_total_nonneg(fees: Seq<(AccountId, Balance)>)
    ensures
        fee_total(fees) >= 0,
    decreases fees.len(),
{
    if fees.len() > 0 {
        lemma_fee_total_nonneg(fees.drop_last());
    }
}

/// A prefix of a fee list gives an account no more than the whole list.
proof fn lemma_fee_sum_prefix(fees: Seq<(AccountId, Balance)>, k: int, a: AccountId)
    requires
        0 <= k <= fees.len(),
    ensures
        fee_sum(fees.take(k), a) <= fee_sum(fees, a),
    decreases fees.len(),
{
    if k == fees.len() {
        assert(fees.take(k) =~= fees);
    } else {
        assert(fees.drop_last().take(k) =~= fees.take(k));
        lemma_fee_sum_prefix(fees.drop_last(), k, a);
    }
}

/// An account that receives nothing has a fee sum of zero.
proof fn lemma_fee_sum_absent(fees: Seq<(AccountId, Balance)>, a: AccountId)
    requires
        !pays_to(fees, a),
    ensures
        fee_sum(fees, a) == 0,
    decreases fees.len(),
{
    if fees.len() > 0 {
        let d = fees.drop_last();
        assert(fees[fees.len() - 1].0 != a);
        assert(!pays_to(d, a)) by {
            if pays_to(d, a) {
                let i = choose|i: int| 0 <= i < d.len() && #[trigger] d[i].0 == a;
                assert(fees[i].0 == a);
            }
        }
        lemma_fee_sum_absent(d, a);
    }
}

/// Changing the amount at one position changes the total by the difference.
proof fn lemma_fee_total_update(s: Seq<(AccountId, Balance)>, i: int, e: (AccountId, Balance))
    requires
        0 <= i < s.len(),
    ensures
        fee_total(s.update(i, e)) == fee_total(s) - s[i].1 + e.1,
    decreases s.len(),
{
    let u = s.update(i, e);
    if i == s.len() - 1 {
        assert(u.drop_last() =~= s.drop_last());
    } else {
        assert(u.drop_last() =~= s.drop_last().update(i, e));
        lemma_fee_total_update(s.drop_last(), i, e);
    }
}

/// Two ascending lists that hold the same entries are the same list.
proof fn lemma_sorted_same_entries(o1: Seq<(AccountId, Balance)>, o2: Seq<(AccountId, Balance)>)
    requires
        forall|i: int, j: int| 0 <= i < j < o1.len() ==> o1[i].0 < o1[j].0,
        forall|i: int, j: int| 0 <= i < j < o2.len() ==> o2[i].0 < o2[j].0,
        forall|i: int| 0 <= i < o1.len() ==> o2.contains(#[trigger] o1[i]),
        forall|i: int| 0 <= i < o2.len() ==> o1.contains(#[trigger] o2[i]),
    ensures
        o1 == o2,
    decreases o1.len(),
{
    if o1.len() == 0 {
        if o2.len() > 0 {
            assert(o1.contains(o2[0]));
        }
        assert(o1 =~= o2);
    } else {
        assert(o2.contains(o1[0]));
        assert(o2.len() > 0);
        assert(o1.contains(o2[0]));
        let j = choose|j: int| 0 <= j < o2.len() && o2[j] == o1[0];
        let i = choose|i: int| 0 <= i < o1.len() && o1[i] == o2[0];
        assert(o1[0] == o2[0]) by {
            if j > 0 {
                assert(o2[0].0 < o2[j].0);
                if i > 0 {
                    assert(o1[0].0 < o1[i].0);
                }
            }
        }
        let t1 = o1.drop_first();
        let t2 = o2.drop_first();
        assert forall|a: int| 0 <= a < t1.len() implies t2.contains(#[trigger] t1[a]) by {
            assert(o2.contains(o1[a + 1]));
            let b = choose|b: int| 0 <= b < o2.len() && o2[b] == o1[a + 1];
            assert(o1[0].0 < o1[a + 1].0);
            assert(b != 0);
            assert(t2[b - 1] == t1[a]);
        }
        assert forall|a: int| 0 <= a < t2.len() implies t1.contains(#[trigger] t2[a]) by {
            assert(o1.contains(o2[a + 1]));
            let b = choose|b: int| 0 <= b < o1.len() && o1[b] == o2[a + 1];
            assert(o2[0].0 < o2[a + 1].0);
            assert(b != 0);
            assert(t1[b - 1] == t2[a]);
        }
        lemma_sorted_same_entries(t1, t2);
        assert(o1 =~= o2) by {
            assert forall|a: int| 0 <= a < o1.len() implies o1[a] == o2[a] by {
                if a > 0 {
                    assert(o1[a] == t1[a - 1]);
                    assert(o2[a] == t2[a - 1]);
                }
            }
        }
    }
}

/// A fee list has only one aggregate.
pub proof fn lemma_fee_aggregate_unique(
    out: Seq<(AccountId, Balance)>,
    fees: Seq<(AccountId, Balance)>,
)
    requires
        is_fee_aggregate(out, fees),
    ensures
        fee_aggregate(fees) == out,
        is_fee_aggregate(fee_aggregate(fees), fees),
{
    let other = fee_aggregate(fees);
    assert(is_fee_aggregate(other, fees));
    assert forall|i: int| 0 <= i < out.len() implies other.contains(#[trigger] out[i]) by {
        let a = out[i].0;
        assert(pays_to(fees, a));
        assert(pays_to(other, a));
        let j = choose|j: int| 0 <= j < other.len() && #[trigger] other[j].0 == a;
        assert(other[j] == out[i]);
    }
    assert forall|i: int| 0 <= i < other.len() implies out.contains(#[trigger] other[i]) by {
        let a = other[i].0;
        assert(pays_to(fees, a));
        assert(pays_to(out, a));
        let j = choose|j: int| 0 <= j < out.len() && #[trigger] out[j].0 == a;
        assert(out[j] == other[i]);
    }
    lemma_sorted_same_entries(out, other);
}

/// Removing an entry takes its amount off the total.
proof fn lemma_fee_total_remove(s: Seq<(AccountId, Balance)>, j: int)
    requires
        0 <= j < s.len(),
    ensures
        fee_total(s.remove(j)) == fee_total(s) - s[j].1,
    decreases s.len(),
{
    let u = s.remove(j);
    s.remove_ensures(j);
    if j == s.len() - 1 {
        assert(u =~= s.drop_last());
    } else {
        assert(u.drop_last() =~= s.drop_last().remove(j));
        lemma_fee_total_remove(s.drop_last(), j);
    }
}

proof fn lemma_exact_aggregate_total(out: Seq<(AccountId, Balance)>, fees: Seq<(AccountId, Balance)>)
    requires
        is_exact_fee_aggregate(out, fees),
    ensures
        fee_total(out) == fee_total(fees),
    decreases fees.len(),
{
    if fees.len() == 0 {
        if out.len() > 0 {
            assert(pays_to(fees, out[0].0));
        }
    } else {
        let pre = fees.drop_last();
        let a = fees.last().0;
        let x = fees.last().1;
        assert(fees[fees.len() - 1].0 == a);
        assert(pays_to(fees, a));
        assert(pays_to(out, a));
        let j = choose|j: int| 0 <= j < out.len() && #[trigger] out[j].0 == a;
        assert forall|b: AccountId| #[trigger] fee_sum(fees, b) == fee_sum(pre, b) + if b == a {
            x as int
        } else {
            0
        } by {}
        assert forall|b: AccountId| pays_to(fees, b) <==> (pays_to(pre, b) || b == a) by {
            if pays_to(pre, b) {
                let i = choose|i: int| 0 <= i < pre.len() && #[trigger] pre[i].0 == b;
                assert(fees[i].0 == b);
            }
            if pays_to(fees, b) && b != a {
                let i = choose|i: int| 0 <= i < fees.len() && #[trigger] fees[i].0 == b;
                assert(i < pre.len());
                assert(pre[i].0 == b);
            }
        }
        lemma_fee_sum_nonneg(pre, a);
        if pays_to(pre, a) {
            let v = (out[j].1 - x) as Balance;
            let o = out.update(j, (a, v));
            assert forall|i: int| 0 <= i < o.len() implies pays_to(pre, #[trigger] o[i].0)
                && o[i].1 == fee_sum(pre, o[i].0) by {
                if i != j {
                    assert(o[i] == out[i]);
                    assert(out[i].0 != a) by {
                        if i < j {
                            assert(out[i].0 < out[j].0);
                        } else {
                            assert(out[j].0 < out[i].0);
                        }
                    }
                }
            }
            assert forall|b: AccountId| pays_to(pre, b) implies pays_to(o, b) by {
                let i = choose|i: int| 0 <= i < out.len() && #[trigger] out[i].0 == b;
                assert(o[i].0 == b);
            }
            assert(is_exact_fee_aggregate(o, pre));
            lemma_exact_aggregate_total(o, pre);
            lemma_fee_total_update(out, j, (a, v));
        } else {
            let o = out.remove(j);
            out.remove_ensures(j);
            lemma_fee_sum_absent(pre, a);
            assert forall|i: int| 0 <= i < o.len() implies pays_to(pre, #[trigger] o[i].0)
                && o[i].1 == fee_sum(pre, o[i].0) by {
                let i0 = if i < j { i } else { i + 1 };
                assert(o[i] == out[i0]);
                assert(out[i0].0 != a) by {
                    if i0 < j {
                        assert(out[i0].0 < out[j].0);
                    } else {
                        assert(out[j].0 < out[i0].0);
                    }
                }
            }
            assert forall|b: AccountId| pays_to(pre, b) implies pays_to(o, b) by {
                let i = choose|i: int| 0 <= i < out.len() && #[trigger] out[i].0 == b;
                assert(i != j);
                if i < j {
                    assert(o[i].0 == b);
                } else {
                    assert(o[i - 1].0 == b);
                }
            }
            assert(is_exact_fee_aggregate(o, pre));
            lemma_exact_aggregate_total(o, pre);
            lemma_fee_total_remove(out, j);
        }
    }
}

/// A balance that does not pass the largest one is its own wrapped value.
proof fn lemma_wrap_small(x: int)
    requires
        0 <= x <= u128::MAX,
    ensures
        wrap_balance(x) == x,
{
}

/// Where no account's fees pass the largest balance, the aggregate holds each
/// account's sum exactly.
proof fn lemma_aggregate_exact(out: Seq<(AccountId, Balance)>, fees: Seq<(AccountId, Balance)>)
    requires
        is_fee_aggregate(out, fees),
        fees_fit(fees),
    ensures
        is_exact_fee_aggregate(out, fees),
{
    assert forall|i: int| 0 <= i < out.len() implies pays_to(fees, #[trigger] out[i].0) && out[i].1
        == fee_sum(fees, out[i].0) by {
        lemma_fee_sum_nonneg(fees, out[i].0);
        assert(fee_sum(fees, out[i].0) <= u128::MAX);
        lemma_wrap_small(fee_sum(fees, out[i].0));
    }
}

/// Aggregating fees per account keeps their total, where no account's fees
/// pass the largest balance.
pub proof fn lemma_fee_aggregate_total(out: Seq<(AccountId, Balance)>, fees: Seq<(AccountId, Balance)>)
    requires
        is_fee_aggregate(out, fees),
        fees_fit(fees),
    ensures
        fee_total(out) == fee_total(fees),
{
    lemma_aggregate_exact(out, fees);
    lemma_exact_aggregate_total(out, fees);
}

/// In an ascending list without `a`, some position splits the entries below
/// `a` from those above it.
proof fn lemma_split_point(s: Seq<(AccountId, Balance)>, a: AccountId) -> (p: int)
    requires
        forall|i: int, j: int| 0 <= i < j < s.len() ==> s[i].0 < s[j].0,
        !pays_to(s, a),
    ensures
        0 <= p <= s.len(),
        forall|i: int| 0 <= i < p ==> s[i].0 < a,
        forall|i: int| p <= i < s.len() ==> s[i].0 > a,
    decreases s.len(),
{
    if s.len() == 0 {
        0
    } else {
        let d = s.drop_last();
        assert(!pays_to(d, a)) by {
            if pays_to(d, a) {
                let i = choose|i: int| 0 <= i < d.len() && #[trigger] d[i].0 == a;
                assert(s[i].0 == a);
            }
        }
        let q = lemma_split_point(d, a);
        assert(s[s.len() - 1].0 != a);
        if s.last().0 < a {
            if q < d.len() {
                assert(s[q].0 == d[q].0);
                assert(s[q].0 < s[s.len() - 1].0);
            }
            assert forall|i: int| 0 <= i < s.len() implies s[i].0 < a by {
                if i < d.len() {
                    assert(s[i].0 == d[i].0);
                }
            }
            s.len() as int
        } else {
            assert forall|i: int| 0 <= i < q implies s[i].0 < a by {
                assert(s[i].0 == d[i].0);
            }
            assert forall|i: int| q <= i < s.len() implies s[i].0 > a by {
                if i < d.len() {
                    assert(s[i].0 == d[i].0);
                }
            }
            q
        }
    }
}

/// Every fee list has an aggregate.
pub proof fn lemma_fee_aggregate_exists(fees: Seq<(AccountId, Balance)>)
    ensures
        is_fee_aggregate(fee_aggregate(fees), fees),
    decreases fees.len(),
{
    if fees.len() == 0 {
        let out = Seq::<(AccountId, Balance)>::empty();
        assert(is_fee_aggregate(out, fees));
        lemma_fee_aggregate_unique(out, fees);
    } else {
        let pre = fees.drop_last();
        let a = fees.last().0;
        let x = fees.last().1;
        assert forall|b: AccountId| #[trigger] fee_sum(fees, b) == fee_sum(pre, b) + if b == a {
            x as int
        } else {
            0
        } by {}
        lemma_fee_aggregate_exists(pre);
        let o = fee_aggregate(pre);
        assert(fees[fees.len() - 1].0 == a);
        assert forall|b: AccountId| pays_to(fees, b) <==> (pays_to(pre, b) || b == a) by {
            if pays_to(pre, b) {
                let i = choose|i: int| 0 <= i < pre.len() && #[trigger] pre[i].0 == b;
                assert(fees[i].0 == b);
            }
            if pays_to(fees, b) && b != a {
                let i = choose|i: int| 0 <= i < fees.len() && #[trigger] fees[i].0 == b;
                assert(i < pre.len());
                assert(pre[i].0 == b);
            }
        }
        if pays_to(o, a) {
            let j = choose|j: int| 0 <= j < o.len() && #[trigger] o[j].0 == a;
            let out = o.update(j, (a, wrap_balance(fee_sum(fees, a))));
            assert forall|i: int| 0 <= i < out.len() implies pays_to(fees, #[trigger] out[i].0)
                && out[i].1 == wrap_balance(fee_sum(fees, out[i].0)) by {
                if i != j {
                    assert(out[i] == o[i]);
                    assert(o[i].0 != a) by {
                        if i < j {
                            assert(o[i].0 < o[j].0);
                        } else {
                            assert(o[j].0 < o[i].0);
                        }
                    }
                }
            }
            assert forall|b: AccountId| pays_to(fees, b) implies pays_to(out, b) by {
                if b == a {
                    assert(out[j].0 == b);
                } else {
                    let i = choose|i: int| 0 <= i < o.len() && #[trigger] o[i].0 == b;
                    assert(out[i].0 == b);
                }
            }
            assert(is_fee_aggregate(out, fees));
            lemma_fee_aggregate_unique(out, fees);
        } else {
            assert(!pays_to(pre, a));
            lemma_fee_sum_absent(pre, a);
            lemma_wrap_small(x as int);
            let p = lemma_split_point(o, a);
            let out = o.insert(p, (a, x));
            o.insert_ensures(p, (a, x));
            assert forall|i: int, j: int| 0 <= i < j < out.len() implies out[i].0 < out[j].0 by {
                if j < p {
                } else if j == p {
                } else if i < p {
                    assert(out[j] == o[j - 1]);
                } else if i == p {
                    assert(out[j] == o[j - 1]);
                } else {
                    assert(out[i] == o[i - 1]);
                    assert(out[j] == o[j - 1]);
                }
            }
            assert forall|i: int| 0 <= i < out.len() implies pays_to(fees, #[trigger] out[i].0)
                && out[i].1 == wrap_balance(fee_sum(fees, out[i].0)) by {
                if i < p {
                    assert(out[i] == o[i]);
                } else if i > p {
                    assert(out[i] == o[i - 1]);
                }
            }
            assert forall|b: AccountId| pays_to(fees, b) implies pays_to(out, b) by {
                if b == a {
                    assert(out[p].0 == b);
                } else {
                    let i = choose|i: int| 0 <= i < o.len() && #[trigger] o[i].0 == b;
                    if i < p {
                        assert(out[i].0 == b);
                    } else {
                        assert(out[i + 1].0 == b);
                    }
                }
            }
            assert(is_fee_aggregate(out, fees));
            lemma_fee_aggregate_unique(out, fees);
        }
    }
}

/// In a list whose accounts are distinct, an account's fee sum is the amount
/// of its entry.
proof fn lemma_fee_sum_unique(s: Seq<(AccountId, Balance)>, j: int)
    requires
        0 <= j < s.len(),
        forall|a: int, b: int| 0 <= a < s.len() && 0 <= b < s.len() && a != b ==> s[a].0 != s[b].0,
    ensures
        fee_sum(s, s[j].0) == s[j].1,
    decreases s.len(),
{
    let d = s.drop_last();
    let w = s[j].0;
    if j == s.len() - 1 {
        assert(!pays_to(d, w)) by {
            if pays_to(d, w) {
                let i = choose|i: int| 0 <= i < d.len() && #[trigger] d[i].0 == w;
                assert(s[i].0 == w);
            }
        }
        lemma_fee_sum_absent(d, w);
    } else {
        assert(d[j] == s[j]);
        lemma_fee_sum_unique(d, j);
        assert(s[s.len() - 1].0 != w);
    }
}

/// Aggregating fees per account keeps each account's fee sum, where no
/// account's fees pass the largest balance.
pub proof fn lemma_fee_aggregate_sums(out: Seq<(AccountId, Balance)>, fees: Seq<(AccountId, Balance)>, w: AccountId)
    requires
        is_fee_aggregate(out, fees),
        fees_fit(fees),
    ensures
        fee_sum(out, w) == fee_sum(fees, w),
{
    lemma_aggregate_exact(out, fees);
    if pays_to(out, w) {
        let j = choose|j: int| 0 <= j < out.len() && #[trigger] out[j].0 == w;
        assert forall|a: int, b: int| 0 <= a < out.len() && 0 <= b < out.len() && a != b implies out[a].0
            != out[b].0 by {
            if a < b {
                assert(out[a].0 < out[b].0);
            } else {
                assert(out[b].0 < out[a].0);
            }
        }
        lemma_fee_sum_unique(out, j);
    } else {
        lemma_fee_sum_absent(out, w);
        assert(!pays_to(fees, w));
        lemma_fee_sum_absent(fees, w);
    }
}

/// Removing an entry takes its amount off its account's fee sum.
proof fn lemma_fee_sum_remove(s: Seq<(AccountId, Balance)>, j: int, a: AccountId)
    requires
        0 <= j < s.len(),
    ensures
        fee_sum(s.remove(j), a) == fee_sum(s, a) - if s[j].0 == a {
            s[j].1 as int
        } else {
            0
        },
    decreases s.len(),
{
    let u = s.remove(j);
    s.remove_ensures(j);
    if j == s.len() - 1 {
        assert(u =~= s.drop_last());
    } else {
        assert(u.drop_last() =~= s.drop_last().remove(j));
        lemma_fee_sum_remove(s.drop_last(), j, a);
    }
}

/// Two fee lists that hold the same entries in any order give each account
/// the same fees, have the same total and pay the same accounts.
proof fn lemma_fee_permutation_sums(fees: Seq<(AccountId, Balance)>, other: Seq<(AccountId, Balance)>)
    requires
        fees.to_multiset() == other.to_multiset(),
    ensures
        forall|a: AccountId| #[trigger] fee_sum(other, a) == fee_sum(fees, a),
        fee_total(other) == fee_total(fees),
        forall|a: AccountId| pays_to(other, a) == pays_to(fees, a),
    decreases other.len(),
{
    broadcast use vstd::seq_lib::to_multiset_len, vstd::seq_lib::to_multiset_contains;
    assert forall|a: AccountId| pays_to(other, a) == pays_to(fees, a) by {
        if pays_to(other, a) {
            let i = choose|i: int| 0 <= i < other.len() && #[trigger] other[i].0 == a;
            assert(other.contains(other[i]));
            assert(other.to_multiset().count(other[i]) > 0);
            assert(fees.contains(other[i]));
            let k = choose|k: int| 0 <= k < fees.len() && fees[k] == other[i];
            assert(fees[k].0 == a);
        }
        if pays_to(fees, a) {
            let i = choose|i: int| 0 <= i < fees.len() && #[trigger] fees[i].0 == a;
            assert(fees.contains(fees[i]));
            assert(fees.to_multiset().count(fees[i]) > 0);
            assert(other.contains(fees[i]));
            let k = choose|k: int| 0 <= k < other.len() && other[k] == fees[i];
            assert(other[k].0 == a);
        }
    }
    if other.len() == 0 {
        assert(fees.to_multiset().len() == 0);
        assert(fees.len() == 0);
    } else {
        let last = other.len() - 1;
        let e = other[last];
        assert(other.contains(e));
        assert(other.to_multiset().count(e) > 0);
        assert(fees.contains(e));
        let i = choose|i: int| 0 <= i < fees.len() && fees[i] == e;
        vstd::seq_lib::to_multiset_remove(fees, i);
        vstd::seq_lib::to_multiset_remove(other, last);
        assert(other.remove(last) =~= other.drop_last());
        lemma_fee_permutation_sums(fees.remove(i), other.drop_last());
        assert forall|a: AccountId| #[trigger] fee_sum(other, a) == fee_sum(fees, a) by {
            lemma_fee_sum_remove(fees, i, a);
            assert(fee_sum(other.drop_last(), a) == fee_sum(fees.remove(i), a));
            assert(other.last() == e);
        }
        lemma_fee_total_remove(fees, i);
    }
}

/// The order of a fee list does not matter: two lists that hold the same
/// entries in any order have the same aggregate and the same saturated
/// total.
pub proof fn lemma_fee_aggregate_permutation(fees: Seq<(AccountId, Balance)>, other: Seq<(AccountId, Balance)>)
    requires
        fees.to_multiset() == other.to_multiset(),
    ensures
        fees_fit(other) == fees_fit(fees),
        fee_aggregate(other) == fee_aggregate(fees),
        saturated_total(other) == saturated_total(fees),
{
    lemma_fee_permutation_sums(fees, other);
    if fees_fit(fees) {
        assert forall|a: AccountId| #[trigger] fee_sum(other, a) <= u128::MAX by {
            assert(fee_sum(fees, a) <= u128::MAX);
        }
    }
    if fees_fit(other) {
        assert forall|a: AccountId| #[trigger] fee_sum(fees, a) <= u128::MAX by {
            assert(fee_sum(other, a) <= u128::MAX);
        }
    }
    lemma_fee_aggregate_exists(fees);
    let out = fee_aggregate(fees);
    assert(is_fee_aggregate(out, other));
    lemma_fee_aggregate_unique(out, other);
}

/// The sum of the fees that `a` receives in `fees`, or `None` when it is more
/// than a balance holds.
fn checked_fee_sum(fees: &FeeDetails, a: AccountId) -> (r: Option<Balance>)
    ensures
        r matches Some(v) ==> v == fee_sum(fees@, a),
        r is None ==> fee_sum(fees@, a) > u128::MAX,
{
    let n = fees.len();
    let mut sum: Balance = 0;
    let mut k: usize = 0;
    while k < n
        invariant
            n == fees@.len(),
            k <= n,
            sum == fee_sum(fees@.take(k as int), a),
        decreases n - k,
    {
        proof {
            assert(fees@.take(k + 1).drop_last() =~= fees@.take(k as int));
        }
        if fees[k].0 == a {
            match sum.checked_add(fees[k].1) {
                Some(v) => {
                    sum = v;
                },
                None => {
                    proof {
                        lemma_fee_sum_prefix(fees@, k + 1, a);
                    }
                    return None;
                },
            }
        }
        k = k + 1;
    }
    assert(fees@.take(n as int) =~= fees@);
    Some(sum)
}

/// Whether the fees of every account in the list add up to no more than a
/// balance holds.
pub fn fees_fit_in_balance(fees: &FeeDetails) -> (r: bool)
    ensures
        r == fees_fit(fees@),
{
    let n = fees.len();
    let mut i: usize = 0;
    while i < n
        invariant
            n == fees@.len(),
            i <= n,
            forall|j: int| 0 <= j < i ==> #[trigger] fee_sum(fees@, fees@[j].0) <= u128::MAX,
        decreases n - i,
    {
        let a = fees[i].0;
        if checked_fee_sum(fees, a).is_none() {
            return false;
        }
        i = i + 1;
    }
    proof {
        assert forall|a: AccountId| #[trigger] fee_sum(fees@, a) <= u128::MAX by {
            if pays_to(fees@, a) {
                let j = choose|j: int| 0 <= j < fees@.len() && #[trigger] fees@[j].0 == a;
                assert(fee_sum(fees@, fees@[j].0) <= u128::MAX);
            } else {
                lemma_fee_sum_absent(fees@, a);
            }
        }
    }
    true
}

/// Aggregates the fees of one role per account and totals them.
///
/// The list holds, in ascending order of account, each account that receives
/// a fee with the sum of its fees; the total saturates at the largest balance.
/// The aggregated amounts add up to the total of all fees.
/// `out` lists the entries of `m` in ascending order of account.
pub open spec fn lists_map(out: Seq<(AccountId, Balance)>, m: Map<AccountId, Balance>) -> bool {
    &&& forall|i: int, j: int| 0 <= i < j < out.len() ==> out[i].0 < out[j].0
    &&& forall|i: int| 0 <= i < out.len() ==> m.contains_key(out[i].0) && m[out[i].0] == out[i].1
    &&& forall|k: AccountId| m.contains_key(k) ==> out.contains((k, m[k]))
}

proof fn lemma_lists_map(
    s: Seq<(&AccountId, &Balance)>,
    out: Seq<(AccountId, Balance)>,
    m: Map<AccountId, Balance>,
)
    requires
        increasing_seq(s.map_values(|kv: (&AccountId, &Balance)| *kv.0)),
        out.len() <= s.len(),
        forall|i: int| 0 <= i < out.len() ==> #[trigger] out[i] == (*s[i].0, *s[i].1),
        forall|i: int|
            0 <= i < s.len() ==> m.contains_key(*(#[trigger] s[i]).0) && m[*s[i].0] == *s[i].1,
        forall|k: AccountId| #[trigger] m.contains_key(k) ==> s.contains((&k, &m[k])),
    ensures
        out.len() == s.len() ==> lists_map(out, m),
{
    if out.len() == s.len() {
        let keys = s.map_values(|kv: (&AccountId, &Balance)| *kv.0);
        lemma_increasing_accounts(keys);
        assert forall|i: int, j: int| 0 <= i < j < out.len() implies out[i].0 < out[j].0 by {
            assert(keys[i] == *s[i].0);
            assert(keys[j] == *s[j].0);
        }
        assert forall|i: int| 0 <= i < out.len() implies m.contains_key(out[i].0) && m[out[i].0]
            == out[i].1 by {
            assert(out[i] == (*s[i].0, *s[i].1));
        }
        assert forall|k: AccountId| m.contains_key(k) implies out.contains((k, m[k])) by {
            assert(s.contains((&k, &m[k])));
            let j = choose|j: int| 0 <= j < s.len() && s[j] == (&k, &m[k]);
            assert(out[j] == (k, m[k]));
        }
    }
}

/// The entries of an ordered map, in ascending order of account.
fn ordered_entries(m: &BTreeMap<AccountId, Balance>) -> (out: FeeDetails)
    ensures
        lists_map(out@, m@),
{
    broadcast use vstd::std_specs::btree::group_btree_axioms;

    let mut out: FeeDetails = Vec::new();
    proof {
        lemma_account_keys_ordered();
    }
    for kv in it: m.iter()
        invariant
            out@.len() == it.index(),
            forall|i: int|
                0 <= i < it.index() ==> #[trigger] out@[i] == (*it.seq()[i].0, *it.seq()[i].1),
            increasing_seq(it.seq().map_values(|kv: (&AccountId, &Balance)| *kv.0)),
            forall|i: int|
                0 <= i < it.seq().len() ==> m@.contains_key(*(#[trigger] it.seq()[i]).0)
                    && m@[*it.seq()[i].0] == *it.seq()[i].1,
            forall|k: AccountId| #[trigger] m@.contains_key(k) ==> it.seq().contains((&k, &m@[k])),
            it.index() == it.seq().len() ==> lists_map(out@, m@),
    {
        out.push((*kv.0, *kv.1));
        proof {
            lemma_lists_map(it.seq(), out@, m@);
        }
    }
    out
}

/// Adding to a wrapped sum wraps the sum.
proof fn lemma_wrap_add(s: int, y: Balance)
    requires
        s >= 0,
    ensures
        (if wrap_balance(s) + y > u128::MAX {
            (wrap_balance(s) + y - 0x1_0000_0000_0000_0000_0000_0000_0000_0000int) as Balance
        } else {
            (wrap_balance(s) + y) as Balance
        }) == wrap_balance(s + y),
{
    let m = 0x1_0000_0000_0000_0000_0000_0000_0000_0000int;
    vstd::arithmetic::div_mod::lemma_add_mod_noop_right(y as int, s, m);
    let r = s % m;
    if r + y >= m {
        vstd::arithmetic::div_mod::lemma_mod_sub_multiples_vanish(r + y, m);
        vstd::arithmetic::div_mod::lemma_small_mod((r + y - m) as nat, m as nat);
    } else {
        vstd::arithmetic::div_mod::lemma_small_mod((r + y) as nat, m as nat);
    }
}

/// Aggregates the fees of one role per account and totals them.
///
/// The list holds, in ascending order of account, each account that receives
/// a fee with the sum of its fees (wrapping around past the largest balance);
/// the total saturates at the largest balance. Where no account's fees pass
/// the largest balance, the aggregated amounts add up to the total of all
/// fees.
pub fn get_fees_details_per_role(fees: &FeeDetails) -> (r: Result<(FeeDetails, Balance), Error>)
    ensures
        r matches Ok((per_account, total)) && {
            &&& is_fee_aggregate(per_account@, fees@)
            &&& per_account@ == fee_aggregate(fees@)
            &&& fees_fit(fees@) ==> fee_total(per_account@) == fee_total(fees@)
            &&& total == saturated_total(fees@)
        },
{
    broadcast use vstd::std_specs::btree::group_btree_axioms;

    // aggregate fees per account and track the total
    let mut fees_per_account: BTreeMap<AccountId, Balance> = BTreeMap::new();
    let mut total_fees: Balance = 0;
    proof {
        lemma_account_keys_ordered();
    }
    let n = fees.len();
    let mut k: usize = 0;
    while k < n
        invariant
            n == fees@.len(),
            k <= n,
            account_keys_ordered(),
            forall|a: AccountId| #[trigger]
                fees_per_account@.contains_key(a) == pays_to(fees@.take(k as int), a),
            forall|a: AccountId| #[trigger]
                fees_per_account@.contains_key(a) ==> fees_per_account@[a] == wrap_balance(
                    fee_sum(fees@.take(k as int), a),
                ),
            total_fees == saturated_total(fees@.take(k as int)),
        decreases n - k,
    {
        let (account, fee) = fees[k];
        let ghost pre = fees@.take(k as int);
        let ghost post = fees@.take(k + 1);
        proof {
            assert(post.drop_last() =~= pre);
            assert(post.last() == (account, fee));
            assert forall|b: AccountId| pays_to(post, b) <==> (pays_to(pre, b) || b == account) by {
                if pays_to(pre, b) {
                    let i = choose|i: int| 0 <= i < pre.len() && #[trigger] pre[i].0 == b;
                    assert(post[i].0 == b);
                }
                if b == account {
                    assert(post[k as int].0 == b);
                }
                if pays_to(post, b) && b != account {
                    let i = choose|i: int| 0 <= i < post.len() && #[trigger] post[i].0 == b;
                    assert(pre[i].0 == b);
                }
            }
            lemma_fee_total_nonneg(pre);
            lemma_fee_sum_nonneg(pre, account);
            if !pays_to(pre, account) {
                lemma_fee_sum_absent(pre, account);
                assert(wrap_balance(0) == 0);
            }
            lemma_wrap_add(fee_sum(pre, account), fee);
        }
        let current = match fees_per_account.get(&account) {
            Some(v) => *v,
            None => 0,
        };
        fees_per_account.insert(account, current.wrapping_add(fee));
        total_fees = total_fees.saturating_add(fee);
        k = k + 1;
    }
    let per_account = ordered_entries(&fees_per_account);
    proof {
        assert(fees@.take(n as int) =~= fees@);
        assert forall|a: AccountId| pays_to(fees@, a) implies pays_to(per_account@, a) by {
            assert(fees_per_account@.contains_key(a));
            assert(per_account@.contains((a, fees_per_account@[a])));
            let j = choose|j: int| 0 <= j < per_account@.len() && per_account@[j] == (
                a,
                fees_per_account@[a],
            );
            assert(per_account@[j].0 == a);
        }
        assert(is_fee_aggregate(per_account@, fees@));
        lemma_fee_aggregate_unique(per_account@, fees@);
        if fees_fit(fees@) {
            lemma_fee_aggregate_total(per_account@, fees@);
        }
    }
    Ok((per_account, total_fees))
}

} // verus!
