//! What asset operations do to balances: each account's free balance and
//! the balances it holds for a reason, in each asset, and how to undo
//! operations that ran before a call failed.

use vstd::prelude::*;
use crate::payments::types::{AccountId, AssetId, AssetOp, Preservation};

verus! {

/// A balance of an account in an asset: its free part, or the part held for
/// a reason.
pub enum BalanceKey<R> {
    Free { asset: AssetId, who: AccountId },
    Held { asset: AssetId, who: AccountId, reason: R },
}

/// How an asset operation changes a balance: holding moves an amount from
/// the free balance to the held one, releasing moves it back, transferring
/// moves free balance from the source to the destination, and transferring
/// and holding moves free balance of the source to the held balance of the
/// destination.
pub open spec fn op_change<R>(op: AssetOp<R>, b: BalanceKey<R>) -> int {
    match op {
        AssetOp::Hold { asset, reason, who, amount } => (if b == (BalanceKey::<R>::Free { asset, who }) {
            -amount
        } else {
            0
        }) + (if b == (BalanceKey::<R>::Held { asset, who, reason }) {
            amount as int
        } else {
            0
        }),
        AssetOp::TransferAndHold { asset, reason, source, dest, amount } => (if b
            == (BalanceKey::<R>::Free { asset, who: source }) {
            -amount
        } else {
            0
        }) + (if b == (BalanceKey::<R>::Held { asset, who: dest, reason }) {
            amount as int
        } else {
            0
        }),
        AssetOp::Release { asset, reason, who, amount } => (if b == (BalanceKey::<R>::Held {
            asset,
            who,
            reason,
        }) {
            -amount
        } else {
            0
        }) + (if b == (BalanceKey::<R>::Free { asset, who }) {
            amount as int
        } else {
            0
        }),
        AssetOp::Transfer { asset, source, dest, amount, .. } => (if b == (BalanceKey::<R>::Free {
            asset,
            who: source,
        }) {
            -amount
        } else {
            0
        }) + (if b == (BalanceKey::<R>::Free { asset, who: dest }) {
            amount as int
        } else {
            0
        }),
    }
}

/// The net change of a balance when all of `ops` succeed.
pub open spec fn net_change<R>(ops: Seq<AssetOp<R>>, b: BalanceKey<R>) -> int
    decreases ops.len(),
{
    if ops.len() == 0 {
        0
    } else {
        net_change(ops.drop_last(), b) + op_change(ops.last(), b)
    }
}

pub proof fn lemma_net_change_concat<R>(a: Seq<AssetOp<R>>, c: Seq<AssetOp<R>>, b: BalanceKey<R>)
    ensures
        net_change(a + c, b) == net_change(a, b) + net_change(c, b),
    decreases c.len(),
{
    if c.len() == 0 {
        assert(a + c =~= a);
    } else {
        assert((a + c).drop_last() =~= a + c.drop_last());
        lemma_net_change_concat(a, c.drop_last(), b);
    }
}

pub proof fn lemma_net_change_two<R>(x: AssetOp<R>, y: AssetOp<R>, b: BalanceKey<R>)
    ensures
        net_change(seq![x, y], b) == op_change(x, b) + op_change(y, b),
{
    assert(seq![x, y].drop_last() =~= seq![x]);
    lemma_net_change_one(x, b);
    assert(seq![x, y].last() == y);
}

pub proof fn lemma_net_change_one<R>(x: AssetOp<R>, b: BalanceKey<R>)
    ensures
        net_change(seq![x], b) == op_change(x, b),
{
    let e = Seq::<AssetOp<R>>::empty();
    assert(seq![x].drop_last() =~= e);
    assert(net_change(e, b) == 0);
    assert(seq![x].last() == x);
}

/// The operations that undo `op`: a hold is released, a release is held
/// again, a transfer goes back, and a transfer that held its amount releases
/// it and moves it back.
pub open spec fn inverse_op<R>(op: AssetOp<R>) -> Seq<AssetOp<R>> {
    match op {
        AssetOp::Hold { asset, reason, who, amount } => seq![
            AssetOp::Release { asset, reason, who, amount },
        ],
        AssetOp::TransferAndHold { asset, reason, source, dest, amount } => seq![
            AssetOp::Release { asset, reason, who: dest, amount },
            AssetOp::Transfer {
                asset,
                source: dest,
                dest: source,
                amount,
                preservation: Preservation::Expendable,
            },
        ],
        AssetOp::Release { asset, reason, who, amount } => seq![
            AssetOp::Hold { asset, reason, who, amount },
        ],
        AssetOp::Transfer { asset, source, dest, amount, .. } => seq![
            AssetOp::Transfer {
                asset,
                source: dest,
                dest: source,
                amount,
                preservation: Preservation::Expendable,
            },
        ],
    }
}

/// The operations that undo `ops`: the inverse of each, last one first.
pub open spec fn reversal<R>(ops: Seq<AssetOp<R>>) -> Seq<AssetOp<R>>
    decreases ops.len(),
{
    if ops.len() == 0 {
        Seq::empty()
    } else {
        inverse_op(ops.last()) + reversal(ops.drop_last())
    }
}

proof fn lemma_inverse_change<R>(op: AssetOp<R>, b: BalanceKey<R>)
    ensures
        net_change(inverse_op(op), b) == -op_change(op, b),
{
    let inv = inverse_op(op);
    match op {
        AssetOp::TransferAndHold { .. } => {
            lemma_net_change_two(inv[0], inv[1], b);
            assert(inv =~= seq![inv[0], inv[1]]);
        },
        _ => {
            lemma_net_change_one(inv[0], b);
            assert(inv =~= seq![inv[0]]);
        },
    }
}

proof fn lemma_reversal_change<R>(ops: Seq<AssetOp<R>>, b: BalanceKey<R>)
    ensures
        net_change(reversal(ops), b) == -net_change(ops, b),
    decreases ops.len(),
{
    if ops.len() > 0 {
        lemma_reversal_change(ops.drop_last(), b);
        lemma_inverse_change(ops.last(), b);
        lemma_net_change_concat(inverse_op(ops.last()), reversal(ops.drop_last()), b);
    }
}

/// Running operations and then their reversal leaves every balance, free or
/// held, of every account in every asset as it was. So when a call fails at
/// position `k` of its operations, running `reversal_ops(ops, k)` undoes the
/// `k` operations that succeeded.
pub proof fn lemma_reversal_undoes<R>(ops: Seq<AssetOp<R>>, b: BalanceKey<R>)
    ensures
        net_change(ops + reversal(ops), b) == 0,
{
    lemma_net_change_concat(ops, reversal(ops), b);
    lemma_reversal_change(ops, b);
}

/// The operations that undo the first `k` of `ops`, the ones that succeeded
/// before the operation at position `k` failed.
pub fn reversal_ops<R: Copy>(ops: &Vec<AssetOp<R>>, k: usize) -> (r: Vec<AssetOp<R>>)
    requires
        k <= ops@.len(),
    ensures
        r@ == reversal(ops@.take(k as int)),
{
    let mut r: Vec<AssetOp<R>> = Vec::new();
    let mut i: usize = k;
    proof {
        assert(r@ + reversal(ops@.take(k as int)) =~= reversal(ops@.take(k as int)));
    }
    while i > 0
        invariant
            i <= k <= ops@.len(),
            r@ + reversal(ops@.take(i as int)) == reversal(ops@.take(k as int)),
        decreases i,
    {
        let ghost before = r@;
        let ghost t = ops@.take(i as int);
        proof {
            assert(t.drop_last() =~= ops@.take(i - 1));
            assert(t.last() == ops@[i - 1]);
        }
        match &ops[i - 1] {
            AssetOp::Hold { asset, reason, who, amount } => {
                r.push(AssetOp::Release { asset: *asset, reason: *reason, who: *who, amount: *amount });
            },
            AssetOp::TransferAndHold { asset, reason, source, dest, amount } => {
                r.push(AssetOp::Release { asset: *asset, reason: *reason, who: *dest, amount: *amount });
                r.push(
                    AssetOp::Transfer {
                        asset: *asset,
                        source: *dest,
                        dest: *source,
                        amount: *amount,
                        preservation: Preservation::Expendable,
                    },
                );
            },
            AssetOp::Release { asset, reason, who, amount } => {
                r.push(AssetOp::Hold { asset: *asset, reason: *reason, who: *who, amount: *amount });
            },
            AssetOp::Transfer { asset, source, dest, amount, .. } => {
                r.push(
                    AssetOp::Transfer {
                        asset: *asset,
                        source: *dest,
                        dest: *source,
                        amount: *amount,
                        preservation: Preservation::Expendable,
                    },
                );
            },
        }
        proof {
            assert(r@ =~= before + inverse_op(ops@[i - 1]));
            assert(r@ + reversal(ops@.take(i - 1)) =~= before + reversal(t));
        }
        i = i - 1;
    }
    assert(ops@.take(0) =~= Seq::<AssetOp<R>>::empty());
    assert(r@ + reversal(ops@.take(0)) =~= r@);
    r
}

} // verus!
