//! Properties that hold across the calls of the payments pallet.

use vstd::prelude::*;
use crate::payments::fees::{
    fee_aggregate, fee_sum, fee_total, lemma_fee_aggregate_exists, lemma_fee_aggregate_sums,
    lemma_fee_aggregate_total, lemma_fee_total_nonneg,
};
use crate::payments::pallet::{
    cancel_ops, cancel_transition, create_payment_result, detail_fits, fee_transfers, new_payment,
    pay_transition, release_transition, reserve_ops, settle_ops,
};
use crate::payments::ledger::{
    lemma_net_change_concat, lemma_net_change_one, lemma_net_change_two, net_change, BalanceKey,
};
use crate::payments::types::{
    AccountId, AssetId, AssetOp, Balance, CallError, Error, Event, FeesView, PaymentDetailView,
    PaymentState, Preservation, RunOutcome,
};

verus! {

/// The total amount that the transfers in `ops` move.
pub open spec fn transferred<R>(ops: Seq<AssetOp<R>>) -> int
    decreases ops.len(),
{
    if ops.len() == 0 {
        0
    } else {
        transferred(ops.drop_last()) + match ops.last() {
            AssetOp::Transfer { amount, .. } => amount as int,
            _ => 0,
        }
    }
}




/// What the fee transfers from `source` change: the source's free balance
/// loses the total, each recipient's free balance gains its amount.
proof fn lemma_fee_transfers_change<R>(
    asset: AssetId,
    source: AccountId,
    per_account: Seq<(AccountId, Balance)>,
    b: BalanceKey<R>,
)
    ensures
        net_change(fee_transfers::<R>(asset, source, per_account), b) == match b {
            BalanceKey::Free { asset: a, who } => if a == asset {
                (if who == source {
                    -fee_total(per_account)
                } else {
                    0
                }) + fee_sum(per_account, who)
            } else {
                0
            },
            BalanceKey::Held { .. } => 0,
        },
    decreases per_account.len(),
{
    if per_account.len() > 0 {
        let t = fee_transfers::<R>(asset, source, per_account);
        assert(t.drop_last() =~= fee_transfers::<R>(asset, source, per_account.drop_last()));
        lemma_fee_transfers_change::<R>(asset, source, per_account.drop_last(), b);
    }
}

proof fn lemma_fee_transfers_total<R>(asset: AssetId, source: AccountId, fees: Seq<(AccountId, Balance)>)
    ensures
        transferred(fee_transfers::<R>(asset, source, fees)) == fee_total(fees),
    decreases fees.len(),
{
    if fees.len() > 0 {
        let t = fee_transfers::<R>(asset, source, fees);
        assert(t.drop_last() =~= fee_transfers::<R>(asset, source, fees.drop_last()));
        lemma_fee_transfers_total::<R>(asset, source, fees.drop_last());
    }
}

/// Cancelling a payment gives back what reserving it took: it releases from
/// the sender exactly the hold that reserving placed, releases at the
/// beneficiary exactly the amount that reserving moved and held there, and
/// moves that amount back from the beneficiary to the sender.
pub proof fn lemma_cancel_undoes_reserve<R>(
    sender: AccountId,
    beneficiary: AccountId,
    p: PaymentDetailView,
    reason: R,
)
    ensures
        ({
            let reserve = reserve_ops(sender, beneficiary, p, reason);
            let cancel = cancel_ops(sender, beneficiary, p, reason);
            &&& reserve[0] matches AssetOp::Hold { asset, reason: r, who, amount }
                && cancel[0] == AssetOp::Release::<R> { asset, reason: r, who, amount }
            &&& reserve[1] matches AssetOp::TransferAndHold { asset, reason: r, source, dest, amount }
                && cancel[1] == AssetOp::Release::<R> { asset, reason: r, who: dest, amount }
                && cancel[2] == AssetOp::Transfer::<R> {
                asset,
                source: dest,
                dest: source,
                amount,
                preservation: Preservation::Expendable,
            }
        }),
{
}

/// Reserving a payment and then cancelling it leaves every balance, free or
/// held, of every account in every asset as it was.
pub proof fn lemma_cancel_restores_balances<R>(
    sender: AccountId,
    beneficiary: AccountId,
    p: PaymentDetailView,
    reason: R,
    b: BalanceKey<R>,
)
    ensures
        net_change(
            reserve_ops(sender, beneficiary, p, reason) + cancel_ops(sender, beneficiary, p, reason),
            b,
        ) == 0,
{
    let r = reserve_ops(sender, beneficiary, p, reason);
    let c = cancel_ops(sender, beneficiary, p, reason);
    lemma_net_change_concat(r, c, b);
    lemma_net_change_two(r[0], r[1], b);
    assert(r =~= seq![r[0], r[1]]);
    assert(c.drop_last() =~= seq![c[0], c[1]]);
    lemma_net_change_two(c[0], c[1], b);
}

/// Settling a payment pays out what reserving it held: it first releases the
/// sender's hold exactly as reserving placed it, the transfers that follow
/// pay the sender's fee recipients the total of the sender's fees (so of the
/// released hold, the incentive stays with the sender), then the amount
/// moved to the beneficiary is released there and the beneficiary's fee
/// recipients receive the total of the beneficiary's fees.
pub proof fn lemma_settle_pays_out_reserve<R>(
    sender: AccountId,
    beneficiary: AccountId,
    p: PaymentDetailView,
    reason: R,
)
    requires
        detail_fits(p),
    ensures
        ({
            let reserve = reserve_ops(sender, beneficiary, p, reason);
            let settle = settle_ops(sender, beneficiary, p, reason);
            let sender_fees = fee_aggregate(p.fees_details.sender_pays);
            let beneficiary_fees = fee_aggregate(p.fees_details.beneficiary_pays);
            &&& reserve[0] matches AssetOp::Hold { asset, reason: r, who, amount }
                && settle[0] == AssetOp::Release::<R> { asset, reason: r, who, amount }
            &&& transferred(fee_transfers::<R>(p.asset, sender, sender_fees)) == fee_total(
                p.fees_details.sender_pays,
            )
            &&& reserve[1] matches AssetOp::TransferAndHold { asset, reason: r, dest, amount, .. }
                && settle[1 + sender_fees.len() as int] == AssetOp::Release::<R> {
                asset,
                reason: r,
                who: dest,
                amount,
            }
            &&& transferred(fee_transfers::<R>(p.asset, beneficiary, beneficiary_fees)) == fee_total(
                p.fees_details.beneficiary_pays,
            )
        }),
{
    let sp = p.fees_details.sender_pays;
    let bp = p.fees_details.beneficiary_pays;
    lemma_fee_aggregate_exists(sp);
    lemma_fee_aggregate_exists(bp);
    lemma_fee_aggregate_total(fee_aggregate(sp), sp);
    lemma_fee_aggregate_total(fee_aggregate(bp), bp);
    lemma_fee_transfers_total::<R>(p.asset, sender, fee_aggregate(sp));
    lemma_fee_transfers_total::<R>(p.asset, beneficiary, fee_aggregate(bp));
    let settle = settle_ops(sender, beneficiary, p, reason);
    let n = fee_aggregate(sp).len() as int;
    assert(settle[1 + n] == AssetOp::Release::<R> {
        asset: p.asset,
        reason,
        who: beneficiary,
        amount: p.amount,
    });
}

/// Reserving a payment and then settling it leaves no balance held, and
/// moves free balance in the payment's asset so: the sender pays the amount
/// and its fees, the beneficiary receives the amount and pays its fees, and
/// every account receives the fees owed to it by either side. Other assets
/// are untouched.
pub proof fn lemma_settle_moves_balances<R>(
    sender: AccountId,
    beneficiary: AccountId,
    p: PaymentDetailView,
    reason: R,
    b: BalanceKey<R>,
)
    requires
        detail_fits(p),
    ensures
        net_change(
            reserve_ops(sender, beneficiary, p, reason) + settle_ops(sender, beneficiary, p, reason),
            b,
        ) == match b {
            BalanceKey::Free { asset, who } => if asset == p.asset {
                (if who == sender {
                    -(p.amount + fee_total(p.fees_details.sender_pays))
                } else {
                    0
                }) + (if who == beneficiary {
                    p.amount - fee_total(p.fees_details.beneficiary_pays)
                } else {
                    0
                }) + fee_sum(p.fees_details.sender_pays, who) + fee_sum(
                    p.fees_details.beneficiary_pays,
                    who,
                )
            } else {
                0
            },
            BalanceKey::Held { .. } => 0,
        },
{
    let sp = p.fees_details.sender_pays;
    let bp = p.fees_details.beneficiary_pays;
    lemma_fee_aggregate_exists(sp);
    lemma_fee_aggregate_exists(bp);
    lemma_fee_aggregate_total(fee_aggregate(sp), sp);
    lemma_fee_aggregate_total(fee_aggregate(bp), bp);
    let r = reserve_ops(sender, beneficiary, p, reason);
    let s1 = seq![AssetOp::Release::<R> { asset: p.asset, reason, who: sender, amount: crate::payments::pallet::sender_hold(p) }];
    let t1 = fee_transfers::<R>(p.asset, sender, fee_aggregate(sp));
    let s2 = seq![AssetOp::Release::<R> { asset: p.asset, reason, who: beneficiary, amount: p.amount }];
    let t2 = fee_transfers::<R>(p.asset, beneficiary, fee_aggregate(bp));
    assert(settle_ops(sender, beneficiary, p, reason) == s1 + t1 + s2 + t2);
    lemma_net_change_concat(r, s1 + t1 + s2 + t2, b);
    lemma_net_change_concat(s1 + t1 + s2, t2, b);
    lemma_net_change_concat(s1 + t1, s2, b);
    lemma_net_change_concat(s1, t1, b);
    lemma_net_change_one(s1[0], b);
    lemma_net_change_one(s2[0], b);
    assert(r =~= seq![r[0], r[1]]);
    lemma_net_change_two(r[0], r[1], b);
    lemma_fee_transfers_change::<R>(p.asset, sender, fee_aggregate(sp), b);
    lemma_fee_transfers_change::<R>(p.asset, beneficiary, fee_aggregate(bp), b);
    match b {
        BalanceKey::Free { asset, who } => {
            lemma_fee_aggregate_sums(fee_aggregate(sp), sp, who);
            lemma_fee_aggregate_sums(fee_aggregate(bp), bp, who);
        },
        BalanceKey::Held { .. } => {},
    }
}

/// A call that fails changes no payment.
pub proof fn lemma_failed_calls_change_nothing<R, E>(
    payments: Map<(AccountId, AccountId), PaymentDetailView>,
    sender: AccountId,
    beneficiary: AccountId,
    asset: AssetId,
    amount: Balance,
    remark: Option<Vec<u8>>,
    reason: R,
    incentive_percentage: u8,
    fees: FeesView,
    resolver_account: AccountId,
    outcome: RunOutcome<E>,
)
    ensures
        pay_transition(
            payments,
            sender,
            beneficiary,
            asset,
            amount,
            remark,
            reason,
            incentive_percentage,
            fees,
            resolver_account,
            outcome,
        ).1 is Err ==> pay_transition(
            payments,
            sender,
            beneficiary,
            asset,
            amount,
            remark,
            reason,
            incentive_percentage,
            fees,
            resolver_account,
            outcome,
        ).0 == payments,
        release_transition(payments, sender, beneficiary, reason, outcome).1 is Err
            ==> release_transition(payments, sender, beneficiary, reason, outcome).0 == payments,
        cancel_transition(payments, sender, beneficiary, reason, outcome).1 is Err
            ==> cancel_transition(payments, sender, beneficiary, reason, outcome).0 == payments,
{
}

/// A payment that `pay` created is released once: the release keeps no
/// record of it, a second release finds no payment, and the two accounts may
/// start a new payment.
pub proof fn lemma_pay_then_release<R, E>(
    payments: Map<(AccountId, AccountId), PaymentDetailView>,
    sender: AccountId,
    beneficiary: AccountId,
    asset: AssetId,
    amount: Balance,
    remark: Option<Vec<u8>>,
    reason: R,
    incentive_percentage: u8,
    fees: FeesView,
    resolver_account: AccountId,
    next_asset: AssetId,
    next_amount: Balance,
    next_incentive_percentage: u8,
    next_fees: FeesView,
    next_resolver_account: AccountId,
)
    requires
        pay_transition(
            payments,
            sender,
            beneficiary,
            asset,
            amount,
            remark,
            reason,
            incentive_percentage,
            fees,
            resolver_account,
            Ok::<(), (usize, E)>(()),
        ).1 is Ok,
    ensures
        ({
            let paid = pay_transition(
                payments,
                sender,
                beneficiary,
                asset,
                amount,
                remark,
                reason,
                incentive_percentage,
                fees,
                resolver_account,
                Ok::<(), (usize, E)>(()),
            ).0;
            let released = release_transition(paid, sender, beneficiary, reason, Ok::<(), (usize, E)>(()));
            &&& released.1 == Ok::<Event, CallError<E>>(Event::PaymentReleased { sender, beneficiary })
            &&& released.0 == payments.remove((sender, beneficiary))
            &&& forall|o: RunOutcome<E>| #[trigger] release_transition(released.0, sender, beneficiary, reason, o)
                == (released.0, Err::<Event, CallError<E>>(CallError::Payments(Error::InvalidPayment)))
            &&& create_payment_result(
                released.0,
                sender,
                beneficiary,
                next_asset,
                next_amount,
                PaymentState::Created,
                next_incentive_percentage,
                next_fees,
                next_resolver_account,
            ) == Ok::<PaymentDetailView, Error>(
                new_payment(
                    next_asset,
                    next_amount,
                    PaymentState::Created,
                    next_incentive_percentage,
                    next_fees,
                    next_resolver_account,
                ),
            )
        }),
{
    let paid = pay_transition(
        payments,
        sender,
        beneficiary,
        asset,
        amount,
        remark,
        reason,
        incentive_percentage,
        fees,
        resolver_account,
        Ok::<(), (usize, E)>(()),
    ).0;
    let released = release_transition(paid, sender, beneficiary, reason, Ok::<(), (usize, E)>(()));
    assert(released.0 =~= payments.remove((sender, beneficiary)));
}

/// While a payment that `pay` created is stored, a second `pay` between the
/// same accounts is refused with `PaymentAlreadyInProcess` and the first
/// payment stays as it was.
pub proof fn lemma_second_pay_refused<R, E>(
    payments: Map<(AccountId, AccountId), PaymentDetailView>,
    sender: AccountId,
    beneficiary: AccountId,
    asset: AssetId,
    amount: Balance,
    remark: Option<Vec<u8>>,
    reason: R,
    incentive_percentage: u8,
    fees: FeesView,
    resolver_account: AccountId,
    reserved: RunOutcome<E>,
    next_asset: AssetId,
    next_amount: Balance,
    next_remark: Option<Vec<u8>>,
    next_reason: R,
    next_incentive_percentage: u8,
    next_fees: FeesView,
    next_resolver_account: AccountId,
    next_reserved: RunOutcome<E>,
)
    requires
        pay_transition(
            payments,
            sender,
            beneficiary,
            asset,
            amount,
            remark,
            reason,
            incentive_percentage,
            fees,
            resolver_account,
            reserved,
        ).1 is Ok,
    ensures
        ({
            let paid = pay_transition(
                payments,
                sender,
                beneficiary,
                asset,
                amount,
                remark,
                reason,
                incentive_percentage,
                fees,
                resolver_account,
                reserved,
            ).0;
            &&& paid[(sender, beneficiary)] == new_payment(
                asset,
                amount,
                PaymentState::Created,
                incentive_percentage,
                fees,
                resolver_account,
            )
            &&& pay_transition(
                paid,
                sender,
                beneficiary,
                next_asset,
                next_amount,
                next_remark,
                next_reason,
                next_incentive_percentage,
                next_fees,
                next_resolver_account,
                next_reserved,
            ) == (paid, Err::<Event, CallError<E>>(CallError::Payments(Error::PaymentAlreadyInProcess)))
        }),
{
}

/// A payment that `pay` created and that is then cancelled is gone: the
/// store no longer holds a payment between the two accounts and is otherwise
/// as before.
pub proof fn lemma_pay_then_cancel<R, E>(
    payments: Map<(AccountId, AccountId), PaymentDetailView>,
    sender: AccountId,
    beneficiary: AccountId,
    asset: AssetId,
    amount: Balance,
    remark: Option<Vec<u8>>,
    reason: R,
    incentive_percentage: u8,
    fees: FeesView,
    resolver_account: AccountId,
)
    requires
        pay_transition(
            payments,
            sender,
            beneficiary,
            asset,
            amount,
            remark,
            reason,
            incentive_percentage,
            fees,
            resolver_account,
            Ok::<(), (usize, E)>(()),
        ).1 is Ok,
    ensures
        ({
            let paid = pay_transition(
                payments,
                sender,
                beneficiary,
                asset,
                amount,
                remark,
                reason,
                incentive_percentage,
                fees,
                resolver_account,
                Ok::<(), (usize, E)>(()),
            ).0;
            let cancelled = cancel_transition(paid, sender, beneficiary, reason, Ok::<(), (usize, E)>(()));
            &&& cancelled.1 == Ok::<Option<Event>, CallError<E>>(
                Some(Event::PaymentCancelled { sender, beneficiary }),
            )
            &&& cancelled.0 == payments.remove((sender, beneficiary))
        }),
{
    let paid = pay_transition(
        payments,
        sender,
        beneficiary,
        asset,
        amount,
        remark,
        reason,
        incentive_percentage,
        fees,
        resolver_account,
        Ok::<(), (usize, E)>(()),
    ).0;
    let cancelled = cancel_transition(paid, sender, beneficiary, reason, Ok::<(), (usize, E)>(()));
    assert(cancelled.0 =~= payments.remove((sender, beneficiary)));
}

/// While a payment that is not a payment request is stored between two
/// accounts, `pay` between them is refused with `PaymentAlreadyInProcess`.
pub proof fn lemma_pay_refused_while_in_process<R, E>(
    payments: Map<(AccountId, AccountId), PaymentDetailView>,
    sender: AccountId,
    beneficiary: AccountId,
    asset: AssetId,
    amount: Balance,
    remark: Option<Vec<u8>>,
    reason: R,
    incentive_percentage: u8,
    fees: FeesView,
    resolver_account: AccountId,
    reserved: RunOutcome<E>,
)
    requires
        payments.contains_key((sender, beneficiary)),
        payments[(sender, beneficiary)].state != PaymentState::PaymentRequested,
    ensures
        pay_transition(
            payments,
            sender,
            beneficiary,
            asset,
            amount,
            remark,
            reason,
            incentive_percentage,
            fees,
            resolver_account,
            reserved,
        ) == (payments, Err::<Event, CallError<E>>(CallError::Payments(Error::PaymentAlreadyInProcess))),
{
}

/// What the sender of `p` has held besides the amount: all the fees the
/// sender pays added to the incentive, capped at the largest balance.
pub open spec fn held_from_sender(p: PaymentDetailView) -> int {
    let x = fee_total(p.fees_details.sender_pays) + p.incentive_amount;
    if x > u128::MAX {
        u128::MAX as int
    } else {
        x
    }
}

/// Reserving a payment first holds from the sender every fee the sender pays
/// plus the incentive (capped at the largest balance), whether or not the
/// sender pays any fee; cancelling and settling first release exactly that
/// amount from the sender.
pub proof fn lemma_sender_holds_fees_and_incentive<R>(
    sender: AccountId,
    beneficiary: AccountId,
    p: PaymentDetailView,
    reason: R,
)
    ensures
        reserve_ops(sender, beneficiary, p, reason)[0] matches AssetOp::Hold {
            asset,
            who,
            amount,
            ..
        } && asset == p.asset && who == sender && amount as int == held_from_sender(p),
        cancel_ops(sender, beneficiary, p, reason)[0] matches AssetOp::Release {
            asset,
            who,
            amount,
            ..
        } && asset == p.asset && who == sender && amount as int == held_from_sender(p),
        settle_ops(sender, beneficiary, p, reason)[0] matches AssetOp::Release {
            asset,
            who,
            amount,
            ..
        } && asset == p.asset && who == sender && amount as int == held_from_sender(p),
{
    lemma_fee_total_nonneg(p.fees_details.sender_pays);
}

/// The incentive of a new payment is the given percentage of the amount,
/// rounded down: a hundred times the incentive is at most the amount times
/// the percentage, and less than a hundred more.
pub proof fn lemma_incentive_rounds_down(
    asset: AssetId,
    amount: Balance,
    state: PaymentState,
    incentive_percentage: u8,
    fees: FeesView,
    resolver_account: AccountId,
)
    requires
        incentive_percentage <= 100,
    ensures
        new_payment(asset, amount, state, incentive_percentage, fees, resolver_account).incentive_amount
            * 100 <= amount * incentive_percentage,
        amount * incentive_percentage < (new_payment(
            asset,
            amount,
            state,
            incentive_percentage,
            fees,
            resolver_account,
        ).incentive_amount + 1) * 100,
        new_payment(asset, amount, state, incentive_percentage, fees, resolver_account).incentive_amount
            <= amount,
{
    let x = amount * incentive_percentage;
    assert(0 <= x <= amount * 100) by (nonlinear_arith)
        requires
            incentive_percentage <= 100,
            x == amount * incentive_percentage,
    ;
    let q = x / 100;
    assert(q * 100 <= x < (q + 1) * 100) by (nonlinear_arith)
        requires
            q == x / 100,
            x >= 0,
    ;
    assert(q <= amount) by (nonlinear_arith)
        requires
            q * 100 <= x,
            x <= amount * 100,
    ;
}

} // verus!
