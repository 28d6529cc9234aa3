//! The calls of the payments pallet.
//!
//! A call first decides, from the stored payments and its arguments, which
//! asset operations it needs (`reserve_payment_amount`, `settle_payment_ops`,
//! `cancel_payment`); the caller runs them in order against the asset layer,
//! stopping at the first failure, and hands the outcome to the call, which
//! then commits its change to the store or fails without one, as the
//! transactional call of the runtime does.

use vstd::prelude::*;
use crate::arith::percent_mul_floor;
use crate::payments::fees::{
    fee_aggregate, fees_fit, get_fees_details_per_role, saturated_total,
};
use crate::payments::types::{
    outcome_fits, outcome_result, run_result, AccountId, AssetId, AssetOp, Balance, CallError,
    Error, Event, FeeDetails, Fees, FeesView, PaymentDetail, PaymentDetailView, PaymentState,
    Preservation, RunOutcome,
};
use crate::store::Store;

verus! {

/// `a + b`, saturating at the largest balance.
pub open spec fn saturating_sum(a: Balance, b: Balance) -> Balance {
    if a + b > u128::MAX {
        u128::MAX
    } else {
        (a + b) as Balance
    }
}

/// The fee lists of a payment fit in balances.
pub open spec fn detail_fits(p: PaymentDetailView) -> bool {
    fees_fit(p.fees_details.sender_pays) && fees_fit(p.fees_details.beneficiary_pays)
}

/// Both fee lists hold at most `max_fees` entries.
pub open spec fn fees_bounded(fees: FeesView, max_fees: u32) -> bool {
    fees.sender_pays.len() <= max_fees && fees.beneficiary_pays.len() <= max_fees
}

/// What the sender of `p` holds besides the amount: the total of the fees
/// the sender pays and the incentive, saturating.
pub open spec fn sender_hold(p: PaymentDetailView) -> Balance {
    saturating_sum(saturated_total(p.fees_details.sender_pays), p.incentive_amount)
}

/// The operations that reserve a payment: hold the sender's fees and
/// incentive, then move the amount to the beneficiary and hold it there.
pub open spec fn reserve_ops<R>(
    sender: AccountId,
    beneficiary: AccountId,
    p: PaymentDetailView,
    reason: R,
) -> Seq<AssetOp<R>> {
    seq![
        AssetOp::Hold { asset: p.asset, reason, who: sender, amount: sender_hold(p) },
        AssetOp::TransferAndHold {
            asset: p.asset,
            reason,
            source: sender,
            dest: beneficiary,
            amount: p.amount,
        },
    ]
}

/// The operations that cancel a payment: release the sender's hold, release
/// the beneficiary's hold, and move the amount back to the sender.
pub open spec fn cancel_ops<R>(
    sender: AccountId,
    beneficiary: AccountId,
    p: PaymentDetailView,
    reason: R,
) -> Seq<AssetOp<R>> {
    seq![
        AssetOp::Release { asset: p.asset, reason, who: sender, amount: sender_hold(p) },
        AssetOp::Release { asset: p.asset, reason, who: beneficiary, amount: p.amount },
        AssetOp::Transfer {
            asset: p.asset,
            source: beneficiary,
            dest: sender,
            amount: p.amount,
            preservation: Preservation::Expendable,
        },
    ]
}

/// One transfer from `source` to each recipient of an aggregated fee list.
pub open spec fn fee_transfers<R>(
    asset: AssetId,
    source: AccountId,
    per_account: Seq<(AccountId, Balance)>,
) -> Seq<AssetOp<R>> {
    per_account.map_values(
        |e: (AccountId, Balance)|
            AssetOp::Transfer {
                asset,
                source,
                dest: e.0,
                amount: e.1,
                preservation: Preservation::Preserve,
            },
    )
}

/// The operations that settle a payment: release the sender's hold and pay
/// the sender's fees, then release the amount to the beneficiary and pay the
/// beneficiary's fees; fees go to each recipient once, in ascending order of
/// account.
pub open spec fn settle_ops<R>(
    sender: AccountId,
    beneficiary: AccountId,
    p: PaymentDetailView,
    reason: R,
) -> Seq<AssetOp<R>> {
    seq![AssetOp::Release { asset: p.asset, reason, who: sender, amount: sender_hold(p) }]
        + fee_transfers(p.asset, sender, fee_aggregate(p.fees_details.sender_pays))
        + seq![AssetOp::Release { asset: p.asset, reason, who: beneficiary, amount: p.amount }]
        + fee_transfers(p.asset, beneficiary, fee_aggregate(p.fees_details.beneficiary_pays))
}

/// The payment that `create_payment` builds: the incentive is the given
/// percentage of the amount, rounded down.
pub open spec fn new_payment(
    asset: AssetId,
    amount: Balance,
    state: PaymentState,
    incentive_percentage: u8,
    fees: FeesView,
    resolver_account: AccountId,
) -> PaymentDetailView {
    PaymentDetailView {
        asset,
        amount,
        incentive_amount: (amount * incentive_percentage / 100) as Balance,
        state,
        resolver_account,
        fees_details: fees,
    }
}

/// A payment may be created between two accounts unless one is stored for
/// them that is not a payment request.
pub open spec fn create_payment_result(
    payments: Map<(AccountId, AccountId), PaymentDetailView>,
    sender: AccountId,
    beneficiary: AccountId,
    asset: AssetId,
    amount: Balance,
    state: PaymentState,
    incentive_percentage: u8,
    fees: FeesView,
    resolver_account: AccountId,
) -> Result<PaymentDetailView, Error> {
    if payments.contains_key((sender, beneficiary)) && payments[(sender, beneficiary)].state
        != PaymentState::PaymentRequested {
        Err(Error::PaymentAlreadyInProcess)
    } else {
        Ok(new_payment(asset, amount, state, incentive_percentage, fees, resolver_account))
    }
}

/// The store and result after `pay`.
pub open spec fn pay_transition<R, E>(
    payments: Map<(AccountId, AccountId), PaymentDetailView>,
    sender: AccountId,
    beneficiary: AccountId,
    asset: AssetId,
    amount: Balance,
    remark: Option<Vec<u8>>,
    reason: R,
    incentive_percentage: u8,
    fees: FeesView,
    resolver_account: AccountId,
    reserved: RunOutcome<E>,
) -> (Map<(AccountId, AccountId), PaymentDetailView>, Result<Event, CallError<E>>) {
    match create_payment_result(
        payments,
        sender,
        beneficiary,
        asset,
        amount,
        PaymentState::Created,
        incentive_percentage,
        fees,
        resolver_account,
    ) {
        Err(e) => (payments, Err(CallError::Payments(e))),
        Ok(p) => match outcome_result(reserve_ops(sender, beneficiary, p, reason), reserved) {
            Err(e) => (payments, Err(e)),
            Ok(()) => (
                payments.insert((sender, beneficiary), p),
                Ok(Event::PaymentCreated { sender, beneficiary, asset, amount, remark }),
            ),
        },
    }
}

/// The store and result after `release`: a settled payment is not kept.
pub open spec fn release_transition<R, E>(
    payments: Map<(AccountId, AccountId), PaymentDetailView>,
    sender: AccountId,
    beneficiary: AccountId,
    reason: R,
    settled: RunOutcome<E>,
) -> (Map<(AccountId, AccountId), PaymentDetailView>, Result<Event, CallError<E>>) {
    let key = (sender, beneficiary);
    if !payments.contains_key(key) {
        (payments, Err(CallError::Payments(Error::InvalidPayment)))
    } else if payments[key].state != PaymentState::Created {
        (payments, Err(CallError::Payments(Error::InvalidAction)))
    } else {
        match outcome_result(settle_ops(sender, beneficiary, payments[key], reason), settled) {
            Err(e) => (payments, Err(e)),
            Ok(()) => (payments.remove(key), Ok(Event::PaymentReleased { sender, beneficiary })),
        }
    }
}

/// The store and result after `cancel`.
pub open spec fn cancel_transition<R, E>(
    payments: Map<(AccountId, AccountId), PaymentDetailView>,
    sender: AccountId,
    beneficiary: AccountId,
    reason: R,
    cancelled: RunOutcome<E>,
) -> (Map<(AccountId, AccountId), PaymentDetailView>, Result<Option<Event>, CallError<E>>) {
    let key = (sender, beneficiary);
    if !payments.contains_key(key) {
        (payments, Ok(None))
    } else if payments[key].state != PaymentState::Created {
        (payments, Err(CallError::Payments(Error::InvalidAction)))
    } else {
        match outcome_result(cancel_ops(sender, beneficiary, payments[key], reason), cancelled) {
            Err(e) => (payments, Err(e)),
            Ok(()) => (
                payments.remove(key),
                Ok(Some(Event::PaymentCancelled { sender, beneficiary })),
            ),
        }
    }
}

/// The views of the payments in a store.
pub open spec fn payment_views(m: Map<(AccountId, AccountId), PaymentDetail>) -> Map<
    (AccountId, AccountId),
    PaymentDetailView,
> {
    m.map_values(|p: PaymentDetail| p@)
}

proof fn lemma_views_insert(
    m: Map<(AccountId, AccountId), PaymentDetail>,
    k: (AccountId, AccountId),
    p: PaymentDetail,
)
    ensures
        payment_views(m.insert(k, p)) == payment_views(m).insert(k, p@),
{
    assert(payment_views(m.insert(k, p)) =~= payment_views(m).insert(k, p@));
}

proof fn lemma_views_remove(m: Map<(AccountId, AccountId), PaymentDetail>, k: (AccountId, AccountId))
    ensures
        payment_views(m.remove(k)) == payment_views(m).remove(k),
{
    assert(payment_views(m.remove(k)) =~= payment_views(m).remove(k));
}

/// The payments pallet: the payments stored per (sender, beneficiary); for any
/// pair only one payment is held, and no history of payments is kept.
pub struct Pallet {
    payment: Store<(AccountId, AccountId), PaymentDetail>,
    max_remark_length: u32,
    max_fees: u32,
}

impl View for Pallet {
    type V = Map<(AccountId, AccountId), PaymentDetailView>;

    closed spec fn view(&self) -> Map<(AccountId, AccountId), PaymentDetailView> {
        payment_views(self.payment@)
    }
}

impl Pallet {
    /// The longest remark a payment may carry.
    pub closed spec fn spec_max_remark_length(&self) -> u32 {
        self.max_remark_length
    }

    /// The most fees each side of a payment may pay.
    pub closed spec fn spec_max_fees(&self) -> u32 {
        self.max_fees
    }

    /// The pallet's store is well formed, and every stored payment's fee
    /// lists hold at most `max_fees` entries.
    pub closed spec fn wf(&self) -> bool {
        &&& self.payment.wf()
        &&& forall|k: (AccountId, AccountId)| #[trigger]
            self.payment@.contains_key(k) ==> fees_bounded(
                self.payment@[k]@.fees_details,
                self.max_fees,
            )
    }

    /// A pallet with no payments, whose remarks hold at most
    /// `max_remark_length` bytes and whose fee lists at most `max_fees`
    /// entries.
    pub fn new(max_remark_length: u32, max_fees: u32) -> (s: Self)
        ensures
            s.wf(),
            s@ == Map::<(AccountId, AccountId), PaymentDetailView>::empty(),
            s.spec_max_remark_length() == max_remark_length,
            s.spec_max_fees() == max_fees,
    {
        let s = Pallet { payment: Store::new(), max_remark_length, max_fees };
        assert(s@ =~= Map::<(AccountId, AccountId), PaymentDetailView>::empty());
        s
    }

    pub fn max_remark_length(&self) -> (r: u32)
        ensures
            r == self.spec_max_remark_length(),
    {
        self.max_remark_length
    }

    pub fn max_fees(&self) -> (r: u32)
        ensures
            r == self.spec_max_fees(),
    {
        self.max_fees
    }

    /// The payment stored from `sender` to `beneficiary`.
    pub fn payment(&self, sender: AccountId, beneficiary: AccountId) -> (r: Option<&PaymentDetail>)
        requires
            self.wf(),
        ensures
            r is Some == self@.contains_key((sender, beneficiary)),
            r matches Some(p) ==> p@ == self@[(sender, beneficiary)],
    {
        self.payment.get(&(sender, beneficiary))
    }

    /// Creates a payment from `sender` to `beneficiary` and adds it to the
    /// store; it may replace only a payment request. The incentive is
    /// `incentive_percentage` percent of the amount, rounded down. It reserves
    /// nothing: `pay` creates a payment together with its reserve.
    pub fn create_payment(
        &mut self,
        sender: AccountId,
        beneficiary: AccountId,
        asset: AssetId,
        amount: Balance,
        payment_state: PaymentState,
        incentive_percentage: u8,
        fees: Fees,
        resolver_account: AccountId,
    ) -> (r: Result<PaymentDetail, Error>)
        requires
            old(self).wf(),
            incentive_percentage <= 100,
            fees_bounded(fees@, old(self).spec_max_fees()),
        ensures
            final(self).wf(),
            final(self).spec_max_remark_length() == old(self).spec_max_remark_length(),
            final(self).spec_max_fees() == old(self).spec_max_fees(),
            match create_payment_result(
                old(self)@,
                sender,
                beneficiary,
                asset,
                amount,
                payment_state,
                incentive_percentage,
                fees@,
                resolver_account,
            ) {
                Ok(d) => r matches Ok(p) && p@ == d && final(self)@ == old(self)@.insert(
                    (sender, beneficiary),
                    d,
                ),
                Err(e) => r == Err::<PaymentDetail, Error>(e) && final(self)@ == old(self)@,
            },
    {
        if let Some(payment) = self.payment.get(&(sender, beneficiary)) {
            if payment.state != PaymentState::PaymentRequested {
                return Err(Error::PaymentAlreadyInProcess);
            }
        }
        let new_payment = build_payment(
            asset,
            amount,
            payment_state,
            incentive_percentage,
            fees,
            resolver_account,
        );
        let stored = new_payment.duplicate();
        proof {
            lemma_views_insert(self.payment@, (sender, beneficiary), stored);
        }
        self.payment.insert((sender, beneficiary), stored);
        Ok(new_payment)
    }

    /// Creates a payment from `sender` to `beneficiary` of `amount` of `asset`
    /// and reserves it. `reserved` is the outcome of running the operations
    /// of `reserve_payment_amount` for the payment that `create_payment`
    /// builds; when one of them fails the store is left as it was.
    pub fn pay<R: Copy, E>(
        &mut self,
        sender: AccountId,
        beneficiary: AccountId,
        asset: AssetId,
        amount: Balance,
        remark: Option<Vec<u8>>,
        reason: R,
        incentive_percentage: u8,
        fees: Fees,
        resolver_account: AccountId,
        reserved: RunOutcome<E>,
    ) -> (r: Result<Event, CallError<E>>)
        requires
            old(self).wf(),
            incentive_percentage <= 100,
            fees_bounded(fees@, old(self).spec_max_fees()),
            remark matches Some(m) ==> m@.len() <= old(self).spec_max_remark_length(),
            outcome_fits(
                reserve_ops(
                    sender,
                    beneficiary,
                    new_payment(
                        asset,
                        amount,
                        PaymentState::Created,
                        incentive_percentage,
                        fees@,
                        resolver_account,
                    ),
                    reason,
                ),
                reserved,
            ),
        ensures
            final(self).wf(),
            final(self).spec_max_remark_length() == old(self).spec_max_remark_length(),
            final(self).spec_max_fees() == old(self).spec_max_fees(),
            (final(self)@, r) == pay_transition(
                old(self)@,
                sender,
                beneficiary,
                asset,
                amount,
                remark,
                reason,
                incentive_percentage,
                fees@,
                resolver_account,
                reserved,
            ),
    {
        let key = (sender, beneficiary);
        let ghost before = self.payment@;
        let previous = match self.payment.get(&key) {
            Some(p) => Some(p.duplicate()),
            None => None,
        };
        let payment_detail = match self.create_payment(
            sender,
            beneficiary,
            asset,
            amount,
            PaymentState::Created,
            incentive_percentage,
            fees,
            resolver_account,
        ) {
            Ok(p) => p,
            Err(e) => return Err(CallError::Payments(e)),
        };
        let ops = reserve_payment_amount(sender, beneficiary, &payment_detail, reason);
        match run_result(&ops, reserved) {
            Err(e) => {
                // the call fails: the store goes back to what it was
                match previous {
                    Some(p) => {
                        proof {
                            lemma_views_insert(self.payment@, key, p);
                            assert(payment_views(before).insert(key, p@) =~= payment_views(
                                before,
                            ));
                        }
                        self.payment.insert(key, p);
                    },
                    None => {
                        proof {
                            lemma_views_remove(self.payment@, key);
                            assert(payment_views(before).insert(key, payment_detail@).remove(key)
                                =~= payment_views(before));
                        }
                        let _ = self.payment.take(&key);
                    },
                }
                return Err(e);
            },
            Ok(()) => {},
        }
        Ok(Event::PaymentCreated { sender, beneficiary, asset, amount, remark })
    }

    /// Releases the payment from `sender` to `beneficiary`, which must be in
    /// the `Created` state. `settled` is the outcome of running the operations
    /// of `settle_payment_ops` for the stored payment; when they all
    /// succeeded the payment is settled and no longer kept.
    pub fn release<R: Copy, E>(
        &mut self,
        sender: AccountId,
        beneficiary: AccountId,
        reason: R,
        settled: RunOutcome<E>,
    ) -> (r: Result<Event, CallError<E>>)
        requires
            old(self).wf(),
            old(self)@.contains_key((sender, beneficiary)) && old(self)@[(
                sender,
                beneficiary,
            )].state == PaymentState::Created ==> outcome_fits(
                settle_ops(sender, beneficiary, old(self)@[(sender, beneficiary)], reason),
                settled,
            ),
        ensures
            final(self).wf(),
            final(self).spec_max_remark_length() == old(self).spec_max_remark_length(),
            final(self).spec_max_fees() == old(self).spec_max_fees(),
            (final(self)@, r) == release_transition(old(self)@, sender, beneficiary, reason, settled),
    {
        let key = (sender, beneficiary);
        let ops = match self.payment.get(&key) {
            None => return Err(CallError::Payments(Error::InvalidPayment)),
            Some(payment) => {
                if payment.state != PaymentState::Created {
                    return Err(CallError::Payments(Error::InvalidAction));
                }
                settle_payment_ops(sender, beneficiary, payment, reason)
            },
        };
        match run_result(&ops, settled) {
            Err(e) => return Err(e),
            Ok(()) => {},
        }
        proof {
            lemma_views_remove(self.payment@, key);
        }
        let _ = self.payment.take(&key);
        Ok(Event::PaymentReleased { sender, beneficiary })
    }

    /// Cancels the payment from `sender` to `beneficiary` (a call of the
    /// beneficiary). A payment in the `Created` state is removed once the
    /// operations of `cancel_payment`, whose outcome is `cancelled`, all
    /// succeeded; a payment in another state is refused; when there is no
    /// payment nothing happens.
    pub fn cancel<R: Copy, E>(
        &mut self,
        sender: AccountId,
        beneficiary: AccountId,
        reason: R,
        cancelled: RunOutcome<E>,
    ) -> (r: Result<Option<Event>, CallError<E>>)
        requires
            old(self).wf(),
            old(self)@.contains_key((sender, beneficiary)) && old(self)@[(
                sender,
                beneficiary,
            )].state == PaymentState::Created ==> outcome_fits(
                cancel_ops(sender, beneficiary, old(self)@[(sender, beneficiary)], reason),
                cancelled,
            ),
        ensures
            final(self).wf(),
            final(self).spec_max_remark_length() == old(self).spec_max_remark_length(),
            final(self).spec_max_fees() == old(self).spec_max_fees(),
            (final(self)@, r) == cancel_transition(
                old(self)@,
                sender,
                beneficiary,
                reason,
                cancelled,
            ),
    {
        let key = (sender, beneficiary);
        let ops = match self.payment.get(&key) {
            None => return Ok(None),
            Some(payment) => match payment.state {
                PaymentState::Created => cancel_payment(sender, beneficiary, payment, reason),
                _ => return Err(CallError::Payments(Error::InvalidAction)),
            },
        };
        match run_result(&ops, cancelled) {
            Err(e) => return Err(e),
            Ok(()) => {},
        }
        proof {
            lemma_views_remove(self.payment@, key);
        }
        let _ = self.payment.take(&key);
        Ok(Some(Event::PaymentCancelled { sender, beneficiary }))
    }
}

/// The payment that `create_payment` stores, built without storing it: the
/// incentive is `incentive_percentage` percent of the amount, rounded down.
/// Its reserve operations are those of `reserve_payment_amount`.
pub fn build_payment(
    asset: AssetId,
    amount: Balance,
    payment_state: PaymentState,
    incentive_percentage: u8,
    fees: Fees,
    resolver_account: AccountId,
) -> (p: PaymentDetail)
    requires
        incentive_percentage <= 100,
    ensures
        p@ == new_payment(asset, amount, payment_state, incentive_percentage, fees@, resolver_account),
{
    let incentive_amount = percent_mul_floor(incentive_percentage, amount);
    PaymentDetail {
        asset,
        amount,
        incentive_amount,
        state: payment_state,
        resolver_account,
        fees_details: fees,
    }
}

/// A fee list aggregated per account, with its saturated total.
fn aggregate_fees(fees: &FeeDetails) -> (r: (FeeDetails, Balance))
    ensures
        r.0@ == fee_aggregate(fees@),
        r.1 == saturated_total(fees@),
{
    match get_fees_details_per_role(fees) {
        Ok(v) => v,
        Err(_) => {
            proof {
                assert(false);
            }
            (Vec::new(), 0)
        },
    }
}

/// The fees and incentive that the sender of `payment` holds.
fn sender_hold_amount(payment: &PaymentDetail) -> (r: Balance)
    ensures
        r == sender_hold(payment@),
{
    let (_, total_fee_from_sender) = aggregate_fees(&payment.fees_details.sender_pays);
    total_fee_from_sender.saturating_add(payment.incentive_amount)
}

/// The asset operations that reserve `payment`: hold the sender's fees and
/// incentive, then transfer the amount to the beneficiary and hold it there.
pub fn reserve_payment_amount<R: Copy>(
    sender: AccountId,
    beneficiary: AccountId,
    payment: &PaymentDetail,
    reason: R,
) -> (ops: Vec<AssetOp<R>>)
    ensures
        ops@ == reserve_ops(sender, beneficiary, payment@, reason),
{
    let total_hold_amount = sender_hold_amount(payment);
    let mut ops = Vec::new();
    ops.push(
        AssetOp::Hold { asset: payment.asset, reason, who: sender, amount: total_hold_amount },
    );
    ops.push(
        AssetOp::TransferAndHold {
            asset: payment.asset,
            reason,
            source: sender,
            dest: beneficiary,
            amount: payment.amount,
        },
    );
    assert(ops@ =~= reserve_ops(sender, beneficiary, payment@, reason));
    ops
}

/// The asset operations that cancel `payment`: release the sender's hold and
/// the beneficiary's, then transfer the amount back to the sender.
pub fn cancel_payment<R: Copy>(
    sender: AccountId,
    beneficiary: AccountId,
    payment: &PaymentDetail,
    reason: R,
) -> (ops: Vec<AssetOp<R>>)
    ensures
        ops@ == cancel_ops(sender, beneficiary, payment@, reason),
{
    let total_hold_amount = sender_hold_amount(payment);
    let mut ops = Vec::new();
    ops.push(
        AssetOp::Release { asset: payment.asset, reason, who: sender, amount: total_hold_amount },
    );
    ops.push(
        AssetOp::Release { asset: payment.asset, reason, who: beneficiary, amount: payment.amount },
    );
    ops.push(
        AssetOp::Transfer {
            asset: payment.asset,
            source: beneficiary,
            dest: sender,
            amount: payment.amount,
            preservation: Preservation::Expendable,
        },
    );
    assert(ops@ =~= cancel_ops(sender, beneficiary, payment@, reason));
    ops
}

/// Appends one transfer from `source` to each entry of `per_account`.
fn push_fee_transfers<R>(
    ops: &mut Vec<AssetOp<R>>,
    asset: AssetId,
    source: AccountId,
    per_account: &FeeDetails,
)
    ensures
        final(ops)@ == old(ops)@ + fee_transfers::<R>(asset, source, per_account@),
{
    let n = per_account.len();
    let ghost start = ops@;
    let mut i: usize = 0;
    while i < n
        invariant
            n == per_account@.len(),
            i <= n,
            ops@ == start + fee_transfers::<R>(asset, source, per_account@.take(i as int)),
        decreases n - i,
    {
        let (dest, amount) = per_account[i];
        ops.push(
            AssetOp::Transfer {
                asset,
                source,
                dest,
                amount,
                preservation: Preservation::Preserve,
            },
        );
        proof {
            assert(per_account@.take(i + 1) =~= per_account@.take(i as int).push(per_account@[i as int]));
            assert(fee_transfers::<R>(asset, source, per_account@.take(i + 1)) =~= fee_transfers::<R>(
                asset,
                source,
                per_account@.take(i as int),
            ).push(AssetOp::Transfer { asset, source, dest, amount, preservation: Preservation::Preserve }));
        }
        i = i + 1;
    }
    assert(per_account@.take(n as int) =~= per_account@);
}

/// The asset operations that settle `payment`: release the sender's hold and
/// pay each recipient of the sender's fees, then release the amount to the
/// beneficiary and pay each recipient of the beneficiary's fees.
pub fn settle_payment_ops<R: Copy>(
    sender: AccountId,
    beneficiary: AccountId,
    payment: &PaymentDetail,
    reason: R,
) -> (ops: Vec<AssetOp<R>>)
    ensures
        ops@ == settle_ops(sender, beneficiary, payment@, reason),
{
    let (fee_sender_recipients, total_sender_fee_amount) = aggregate_fees(
        &payment.fees_details.sender_pays,
    );
    let total_sender_release = total_sender_fee_amount.saturating_add(payment.incentive_amount);
    let mut ops = Vec::new();
    ops.push(
        AssetOp::Release {
            asset: payment.asset,
            reason,
            who: sender,
            amount: total_sender_release,
        },
    );
    push_fee_transfers(&mut ops, payment.asset, sender, &fee_sender_recipients);
    ops.push(
        AssetOp::Release { asset: payment.asset, reason, who: beneficiary, amount: payment.amount },
    );
    let (fee_beneficiary_recipients, _) = aggregate_fees(&payment.fees_details.beneficiary_pays);
    push_fee_transfers(&mut ops, payment.asset, beneficiary, &fee_beneficiary_recipients);
    assert(ops@ =~= settle_ops(sender, beneficiary, payment@, reason));
    ops
}

} // verus!
