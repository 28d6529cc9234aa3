//! The values the payments pallet stores, emits and hands to the asset layer.

use vstd::prelude::*;

verus! {

/// An account; account ids are ordered as integers.
pub type AccountId = u64;

/// The id of a fungible asset.
pub type AssetId = u32;

/// An amount of an asset.
pub type Balance = u128;

/// A block number.
pub type BlockNumber = u32;

/// The fee list of one role: who receives a fee, and how much.
pub type FeeDetails = Vec<(AccountId, Balance)>;

/// The life cycle of a payment.
#[derive(Debug, PartialEq, Eq, Structural, Clone, Copy)]
pub enum PaymentState {
    /// Amounts are reserved and waiting for release.
    Created,
    /// A judge has to resolve the payment.
    NeedsReview,
    /// The creator asked for a refund, which is cancelled at `cancel_block`.
    RefundRequested { cancel_block: BlockNumber },
    /// The recipient requested the payment.
    PaymentRequested,
    /// The payment was released.
    Finished,
}

/// The fees that each side of a payment pays.
pub struct Fees {
    pub sender_pays: FeeDetails,
    pub beneficiary_pays: FeeDetails,
}

/// The fee lists of a payment, as sequences.
pub struct FeesView {
    pub sender_pays: Seq<(AccountId, Balance)>,
    pub beneficiary_pays: Seq<(AccountId, Balance)>,
}

impl View for Fees {
    type V = FeesView;

    open spec fn view(&self) -> FeesView {
        FeesView { sender_pays: self.sender_pays@, beneficiary_pays: self.beneficiary_pays@ }
    }
}

/// A copy of a fee list.
pub fn copy_fee_details(fees: &FeeDetails) -> (r: FeeDetails)
    ensures
        r@ == fees@,
{
    let mut r: FeeDetails = Vec::new();
    let n = fees.len();
    let mut i: usize = 0;
    while i < n
        invariant
            n == fees@.len(),
            i <= n,
            r@ == fees@.take(i as int),
        decreases n - i,
    {
        let e = fees[i];
        r.push(e);
        assert(fees@.take(i + 1) =~= fees@.take(i as int).push(e));
        i = i + 1;
    }
    assert(fees@.take(n as int) =~= fees@);
    r
}

impl Fees {
    /// A copy of the fees.
    pub fn duplicate(&self) -> (r: Fees)
        ensures
            r@ == self@,
    {
        Fees {
            sender_pays: copy_fee_details(&self.sender_pays),
            beneficiary_pays: copy_fee_details(&self.beneficiary_pays),
        }
    }
}

/// A payment between a sender and a beneficiary.
pub struct PaymentDetail {
    /// The asset the payment is made in.
    pub asset: AssetId,
    /// The amount paid to the beneficiary.
    pub amount: Balance,
    /// The incentive the sender holds besides the amount.
    pub incentive_amount: Balance,
    pub state: PaymentState,
    /// The account that resolves disputes about the payment.
    pub resolver_account: AccountId,
    pub fees_details: Fees,
}

/// A payment, with its fee lists as sequences.
pub struct PaymentDetailView {
    pub asset: AssetId,
    pub amount: Balance,
    pub incentive_amount: Balance,
    pub state: PaymentState,
    pub resolver_account: AccountId,
    pub fees_details: FeesView,
}

impl View for PaymentDetail {
    type V = PaymentDetailView;

    open spec fn view(&self) -> PaymentDetailView {
        PaymentDetailView {
            asset: self.asset,
            amount: self.amount,
            incentive_amount: self.incentive_amount,
            state: self.state,
            resolver_account: self.resolver_account,
            fees_details: self.fees_details@,
        }
    }
}

impl PaymentDetail {
    /// A copy of the payment.
    pub fn duplicate(&self) -> (r: PaymentDetail)
        ensures
            r@ == self@,
    {
        PaymentDetail {
            asset: self.asset,
            amount: self.amount,
            incentive_amount: self.incentive_amount,
            state: self.state,
            resolver_account: self.resolver_account,
            fees_details: self.fees_details.duplicate(),
        }
    }
}

/// The errors of the payments pallet.
#[derive(Debug, PartialEq, Eq, Structural, Clone, Copy)]
pub enum Error {
    /// The selected payment does not exist
    InvalidPayment,
    /// The selected payment cannot be released
    PaymentAlreadyReleased,
    /// The selected payment already exists and is in process
    PaymentAlreadyInProcess,
    /// Action permitted only for whitelisted users
    InvalidAction,
    /// Payment is in review state and cannot be modified
    PaymentNeedsReview,
    /// Unexpected math error
    MathError,
    /// Payment request has not been created
    RefundNotRequested,
    /// Dispute period has not passed
    DisputePeriodNotPassed,
    /// The automatic cancelation queue cannot accept
    RefundQueueFull,
    /// Release was not possible
    ReleaseFailed,
    /// Transfer failed
    TransferFailed,
}

/// How a call failed: with an error of this pallet, or with the error that the
/// asset layer gave for an operation whose failure the pallet passes on.
#[derive(Debug, PartialEq, Eq)]
pub enum CallError<E> {
    Payments(Error),
    Assets(E),
}

/// The events of the payments pallet.
#[derive(Debug, PartialEq, Eq)]
pub enum Event {
    /// A new payment has been created
    PaymentCreated {
        sender: AccountId,
        beneficiary: AccountId,
        asset: AssetId,
        amount: Balance,
        remark: Option<Vec<u8>>,
    },
    /// Payment amount released to the recipient
    PaymentReleased { sender: AccountId, beneficiary: AccountId },
    /// Payment has been cancelled by the creator
    PaymentCancelled { sender: AccountId, beneficiary: AccountId },
    /// A payment that NeedsReview has been resolved by Judge
    PaymentResolved {
        sender: AccountId,
        beneficiary: AccountId,
        recipient_share: sp_arithmetic::Percent,
    },
    /// the payment creator has created a refund request
    PaymentCreatorRequestedRefund {
        sender: AccountId,
        beneficiary: AccountId,
        expiry: BlockNumber,
    },
    /// the refund request from creator was disputed by recipient
    PaymentRefundDisputed { sender: AccountId, beneficiary: AccountId },
    /// Payment request was created by recipient
    PaymentRequestCreated { sender: AccountId, beneficiary: AccountId },
    /// Payment request was completed by sender
    PaymentRequestCompleted { sender: AccountId, beneficiary: AccountId },
}

/// Whether a transfer may leave the source account below its existential
/// deposit.
#[derive(Debug, PartialEq, Eq, Structural, Clone, Copy)]
pub enum Preservation {
    Expendable,
    Preserve,
}

/// One call into the asset layer, with the hold reason `R` of the call.
///
/// `Hold` and `Release` act on the balance held for `reason`;
/// `TransferAndHold` moves `amount` from `source` to `dest` and holds it there
/// (exactly, keeping `source` alive, politely); `Release` releases exactly
/// `amount`.
#[derive(Debug, PartialEq, Eq)]
pub enum AssetOp<R> {
    Hold { asset: AssetId, reason: R, who: AccountId, amount: Balance },
    TransferAndHold {
        asset: AssetId,
        reason: R,
        source: AccountId,
        dest: AccountId,
        amount: Balance,
    },
    Release { asset: AssetId, reason: R, who: AccountId, amount: Balance },
    Transfer {
        asset: AssetId,
        source: AccountId,
        dest: AccountId,
        amount: Balance,
        preservation: Preservation,
    },
}

/// What running a list of asset operations in order gave: `Ok` when all
/// succeeded, or the position of the first one that failed and its error
/// (the later ones were not run).
pub type RunOutcome<E> = Result<(), (usize, E)>;

/// The pallet error that the failure of `op` becomes, or `None` where the
/// pallet passes the asset layer's error on unchanged.
pub open spec fn failure_error<R>(op: AssetOp<R>) -> Option<Error> {
    match op {
        AssetOp::Release { .. } => Some(Error::ReleaseFailed),
        AssetOp::Transfer { .. } => Some(Error::TransferFailed),
        _ => None,
    }
}

/// The result of a call whose asset operations `ops` ran with `outcome`.
pub open spec fn outcome_result<R, E>(ops: Seq<AssetOp<R>>, outcome: RunOutcome<E>) -> Result<
    (),
    CallError<E>,
> {
    match outcome {
        Ok(()) => Ok(()),
        Err((i, e)) => match failure_error(ops[i as int]) {
            Some(err) => Err(CallError::Payments(err)),
            None => Err(CallError::Assets(e)),
        },
    }
}

/// The outcome fits `ops`: a failure names one of them.
pub open spec fn outcome_fits<R, E>(ops: Seq<AssetOp<R>>, outcome: RunOutcome<E>) -> bool {
    outcome matches Err((i, _)) ==> i < ops.len()
}

/// Turns the outcome of running `ops` into the call's result.
pub fn run_result<R, E>(ops: &Vec<AssetOp<R>>, outcome: RunOutcome<E>) -> (r: Result<(), CallError<E>>)
    requires
        outcome_fits(ops@, outcome),
    ensures
        r == outcome_result(ops@, outcome),
{
    match outcome {
        Ok(()) => Ok(()),
        Err((i, e)) => match &ops[i] {
            AssetOp::Release { .. } => Err(CallError::Payments(Error::ReleaseFailed)),
            AssetOp::Transfer { .. } => Err(CallError::Payments(Error::TransferFailed)),
            _ => Err(CallError::Assets(e)),
        },
    }
}

} // verus!
