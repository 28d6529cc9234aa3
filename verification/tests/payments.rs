use kreivo::payments::fees::{fees_fit_in_balance, get_fees_details_per_role};
use kreivo::payments::ledger::reversal_ops;
use kreivo::payments::pallet::{
    build_payment, cancel_payment, reserve_payment_amount, settle_payment_ops, Pallet,
};
use kreivo::payments::types::{
    AssetOp, CallError, Error, Event, Fees, PaymentState, Preservation, RunOutcome,
};

const ALICE: u64 = 1;
const BOB: u64 = 2;
const CHARLIE: u64 = 3;
const DAVE: u64 = 4;
const ASSET: u32 = 9;
const REASON: u8 = 5;

fn fees() -> Fees {
    Fees { sender_pays: vec![(DAVE, 3), (CHARLIE, 2), (DAVE, 1)], beneficiary_pays: vec![(CHARLIE, 4)] }
}

fn no_fees() -> Fees {
    Fees { sender_pays: vec![], beneficiary_pays: vec![] }
}

fn ok() -> RunOutcome<&'static str> {
    Ok(())
}

fn paid() -> Pallet {
    let mut p = Pallet::new(64, 10);
    let r = p.pay(ALICE, BOB, ASSET, 1000, None, REASON, 10, fees(), CHARLIE, ok());
    assert!(r.is_ok());
    p
}

#[test]
fn fees_per_role_aggregates_sorted() {
    let (per, total) = get_fees_details_per_role(&vec![(7, 5), (3, 1), (7, 2), (5, 0), (3, 4)]).unwrap();
    assert_eq!(per, vec![(3, 5), (5, 0), (7, 7)]);
    assert_eq!(total, 12);
}

#[test]
fn fees_per_role_empty() {
    let (per, total) = get_fees_details_per_role(&vec![]).unwrap();
    assert!(per.is_empty());
    assert_eq!(total, 0);
}

#[test]
fn fees_per_role_total_saturates() {
    let (per, total) = get_fees_details_per_role(&vec![(1, u128::MAX), (2, 5)]).unwrap();
    assert_eq!(per, vec![(1, u128::MAX), (2, 5)]);
    assert_eq!(total, u128::MAX);
}

#[test]
fn create_payment_incentive_rounds_down() {
    let mut p = Pallet::new(64, 10);
    let d = p.create_payment(ALICE, BOB, ASSET, 999, PaymentState::Created, 10, no_fees(), CHARLIE).unwrap();
    assert_eq!(d.incentive_amount, 99);
    assert_eq!(d.amount, 999);
    assert_eq!(d.asset, ASSET);
    assert_eq!(d.resolver_account, CHARLIE);
    assert_eq!(d.state, PaymentState::Created);
    let d = p.create_payment(BOB, ALICE, ASSET, u128::MAX, PaymentState::Created, 100, no_fees(), CHARLIE).unwrap();
    assert_eq!(d.incentive_amount, u128::MAX);
    let d = p.create_payment(CHARLIE, BOB, ASSET, 1000, PaymentState::Created, 0, no_fees(), CHARLIE).unwrap();
    assert_eq!(d.incentive_amount, 0);
}

#[test]
fn create_payment_stores_payment() {
    let mut p = Pallet::new(64, 10);
    assert!(p.payment(ALICE, BOB).is_none());
    let d = p.create_payment(ALICE, BOB, ASSET, 500, PaymentState::Created, 10, fees(), CHARLIE).unwrap();
    let stored = p.payment(ALICE, BOB).unwrap();
    assert_eq!(stored.amount, d.amount);
    assert_eq!(stored.incentive_amount, 50);
    assert_eq!(stored.fees_details.sender_pays, fees().sender_pays);
    assert_eq!(
        p.create_payment(ALICE, BOB, ASSET, 7, PaymentState::Created, 10, no_fees(), CHARLIE).err(),
        Some(Error::PaymentAlreadyInProcess)
    );
    assert_eq!(p.payment(ALICE, BOB).unwrap().amount, 500);
}

#[test]
fn create_payment_replaces_request() {
    let mut p = Pallet::new(64, 10);
    p.create_payment(ALICE, BOB, ASSET, 5, PaymentState::PaymentRequested, 0, no_fees(), CHARLIE).unwrap();
    let d = p.create_payment(ALICE, BOB, ASSET, 6, PaymentState::Created, 0, no_fees(), CHARLIE).unwrap();
    assert_eq!(d.amount, 6);
    assert_eq!(p.payment(ALICE, BOB).unwrap().state, PaymentState::Created);
}

#[test]
fn reserve_operations() {
    let mut p = Pallet::new(64, 10);
    let d = p.create_payment(ALICE, BOB, ASSET, 1000, PaymentState::Created, 10, fees(), CHARLIE).unwrap();
    let ops = reserve_payment_amount(ALICE, BOB, &d, REASON);
    assert_eq!(
        ops,
        vec![
            AssetOp::Hold { asset: ASSET, reason: REASON, who: ALICE, amount: 106 },
            AssetOp::TransferAndHold { asset: ASSET, reason: REASON, source: ALICE, dest: BOB, amount: 1000 },
        ]
    );
}

#[test]
fn pay_stores_created_payment() {
    let p = paid();
    let d = p.payment(ALICE, BOB).unwrap();
    assert_eq!(d.state, PaymentState::Created);
    assert_eq!(d.amount, 1000);
    assert_eq!(d.incentive_amount, 100);
    assert!(p.payment(BOB, ALICE).is_none());
}

#[test]
fn pay_emits_created_event() {
    let mut p = Pallet::new(64, 10);
    let r = p.pay(ALICE, BOB, ASSET, 50, Some(b"rent".to_vec()), REASON, 10, no_fees(), CHARLIE, ok());
    assert_eq!(
        r,
        Ok(Event::PaymentCreated {
            sender: ALICE,
            beneficiary: BOB,
            asset: ASSET,
            amount: 50,
            remark: Some(b"rent".to_vec()),
        })
    );
}

#[test]
fn pay_refused_while_in_process() {
    let mut p = paid();
    let r = p.pay(ALICE, BOB, ASSET, 5, None, REASON, 10, no_fees(), CHARLIE, ok());
    assert_eq!(r, Err(CallError::Payments(Error::PaymentAlreadyInProcess)));
    assert_eq!(p.payment(ALICE, BOB).unwrap().amount, 1000);
}

#[test]
fn pay_fails_when_hold_fails() {
    let mut p = Pallet::new(64, 10);
    let r = p.pay(ALICE, BOB, ASSET, 1000, None, REASON, 10, fees(), CHARLIE, Err((0, "funds unavailable")));
    assert_eq!(r, Err(CallError::Assets("funds unavailable")));
    assert!(p.payment(ALICE, BOB).is_none());
    let r = p.pay(ALICE, BOB, ASSET, 1000, None, REASON, 10, fees(), CHARLIE, Err((1, "frozen")));
    assert_eq!(r, Err(CallError::Assets("frozen")));
    assert!(p.payment(ALICE, BOB).is_none());
}

#[test]
fn settle_operations() {
    let p = paid();
    let d = p.payment(ALICE, BOB).unwrap();
    let ops = settle_payment_ops(ALICE, BOB, d, REASON);
    assert_eq!(
        ops,
        vec![
            AssetOp::Release { asset: ASSET, reason: REASON, who: ALICE, amount: 106 },
            AssetOp::Transfer { asset: ASSET, source: ALICE, dest: CHARLIE, amount: 2, preservation: Preservation::Preserve },
            AssetOp::Transfer { asset: ASSET, source: ALICE, dest: DAVE, amount: 4, preservation: Preservation::Preserve },
            AssetOp::Release { asset: ASSET, reason: REASON, who: BOB, amount: 1000 },
            AssetOp::Transfer { asset: ASSET, source: BOB, dest: CHARLIE, amount: 4, preservation: Preservation::Preserve },
        ]
    );
}

#[test]
fn release_removes_payment() {
    let mut p = paid();
    let r = p.release(ALICE, BOB, REASON, ok());
    assert_eq!(r, Ok(Event::PaymentReleased { sender: ALICE, beneficiary: BOB }));
    assert!(p.payment(ALICE, BOB).is_none());
}

#[test]
fn release_twice_finds_no_payment() {
    let mut p = paid();
    assert!(p.release(ALICE, BOB, REASON, ok()).is_ok());
    assert_eq!(p.release(ALICE, BOB, REASON, ok()), Err(CallError::Payments(Error::InvalidPayment)));
}

#[test]
fn pay_again_after_release() {
    let mut p = paid();
    assert!(p.release(ALICE, BOB, REASON, ok()).is_ok());
    assert!(p.pay(ALICE, BOB, ASSET, 20, None, REASON, 10, no_fees(), CHARLIE, ok()).is_ok());
    assert_eq!(p.payment(ALICE, BOB).unwrap().amount, 20);
}

#[test]
fn release_refused_when_not_created() {
    let mut p = Pallet::new(64, 10);
    p.create_payment(ALICE, BOB, ASSET, 5, PaymentState::NeedsReview, 0, no_fees(), CHARLIE).unwrap();
    assert_eq!(p.release(ALICE, BOB, REASON, ok()), Err(CallError::Payments(Error::InvalidAction)));
    assert_eq!(p.payment(ALICE, BOB).unwrap().state, PaymentState::NeedsReview);
}

#[test]
fn release_without_payment() {
    let mut p = Pallet::new(64, 10);
    assert_eq!(p.release(ALICE, BOB, REASON, ok()), Err(CallError::Payments(Error::InvalidPayment)));
}

#[test]
fn release_failures_keep_payment() {
    let mut p = paid();
    assert_eq!(p.release(ALICE, BOB, REASON, Err((0, "x"))), Err(CallError::Payments(Error::ReleaseFailed)));
    assert_eq!(p.release(ALICE, BOB, REASON, Err((2, "x"))), Err(CallError::Payments(Error::TransferFailed)));
    assert_eq!(p.release(ALICE, BOB, REASON, Err((3, "x"))), Err(CallError::Payments(Error::ReleaseFailed)));
    assert_eq!(p.release(ALICE, BOB, REASON, Err((4, "x"))), Err(CallError::Payments(Error::TransferFailed)));
    assert_eq!(p.payment(ALICE, BOB).unwrap().state, PaymentState::Created);
}

#[test]
fn cancel_operations() {
    let p = paid();
    let d = p.payment(ALICE, BOB).unwrap();
    assert_eq!(
        cancel_payment(ALICE, BOB, d, REASON),
        vec![
            AssetOp::Release { asset: ASSET, reason: REASON, who: ALICE, amount: 106 },
            AssetOp::Release { asset: ASSET, reason: REASON, who: BOB, amount: 1000 },
            AssetOp::Transfer { asset: ASSET, source: BOB, dest: ALICE, amount: 1000, preservation: Preservation::Expendable },
        ]
    );
}

#[test]
fn cancel_removes_payment() {
    let mut p = paid();
    let r = p.cancel(ALICE, BOB, REASON, ok());
    assert_eq!(r, Ok(Some(Event::PaymentCancelled { sender: ALICE, beneficiary: BOB })));
    assert!(p.payment(ALICE, BOB).is_none());
    let r = p.pay(ALICE, BOB, ASSET, 10, None, REASON, 10, no_fees(), CHARLIE, ok());
    assert!(r.is_ok());
}

#[test]
fn cancel_without_payment_does_nothing() {
    let mut p = Pallet::new(64, 10);
    assert_eq!(p.cancel(ALICE, BOB, REASON, ok()), Ok(None));
    assert!(p.payment(ALICE, BOB).is_none());
}

#[test]
fn cancel_refused_when_not_created() {
    let mut p = Pallet::new(64, 10);
    p.create_payment(ALICE, BOB, ASSET, 5, PaymentState::RefundRequested { cancel_block: 9 }, 0, no_fees(), CHARLIE)
        .unwrap();
    assert_eq!(p.cancel(ALICE, BOB, REASON, ok()), Err(CallError::Payments(Error::InvalidAction)));
    assert!(p.payment(ALICE, BOB).is_some());
}

#[test]
fn cancel_after_release_does_nothing() {
    let mut p = paid();
    assert!(p.release(ALICE, BOB, REASON, ok()).is_ok());
    assert_eq!(p.cancel(ALICE, BOB, REASON, ok()), Ok(None));
}

#[test]
fn failed_pay_keeps_request() {
    let mut p = Pallet::new(64, 10);
    p.create_payment(ALICE, BOB, ASSET, 5, PaymentState::PaymentRequested, 0, no_fees(), CHARLIE).unwrap();
    let r = p.pay(ALICE, BOB, ASSET, 1000, None, REASON, 10, fees(), CHARLIE, Err((1, "frozen")));
    assert_eq!(r, Err(CallError::Assets("frozen")));
    let d = p.payment(ALICE, BOB).unwrap();
    assert_eq!(d.state, PaymentState::PaymentRequested);
    assert_eq!(d.amount, 5);
    assert!(p.pay(ALICE, BOB, ASSET, 1000, None, REASON, 10, fees(), CHARLIE, ok()).is_ok());
    assert_eq!(p.payment(ALICE, BOB).unwrap().state, PaymentState::Created);
}

#[test]
fn fees_fit_check() {
    assert!(fees_fit_in_balance(&vec![(1, u128::MAX), (2, 5)]));
    assert!(!fees_fit_in_balance(&vec![(1, u128::MAX), (2, 5), (1, 1)]));
    assert!(fees_fit_in_balance(&vec![]));
}

#[test]
fn fee_order_does_not_matter() {
    let a = get_fees_details_per_role(&vec![(7, 5), (3, 1), (7, 2)]).unwrap();
    let b = get_fees_details_per_role(&vec![(3, 1), (7, 2), (7, 5)]).unwrap();
    assert_eq!(a, b);
}

#[test]
fn cancel_failures_keep_payment() {
    let mut p = paid();
    assert_eq!(p.cancel(ALICE, BOB, REASON, Err((1, "x"))), Err(CallError::Payments(Error::ReleaseFailed)));
    assert_eq!(p.cancel(ALICE, BOB, REASON, Err((2, "x"))), Err(CallError::Payments(Error::TransferFailed)));
    assert_eq!(p.payment(ALICE, BOB).unwrap().state, PaymentState::Created);
}

#[test]
fn cancel_undoes_reserve_amounts() {
    let p = paid();
    let d = p.payment(ALICE, BOB).unwrap();
    let reserve = reserve_payment_amount(ALICE, BOB, d, REASON);
    let cancel = cancel_payment(ALICE, BOB, d, REASON);
    match (&reserve[0], &cancel[0]) {
        (AssetOp::Hold { who: a, amount: x, .. }, AssetOp::Release { who: b, amount: y, .. }) => {
            assert_eq!((a, x), (b, y));
        }
        _ => panic!("unexpected operations"),
    }
    match (&reserve[1], &cancel[1], &cancel[2]) {
        (
            AssetOp::TransferAndHold { source, dest, amount, .. },
            AssetOp::Release { who, amount: released, .. },
            AssetOp::Transfer { source: back_from, dest: back_to, amount: back, .. },
        ) => {
            assert_eq!(dest, who);
            assert_eq!(amount, released);
            assert_eq!((back_from, back_to, back), (dest, source, amount));
        }
        _ => panic!("unexpected operations"),
    }
}

#[test]
fn settle_transfers_sum_to_fees() {
    let p = paid();
    let d = p.payment(ALICE, BOB).unwrap();
    let ops = settle_payment_ops(ALICE, BOB, d, REASON);
    let from_alice: u128 = ops
        .iter()
        .map(|op| match op {
            AssetOp::Transfer { source, amount, .. } if *source == ALICE => *amount,
            _ => 0,
        })
        .sum();
    assert_eq!(from_alice, 6);
}

#[test]
fn one_payment_per_pair() {
    let mut p = paid();
    assert!(p.pay(BOB, ALICE, ASSET, 7, None, REASON, 0, no_fees(), CHARLIE, ok()).is_ok());
    assert_eq!(p.payment(ALICE, BOB).unwrap().amount, 1000);
    assert_eq!(p.payment(BOB, ALICE).unwrap().amount, 7);
}

#[test]
fn fees_per_role_wrap_per_account() {
    let (per, total) = get_fees_details_per_role(&vec![(1, u128::MAX), (1, 2), (4, 3)]).unwrap();
    assert_eq!(per, vec![(1, 1), (4, 3)]);
    assert_eq!(total, u128::MAX);
}

#[test]
fn build_payment_stores_nothing() {
    let p = Pallet::new(64, 10);
    let d = build_payment(ASSET, 1000, PaymentState::Created, 10, fees(), CHARLIE);
    assert_eq!(d.incentive_amount, 100);
    assert!(p.payment(ALICE, BOB).is_none());
    let ops = reserve_payment_amount(ALICE, BOB, &d, REASON);
    assert_eq!(ops[0], AssetOp::Hold { asset: ASSET, reason: REASON, who: ALICE, amount: 106 });
}

#[test]
fn reversal_of_reserve() {
    let d = build_payment(ASSET, 1000, PaymentState::Created, 10, fees(), CHARLIE);
    let ops = reserve_payment_amount(ALICE, BOB, &d, REASON);
    assert_eq!(reversal_ops(&ops, 0), vec![]);
    assert_eq!(
        reversal_ops(&ops, 1),
        vec![AssetOp::Release { asset: ASSET, reason: REASON, who: ALICE, amount: 106 }]
    );
    assert_eq!(
        reversal_ops(&ops, 2),
        vec![
            AssetOp::Release { asset: ASSET, reason: REASON, who: BOB, amount: 1000 },
            AssetOp::Transfer { asset: ASSET, source: BOB, dest: ALICE, amount: 1000, preservation: Preservation::Expendable },
            AssetOp::Release { asset: ASSET, reason: REASON, who: ALICE, amount: 106 },
        ]
    );
}

#[test]
fn reversal_of_settle_prefix() {
    let p = paid();
    let d = p.payment(ALICE, BOB).unwrap();
    let ops = settle_payment_ops(ALICE, BOB, d, REASON);
    assert_eq!(
        reversal_ops(&ops, 2),
        vec![
            AssetOp::Transfer { asset: ASSET, source: CHARLIE, dest: ALICE, amount: 2, preservation: Preservation::Expendable },
            AssetOp::Hold { asset: ASSET, reason: REASON, who: ALICE, amount: 106 },
        ]
    );
}
