use kreivo::weights::{RuntimeDbWeight, Weight, WeightInfo};

#[test]
fn set_weight() {
    let db = RuntimeDbWeight { read: 25_000_000, write: 100_000_000 };
    let w = WeightInfo::<()>::set(db);
    assert_eq!(w.ref_time(), 27_661_000 + 2 * 25_000_000 + 100_000_000);
    assert_eq!(w.proof_size(), 1493);
}

#[test]
fn set_weight_saturates() {
    let db = RuntimeDbWeight { read: u64::MAX / 2, write: 5 };
    let w = WeightInfo::<()>::set(db);
    assert_eq!(w.ref_time(), u64::MAX);
    assert_eq!(w.proof_size(), 1493);
}

#[test]
fn on_finalize_weight() {
    let w = WeightInfo::<()>::on_finalize();
    assert_eq!(w, Weight::from_parts(12_835_000, 0));
}

#[test]
fn weight_arithmetic() {
    let a = Weight::from_parts(u64::MAX - 1, 7);
    let b = Weight::from_parts(5, 3);
    assert_eq!(a.saturating_add(b), Weight::from_parts(u64::MAX, 10));
    let db = RuntimeDbWeight { read: 3, write: 4 };
    assert_eq!(db.reads(5), Weight::from_parts(15, 0));
    assert_eq!(db.writes(5), Weight::from_parts(20, 0));
}
