//! Weights of the timestamp pallet on the Kreivo runtime, and the weight
//! arithmetic they use.

use vstd::prelude::*;

verus! {

/// `x`, saturating at the largest `u64`.
pub open spec fn saturate_u64(x: int) -> u64 {
    if x > u64::MAX {
        u64::MAX
    } else {
        x as u64
    }
}

/// An amount of computation time and of proof size.
#[derive(Debug, PartialEq, Eq, Structural, Clone, Copy)]
pub struct Weight {
    ref_time: u64,
    proof_size: u64,
}

impl Weight {
    pub closed spec fn spec_ref_time(self) -> u64 {
        self.ref_time
    }

    pub closed spec fn spec_proof_size(self) -> u64 {
        self.proof_size
    }

    pub fn from_parts(ref_time: u64, proof_size: u64) -> (w: Weight)
        ensures
            w.spec_ref_time() == ref_time,
            w.spec_proof_size() == proof_size,
    {
        Weight { ref_time, proof_size }
    }

    pub fn ref_time(&self) -> (r: u64)
        ensures
            r == self.spec_ref_time(),
    {
        self.ref_time
    }

    pub fn proof_size(&self) -> (r: u64)
        ensures
            r == self.spec_proof_size(),
    {
        self.proof_size
    }

    /// Adds both components, each saturating.
    pub fn saturating_add(self, rhs: Weight) -> (w: Weight)
        ensures
            w.spec_ref_time() == saturate_u64(self.spec_ref_time() + rhs.spec_ref_time()),
            w.spec_proof_size() == saturate_u64(self.spec_proof_size() + rhs.spec_proof_size()),
    {
        Weight {
            ref_time: self.ref_time.saturating_add(rhs.ref_time),
            proof_size: self.proof_size.saturating_add(rhs.proof_size),
        }
    }
}

/// The weight of one database read and of one write.
#[derive(Debug, PartialEq, Eq, Structural, Clone, Copy)]
pub struct RuntimeDbWeight {
    pub read: u64,
    pub write: u64,
}

/// `a * b`, saturating.
fn saturating_mul(a: u64, b: u64) -> (r: u64)
    ensures
        r == saturate_u64(a * b),
{
    match a.checked_mul(b) {
        Some(v) => v,
        None => u64::MAX,
    }
}

impl RuntimeDbWeight {
    /// The weight of `r` reads: their time, saturating, and no proof size.
    pub fn reads(self, r: u64) -> (w: Weight)
        ensures
            w.spec_ref_time() == saturate_u64(self.read * r),
            w.spec_proof_size() == 0,
    {
        Weight::from_parts(saturating_mul(self.read, r), 0)
    }

    /// The weight of `w` writes: their time, saturating, and no proof size.
    pub fn writes(self, w: u64) -> (r: Weight)
        ensures
            r.spec_ref_time() == saturate_u64(self.write * w),
            r.spec_proof_size() == 0,
    {
        Weight::from_parts(saturating_mul(self.write, w), 0)
    }
}

/// Weight functions for the timestamp pallet.
pub struct WeightInfo<T>(pub core::marker::PhantomData<T>);

impl<T> WeightInfo<T> {
    /// Setting the timestamp: a base time and proof size, two reads and one
    /// write of the database weight `db`.
    pub fn set(db: RuntimeDbWeight) -> (w: Weight)
        ensures
            w.spec_ref_time() == saturate_u64(27_661_000 + 2 * db.read + db.write),
            w.spec_proof_size() == 1493,
    {
        Weight::from_parts(27_661_000, 0).saturating_add(Weight::from_parts(0, 1493)).saturating_add(
            db.reads(2),
        ).saturating_add(db.writes(1))
    }

    /// Finalizing the timestamp: a base time.
    pub fn on_finalize() -> (w: Weight)
        ensures
            w.spec_ref_time() == 12_835_000,
            w.spec_proof_size() == 0,
    {
        Weight::from_parts(12_835_000, 0).saturating_add(Weight::from_parts(0, 0))
    }
}

} // verus!
