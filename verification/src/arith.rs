//! Per-things from `sp_arithmetic`: the percentages and proportions that the
//! pallets use.

use vstd::prelude::*;

verus! {

/// `sp_arithmetic::Perbill`, a proportion in billionths; the vote weight of
/// community governance.
#[verifier::external_type_specification]
#[verifier::external_body]
pub struct ExPerbill(sp_arithmetic::Perbill);

/// `sp_arithmetic::Percent`, a proportion in hundredths.
#[verifier::external_type_specification]
#[verifier::external_body]
pub struct ExPercent(sp_arithmetic::Percent);

/// Calls `sp_arithmetic::Percent::mul_floor` on `Percent::from_percent(percent)`.
///
/// Trusted: for a percent of at most 100, `from_percent` keeps it as the
/// number of parts, and `mul_floor` multiplies `amount` by `percent / 100`
/// rounding down (it computes `amount / 100 * percent` plus the rounded-down
/// share of the remainder, so nothing overflows).
#[verifier::external_body]
pub(crate) fn percent_mul_floor(percent: u8, amount: u128) -> (r: u128)
    requires
        percent <= 100,
    ensures
        r == amount * percent / 100,
{
    sp_arithmetic::Percent::from_percent(percent).mul_floor(amount)
}

} // verus!
