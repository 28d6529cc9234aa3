//! The decisions of the liquidity provider pallet: which attestations it
//! accepts and how submitted pair prices replace the stored ones.

use vstd::prelude::*;

verus! {

/// An asset of the liquidity provider, with collateral kinds `C`.
#[derive(Debug, PartialEq, Eq)]
pub enum Asset<C> {
    Btc,
    Collateral(C),
    Cop,
    Usdv,
    Ves,
}

/// The errors of the liquidity provider pallet.
#[derive(Debug, PartialEq, Eq, Structural, Clone, Copy)]
pub enum Error {
    MustNotBeUsdv,
    NoFunds,
}

/// The collateral that an attestation of `asset` deposits and reserves: a
/// collateral asset is accepted, USDV is refused. Attestations of BTC, COP
/// and VES are not implemented.
pub fn attest_collateral<C>(asset: Asset<C>) -> (r: Result<C, Error>)
    requires
        asset is Collateral || asset is Usdv,
    ensures
        asset is Usdv ==> r == Err::<C, Error>(Error::MustNotBeUsdv),
        asset matches Asset::Collateral(c) ==> r == Ok::<C, Error>(c),
{
    match asset {
        Asset::Collateral(c) => Ok(c),
        _ => Err(Error::MustNotBeUsdv),
    }
}

/// Stores submitted pair prices: they replace the stored ones when they are
/// valid, else the stored ones stay.
pub fn submit_pair_prices<P>(pair_prices: &mut Vec<P>, incoming: Vec<P>, incoming_valid: bool)
    ensures
        incoming_valid ==> final(pair_prices)@ == incoming@,
        !incoming_valid ==> final(pair_prices)@ == old(pair_prices)@,
{
    if incoming_valid {
        pair_prices.clear();
        let mut incoming = incoming;
        pair_prices.append(&mut incoming);
    }
}

/// The block from which the next unsigned transaction is accepted.
pub fn next_unsigned_at(current_block: u32, interval: u32) -> (r: u32)
    requires
        current_block + interval <= u32::MAX,
    ensures
        r == current_block + interval,
{
    current_block + interval
}

} // verus!
