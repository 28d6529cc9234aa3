use kreivo::liquidity_provider::{attest_collateral, next_unsigned_at, submit_pair_prices, Asset, Error};

#[test]
fn attest_refuses_usdv() {
    assert_eq!(attest_collateral::<u8>(Asset::Usdv), Err(Error::MustNotBeUsdv));
}

#[test]
fn attest_accepts_collateral() {
    assert_eq!(attest_collateral(Asset::Collateral(3u8)), Ok(3));
}

#[test]
fn pair_prices_replaced_only_when_valid() {
    let mut prices = vec![1, 2, 3];
    submit_pair_prices(&mut prices, vec![9], false);
    assert_eq!(prices, vec![1, 2, 3]);
    submit_pair_prices(&mut prices, vec![9, 8], true);
    assert_eq!(prices, vec![9, 8]);
    submit_pair_prices(&mut prices, vec![], true);
    assert!(prices.is_empty());
}

#[test]
fn next_unsigned_block() {
    assert_eq!(next_unsigned_at(100, 5), 105);
}
