use pallet_dex::pallet::Pallet;
use pallet_dex::types::Error;

const ALICE: u64 = 0;
const POOL_ACCOUNT: u64 = 100;
const FEE_ACCOUNT: u64 = 101;

const BTC: u8 = 0;
const USD: u8 = 3;

fn new_test_ext() -> Pallet {
    let mut p = Pallet::new(1, 1_000, POOL_ACCOUNT, FEE_ACCOUNT);
    p.set_balance(BTC, ALICE, 1_000_000);
    p.set_balance(USD, ALICE, 1_000_000);
    p
}

#[test]
fn deposit_liquidity_no_market() {
    let mut p = new_test_ext();
    let market = (BTC, USD);
    assert_eq!(p.deposit_liquidity(ALICE, market, 100, 100), Err(Error::MarketDoesNotExist));
}

#[test]
fn deposit_liquidity_no_enough_balance() {
    let mut p = new_test_ext();
    let market = (BTC, USD);

    assert!(p.create_market_pool(ALICE, BTC, USD, 100, 100).is_ok());

    assert_eq!(
        p.deposit_liquidity(ALICE, market, u128::MAX, u128::MAX),
        Err(Error::NotEnoughBalance)
    );
}

#[test]
fn deposit_liquidity() {
    let mut p = new_test_ext();
    let base_asset = BTC;
    let quote_asset = USD;
    let market = (base_asset, quote_asset);

    assert!(p.create_market_pool(ALICE, BTC, USD, 100_000, 100_000).is_ok());
    assert!(p.deposit_liquidity(ALICE, market, 100_000, 100_000).is_ok());

    // Check user balance changes.
    assert_eq!(p.balance(base_asset, ALICE), 800_000);
    assert_eq!(p.balance(quote_asset, ALICE), 800_000);

    // Check the liquidity-provision record.
    assert_eq!(p.liq_provision_pool(market, ALICE), (200_000, 200_000));
}
