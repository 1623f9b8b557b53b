use pallet_dex::pallet::Pallet;
use pallet_dex::types::Error;

const ALICE: u64 = 0;
const BOB: u64 = 1;
const POOL_ACCOUNT: u64 = 100;
const FEE_ACCOUNT: u64 = 101;

const BTC: u8 = 0;
const USD: u8 = 3;

fn new_test_ext() -> Pallet {
    let mut p = Pallet::new(1, 1_000, POOL_ACCOUNT, FEE_ACCOUNT);
    p.set_balance(BTC, ALICE, 1_000_000);
    p.set_balance(USD, ALICE, 1_000_000);
    p.set_balance(BTC, BOB, 1_000_000);
    p
}

#[test]
fn withdraw_liquidity_no_market() {
    let mut p = new_test_ext();
    let market = (BTC, USD);
    assert_eq!(p.withdraw_liquidity(ALICE, market, 100, 100), Err(Error::MarketDoesNotExist));
}

#[test]
fn withdraw_liquidity_not_enough_balance() {
    let mut p = new_test_ext();
    let base_asset = BTC;
    let quote_asset = USD;
    let market = (base_asset, quote_asset);

    assert!(p.create_market_pool(ALICE, base_asset, quote_asset, 100, 100).is_ok());

    // This will obviously not work as BOB has not yet deposited anything
    // into the pool.
    assert_eq!(p.withdraw_liquidity(BOB, market, 100, 100), Err(Error::NotEnoughBalance));
}

#[test]
fn withdraw_liquidity() {
    let mut p = new_test_ext();
    let base_asset = BTC;
    let quote_asset = USD;
    let market = (base_asset, quote_asset);

    assert!(p.create_market_pool(ALICE, base_asset, quote_asset, 100_000, 100_000).is_ok());

    assert!(p.withdraw_liquidity(ALICE, market, 50_000, 50_000).is_ok());

    // Check balances.
    assert_eq!(p.balance(base_asset, ALICE), 950_000);
    assert_eq!(p.balance(quote_asset, ALICE), 950_000);

    // Check the liquidity-provision record.
    assert_eq!(p.liq_provision_pool(market, ALICE), (50_000, 50_000));
}
