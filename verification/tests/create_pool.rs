use pallet_dex::pallet::Pallet;
use pallet_dex::types::MarketInfo;

const ALICE: u64 = 0;
const EMPTY_ACCOUNT: u64 = 3;
const POOL_ACCOUNT: u64 = 100;
const FEE_ACCOUNT: u64 = 101;

const BTC: u8 = 0;
const XMR: u8 = 1;
const USD: u8 = 3;

fn new_test_ext() -> Pallet {
    let mut p = Pallet::new(1, 1_000, POOL_ACCOUNT, FEE_ACCOUNT);
    p.set_balance(BTC, ALICE, 1_000_000);
    p.set_balance(XMR, ALICE, 1_000_000);
    p.set_balance(USD, ALICE, 1_000_000);
    p
}

#[test]
fn create_pool_create_market_pool_failing() {
    let mut p = new_test_ext();
    let ret = p.create_market_pool(EMPTY_ACCOUNT, BTC, XMR, 100, 100);
    assert!(ret.is_err());
}

#[test]
fn create_pool_create_market_pool() {
    let mut p = new_test_ext();
    let base_asset = BTC;
    let quote_asset = USD;
    let market = (base_asset, quote_asset);

    assert!(p.create_market_pool(ALICE, base_asset, quote_asset, 100, 100).is_ok());

    // Check pool registry changes.
    assert_eq!(
        p.liquidity_pool(market).unwrap(),
        MarketInfo {
            base_balance: 100,
            quote_balance: 100,
            collected_base_fees: 0,
            collected_quote_fees: 0,
        }
    );

    // Check liquidity-provision changes.
    assert_eq!(p.liq_provision_pool(market, ALICE), (100, 100));
}
