use pallet_dex::pallet::Pallet;
use pallet_dex::types::{Error, MarketInfo};

const ALICE: u64 = 0;
const POOL_ACCOUNT: u64 = 100;
const FEE_ACCOUNT: u64 = 101;

const BTC: u8 = 0;
const XMR: u8 = 1;
const USD: u8 = 3;

fn new_test_ext() -> Pallet {
    let mut p = Pallet::new(1, 1_000, POOL_ACCOUNT, FEE_ACCOUNT);
    p.set_balance(BTC, ALICE, 1_000_000);
    p.set_balance(XMR, ALICE, 1_000_000);
    p.set_balance(USD, ALICE, 1_000_000);
    p
}

#[test]
fn sell_no_pool() {
    let mut p = new_test_ext();
    let market = (BTC, USD);
    assert_eq!(p.sell(ALICE, market, 100), Err(Error::MarketDoesNotExist));
}

#[test]
fn sell_not_enough_balance() {
    let mut p = new_test_ext();
    assert!(p.create_market_pool(ALICE, BTC, XMR, 100, 100).is_ok());

    let market = (BTC, XMR);
    assert_eq!(p.sell(ALICE, market, u128::MAX), Err(Error::NotEnoughBalance));
}

#[test]
fn sell() {
    let mut p = new_test_ext();
    assert!(p.create_market_pool(ALICE, BTC, USD, 100_000, 100_000).is_ok());

    let market = (BTC, USD);
    assert!(p.sell(ALICE, market, 10_000).is_ok());

    assert_eq!(
        p.liquidity_pool(market).unwrap(),
        MarketInfo {
            base_balance: 109_990,
            quote_balance: 90_917,
            collected_base_fees: 10,
            collected_quote_fees: 0,
        }
    );

    // Check balance changes. Notice that the liquidity that ALICE has
    // locked is also not here anymore.
    assert_eq!(p.balance(BTC, ALICE), 890_000);
    assert_eq!(p.balance(USD, ALICE), 909_083);

    // Check pool_account balances.
    let pool_account = p.pool_account();
    assert_eq!(p.balance(BTC, pool_account), 109_990);
    assert_eq!(p.balance(USD, pool_account), 90_917);

    // Check pool_fee_account balances.
    let pool_fee_account = p.pool_fee_account();
    assert_eq!(p.balance(BTC, pool_fee_account), 10);
    assert_eq!(p.balance(USD, pool_fee_account), 0);
}
