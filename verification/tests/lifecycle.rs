use pallet_dex::pallet::Pallet;
use pallet_dex::types::{Error, Event, MarketInfo};

const ALICE: u64 = 0;
const POOL_ACCOUNT: u64 = 100;
const FEE_ACCOUNT: u64 = 101;

const BTC: u8 = 0;
const USD: u8 = 3;

fn new_test_ext() -> Pallet {
    let mut p = Pallet::new(1, 1_000, POOL_ACCOUNT, FEE_ACCOUNT);
    p.set_balance(BTC, ALICE, 1_000_000);
    p.set_balance(USD, ALICE, 1_000_000);
    p
}

#[test]
fn create_market_pool_twice_fails_and_changes_nothing() {
    let mut p = new_test_ext();
    let market = (BTC, USD);
    assert!(p.create_market_pool(ALICE, BTC, USD, 100, 100).is_ok());

    let pool_before = p.liquidity_pool(market).unwrap();
    let position_before = p.liq_provision_pool(market, ALICE);
    let base_before = p.balance(BTC, ALICE);
    let quote_before = p.balance(USD, ALICE);

    assert_eq!(p.create_market_pool(ALICE, BTC, USD, 5, 5), Err(Error::MarketExists));

    assert_eq!(p.liquidity_pool(market).unwrap(), pool_before);
    assert_eq!(p.liq_provision_pool(market, ALICE), position_before);
    assert_eq!(p.balance(BTC, ALICE), base_before);
    assert_eq!(p.balance(USD, ALICE), quote_before);
}

#[test]
fn buy_exceeding_balance_mutates_nothing() {
    let mut p = new_test_ext();
    let market = (BTC, USD);
    assert!(p.create_market_pool(ALICE, BTC, USD, 100, 100).is_ok());

    let pool_before = p.liquidity_pool(market).unwrap();
    let base_before = p.balance(BTC, ALICE);
    let quote_before = p.balance(USD, ALICE);
    let custody_quote_before = p.balance(USD, p.pool_account());

    assert_eq!(p.buy(ALICE, market, u128::MAX), Err(Error::NotEnoughBalance));

    assert_eq!(p.liquidity_pool(market).unwrap(), pool_before);
    assert_eq!(p.balance(BTC, ALICE), base_before);
    assert_eq!(p.balance(USD, ALICE), quote_before);
    assert_eq!(p.balance(USD, p.pool_account()), custody_quote_before);
}

#[test]
fn deposit_then_withdraw_restores_position() {
    let mut p = new_test_ext();
    let market = (BTC, USD);
    assert!(p.create_market_pool(ALICE, BTC, USD, 100_000, 100_000).is_ok());

    let position_before = p.liq_provision_pool(market, ALICE);
    let pool_before = p.liquidity_pool(market).unwrap();
    let base_before = p.balance(BTC, ALICE);
    let quote_before = p.balance(USD, ALICE);

    assert!(p.deposit_liquidity(ALICE, market, 1_234, 567).is_ok());
    assert!(p.withdraw_liquidity(ALICE, market, 1_234, 567).is_ok());

    assert_eq!(p.liq_provision_pool(market, ALICE), position_before);
    assert_eq!(p.liquidity_pool(market).unwrap(), pool_before);
    assert_eq!(p.balance(BTC, ALICE), base_before);
    assert_eq!(p.balance(USD, ALICE), quote_before);
}

#[test]
fn trade_product_loss_is_bounded() {
    let mut p = new_test_ext();
    let market = (BTC, USD);
    assert!(p.create_market_pool(ALICE, BTC, USD, 100_000, 100_000).is_ok());

    let before = p.liquidity_pool(market).unwrap();
    let product_before = before.base_balance * before.quote_balance;

    assert!(p.buy(ALICE, market, 10_000).is_ok());

    let after = p.liquidity_pool(market).unwrap();
    let product_after = after.base_balance * after.quote_balance;

    // The product never grows, and the rounding loss stays below the grown
    // in-side reserve.
    assert!(product_after <= product_before);
    assert!(product_before - product_after < after.quote_balance);
}

#[test]
fn trade_preserves_product_when_divisible() {
    let mut p = new_test_ext();
    let market = (BTC, USD);
    // Reserves 110 and 100: a buy of 10 (fee 0) grows the quote reserve to
    // 110, which divides the product 11,000 exactly.
    assert!(p.create_market_pool(ALICE, BTC, USD, 110, 100).is_ok());

    assert!(p.buy(ALICE, market, 10).is_ok());

    let after = p.liquidity_pool(market).unwrap();
    assert_eq!(after.base_balance, 100);
    assert_eq!(after.quote_balance, 110);
    assert_eq!(after.base_balance * after.quote_balance, 11_000);
}

#[test]
fn withdraw_from_drained_custody_fails_with_transfer() {
    let mut p = new_test_ext();
    let market = (BTC, USD);
    assert!(p.create_market_pool(ALICE, BTC, USD, 100, 100).is_ok());

    // The custody account loses its base holdings behind the pool's back.
    p.set_balance(BTC, POOL_ACCOUNT, 0);

    let position_before = p.liq_provision_pool(market, ALICE);
    assert_eq!(p.withdraw_liquidity(ALICE, market, 100, 100), Err(Error::Transfer));
    assert_eq!(p.liq_provision_pool(market, ALICE), position_before);
}

#[test]
fn current_price_is_reserve_ratio() {
    let mut p = new_test_ext();
    let market = (BTC, USD);
    assert_eq!(p.current_price(market), Err(Error::MarketDoesNotExist));

    assert!(p.create_market_pool(ALICE, BTC, USD, 50, 200).is_ok());
    assert_eq!(p.current_price(market), Ok((200, 50)));
}

#[test]
fn events_record_operations() {
    let mut p = new_test_ext();
    let market = (BTC, USD);
    assert!(p.create_market_pool(ALICE, BTC, USD, 100_000, 100_000).is_ok());
    assert!(p.buy(ALICE, market, 10_000).is_ok());

    let events = p.events();
    assert_eq!(events.len(), 2);
    assert_eq!(events[0], Event::PoolCreated(ALICE, BTC, USD, 100_000, 100_000));
    assert_eq!(events[1], Event::Bought(ALICE, BTC, USD, 10_000, 9_083));
}

#[test]
fn pool_record_matches_scenario() {
    let mut p = new_test_ext();
    let market = (BTC, USD);
    assert!(p.create_market_pool(ALICE, BTC, USD, 100_000, 100_000).is_ok());
    assert!(p.buy(ALICE, market, 10_000).is_ok());
    assert_eq!(
        p.liquidity_pool(market),
        Some(MarketInfo {
            base_balance: 90_917,
            quote_balance: 109_990,
            collected_base_fees: 0,
            collected_quote_fees: 10,
        })
    );
}
