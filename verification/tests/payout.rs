use pallet_dex::pallet::Pallet;
use pallet_dex::types::{Error, MarketInfo};

const ALICE: u64 = 0;
const BOB: u64 = 1;
const POOL_ACCOUNT: u64 = 100;
const FEE_ACCOUNT: u64 = 101;

const BTC: u8 = 0;
const USD: u8 = 3;

fn new_test_ext() -> Pallet {
    let mut p = Pallet::new(1, 1_000, POOL_ACCOUNT, FEE_ACCOUNT);
    p.set_balance(BTC, ALICE, 1_000_000);
    p.set_balance(USD, ALICE, 1_000_000);
    p.set_balance(BTC, BOB, 1_000_000);
    p.set_balance(USD, BOB, 1_000_000);
    p
}

/// A market maker with a heavy taker fee, so that a payout can exceed what
/// the fee account holds.
fn new_heavy_fee_ext() -> Pallet {
    let mut p = Pallet::new(500, 1_000, POOL_ACCOUNT, FEE_ACCOUNT);
    p.set_balance(BTC, ALICE, 1_000_000);
    p.set_balance(USD, ALICE, 1_000_000);
    p
}

#[test]
fn payout_resets_collected_fees() {
    let mut p = new_test_ext();
    let market = (BTC, USD);
    assert!(p.create_market_pool(ALICE, BTC, USD, 100_000, 100_000).is_ok());
    assert!(p.buy(ALICE, market, 10_000).is_ok());
    assert_eq!(p.liquidity_pool(market).unwrap().collected_quote_fees, 10);

    assert!(p.do_liquidity_provider_payout().is_ok());

    let info = p.liquidity_pool(market).unwrap();
    assert_eq!(info.collected_base_fees, 0);
    assert_eq!(info.collected_quote_fees, 0);
    // Reserves are untouched by a payout.
    assert_eq!(info.base_balance, 90_917);
    assert_eq!(info.quote_balance, 109_990);
    // The sole provider got floor(10 * 100,000 / 109,990) == 9; the rounding
    // remainder stays in the fee account.
    assert_eq!(p.balance(USD, ALICE), 890_009);
    assert_eq!(p.balance(USD, FEE_ACCOUNT), 1);
}

#[test]
fn payout_pays_providers_by_contribution() {
    let mut p = new_test_ext();
    let market = (BTC, USD);
    // ALICE and BOB provide liquidity 2:1.
    assert!(p.create_market_pool(ALICE, BTC, USD, 100_000, 100_000).is_ok());
    assert!(p.deposit_liquidity(BOB, market, 50_000, 50_000).is_ok());
    assert!(p.buy(ALICE, market, 10_000).is_ok());
    assert_eq!(
        p.liquidity_pool(market).unwrap(),
        MarketInfo {
            base_balance: 140_633,
            quote_balance: 159_990,
            collected_base_fees: 0,
            collected_quote_fees: 10,
        }
    );

    assert!(p.do_liquidity_provider_payout().is_ok());

    // Proportional shares of the 10 collected quote fees:
    // ALICE floor(10 * 100,000 / 159,990) == 6, BOB floor(10 * 50,000 /
    // 159,990) == 3, and the rounding remainder 1 stays in the fee account.
    assert_eq!(p.balance(USD, ALICE), 890_006);
    assert_eq!(p.balance(USD, BOB), 950_003);
    assert_eq!(p.balance(USD, FEE_ACCOUNT), 1);
    assert_eq!(p.liquidity_pool(market).unwrap().collected_quote_fees, 0);
}

#[test]
fn payout_exceeding_fee_account_fails_with_transfer() {
    let mut p = new_heavy_fee_ext();
    let market = (BTC, USD);
    assert!(p.create_market_pool(ALICE, BTC, USD, 100, 100).is_ok());
    // A buy and a sell of 100 each, at a fee rate of 500/1000, collect 50
    // of each asset and move the reserves to (116, 85).
    assert!(p.buy(ALICE, market, 100).is_ok());
    assert!(p.sell(ALICE, market, 100).is_ok());
    assert_eq!(
        p.liquidity_pool(market).unwrap(),
        MarketInfo {
            base_balance: 116,
            quote_balance: 85,
            collected_base_fees: 50,
            collected_quote_fees: 50,
        }
    );
    assert_eq!(p.balance(USD, FEE_ACCOUNT), 50);
    assert_eq!(p.balance(BTC, ALICE), 999_834);

    // ALICE's quote share floor(50 * 100 / 85) == 58 exceeds the 50 the fee
    // account holds, so the run fails — and the base-side payout of
    // floor(50 * 100 / 116) == 43 that preceded it is rolled back with it.
    assert_eq!(p.do_liquidity_provider_payout(), Err(Error::Transfer));
    assert_eq!(p.balance(BTC, ALICE), 999_834);
    assert_eq!(p.balance(BTC, FEE_ACCOUNT), 50);
    assert_eq!(p.liquidity_pool(market).unwrap().collected_base_fees, 50);
    assert_eq!(p.liquidity_pool(market).unwrap().collected_quote_fees, 50);
}

#[test]
fn payout_on_drained_reserve_fails_and_keeps_fees() {
    let mut p = new_test_ext();
    let market = (BTC, USD);
    assert!(p.create_market_pool(ALICE, BTC, USD, 100, 100).is_ok());
    // This buy drains the base reserve to zero while collecting a fee.
    assert!(p.buy(ALICE, market, 10_000).is_ok());
    let info = p.liquidity_pool(market).unwrap();
    assert_eq!(info.base_balance, 0);
    assert_eq!(info.collected_quote_fees, 10);

    // The payout share divides by the zero reserve: the run fails and no
    // fees are dropped.
    assert_eq!(p.do_liquidity_provider_payout(), Err(Error::Arithmetic));
    assert_eq!(p.liquidity_pool(market).unwrap(), info);
    assert_eq!(p.balance(USD, FEE_ACCOUNT), 10);
}

#[test]
fn offchain_worker_runs_payout_every_tenth_block() {
    let mut p = new_test_ext();
    let market = (BTC, USD);
    assert!(p.create_market_pool(ALICE, BTC, USD, 100_000, 100_000).is_ok());
    assert!(p.buy(ALICE, market, 10_000).is_ok());

    p.offchain_worker(7);
    assert_eq!(p.liquidity_pool(market).unwrap().collected_quote_fees, 10);

    p.offchain_worker(20);
    assert_eq!(p.liquidity_pool(market).unwrap().collected_quote_fees, 0);
}

#[test]
fn payout_skips_markets_without_fees() {
    let mut p = new_test_ext();
    let market = (BTC, USD);
    assert!(p.create_market_pool(ALICE, BTC, USD, 100, 100).is_ok());
    let before = p.balance(BTC, ALICE);

    assert!(p.do_liquidity_provider_payout().is_ok());

    assert_eq!(p.balance(BTC, ALICE), before);
    assert_eq!(
        p.liquidity_pool(market).unwrap(),
        MarketInfo {
            base_balance: 100,
            quote_balance: 100,
            collected_base_fees: 0,
            collected_quote_fees: 0,
        }
    );
}
