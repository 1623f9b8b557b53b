use pallet_dex::pallet::Pallet;

const ALICE: u64 = 0;
const EMPTY_ACCOUNT: u64 = 3;
const POOL_ACCOUNT: u64 = 100;
const FEE_ACCOUNT: u64 = 101;

const BTC: u8 = 0;
const XMR: u8 = 1;

fn new_test_ext() -> Pallet {
    let mut p = Pallet::new(1, 1_000, POOL_ACCOUNT, FEE_ACCOUNT);
    p.set_balance(BTC, ALICE, 1_000_000);
    p.set_balance(XMR, ALICE, 1_000_000);
    p
}

#[test]
fn tests_create_market_pool_failing() {
    let mut p = new_test_ext();
    let ret = p.create_market_pool(EMPTY_ACCOUNT, 0, 1, 100, 100);
    assert!(ret.is_err());
}

#[test]
fn tests_create_market_pool() {
    let mut p = new_test_ext();
    println!("assets: {}", p.balance(BTC, ALICE));
    assert!(p.create_market_pool(ALICE, 0, 1, 1_000_000, 1_000_000).is_ok());
}

#[test]
fn pallet_account() {
    let p = new_test_ext();
    let pool_account = p.pool_account();
    println!("pool_account: {:?}", pool_account);
}

#[test]
fn pallet_fee_account() {
    let p = new_test_ext();
    let pool_sub_account = p.pool_fee_account();
    println!("pool_sub_account: {:?}", pool_sub_account);
}
