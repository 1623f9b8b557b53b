use pallet_dex::pallet::Pallet;
use pallet_dex::types::{Error, OrderType};

const POOL_ACCOUNT: u64 = 100;
const FEE_ACCOUNT: u64 = 101;

fn new_test_ext() -> Pallet {
    Pallet::new(1, 1_000, POOL_ACCOUNT, FEE_ACCOUNT)
}

#[test]
fn fee_from_amount() {
    let p = new_test_ext();
    assert_eq!(p.fee_from_amount(1_000_000).unwrap(), 1_000);
}

#[test]
fn get_received_amount() {
    let p = new_test_ext();
    let base_amount = 100;
    let quote_amount = 100;

    let receive_amount =
        p.get_received_amount(base_amount, quote_amount, OrderType::Buy, 10).unwrap();
    println!("receive_amount: {}", receive_amount);
    assert_eq!(receive_amount, 10);

    let receive_amount =
        p.get_received_amount(base_amount, quote_amount, OrderType::Buy, 100).unwrap();
    println!("receive_amount: {}", receive_amount);
    assert_eq!(receive_amount, 50);

    let receive_amount =
        p.get_received_amount(base_amount, quote_amount, OrderType::Sell, 10).unwrap();
    println!("receive_amount: {}", receive_amount);
    assert_eq!(receive_amount, 10);

    let receive_amount =
        p.get_received_amount(base_amount, quote_amount, OrderType::Sell, 100).unwrap();
    println!("receive_amount: {}", receive_amount);
    assert_eq!(receive_amount, 50);
}

#[test]
fn get_received_amount_zero_is_zero() {
    let p = new_test_ext();
    assert_eq!(p.get_received_amount(100, 100, OrderType::Buy, 0).unwrap(), 0);
    assert_eq!(p.get_received_amount(100, 100, OrderType::Sell, 0).unwrap(), 0);
    assert_eq!(p.get_received_amount(1, u128::MAX, OrderType::Buy, 0).unwrap(), 0);
}

#[test]
fn get_received_amount_monotonic_and_bounded() {
    let p = new_test_ext();
    let mut previous = 0;
    let mut amount: u128 = 0;
    while amount <= 3_000 {
        let received = p.get_received_amount(1_000, 2_000, OrderType::Buy, amount).unwrap();
        assert!(received >= previous);
        assert!(received <= 1_000);
        previous = received;
        amount += 1;
    }
}

#[test]
fn get_received_amount_overflow_is_arithmetic() {
    let p = new_test_ext();
    // The reserve product overflows the balance type.
    assert_eq!(
        p.get_received_amount(u128::MAX, u128::MAX, OrderType::Buy, 10),
        Err(Error::Arithmetic)
    );
}

#[test]
fn fee_from_amount_overflow_is_arithmetic() {
    // At a fee rate of 2/1000 the fee multiplication overflows on the
    // largest amount.
    let p = Pallet::new(2, 1_000, POOL_ACCOUNT, FEE_ACCOUNT);
    assert_eq!(p.fee_from_amount(u128::MAX), Err(Error::Arithmetic));
}
