//! Exchange-fee and user-record tests.

use swap_pool::amount::Amount;
use swap_pool::exchange::{div_rounded, ExchangeFee};
use swap_pool::users::{AccountAddress, UserData, UserId, UserMutableData};

#[test]
fn test_div_rounded() {
    let dr = |v: i64, p: i64| div_rounded(Amount::new(v), Amount::new(p)).value();
    assert_eq!(dr(0, 5), 0);
    assert_eq!(dr(100, 0), 0);
    assert_eq!(dr(100, 5), 5);
    assert_eq!(dr(123, 5), 6);
    assert_eq!(dr(130, 5), 7);
}

#[test]
fn fixed_fee_is_returned_unchanged() {
    let fee = ExchangeFee::Fixed(Amount::new(25));
    assert_eq!(fee.calculate_fee(Amount::new(10_000)).value(), 25);
    assert_eq!(fee.calculate_fee(Amount::zero()).value(), 25);
}

#[test]
fn percentage_fee_rounds_half_up() {
    // The percentage path charges through the reciprocal: Percentage(5)
    // multiplies by 100 / 5 = 20 and divides by one hundred, so it charges
    // one fifth of the amount, rounded half-up.
    let fee = ExchangeFee::Percentage(5);
    assert_eq!(fee.calculate_fee(Amount::new(100)).value(), 20);
    assert_eq!(fee.calculate_fee(Amount::new(123)).value(), 25);
    assert_eq!(fee.calculate_fee(Amount::new(130)).value(), 26);
    // Thirty per cent: reciprocal 100 / 30 = 3, so 3 per cent is charged.
    let coarse = ExchangeFee::Percentage(30);
    assert_eq!(coarse.calculate_fee(Amount::new(1000)).value(), 30);
    // Above one hundred per cent the reciprocal collapses to zero.
    let over = ExchangeFee::Percentage(200);
    assert_eq!(over.calculate_fee(Amount::new(1000)).value(), 0);
}

#[test]
fn user_records_hold_their_fields() {
    let data = UserData {
        user_id: UserId(7),
        user_account: AccountAddress { raw: 42 },
        created_at: 1_700_000_000,
    };
    assert_eq!(data.user_id.0, 7);
    assert_eq!(data.user_account.raw, 42);
    assert_eq!(data.created_at, 1_700_000_000);
}

#[test]
fn user_mutable_data_defaults_and_updates() {
    let mut data = UserMutableData::default();
    assert!(!data.is_blacklisted);
    assert_eq!(data.wrapped_exchange_limit.value(), 1000);
    data.set_wrapped_exchange_limit(Amount::new(2500));
    assert_eq!(data.wrapped_exchange_limit.value(), 2500);
    assert!(!data.is_blacklisted);
}
