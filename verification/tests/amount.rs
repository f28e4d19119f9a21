//! Unit tests for the checked fixed-precision quantity type.

use swap_pool::amount::Amount;

#[test]
fn constructors_and_accessors() {
    assert_eq!(Amount::new(42).value(), 42);
    assert_eq!(Amount::zero().value(), 0);
    assert_eq!(Amount::one().value(), 1);
    assert!(Amount::zero().is_zero());
    assert!(!Amount::one().is_zero());
    assert!(Amount::new(-3).is_negative());
    assert!(!Amount::new(3).is_negative());
}

#[test]
fn checked_add_and_sub() {
    let a = Amount::new(40);
    let b = Amount::new(2);
    assert_eq!(a.checked_add(&b).unwrap().value(), 42);
    assert_eq!(a.checked_sub(&b).unwrap().value(), 38);
    assert!(Amount::new(i64::MAX).checked_add(&Amount::one()).is_none());
    assert!(Amount::new(i64::MIN).checked_sub(&Amount::one()).is_none());
}

#[test]
fn checked_mul() {
    assert_eq!(Amount::new(6).checked_mul(&Amount::new(7)).unwrap().value(), 42);
    assert_eq!(Amount::new(-6).checked_mul(&Amount::new(7)).unwrap().value(), -42);
    assert!(Amount::new(i64::MAX).checked_mul(&Amount::new(2)).is_none());
}

#[test]
fn checked_div_truncates_toward_zero() {
    let div = |a: i64, b: i64| Amount::new(a).checked_div(&Amount::new(b)).unwrap().value();
    assert_eq!(div(7, 2), 3);
    assert_eq!(div(-7, 2), -3);
    assert_eq!(div(7, -2), -3);
    assert_eq!(div(-7, -2), 3);
    assert_eq!(div(0, 5), 0);
}

#[test]
fn checked_div_fails_fast() {
    assert!(Amount::new(5).checked_div(&Amount::zero()).is_none());
    assert!(Amount::new(i64::MIN).checked_div(&Amount::new(-1)).is_none());
    assert_eq!(
        Amount::new(i64::MIN)
            .checked_div(&Amount::new(1))
            .unwrap()
            .value(),
        i64::MIN
    );
}

#[test]
fn checked_div_ceil_rounds_up() {
    let div = |a: i64, b: i64| Amount::new(a).checked_div_ceil(&Amount::new(b)).unwrap().value();
    assert_eq!(div(7, 2), 4);
    assert_eq!(div(6, 2), 3);
    assert_eq!(div(-7, 2), -3);
    assert_eq!(div(7, -2), -3);
    assert_eq!(div(-7, -2), 4);
    assert_eq!(div(0, 5), 0);
    assert_eq!(div(1, 1_000_000), 1);
    assert!(Amount::new(5).checked_div_ceil(&Amount::zero()).is_none());
}

#[test]
fn comparisons() {
    assert!(Amount::new(1) < Amount::new(2));
    assert!(Amount::new(2) >= Amount::new(2));
    assert!(Amount::new(-1) < Amount::zero());
    assert_eq!(Amount::new(5), Amount::new(5));
    assert_ne!(Amount::new(5), Amount::new(6));
}

#[test]
fn agrees_with_ledger_amount_arithmetic() {
    // On the common, non-negative range the checked arithmetic must compute
    // exactly what the ledger's own unsigned amount type computes.
    type Lg = tari_template_lib::types::Amount;
    let pairs: [(i64, i64); 6] = [(0, 3), (7, 2), (100, 30), (1000, 999), (12345, 67), (1, 1)];
    for (a, b) in pairs {
        let ours_div = Amount::new(a).checked_div(&Amount::new(b)).unwrap().value();
        let theirs_div = Lg::new(a as u128).checked_div(Lg::new(b as u128)).unwrap();
        assert_eq!(ours_div as u128, theirs_div.to_u128());

        let ours_ceil = Amount::new(a).checked_div_ceil(&Amount::new(b)).unwrap().value();
        let theirs_ceil = Lg::new(a as u128).checked_div_ceil(Lg::new(b as u128)).unwrap();
        assert_eq!(ours_ceil as u128, theirs_ceil.to_u128());

        let ours_mul = Amount::new(a).checked_mul(&Amount::new(b)).unwrap().value();
        let theirs_mul = Lg::new(a as u128).checked_mul(Lg::new(b as u128)).unwrap();
        assert_eq!(ours_mul as u128, theirs_mul.to_u128());
    }
}
