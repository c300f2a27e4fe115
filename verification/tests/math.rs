use nftswitch::math::{checked_mul_floor, Decimal, DECIMAL_FRACTIONAL};

#[test]
fn decimal_constructors_count_atomic_units() {
    assert_eq!(DECIMAL_FRACTIONAL, 1_000_000_000_000_000_000);
    assert_eq!(Decimal::zero().atomics(), 0);
    assert_eq!(Decimal::one().atomics(), 1_000_000_000_000_000_000);
    assert_eq!(Decimal::raw(123).atomics(), 123);
    assert_eq!(Decimal::percent(50).atomics(), 500_000_000_000_000_000);
    assert_eq!(Decimal::permille(15).atomics(), 15_000_000_000_000_000);
    assert_eq!(Decimal::percent(u64::MAX).atomics(), u64::MAX as u128 * 10_000_000_000_000_000);
    assert_eq!(Decimal::permille(u64::MAX).atomics(), u64::MAX as u128 * 1_000_000_000_000_000);
    assert!(Decimal::zero().is_zero());
    assert!(!Decimal::raw(1).is_zero());
    assert_eq!(Decimal::percent(100), Decimal::one());
}

#[test]
fn decimal_agrees_with_the_outside_decimal() {
    let outside = cosmwasm_std::Decimal::from_ratio(15u128, 1000u128);
    assert_eq!(Decimal::permille(15).atomics(), outside.atomics().u128());
    assert_eq!(Decimal::one().atomics(), cosmwasm_std::Decimal::one().atomics().u128());
    assert_eq!(Decimal::percent(2).atomics(), cosmwasm_std::Decimal::percent(2).atomics().u128());
}

#[test]
fn decimal_sum_is_checked() {
    assert_eq!(Decimal::percent(40).checked_add(Decimal::percent(60)), Some(Decimal::one()));
    assert_eq!(Decimal::raw(u128::MAX - 1).checked_add(Decimal::raw(1)), Some(Decimal::raw(u128::MAX)));
    assert_eq!(Decimal::raw(u128::MAX).checked_add(Decimal::raw(1)), None);
}

#[test]
fn product_is_rounded_down() {
    assert_eq!(checked_mul_floor(1000, Decimal::permille(15)), Some(15));
    assert_eq!(checked_mul_floor(999, Decimal::permille(15)), Some(14));
    assert_eq!(checked_mul_floor(66, Decimal::permille(15)), Some(0));
    assert_eq!(checked_mul_floor(67, Decimal::permille(15)), Some(1));
    assert_eq!(checked_mul_floor(1, Decimal::raw(999_999_999_999_999_999)), Some(0));
    assert_eq!(checked_mul_floor(3, Decimal::raw(333_333_333_333_333_333)), Some(0));
    assert_eq!(checked_mul_floor(30, Decimal::raw(333_333_333_333_333_333)), Some(9));
    assert_eq!(checked_mul_floor(7, Decimal::percent(250)), Some(17));
}

#[test]
fn product_with_zero_or_one() {
    assert_eq!(checked_mul_floor(0, Decimal::permille(15)), Some(0));
    assert_eq!(checked_mul_floor(0, Decimal::raw(u128::MAX)), Some(0));
    assert_eq!(checked_mul_floor(1000, Decimal::zero()), Some(0));
    assert_eq!(checked_mul_floor(1000, Decimal::one()), Some(1000));
    assert_eq!(checked_mul_floor(u128::MAX, Decimal::one()), Some(u128::MAX));
    assert_eq!(checked_mul_floor(u128::MAX, Decimal::zero()), Some(0));
}

#[test]
fn product_is_formed_in_more_than_128_bits() {
    // 2^127 × 10^18 does not fit in 128 bits; the quotient does
    assert_eq!(checked_mul_floor(1 << 127, Decimal::one()), Some(1 << 127));
    assert_eq!(checked_mul_floor(u128::MAX, Decimal::percent(50)), Some(u128::MAX / 2));
    assert_eq!(checked_mul_floor(1 << 100, Decimal::percent(200)), Some(1 << 101));
}

#[test]
fn product_that_does_not_fit_is_none() {
    assert_eq!(checked_mul_floor(u128::MAX, Decimal::percent(200)), None);
    assert_eq!(checked_mul_floor(u128::MAX, Decimal::raw(1_000_000_000_000_000_001)), None);
    assert_eq!(checked_mul_floor(u128::MAX, Decimal::raw(u128::MAX)), None);
    assert_eq!(checked_mul_floor((1 << 127) + 1, Decimal::percent(200)), None);
    assert_eq!(checked_mul_floor(1 << 127, Decimal::percent(200)), None);
    assert_eq!(checked_mul_floor((1 << 127) - 1, Decimal::percent(200)), Some(u128::MAX - 1));
}
