use fastnum::{Context, Decimal, DecimalError, Sign};

fn ctx() -> Context {
    Context::new()
}

fn dec(digits: u128, exp: i32) -> Decimal {
    Decimal::from_parts(digits, exp, Sign::Plus, ctx())
}

#[test]
fn magnitude_step_helpers() {
    let mut d = dec(41, 0);
    fastnum::math::add::magnitude_inc(&mut d);
    assert_eq!(d.digits(), 42);
    fastnum::math::add::magnitude_dec(&mut d);
    assert_eq!(d.digits(), 41);
    // At the full coefficient a step up drops one digit to make room.
    let mut m = dec(u128::MAX, 0);
    fastnum::math::add::magnitude_inc(&mut m);
    assert_eq!(m.digits(), u128::MAX / 10 + 1);
    assert_eq!(m.fractional_digits_count(), -1);
}

#[test]
fn compact_parts_split_the_mantissa() {
    // A negative scale folds into the mantissa as trailing zeros.
    let d = dec(123456, 3);
    let (lo, mid, hi, neg, scale) = d.to_compact_parts().unwrap();
    assert_eq!(lo, 123456000);
    assert_eq!(mid, 0);
    assert_eq!(hi, 0);
    assert!(!neg);
    assert_eq!(scale, 0);
    let d = Decimal::from_parts(1, 0, Sign::Minus, ctx()).sub(dec(5, -1));
    let (lo, _, _, neg, scale) = d.to_compact_parts().unwrap();
    assert_eq!(lo, 15);
    assert!(neg);
    assert_eq!(scale, 1);
    assert_eq!(Decimal::nan().to_compact_parts(), Err(DecimalError::Invalid));
    assert_eq!(dec(1, 0).rescale(40).to_compact_parts(), Err(DecimalError::Overflow));
    assert_eq!(dec(u128::MAX, 0).to_compact_parts(), Err(DecimalError::Overflow));
    let big = dec(0xFFFF_FFFF_FFFF_FFFF_FFFF_FFFF, 0);
    let (lo, mid, hi, _, _) = big.to_compact_parts().unwrap();
    assert_eq!(lo, 0xFFFF_FFFF);
    assert_eq!(mid, 0xFFFF_FFFF);
    assert_eq!(hi, 0xFFFF_FFFF);
}

#[test]
fn power_of_ten_intrinsics() {
    let table = fastnum::intrinsics::PowersOf10;
    assert_eq!(table.lookup(0), 1);
    assert_eq!(table.lookup(6), 1_000_000);
    assert_eq!(table.lookup(38), 10u128.pow(38));
    let widths = fastnum::intrinsics::Intrinsics;
    assert_eq!(widths.max_power_of_ten(), 38);
}

#[test]
fn saturating_addition_at_the_scale_floor() {
    // Two full coefficients at the lowest scale cannot make room and clamp.
    let a = Decimal::from_parts(u128::MAX, 32_768, Sign::Plus, ctx());
    assert_eq!(a.fractional_digits_count(), i16::MIN);
    let r = a.add(a);
    assert_eq!(r.digits(), u128::MAX);
    assert!(r.is_op_clamped());
    assert!(r.is_op_inexact());
}

#[test]
fn addition_overflow_halves_both_operands() {
    let a = dec(u128::MAX, 0);
    let r = a.add(a);
    // The sum keeps the leading digits and moves the scale up one.
    assert_eq!(r.fractional_digits_count(), -1);
    assert_eq!(r.digits(), u128::MAX / 10 * 2 + 1);
    assert!(r.is_op_rounded());
}

#[test]
fn division_of_infinities_and_zeros() {
    assert!(Decimal::infinity().div(Decimal::infinity()).is_nan());
    assert!(Decimal::infinity().div(Decimal::infinity()).is_op_invalid());
    let r = Decimal::infinity().div(dec(2, 0));
    assert!(r.is_infinite());
    let r = dec(2, 0).div(Decimal::infinity());
    assert!(r.is_zero());
    let r = dec(0, 0).div(dec(7, 0));
    assert!(r.is_zero());
    let r = dec(9, -1).div(Decimal::one());
    assert!(r.eq(&dec(9, -1)));
    // A negative divided by a positive carries the minus sign.
    let r = Decimal::from_parts(6, 0, Sign::Minus, ctx()).div(dec(2, 0));
    assert!(r.is_sign_negative());
    assert_eq!(r.digits(), 3);
}
