use fastnum::{Context, Decimal, DecimalError, RoundingMode, Sign, Signals, UnsignedDecimal};

fn ctx() -> Context {
    Context::new()
}

fn dec(digits: u128, exp: i32) -> Decimal {
    Decimal::from_parts(digits, exp, Sign::Plus, ctx())
}

fn neg_dec(digits: u128, exp: i32) -> Decimal {
    Decimal::from_parts(digits, exp, Sign::Minus, ctx())
}

#[test]
fn add_aligns_scales() {
    // 0.1 + 0.2 == 0.3
    let a = dec(1, -1);
    let b = dec(2, -1);
    let r = a.add(b);
    assert!(r.eq(&dec(3, -1)));
    assert_eq!(r.digits(), 3);
    assert_eq!(r.fractional_digits_count(), 1);
    // 1.25 + 3 == 4.25, the integer operand is scaled up.
    let r = dec(125, -2).add(dec(3, 0));
    assert!(r.eq(&dec(425, -2)));
    assert_eq!(r.fractional_digits_count(), 2);
}

#[test]
fn sub_cancels_to_zero() {
    let r = dec(7, 0).sub(dec(7, 0));
    assert!(r.is_zero());
    assert_eq!(r.sign(), Sign::Plus);
}

#[test]
fn sub_opposite_magnitudes() {
    // 2.5 - 10 == -7.5
    let r = dec(25, -1).sub(dec(10, 0));
    assert!(r.eq(&neg_dec(75, -1)));
    assert!(r.is_sign_negative());
}

#[test]
fn mul_widening_identity() {
    // The largest coefficient times 1.0 is returned unchanged.
    let a = dec(340282366920938463463374607431768211455u128, 0);
    let one_zero = dec(10, -1);
    let r = a.mul(one_zero);
    assert_eq!(r.digits(), 340282366920938463463374607431768211455u128);
    assert_eq!(r.fractional_digits_count(), 0);
    assert!(r.eq(&a));
    assert!(r.is_op_rounded());
    assert!(!r.is_op_inexact());
}

#[test]
fn mul_simple() {
    let r = dec(12, -1).mul(dec(5, -1));
    // 1.2 * 0.5 == 0.60
    assert!(r.eq(&dec(60, -2)));
    assert_eq!(r.digits(), 60);
    assert_eq!(r.fractional_digits_count(), 2);
}

#[test]
fn div_exact_has_no_inexact_flag() {
    let r = Decimal::from_u64(5).div(Decimal::from_u64(2));
    assert!(r.eq(&dec(25, -1)));
    assert_eq!(r.digits(), 25);
    assert_eq!(r.fractional_digits_count(), 1);
    assert!(!r.is_op_inexact());
    assert!(!r.is_op_rounded());
}

#[test]
fn div_inexact_raises_flags() {
    let r = Decimal::from_u64(1).div(Decimal::from_u64(3));
    assert!(r.is_op_inexact());
    assert!(r.is_op_rounded());
    // The quotient fills the whole coefficient with threes.
    assert_eq!(r.digits() % 10, 3);
}

#[test]
fn div_by_zero_gives_infinity_with_signal() {
    let r = Decimal::one().div(Decimal::zero());
    assert!(r.is_infinite());
    assert!(r.is_sign_positive());
    assert!(r.is_op_div_by_zero());
}

#[test]
fn infinity_minus_infinity_is_nan() {
    let r = Decimal::infinity().sub(Decimal::infinity());
    assert!(r.is_nan());
    assert!(r.is_op_invalid());
}

#[test]
fn nan_is_not_equal_to_itself() {
    let nan = Decimal::nan();
    assert!(!nan.eq(&nan));
    assert!(nan.ne(&nan));
}

#[test]
fn nan_orders_greatest_internally_but_partial_cmp_is_none() {
    let nan = Decimal::nan();
    assert_eq!(nan.cmp(&nan), core::cmp::Ordering::Equal);
    assert_eq!(nan.cmp(&Decimal::one()), core::cmp::Ordering::Greater);
    assert_eq!(Decimal::one().cmp(&nan), core::cmp::Ordering::Less);
    assert!(nan.partial_cmp(&nan).is_none());
    assert!(nan.partial_cmp(&Decimal::one()).is_none());
    assert!(Decimal::one().partial_cmp(&Decimal::zero()).is_some());
}

#[test]
fn zero_times_infinity_is_nan() {
    let r = Decimal::zero().mul(Decimal::infinity());
    assert!(r.is_nan());
    assert!(r.is_op_invalid());
}

#[test]
fn comparison_ignores_representation_scale() {
    // 1.0 and 1.00 are value-equal but differently represented.
    let a = dec(10, -1);
    let b = dec(100, -2);
    assert!(a.eq(&b));
    assert_ne!(a.digits(), b.digits());
    assert_ne!(a.fractional_digits_count(), b.fractional_digits_count());
    assert_eq!(a.cmp(&b), core::cmp::Ordering::Equal);
}

#[test]
fn signed_zeros_are_equal() {
    let pz = dec(0, 0);
    let nz = neg_dec(0, 0);
    assert!(pz.eq(&nz));
    assert_eq!(pz.cmp(&nz), core::cmp::Ordering::Equal);
}

#[test]
fn ordering_crosses_signs_and_magnitudes() {
    assert!(neg_dec(1, 0).lt(&dec(1, 0)));
    assert!(dec(2, 0).gt(&dec(1, 0)));
    assert!(neg_dec(2, 0).lt(&neg_dec(1, 0)));
    assert!(dec(999, -3).lt(&dec(1, 0)));
    assert!(dec(12345, -2).ge(&dec(123, 0)));
    assert!(dec(12345, -2).le(&dec(124, 0)));
}

#[test]
fn rounding_mode_boundary_half_even_and_half_up() {
    // 2.5 rounded to zero digits: half-even gives 2, half-up gives 3.
    let d = dec(25, -1);
    let even = d.with_rounding_mode(RoundingMode::HalfEven).round(0);
    assert_eq!(even.digits(), 2);
    assert_eq!(even.fractional_digits_count(), 0);
    let up = d.with_rounding_mode(RoundingMode::HalfUp).round(0);
    assert_eq!(up.digits(), 3);
    // 3.5 rounded half-even goes to 4, the even neighbour.
    let d = dec(35, -1);
    let even = d.with_rounding_mode(RoundingMode::HalfEven).round(0);
    assert_eq!(even.digits(), 4);
    // Guard digit below five rounds down in every nearest mode.
    let d = dec(24, -1);
    assert_eq!(d.with_rounding_mode(RoundingMode::HalfUp).round(0).digits(), 2);
    // Up rounds away from zero on any nonzero guard digit.
    assert_eq!(dec(21, -1).with_rounding_mode(RoundingMode::Up).round(0).digits(), 3);
    assert_eq!(dec(21, -1).with_rounding_mode(RoundingMode::Down).round(0).digits(), 2);
}

#[test]
fn rescale_two_step_equals_one_step() {
    let d = dec(123, -2);
    let two = d.rescale(4).rescale(6);
    let one = d.rescale(6);
    assert_eq!(two, one);
    assert_eq!(one.digits(), 1230000);
    assert_eq!(one.fractional_digits_count(), 6);
}

#[test]
fn rescale_down_rounds() {
    let d = dec(12345, -4);
    let r = d.rescale(2);
    assert_eq!(r.digits(), 123);
    assert_eq!(r.fractional_digits_count(), 2);
    assert!(r.is_op_rounded());
    assert!(r.is_op_inexact());
}

#[test]
fn reduce_is_idempotent_and_value_preserving() {
    let d = dec(12300, -4);
    let r = d.reduce();
    assert_eq!(r.digits(), 123);
    assert_eq!(r.fractional_digits_count(), 2);
    assert_eq!(r.reduce(), r);
    assert!(r.eq(&d));
    // A zero reduces to scale zero.
    let z = dec(0, -7);
    assert_eq!(z.reduce().fractional_digits_count(), 0);
}

#[test]
fn quantize_matches_scale_or_signals() {
    let d = dec(217, -2);
    let q = d.quantize(dec(1, -3));
    assert_eq!(q.digits(), 2170);
    assert_eq!(q.fractional_digits_count(), 3);
    let q2 = d.quantize(dec(1, 0));
    assert_eq!(q2.digits(), 2);
    assert_eq!(q2.fractional_digits_count(), 0);
    let qn = d.quantize(Decimal::infinity());
    assert!(qn.is_nan());
    assert!(qn.is_op_invalid());
    let qi = Decimal::infinity().quantize(Decimal::infinity());
    assert!(qi.is_infinite());
}

#[test]
fn trunc_floor_ceil() {
    let d = dec(29, -1);
    assert_eq!(d.trunc().digits(), 2);
    assert_eq!(d.ceil().digits(), 3);
    assert_eq!(d.floor().digits(), 2);
    let n = neg_dec(29, -1);
    assert_eq!(n.trunc().digits(), 2);
    assert!(n.trunc().is_sign_negative());
    assert_eq!(n.floor().digits(), 3);
    assert_eq!(n.ceil().digits(), 2);
    let d = dec(2170, -3);
    assert_eq!(d.trunc_with_scale(1).digits(), 21);
    assert_eq!(d.trunc_with_scale(1).fractional_digits_count(), 1);
}

#[test]
fn rem_computes_the_remainder() {
    let r = Decimal::from_u64(7).rem(Decimal::from_u64(3));
    assert!(r.eq(&Decimal::from_u64(1)));
    let r = neg_dec(7, 0).rem(dec(3, 0));
    assert!(r.eq(&neg_dec(1, 0)));
}

#[test]
fn recip_divides_one() {
    let r = dec(4, 0).recip();
    assert!(r.eq(&dec(25, -2)));
}

#[test]
fn signum_abs_neg() {
    assert!(neg_dec(5, 0).signum().eq(&neg_dec(1, 0)));
    assert!(dec(5, 0).signum().eq(&dec(1, 0)));
    assert!(Decimal::nan().signum().is_nan());
    assert!(neg_dec(5, 0).abs().eq(&dec(5, 0)));
    assert!(dec(5, 0).neg().eq(&neg_dec(5, 0)));
    assert!(neg_dec(5, 0).abs_sub(dec(1, 0)).is_zero());
    assert!(dec(5, 0).abs_sub(dec(1, 0)).eq(&dec(4, 0)));
}

#[test]
fn min_max_clamp() {
    let a = dec(1, 0);
    let b = dec(2, 0);
    assert!(a.min(b).eq(&a));
    assert!(a.max(b).eq(&b));
    assert!(dec(5, 0).clamp(a, b).eq(&b));
    assert!(dec(0, 0).clamp(a, b).eq(&a));
    assert!(dec(15, -1).clamp(a, b).eq(&dec(15, -1)));
}

#[test]
fn classify_and_predicates() {
    assert!(Decimal::nan().is_nan());
    assert!(Decimal::infinity().is_infinite());
    assert!(Decimal::neg_infinity().is_sign_negative());
    assert!(dec(0, 0).is_zero());
    assert!(dec(1, 0).is_one());
    assert!(!dec(10, -1).is_one());
    assert!(dec(7, 0).is_finite());
    assert!(dec(7, 0).is_normal());
    assert!(!Decimal::nan().is_finite());
}

#[test]
fn parity_and_integrality() {
    assert!(dec(4, 0).is_even());
    assert!(dec(5, 0).is_odd());
    assert!(dec(500, -2).is_integral());
    assert!(!dec(55, -1).is_integral());
    assert!(dec(5, 3).is_integral());
}

#[test]
fn signals_accumulate_and_trap() {
    // Under the default context the hard failures trap.
    let r = Decimal::one().div(Decimal::zero());
    assert!(!r.is_op_ok());
    assert!(r.op_signals().div_by_zero);
    assert!(!r.is_ok());
    assert!(r.ok().is_none());
    assert_eq!(r.ok_or_err(), Err(DecimalError::DivByZero));
    // Under an explicitly trap-free context the flag only sticks.
    let free = ctx().with_signal_traps(Signals::empty());
    let quiet = Decimal::one().with_ctx(free).div(Decimal::zero());
    assert!(quiet.op_signals().div_by_zero);
    assert!(quiet.is_ok());
    assert!(quiet.ok().is_some());
    // Precision signals do not trap by default.
    let third = Decimal::from_u64(1).div(Decimal::from_u64(3));
    assert!(third.is_op_inexact());
    assert!(third.is_ok());
}

#[test]
fn construct_clamps_exponent_band() {
    // Far above the representable band the value overflows to infinity.
    let d = Decimal::from_parts(1, 40_000, Sign::Plus, ctx());
    assert!(d.is_infinite());
    assert!(d.is_op_overflow());
    // Far below it underflows to zero.
    let d = Decimal::from_parts(1, -40_000, Sign::Plus, ctx());
    assert!(d.is_zero());
    assert!(d.is_op_underflow());
    assert!(d.is_op_clamped());
    // Just above the direct band the coefficient is padded.
    let d = Decimal::from_parts(1, 32_769, Sign::Plus, ctx());
    assert_eq!(d.digits(), 10);
    assert_eq!(d.fractional_digits_count(), i16::MIN);
    assert!(d.is_op_clamped());
}

#[test]
fn quantum_builds_a_unit() {
    let q = Decimal::quantum(-3, ctx());
    assert_eq!(q.digits(), 1);
    assert_eq!(q.fractional_digits_count(), 3);
    assert!(Decimal::quantum(33_000, ctx()).is_infinite());
}

#[test]
fn unsigned_decimal_round_trip() {
    let u = UnsignedDecimal::from_str("12.5", ctx()).unwrap();
    assert_eq!(u.digits(), 125);
    assert_eq!(u.fractional_digits_count(), 1);
    assert_eq!(
        UnsignedDecimal::from_str("-12.5", ctx()),
        Err(fastnum::ParseError::Signed)
    );
    assert_eq!(
        UnsignedDecimal::from_str("+12.5", ctx()),
        Err(fastnum::ParseError::Signed)
    );
    let s = u.neg();
    assert!(s.is_sign_negative());
    assert_eq!(s.try_to_unsigned(), Err(DecimalError::Invalid));
    let back = Decimal::from_unsigned(dec(125, -1).unsigned_abs());
    assert!(back.eq(&dec(125, -1)));
    let sum = u.add(UnsignedDecimal::one());
    assert_eq!(sum.digits(), 135);
}

#[test]
fn mul_add_fuses_through_two_roundings() {
    let r = dec(2, 0).mul_add(dec(3, 0), dec(4, 0));
    assert!(r.eq(&dec(10, 0)));
}

#[test]
fn rounding_keeps_residual_digits_in_place() {
    // Dropping more places than the coefficient has digits must not promote
    // the residual: five hundredths is below half a unit.
    let d = dec(5, -2);
    assert_eq!(d.with_rounding_mode(RoundingMode::HalfUp).round(0).digits(), 0);
    assert!(d.round(0).is_zero() || d.round(0).digits() == 0);
    // Five tenths is exactly half a unit and rounds up under half-up.
    assert_eq!(dec(5, -1).with_rounding_mode(RoundingMode::HalfUp).round(0).digits(), 1);
    // Nine thousandths to one fractional digit is below half of a tenth.
    let r = dec(9, -3).rescale(1);
    assert_eq!(r.digits(), 0);
    assert_eq!(r.fractional_digits_count(), 1);
    assert!(r.is_op_inexact());
    // Quantize inherits the same placement.
    let q = dec(5, -2).quantize(dec(1, 0));
    assert_eq!(q.digits(), 0);
    assert_eq!(q.fractional_digits_count(), 0);
    // Ceiling still rounds any nonzero residual away from zero when the
    // leading residual digit is nonzero.
    assert_eq!(dec(51, -2).with_rounding_mode(RoundingMode::Ceiling).round(0).digits(), 1);
}

#[test]
fn division_carry_valve_at_full_quotient() {
    // A dividend chosen so the quotient fills the coefficient and the next
    // digit rounds up: the valve drops one digit to make room instead of
    // saturating.
    let r = dec(u128::MAX, 0).add(dec(1, 0)).div(dec(3, 0));
    assert!(r.is_op_inexact());
    assert!(r.is_op_rounded());
    assert!(r.digits() > 0);
}
