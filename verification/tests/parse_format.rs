use fastnum::{Context, Decimal, ParseError, Sign};

fn ctx() -> Context {
    Context::new()
}

fn parse(s: &str) -> Decimal {
    Decimal::from_str(s, ctx()).unwrap()
}

#[test]
fn parse_plain_literals() {
    let d = parse("123.45");
    assert_eq!(d.digits(), 12345);
    assert_eq!(d.fractional_digits_count(), 2);
    assert_eq!(d.sign(), Sign::Plus);
    let d = parse("-1.2345");
    assert_eq!(d.digits(), 12345);
    assert_eq!(d.fractional_digits_count(), 4);
    assert_eq!(d.sign(), Sign::Minus);
    let d = parse("+0.5");
    assert_eq!(d.digits(), 5);
    assert_eq!(d.sign(), Sign::Plus);
    let d = parse(".25");
    assert_eq!(d.digits(), 25);
    assert_eq!(d.fractional_digits_count(), 2);
}

#[test]
fn parse_exponent_literals() {
    let d = parse("5e9");
    assert_eq!(d.digits(), 5);
    assert_eq!(d.fractional_digits_count(), -9);
    let d = parse("1.5e-3");
    assert_eq!(d.digits(), 15);
    assert_eq!(d.fractional_digits_count(), 4);
    let d = parse("2E+2");
    assert_eq!(d.digits(), 2);
    assert_eq!(d.fractional_digits_count(), -2);
}

#[test]
fn parse_rejects_bad_literals() {
    assert_eq!(Decimal::from_str("", ctx()), Err(ParseError::Empty));
    assert_eq!(Decimal::from_str("abc", ctx()), Err(ParseError::InvalidLiteral));
    assert_eq!(Decimal::from_str("1..2", ctx()), Err(ParseError::InvalidLiteral));
    assert_eq!(Decimal::from_str("1e", ctx()), Err(ParseError::InvalidLiteral));
    assert_eq!(Decimal::from_str("e5", ctx()), Err(ParseError::InvalidLiteral));
    assert_eq!(Decimal::from_str("+", ctx()), Err(ParseError::InvalidLiteral));
    assert_eq!(Decimal::from_str("1.2.3", ctx()), Err(ParseError::InvalidLiteral));
    assert_eq!(Decimal::from_str("12 3", ctx()), Err(ParseError::InvalidLiteral));
    // One digit more than the coefficient can hold.
    assert_eq!(
        Decimal::from_str("3402823669209384634633746074317682114560", ctx()),
        Err(ParseError::PosOverflow)
    );
    assert_eq!(Decimal::from_str("1e9999999", ctx()), Err(ParseError::ExponentOverflow));
}

#[test]
fn parse_clamps_extreme_exponents() {
    let d = parse("1e40000");
    assert!(d.is_infinite());
    assert!(d.is_op_overflow());
    let d = parse("1e-40000");
    assert!(d.is_zero());
    assert!(d.is_op_underflow());
}

#[test]
fn to_string_plain_forms() {
    assert_eq!(parse("123.45").to_string(), "123.45");
    assert_eq!(parse("-0.5").to_string(), "-0.5");
    assert_eq!(parse("12300").to_string(), "12300");
    assert_eq!(parse("0.00125").to_string(), "0.00125");
    assert_eq!(Decimal::nan().to_string(), "NaN");
    assert_eq!(Decimal::infinity().to_string(), "Inf");
    assert_eq!(Decimal::neg_infinity().to_string(), "-Inf");
    assert_eq!(Decimal::zero().to_string(), "0");
}

#[test]
fn to_string_exponential_fallbacks() {
    // More than five leading zeros after the point switches to E notation.
    assert_eq!(parse("0.0000001234").to_string(), "1.234E-7");
    // More than five implied trailing zeros keeps the exponent.
    assert_eq!(parse("123e7").to_string(), "123e+7");
    // At the thresholds the plain form is kept.
    assert_eq!(parse("0.000001234").to_string(), "0.000001234");
    assert_eq!(parse("123e5").to_string(), "12300000");
}

#[test]
fn scientific_notation() {
    assert_eq!(parse("123.45").to_scientific_notation(), "1.2345e2");
    assert_eq!(parse("-0.5").to_scientific_notation(), "-5e-1");
    assert_eq!(parse("7").to_scientific_notation(), "7e0");
    assert_eq!(Decimal::nan().to_scientific_notation(), "NaN");
}

#[test]
fn engineering_notation() {
    assert_eq!(parse("123.45").to_engineering_notation(), "123.45e0");
    assert_eq!(parse("12345").to_engineering_notation(), "12.345e3");
    assert_eq!(parse("0.5").to_engineering_notation(), "500e-3");
    assert_eq!(Decimal::infinity().to_engineering_notation(), "Inf");
}

#[test]
fn round_trip_plain() {
    let cases: [&str; 8] = [
        "123.45",
        "-0.5",
        "12300",
        "0.00125",
        "1",
        "-987654321.123456789",
        "0",
        "340282366920938463463374607431768211455",
    ];
    let mut k = 0;
    while k < cases.len() {
        let d = parse(cases[k]);
        let back = parse(&d.to_string());
        assert!(back.reduce().eq(&d.reduce()));
        assert!(back.eq(&d));
        k += 1;
    }
}

#[test]
fn round_trip_exponential_forms() {
    let cases: [&str; 4] = ["1.234e-7", "123e7", "5e9", "-2.5e-30"];
    let mut k = 0;
    while k < cases.len() {
        let d = parse(cases[k]);
        let back = parse(&d.to_string());
        assert!(back.eq(&d));
        let sci = parse(&d.to_scientific_notation());
        assert!(sci.eq(&d));
        let eng = parse(&d.to_engineering_notation());
        assert!(eng.eq(&d));
        k += 1;
    }
}

#[test]
fn parse_str_unwraps() {
    let d = Decimal::parse_str("42.5", ctx());
    assert_eq!(d.digits(), 425);
    assert_eq!(d.fractional_digits_count(), 1);
}

#[test]
fn digits_count_views() {
    let d = parse("123.45");
    assert_eq!(d.digits_count(), 5);
    assert_eq!(parse("0").digits_count(), 1);
}
