use vstd::prelude::*;
use crate::construct::{construct, construct_spec};
use crate::context::Context;
use crate::decimal::Decimal;
use crate::errors::ParseError;
use crate::extra_precision::ExtraPrecision;
use crate::sign::Sign;
use vstd::string::StringSliceAdditionalSpecFns;
use crate::signals::Signals;

verus! {

/// An ASCII decimal digit.
pub open spec fn is_digit(b: u8) -> bool {
    48 <= b <= 57
}

/// One byte at a time, the mantissa part of a decimal literal: digits with
/// at most one point among them, ending at the string's end or at an
/// exponent marker. The result is the coefficient, the count of fractional
/// digits, and the index just past the marker (the string length when none).
pub open spec fn parse_mantissa_spec(
    s: Seq<u8>,
    i: int,
    acc: u128,
    seen: bool,
    dot: bool,
    frac: u32,
) -> Result<(u128, u32, int, bool), ParseError>
    decreases s.len() - i,
{
    if i < 0 || i >= s.len() {
        if !seen {
            Err(ParseError::InvalidLiteral)
        } else {
            Ok((acc, frac, s.len() as int, false))
        }
    } else {
        let b = s[i];
        if is_digit(b) {
            let d = (b - 48) as u128;
            if acc <= (u128::MAX - d) / 10 && frac < u32::MAX {
                parse_mantissa_spec(
                    s,
                    i + 1,
                    (acc * 10 + d) as u128,
                    true,
                    dot,
                    if dot {
                        (frac + 1) as u32
                    } else {
                        frac
                    },
                )
            } else {
                Err(ParseError::PosOverflow)
            }
        } else if b == 46 {
            if dot {
                Err(ParseError::InvalidLiteral)
            } else {
                parse_mantissa_spec(s, i + 1, acc, seen, true, frac)
            }
        } else if b == 101 || b == 69 {
            if !seen {
                Err(ParseError::InvalidLiteral)
            } else {
                Ok((acc, frac, i + 1, true))
            }
        } else {
            Err(ParseError::InvalidLiteral)
        }
    }
}

/// One byte at a time, the magnitude of the exponent part: plain digits,
/// rejected early once they could no longer denote a representable exponent.
pub open spec fn parse_exp_spec(s: Seq<u8>, i: int, acc: u32, seen: bool) -> Result<
    u32,
    ParseError,
>
    decreases s.len() - i,
{
    if i < 0 || i >= s.len() {
        if !seen {
            Err(ParseError::InvalidLiteral)
        } else {
            Ok(acc)
        }
    } else if is_digit(s[i]) {
        if acc > 100_000 {
            Err(ParseError::ExponentOverflow)
        } else {
            parse_exp_spec(s, i + 1, (acc * 10 + (s[i] - 48)) as u32, true)
        }
    } else {
        Err(ParseError::InvalidLiteral)
    }
}

/// An exponent pinned into the band that `construct` distinguishes: every
/// value beyond the representable range behaves like the band's edge.
pub open spec fn clamp_exp_spec(e: int) -> int {
    if e > 40_000 {
        40_000
    } else if e < -40_000 {
        -40_000
    } else {
        e
    }
}

/// The decimal denoted by an ASCII literal: an optional sign, a mantissa of
/// digits with at most one point, and an optional exponent part after `e` or
/// `E` with its own optional sign. The value is built by `construct` from
/// the coefficient and the exponent net of fractional digits.
pub open spec fn parse_spec(s: Seq<u8>, ctx: Context) -> Result<Decimal, ParseError> {
    if s.len() == 0 {
        Err(ParseError::Empty)
    } else {
        let sign = if s[0] == 45 {
            Sign::Minus
        } else {
            Sign::Plus
        };
        let start: int = if s[0] == 45 || s[0] == 43 {
            1
        } else {
            0
        };
        match parse_mantissa_spec(s, start, 0, false, false, 0) {
            Err(e) => Err(e),
            Ok((coeff, frac, next, has_exp)) => {
                if !has_exp {
                    Ok(
                        construct_spec(
                            coeff,
                            clamp_exp_spec(-(frac as int)),
                            sign,
                            Signals::spec_empty(),
                            ctx,
                            ExtraPrecision::spec_empty(),
                        ),
                    )
                } else {
                    let eneg = next < s.len() && s[next] == 45;
                    let estart: int = if next < s.len() && (s[next] == 45 || s[next] == 43) {
                        next + 1
                    } else {
                        next
                    };
                    match parse_exp_spec(s, estart, 0, false) {
                        Err(e) => Err(e),
                        Ok(em) => Ok(
                            construct_spec(
                                coeff,
                                clamp_exp_spec(
                                    (if eneg {
                                        -(em as int)
                                    } else {
                                        em as int
                                    }) - frac as int,
                                ),
                                sign,
                                Signals::spec_empty(),
                                ctx,
                                ExtraPrecision::spec_empty(),
                            ),
                        ),
                    }
                }
            },
        }
    }
}

/// Parses a decimal from ASCII bytes.
#[verifier::loop_isolation(false)]
#[verifier::rlimit(100)]
pub fn from_slice(s: &[u8], ctx: Context) -> (r: Result<Decimal, ParseError>)
    ensures
        r == parse_spec(s@, ctx),
        r matches Ok(d) ==> d.wf(),
{
    let n = s.len();
    if n == 0 {
        return Err(ParseError::Empty);
    }
    let first = s[0];
    let sign = if first == 45 {
        Sign::Minus
    } else {
        Sign::Plus
    };
    let start: usize = if first == 45 || first == 43 {
        1
    } else {
        0
    };
    let mut i: usize = start;
    let mut acc: u128 = 0;
    let mut seen = false;
    let mut dot = false;
    let mut frac: u32 = 0;
    let mut next: usize = n;
    let mut has_exp = false;
    let mut failed: Option<ParseError> = None;
    while i < n && failed.is_none() && !has_exp
        invariant
            start <= i <= n,
            n == s@.len(),
            failed is None && !has_exp ==> parse_mantissa_spec(s@, start as int, 0, false, false, 0)
                == parse_mantissa_spec(s@, i as int, acc, seen, dot, frac),
            failed matches Some(e) ==> parse_mantissa_spec(s@, start as int, 0, false, false, 0)
                == Err::<(u128, u32, int, bool), ParseError>(e),
            has_exp && failed is None ==> parse_mantissa_spec(s@, start as int, 0, false, false, 0)
                == Ok::<(u128, u32, int, bool), ParseError>((acc, frac, next as int, true)) && next
                == i && next <= n && seen,
        decreases n - i + (if failed is None && !has_exp { 1int } else { 0int }),
    {
        let b = s[i];
        if 48 <= b && b <= 57 {
            let d = (b - 48) as u128;
            if acc <= (u128::MAX - d) / 10 && frac < u32::MAX {
                acc = acc * 10 + d;
                seen = true;
                if dot {
                    frac = frac + 1;
                }
                i = i + 1;
            } else {
                failed = Some(ParseError::PosOverflow);
            }
        } else if b == 46 {
            if dot {
                failed = Some(ParseError::InvalidLiteral);
            } else {
                dot = true;
                i = i + 1;
            }
        } else if b == 101 || b == 69 {
            if !seen {
                failed = Some(ParseError::InvalidLiteral);
            } else {
                i = i + 1;
                next = i;
                has_exp = true;
            }
        } else {
            failed = Some(ParseError::InvalidLiteral);
        }
    }
    if let Some(e) = failed {
        return Err(e);
    }
    if !seen {
        return Err(ParseError::InvalidLiteral);
    }
    if !has_exp {
        let exp = clamp_exp(-(frac as i64));
        return Ok(
            construct(acc, exp, sign, Signals::empty(), ctx, ExtraPrecision::new()),
        );
    }
    // Exponent part.
    let mut eneg = false;
    let mut estart: usize = next;
    if next < n && (s[next] == 45 || s[next] == 43) {
        eneg = s[next] == 45;
        estart = next + 1;
    }
    let mut j: usize = estart;
    let mut em: u32 = 0;
    let mut eseen = false;
    let mut efail: Option<ParseError> = None;
    while j < n && efail.is_none()
        invariant
            estart <= j <= n,
            n == s@.len(),
            em <= 1_000_009,
            efail is None ==> parse_exp_spec(s@, estart as int, 0, false) == parse_exp_spec(
                s@,
                j as int,
                em,
                eseen,
            ),
            efail matches Some(e) ==> parse_exp_spec(s@, estart as int, 0, false) == Err::<
                u32,
                ParseError,
            >(e),
        decreases n - j + (if efail is None { 1int } else { 0int }),
    {
        let b = s[j];
        if 48 <= b && b <= 57 {
            if em > 100_000 {
                efail = Some(ParseError::ExponentOverflow);
            } else {
                em = em * 10 + ((b - 48) as u32);
                eseen = true;
                j = j + 1;
            }
        } else {
            efail = Some(ParseError::InvalidLiteral);
        }
    }
    if let Some(e) = efail {
        return Err(e);
    }
    if !eseen {
        return Err(ParseError::InvalidLiteral);
    }
    let esigned: i64 = if eneg {
        -(em as i64)
    } else {
        em as i64
    };
    let exp = clamp_exp(esigned - frac as i64);
    Ok(construct(acc, exp, sign, Signals::empty(), ctx, ExtraPrecision::new()))
}

/// Pins an exponent into the band that `construct` distinguishes.
fn clamp_exp(e: i64) -> (r: i32)
    ensures
        r as int == clamp_exp_spec(e as int),
{
    if e > 40_000 {
        40_000
    } else if e < -40_000 {
        -40_000
    } else {
        e as i32
    }
}

impl Decimal {
    /// Parses a decimal from a string under the given context: an optional
    /// sign, digits with at most one point, and an optional exponent part.
    pub fn from_str(s: &str, ctx: Context) -> (r: Result<Decimal, ParseError>)
        ensures
            r == parse_spec(s.spec_bytes(), ctx),
            r matches Ok(d) ==> d.wf(),
    {
        from_slice(s.as_bytes(), ctx)
    }

    /// Parses a decimal from a string that is known to be well formed;
    /// callers must establish that the literal parses.
    pub fn parse_str(s: &str, ctx: Context) -> (r: Decimal)
        requires
            parse_spec(s.spec_bytes(), ctx) is Ok,
        ensures
            Ok::<Decimal, ParseError>(r) == parse_spec(s.spec_bytes(), ctx),
            r.wf(),
    {
        match Decimal::from_str(s, ctx) {
            Ok(d) => d,
            Err(_) => Decimal::nan(),
        }
    }
}

} // verus!
