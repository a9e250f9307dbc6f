use vstd::prelude::*;
use crate::decimal::Decimal;
use crate::errors::DecimalError;
use crate::intrinsics::{pow10, pow10_u128};
use crate::sign::Sign;

verus! {

/// Largest mantissa of the 96-bit compact layout.
pub const MAX_COMPACT_MANTISSA: u128 = 0xFFFF_FFFF_FFFF_FFFF_FFFF_FFFF;

/// Largest scale of the 96-bit compact layout.
pub const MAX_COMPACT_SCALE: u32 = 28;

/// The mantissa a finite decimal carries in the compact layout: a negative
/// scale is folded into the coefficient as trailing zeros.
pub open spec fn compact_mantissa_spec(d: Decimal) -> nat {
    if d.cb.scale < 0 {
        (d.digits * pow10((-(d.cb.scale as int)) as nat)) as nat
    } else {
        d.digits as nat
    }
}

impl Decimal {
    /// The value decomposed for a 96-bit mantissa-and-scale layout: the
    /// mantissa as three 32-bit words from the low end up, the sign, and the
    /// nonnegative scale. Non-finite values are invalid; a mantissa or scale
    /// beyond the layout's range overflows.
    pub fn to_compact_parts(&self) -> (r: Result<(u32, u32, u32, bool, u32), DecimalError>)
        ensures
            !self.is_finite_spec() ==> r == Err::<(u32, u32, u32, bool, u32), DecimalError>(
                DecimalError::Invalid,
            ),
            self.is_finite_spec() && (compact_mantissa_spec(*self) > MAX_COMPACT_MANTISSA
                || self.cb.scale > MAX_COMPACT_SCALE) ==> r == Err::<
                (u32, u32, u32, bool, u32),
                DecimalError,
            >(DecimalError::Overflow),
            self.is_finite_spec() && compact_mantissa_spec(*self) <= MAX_COMPACT_MANTISSA
                && self.cb.scale <= MAX_COMPACT_SCALE ==> (r matches Ok(p)
                && p.0 + p.1 * 0x1_0000_0000u64 + p.2 * 0x1_0000_0000_0000_0000u128
                    == compact_mantissa_spec(*self) && p.3 == (self.cb.sign
                == Sign::Minus) && p.4 == (if self.cb.scale >= 0 {
                self.cb.scale as u32
            } else {
                0u32
            })),
    {
        if !self.is_finite() {
            return Err(DecimalError::Invalid);
        }
        let scale = self.cb.get_scale();
        let mantissa: u128 = if scale < 0 && self.digits != 0 {
            let p = match pow10_u128((-(scale as i32)) as u32) {
                Some(p) => p,
                None => {
                    proof {
                        lemma_mantissa_overflows(self.digits as nat, (-(scale as int)) as nat);
                    }
                    return Err(DecimalError::Overflow);
                },
            };
            match self.digits.checked_mul(p) {
                Some(m) => m,
                None => {
                    return Err(DecimalError::Overflow);
                },
            }
        } else {
            proof {
                if self.cb.scale < 0 {
                    assert(0 * pow10((-(self.cb.scale as int)) as nat) == 0) by (nonlinear_arith);
                }
            }
            self.digits
        };
        if mantissa > MAX_COMPACT_MANTISSA {
            return Err(DecimalError::Overflow);
        }
        if scale > MAX_COMPACT_SCALE as i16 {
            return Err(DecimalError::Overflow);
        }
        let lo = (mantissa % 0x1_0000_0000) as u32;
        let mid = ((mantissa / 0x1_0000_0000) % 0x1_0000_0000) as u32;
        let hi = (mantissa / 0x1_0000_0000_0000_0000) as u32;
        let neg = self.cb.is_negative();
        let sc: u32 = if scale >= 0 {
            scale as u32
        } else {
            0
        };
        proof {
            lemma_split_96(mantissa);
        }
        Ok((lo, mid, hi, neg, sc))
    }
}

/// When a decimal's coefficient is nonzero, a negative-scale fold past the
/// coefficient width also passes the 96-bit bound; a zero coefficient never
/// does, but then the fold cannot overflow either.
proof fn lemma_mantissa_overflows(c: nat, k: nat)
    requires
        pow10(k) > u128::MAX,
    ensures
        c >= 1 ==> c * pow10(k) > MAX_COMPACT_MANTISSA,
        c == 0 ==> c * pow10(k) == 0,
{
    if c >= 1 {
        crate::intrinsics::lemma_pow10_pos(k);
        assert(c * pow10(k) >= 1 * pow10(k)) by (nonlinear_arith)
            requires
                c >= 1,
                pow10(k) >= 1,
        ;
    } else {
        assert(0 * pow10(k) == 0) by (nonlinear_arith);
    }
}

/// A 96-bit mantissa splits exactly into its three 32-bit words.
proof fn lemma_split_96(m: u128)
    requires
        m <= MAX_COMPACT_MANTISSA,
    ensures
        (m % 0x1_0000_0000) + ((m / 0x1_0000_0000) % 0x1_0000_0000) * 0x1_0000_0000u64 + (m
            / 0x1_0000_0000_0000_0000) * 0x1_0000_0000_0000_0000u128 == m,
        m / 0x1_0000_0000_0000_0000 <= 0xFFFF_FFFF,
{
    let b: int = 0x1_0000_0000;
    let q1 = m as int / b;
    let r1 = m as int % b;
    let q2 = q1 / b;
    let r2 = q1 % b;
    vstd::arithmetic::div_mod::lemma_fundamental_div_mod(m as int, b);
    vstd::arithmetic::div_mod::lemma_fundamental_div_mod(q1, b);
    vstd::arithmetic::div_mod::lemma_mod_bound(m as int, b);
    vstd::arithmetic::div_mod::lemma_mod_bound(q1, b);
    assert(b * (b * q2 + r2) == (b * b) * q2 + b * r2) by (nonlinear_arith);
    vstd::arithmetic::div_mod::lemma_div_denominator(m as int, b, b);
    assert(m as int / b / b == m as int / 0x1_0000_0000_0000_0000);
    assert(r1 + r2 * b + q2 * 0x1_0000_0000_0000_0000 == m);
    vstd::arithmetic::div_mod::lemma_div_is_ordered(
        m as int,
        MAX_COMPACT_MANTISSA as int,
        0x1_0000_0000_0000_0000,
    );
}

} // verus!
