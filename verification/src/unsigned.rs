use vstd::prelude::*;
use crate::context::Context;
use crate::decimal::Decimal;
use crate::errors::{DecimalError, ParseError};
use crate::parse::parse_spec;
use crate::sign::Sign;
use vstd::string::StringSliceAdditionalSpecFns;

verus! {

/// An unsigned decimal number: a decimal whose sign is kept nonnegative.
#[derive(Clone, Copy, PartialEq, Eq, Debug, Structural)]
pub struct UnsignedDecimal(pub Decimal);

impl UnsignedDecimal {
    /// Wraps a decimal already known to carry a plus sign.
    pub fn new(d: Decimal) -> (r: UnsignedDecimal)
        requires
            d.cb.sign == Sign::Plus,
        ensures
            r.0 == d,
    {
        UnsignedDecimal(d)
    }

    /// The unsigned zero.
    pub fn zero() -> (r: UnsignedDecimal)
        ensures
            r.0 == (Decimal {
                digits: 0,
                cb: crate::control_block::ControlBlock::spec_basic(0, Sign::Plus),
            }),
    {
        UnsignedDecimal(Decimal::zero())
    }

    /// The unsigned one.
    pub fn one() -> (r: UnsignedDecimal)
        ensures
            r.0 == (Decimal {
                digits: 1,
                cb: crate::control_block::ControlBlock::spec_basic(0, Sign::Plus),
            }),
    {
        UnsignedDecimal(Decimal::one())
    }

    /// The value as a signed decimal.
    pub fn to_signed(self) -> (r: Decimal)
        ensures
            r == self.0,
    {
        self.0
    }

    /// Wraps a signed decimal, or reports an invalid operation for a
    /// negative sign.
    pub fn try_from_signed(d: Decimal) -> (r: Result<UnsignedDecimal, DecimalError>)
        ensures
            d.cb.sign == Sign::Plus ==> r == Ok::<UnsignedDecimal, DecimalError>(
                UnsignedDecimal(d),
            ),
            d.cb.sign != Sign::Plus ==> r == Err::<UnsignedDecimal, DecimalError>(
                DecimalError::Invalid,
            ),
    {
        if matches!(d.cb.sign, Sign::Plus) {
            Ok(UnsignedDecimal(d))
        } else {
            Err(DecimalError::Invalid)
        }
    }

    /// The negated value, as a signed decimal.
    pub fn neg(self) -> (r: Decimal)
        ensures
            r == self.0.neg_spec(),
    {
        self.0.neg()
    }

    /// Parses an unsigned decimal: a sign of either kind is rejected.
    pub fn from_str(s: &str, ctx: Context) -> (r: Result<UnsignedDecimal, ParseError>)
        ensures
            s.spec_bytes().len() > 0 && (s.spec_bytes()[0] == 43 || s.spec_bytes()[0] == 45)
                ==> r == Err::<UnsignedDecimal, ParseError>(ParseError::Signed),
            !(s.spec_bytes().len() > 0 && (s.spec_bytes()[0] == 43 || s.spec_bytes()[0] == 45))
                ==> r == (match parse_spec(s.spec_bytes(), ctx) {
                Ok(d) => Ok::<UnsignedDecimal, ParseError>(UnsignedDecimal(d)),
                Err(e) => Err::<UnsignedDecimal, ParseError>(e),
            }),
    {
        let b = s.as_bytes();
        if b.len() > 0 && (b[0] == 43 || b[0] == 45) {
            return Err(ParseError::Signed);
        }
        match Decimal::from_str(s, ctx) {
            Ok(d) => Ok(UnsignedDecimal(d)),
            Err(e) => Err(e),
        }
    }

    /// The coefficient of the wrapped value.
    pub fn digits(&self) -> (r: u128)
        ensures
            r == self.0.digits,
    {
        self.0.digits
    }

    /// The scale of the wrapped value.
    pub fn fractional_digits_count(&self) -> (r: i16)
        ensures
            r == self.0.cb.scale,
    {
        self.0.cb.scale
    }

    /// True for a finite wrapped value.
    pub fn is_finite(&self) -> (r: bool)
        ensures
            r == self.0.is_finite_spec(),
    {
        self.0.is_finite()
    }

    /// True for a NaN wrapped value.
    pub fn is_nan(&self) -> (r: bool)
        ensures
            r == self.0.is_nan_spec(),
    {
        self.0.is_nan()
    }

    /// True for a zero wrapped value.
    pub fn is_zero(&self) -> (r: bool)
        ensures
            r == self.0.is_zero_spec(),
    {
        self.0.is_zero()
    }

    /// The sum of two unsigned decimals.
    pub fn add(self, rhs: UnsignedDecimal) -> (r: UnsignedDecimal)
        requires
            self.0.wf(),
            rhs.0.wf(),
        ensures
            r.0 == crate::round::round_spec(crate::math::add::add_spec(self.0, rhs.0)),
    {
        UnsignedDecimal(self.0.add(rhs.0))
    }

    /// The product of two unsigned decimals; neither may carry pending guard
    /// digits.
    pub fn mul(self, rhs: UnsignedDecimal) -> (r: UnsignedDecimal)
        requires
            self.0.wf(),
            rhs.0.wf(),
            self.0.no_extra_spec(),
            rhs.0.no_extra_spec(),
        ensures
            r.0 == crate::round::round_spec(crate::math::mul::mul_spec(self.0, rhs.0)),
    {
        UnsignedDecimal(self.0.mul(rhs.0))
    }

    /// The quotient of two unsigned decimals.
    pub fn div(self, rhs: UnsignedDecimal) -> (r: UnsignedDecimal)
        requires
            self.0.wf(),
            rhs.0.wf(),
        ensures
            r.0 == crate::round::round_spec(crate::math::div::div_spec(self.0, rhs.0)),
    {
        UnsignedDecimal(self.0.div(rhs.0))
    }

    /// The order of two unsigned decimals, as for the signed type.
    pub fn cmp(&self, other: &UnsignedDecimal) -> (r: core::cmp::Ordering)
        requires
            self.0.wf(),
            other.0.wf(),
        ensures
            self.0.no_extra_spec() && other.0.no_extra_spec() ==> r == crate::cmp::cmp_spec(
                self.0,
                other.0,
            ),
    {
        self.0.cmp(&other.0)
    }

    /// Value equality, as for the signed type.
    pub fn eq(&self, other: &UnsignedDecimal) -> (r: bool)
        requires
            self.0.wf(),
            other.0.wf(),
        ensures
            self.0.is_nan_spec() || other.0.is_nan_spec() ==> r == false,
            !self.0.is_nan_spec() && !other.0.is_nan_spec() && self.0.no_extra_spec()
                && other.0.no_extra_spec() ==> r == (crate::cmp::cmp_spec(self.0, other.0)
                == core::cmp::Ordering::Equal),
    {
        self.0.eq(&other.0)
    }

    /// The plain rendering of the wrapped value.
    pub fn to_string(&self) -> (r: String)
        ensures
            r@ == crate::format::display_chars_spec(self.0),
    {
        self.0.to_string()
    }
}

impl Decimal {
    /// The absolute value, as an unsigned decimal.
    pub fn unsigned_abs(self) -> (r: UnsignedDecimal)
        ensures
            r.0 == (Decimal {
                digits: self.digits,
                cb: crate::control_block::ControlBlock { sign: Sign::Plus, ..self.cb },
            }),
    {
        UnsignedDecimal::new(self.abs())
    }

    /// A signed view of an unsigned decimal.
    pub fn from_unsigned(ud: UnsignedDecimal) -> (r: Decimal)
        ensures
            r == ud.0,
    {
        ud.to_signed()
    }

    /// The value as an unsigned decimal, or an invalid-operation error for a
    /// negative sign.
    pub fn try_to_unsigned(self) -> (r: Result<UnsignedDecimal, DecimalError>)
        ensures
            self.cb.sign == Sign::Plus ==> r == Ok::<UnsignedDecimal, DecimalError>(
                UnsignedDecimal(self),
            ),
            self.cb.sign != Sign::Plus ==> r == Err::<UnsignedDecimal, DecimalError>(
                DecimalError::Invalid,
            ),
    {
        UnsignedDecimal::try_from_signed(self)
    }
}

} // verus!
