use vstd::prelude::*;
use crate::decimal::Decimal;

verus! {

/// Why a string could not be parsed as a decimal.
#[derive(Clone, Copy, PartialEq, Eq, Debug, Structural)]
pub enum ParseError {
    /// The string was empty.
    Empty,
    /// A character was invalid in its position.
    InvalidLiteral,
    /// The coefficient was too large for the type.
    PosOverflow,
    /// The coefficient was too small for the type.
    NegOverflow,
    /// The exponent was too large for the type.
    ExponentOverflow,
    /// A sign appeared where the unsigned type allows none.
    Signed,
    /// A radix other than ten was asked for.
    InvalidRadix,
    /// No more precise cause is known.
    Unknown,
}

impl ParseError {
    /// A short description of the failure.
    pub fn description(&self) -> (r: &'static str) {
        match self {
            ParseError::Empty => "cannot parse decimal from empty string",
            ParseError::InvalidLiteral => "invalid literal found in string",
            ParseError::PosOverflow => "number too large to fit in target type",
            ParseError::NegOverflow => "number too small to fit in target type",
            ParseError::Signed => "number would be signed for unsigned type",
            ParseError::InvalidRadix => "radix for decimal must be 10",
            ParseError::ExponentOverflow => "exponent is too large to fit in target type",
            ParseError::Unknown => "unknown error",
        }
    }
}

/// A trapped signal, reported as an error by `ok_or_err`.
#[derive(Clone, Copy, PartialEq, Eq, Debug, Structural)]
pub enum DecimalError {
    /// The clamped signal was raised and trapped.
    Clamped,
    /// The division-by-zero signal was raised and trapped.
    DivByZero,
    /// The inexact signal was raised and trapped.
    Inexact,
    /// The invalid-operation signal was raised and trapped.
    Invalid,
    /// The overflow signal was raised and trapped.
    Overflow,
    /// The rounded signal was raised and trapped.
    Rounded,
    /// The subnormal signal was raised and trapped.
    Subnormal,
    /// The underflow signal was raised and trapped.
    Underflow,
}

/// The first trapped signal of a decimal, in the fixed reporting order, if
/// any is raised.
pub open spec fn first_trap_spec(d: Decimal) -> Option<DecimalError> {
    let t = d.cb.signals.spec_intersect(d.cb.ctx.traps);
    if t.invalid {
        Some(DecimalError::Invalid)
    } else if t.div_by_zero {
        Some(DecimalError::DivByZero)
    } else if t.overflow {
        Some(DecimalError::Overflow)
    } else if t.underflow {
        Some(DecimalError::Underflow)
    } else if t.subnormal {
        Some(DecimalError::Subnormal)
    } else if t.clamped {
        Some(DecimalError::Clamped)
    } else if t.inexact {
        Some(DecimalError::Inexact)
    } else if t.rounded {
        Some(DecimalError::Rounded)
    } else {
        None
    }
}

impl Decimal {
    /// The value, or the first trapped signal as an error.
    pub fn ok_or_err(self) -> (r: Result<Decimal, DecimalError>)
        ensures
            r == (match first_trap_spec(self) {
                Some(e) => Err::<Decimal, DecimalError>(e),
                None => Ok::<Decimal, DecimalError>(self),
            }),
    {
        let t = self.cb.trap_signals();
        if t.invalid {
            Err(DecimalError::Invalid)
        } else if t.div_by_zero {
            Err(DecimalError::DivByZero)
        } else if t.overflow {
            Err(DecimalError::Overflow)
        } else if t.underflow {
            Err(DecimalError::Underflow)
        } else if t.subnormal {
            Err(DecimalError::Subnormal)
        } else if t.clamped {
            Err(DecimalError::Clamped)
        } else if t.inexact {
            Err(DecimalError::Inexact)
        } else if t.rounded {
            Err(DecimalError::Rounded)
        } else {
            Ok(self)
        }
    }

    /// Passes the value through after checking that no raised signal is
    /// trapped; callers must establish that before calling.
    pub fn check(self) -> (r: Decimal)
        requires
            first_trap_spec(self) is None,
        ensures
            r == self,
    {
        self
    }
}

impl DecimalError {
    /// A short description of the trapped signal.
    pub fn description(&self) -> (r: &'static str) {
        match self {
            DecimalError::Clamped => "the exponent was clamped",
            DecimalError::DivByZero => "division by zero",
            DecimalError::Inexact => "the result is inexact",
            DecimalError::Invalid => "invalid operation",
            DecimalError::Overflow => "the result overflowed",
            DecimalError::Rounded => "the result was rounded",
            DecimalError::Subnormal => "the result is subnormal",
            DecimalError::Underflow => "the result underflowed",
        }
    }
}

} // verus!
