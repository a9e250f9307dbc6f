use vstd::prelude::*;

verus! {

/// The sticky signal flags of an operation chain.
///
/// Each flag records that an exceptional arithmetic condition occurred at some
/// point since the flags were last cleared; operations only ever add flags
/// (`combine`), and a caller inspects or quiets them explicitly.
#[derive(Clone, Copy, PartialEq, Eq, Debug, Structural)]
pub struct Signals {
    /// The exponent was forcibly bounded into the representable range.
    pub clamped: bool,
    /// A finite operand was divided by zero.
    pub div_by_zero: bool,
    /// A result lost precision.
    pub inexact: bool,
    /// An operation had no meaningful result (for instance `0 × ∞`).
    pub invalid: bool,
    /// A result exceeded the largest representable magnitude.
    pub overflow: bool,
    /// Rounding was applied, whether or not precision was lost.
    pub rounded: bool,
    /// A result fell below the normal-number threshold.
    pub subnormal: bool,
    /// A result fell below the smallest representable magnitude.
    pub underflow: bool,
}

impl Signals {
    /// The signal set with every flag clear.
    pub open spec fn spec_empty() -> Signals {
        Signals {
            clamped: false,
            div_by_zero: false,
            inexact: false,
            invalid: false,
            overflow: false,
            rounded: false,
            subnormal: false,
            underflow: false,
        }
    }

    /// No flag is raised.
    pub open spec fn spec_is_empty(self) -> bool {
        self == Signals::spec_empty()
    }

    /// The flag-wise union of two signal sets.
    pub open spec fn spec_combine(self, other: Signals) -> Signals {
        Signals {
            clamped: self.clamped || other.clamped,
            div_by_zero: self.div_by_zero || other.div_by_zero,
            inexact: self.inexact || other.inexact,
            invalid: self.invalid || other.invalid,
            overflow: self.overflow || other.overflow,
            rounded: self.rounded || other.rounded,
            subnormal: self.subnormal || other.subnormal,
            underflow: self.underflow || other.underflow,
        }
    }

    /// The flag-wise intersection of two signal sets.
    pub open spec fn spec_intersect(self, other: Signals) -> Signals {
        Signals {
            clamped: self.clamped && other.clamped,
            div_by_zero: self.div_by_zero && other.div_by_zero,
            inexact: self.inexact && other.inexact,
            invalid: self.invalid && other.invalid,
            overflow: self.overflow && other.overflow,
            rounded: self.rounded && other.rounded,
            subnormal: self.subnormal && other.subnormal,
            underflow: self.underflow && other.underflow,
        }
    }

    /// Creates the empty signal set.
    pub fn empty() -> (r: Signals)
        ensures
            r == Signals::spec_empty(),
    {
        Signals {
            clamped: false,
            div_by_zero: false,
            inexact: false,
            invalid: false,
            overflow: false,
            rounded: false,
            subnormal: false,
            underflow: false,
        }
    }

    /// True when no flag is raised.
    pub fn is_empty(&self) -> (r: bool)
        ensures
            r == self.spec_is_empty(),
    {
        !(self.clamped || self.div_by_zero || self.inexact || self.invalid || self.overflow
            || self.rounded || self.subnormal || self.underflow)
    }

    /// The union of this signal set with `other`.
    pub fn combine(self, other: Signals) -> (r: Signals)
        ensures
            r == self.spec_combine(other),
    {
        Signals {
            clamped: self.clamped || other.clamped,
            div_by_zero: self.div_by_zero || other.div_by_zero,
            inexact: self.inexact || other.inexact,
            invalid: self.invalid || other.invalid,
            overflow: self.overflow || other.overflow,
            rounded: self.rounded || other.rounded,
            subnormal: self.subnormal || other.subnormal,
            underflow: self.underflow || other.underflow,
        }
    }

    /// The intersection of this signal set with `other`.
    pub fn intersect(self, other: Signals) -> (r: Signals)
        ensures
            r == self.spec_intersect(other),
    {
        Signals {
            clamped: self.clamped && other.clamped,
            div_by_zero: self.div_by_zero && other.div_by_zero,
            inexact: self.inexact && other.inexact,
            invalid: self.invalid && other.invalid,
            overflow: self.overflow && other.overflow,
            rounded: self.rounded && other.rounded,
            subnormal: self.subnormal && other.subnormal,
            underflow: self.underflow && other.underflow,
        }
    }

    /// This signal set with the clamped flag raised.
    pub fn with_clamped(self) -> (r: Signals)
        ensures
            r == (Signals { clamped: true, ..self }),
    {
        Signals { clamped: true, ..self }
    }

    /// This signal set with the division-by-zero flag raised.
    pub fn with_div_by_zero(self) -> (r: Signals)
        ensures
            r == (Signals { div_by_zero: true, ..self }),
    {
        Signals { div_by_zero: true, ..self }
    }

    /// This signal set with the inexact flag raised.
    pub fn with_inexact(self) -> (r: Signals)
        ensures
            r == (Signals { inexact: true, ..self }),
    {
        Signals { inexact: true, ..self }
    }

    /// This signal set with the invalid-operation flag raised.
    pub fn with_invalid(self) -> (r: Signals)
        ensures
            r == (Signals { invalid: true, ..self }),
    {
        Signals { invalid: true, ..self }
    }

    /// This signal set with the overflow flag raised.
    pub fn with_overflow(self) -> (r: Signals)
        ensures
            r == (Signals { overflow: true, ..self }),
    {
        Signals { overflow: true, ..self }
    }

    /// This signal set with the rounded flag raised.
    pub fn with_rounded(self) -> (r: Signals)
        ensures
            r == (Signals { rounded: true, ..self }),
    {
        Signals { rounded: true, ..self }
    }

    /// This signal set with the subnormal flag raised.
    pub fn with_subnormal(self) -> (r: Signals)
        ensures
            r == (Signals { subnormal: true, ..self }),
    {
        Signals { subnormal: true, ..self }
    }

    /// This signal set with the underflow flag raised.
    pub fn with_underflow(self) -> (r: Signals)
        ensures
            r == (Signals { underflow: true, ..self }),
    {
        Signals { underflow: true, ..self }
    }
}

} // verus!
