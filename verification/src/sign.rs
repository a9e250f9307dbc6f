use vstd::prelude::*;

verus! {

/// Sign of a decimal number: zero is signed, so `Plus` and `Minus` zeros both
/// exist and compare equal in value.
#[derive(Clone, Copy, PartialEq, Eq, Debug, Structural)]
pub enum Sign {
    Plus,
    Minus,
}

impl Sign {
    /// The sign of a product or quotient of two operands with these signs.
    pub fn mul(self, other: Sign) -> (r: Sign)
        ensures
            r == Sign::Plus <==> self == other,
    {
        match (self, other) {
            (Sign::Plus, Sign::Plus) => Sign::Plus,
            (Sign::Minus, Sign::Minus) => Sign::Plus,
            _ => Sign::Minus,
        }
    }

    /// The opposite sign.
    pub fn negate(self) -> (r: Sign)
        ensures
            r != self,
    {
        match self {
            Sign::Plus => Sign::Minus,
            Sign::Minus => Sign::Plus,
        }
    }

    /// True for `Minus`.
    pub fn is_negative(self) -> (r: bool)
        ensures
            r == (self == Sign::Minus),
    {
        matches!(self, Sign::Minus)
    }

    /// `-1` for `Minus`, `+1` for `Plus`, as the factor of the magnitude.
    pub open spec fn factor(self) -> int {
        if self == Sign::Minus {
            -1
        } else {
            1
        }
    }
}

} // verus!
