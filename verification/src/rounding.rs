use vstd::prelude::*;
use crate::sign::Sign;

verus! {

/// How a pending guard digit is folded back into the visible coefficient.
///
/// The mode travels inside every decimal's control block, so each value can be
/// configured independently.
#[derive(Clone, Copy, PartialEq, Eq, Debug, Structural)]
pub enum RoundingMode {
    /// Round away from zero whenever any precision is discarded.
    Up,
    /// Discard the guard digit; never round.
    Down,
    /// Round toward positive infinity.
    Ceiling,
    /// Round toward negative infinity.
    Floor,
    /// Round to nearest; ties away from zero.
    HalfUp,
    /// Round to nearest; ties toward zero.
    HalfDown,
    /// Round to nearest; ties to the neighbour with an even last digit.
    HalfEven,
}

impl RoundingMode {
    /// The default rounding mode, round-half-up.
    pub fn default_mode() -> (r: RoundingMode)
        ensures
            r == RoundingMode::HalfUp,
    {
        RoundingMode::HalfUp
    }
}

impl Default for RoundingMode {
    fn default() -> (r: Self)
        ensures
            r == RoundingMode::HalfUp,
    {
        RoundingMode::HalfUp
    }
}

/// Whether a coefficient with last-digit parity taken from `coeff`, sign
/// `sign` and pending guard digit `digit` must be incremented by one unit
/// under rounding mode `mode`. A zero guard digit never rounds.
pub open spec fn rounds_up(mode: RoundingMode, sign: Sign, digit: u8, coeff: u128) -> bool {
    digit != 0 && match mode {
        RoundingMode::Up => true,
        RoundingMode::Down => false,
        RoundingMode::Ceiling => sign != Sign::Minus,
        RoundingMode::Floor => sign == Sign::Minus,
        RoundingMode::HalfUp => digit >= 5,
        RoundingMode::HalfDown => digit > 5,
        RoundingMode::HalfEven => digit > 5 || (digit == 5 && coeff % 2 == 1),
    }
}

/// Executable twin of [`rounds_up`].
pub fn decide_round_up(mode: RoundingMode, sign: Sign, digit: u8, coeff: u128) -> (r: bool)
    ensures
        r == rounds_up(mode, sign, digit, coeff),
{
    digit != 0 && match mode {
        RoundingMode::Up => true,
        RoundingMode::Down => false,
        RoundingMode::Ceiling => !matches!(sign, Sign::Minus),
        RoundingMode::Floor => matches!(sign, Sign::Minus),
        RoundingMode::HalfUp => digit >= 5,
        RoundingMode::HalfDown => digit > 5,
        RoundingMode::HalfEven => digit > 5 || (digit == 5 && coeff % 2 == 1),
    }
}

} // verus!
