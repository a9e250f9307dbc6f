use vstd::prelude::*;
use crate::intrinsics::pow10;

verus! {

/// Capacity of the guard-digit register, in decimal digits.
pub const EXTRA_PRECISION_DIGITS: u32 = 7;

/// One past the largest value of the guard-digit register.
pub const EXTRA_PRECISION_CARRY: u64 = 10_000_000;

/// Value of the most significant guard digit.
pub const EXTRA_PRECISION_SCALE: u32 = 1_000_000;

/// The extra-precision register: up to seven decimal guard digits that sit
/// immediately below a decimal's visible scale.
///
/// The register works as a shift register ordered from the most significant
/// digit down: `digits` is the seven-digit block `d1 d2 d3 d4 d5 d6 d7`
/// standing for the fraction `0.d1d2d3d4d5d6d7` of one unit in the last
/// visible place, and `count` is how many of those digits have actually been
/// produced (at most seven).
#[derive(Clone, Copy, PartialEq, Eq, Debug, Structural)]
pub struct ExtraPrecision {
    /// The guard digits, as one integer below ten million.
    pub digits: u32,
    /// How many guard digits have been recorded, at most seven.
    pub count: u32,
}

impl ExtraPrecision {
    /// Structural invariant: the register holds at most seven digits.
    pub open spec fn wf(self) -> bool {
        self.digits < EXTRA_PRECISION_CARRY && self.count <= EXTRA_PRECISION_DIGITS
    }

    /// The empty register.
    pub open spec fn spec_empty() -> ExtraPrecision {
        ExtraPrecision { digits: 0, count: 0 }
    }

    /// True when no guard digit is recorded.
    pub open spec fn spec_is_empty(self) -> bool {
        self.digits == 0 && self.count == 0
    }

    /// Creates an empty register.
    pub fn new() -> (r: ExtraPrecision)
        ensures
            r == ExtraPrecision::spec_empty(),
            r.wf(),
    {
        ExtraPrecision { digits: 0, count: 0 }
    }

    /// The guard digits as one integer below ten million.
    pub fn digits(&self) -> (r: u64)
        ensures
            r == self.digits,
    {
        self.digits as u64
    }

    /// How many guard digits the register holds.
    pub fn count(&self) -> (r: u32)
        ensures
            r == self.count,
    {
        self.count
    }

    /// True when no guard digit is recorded.
    pub fn is_empty(&self) -> (r: bool)
        ensures
            r == self.spec_is_empty(),
    {
        self.digits == 0 && self.count == 0
    }

    /// The most significant guard digit, the one consulted by rounding.
    pub fn get_round_reminder(&self) -> (r: u8)
        requires
            self.wf(),
        ensures
            r == self.digits / EXTRA_PRECISION_SCALE,
            r <= 9,
    {
        (self.digits / EXTRA_PRECISION_SCALE) as u8
    }

    /// Builds a register directly from a digit block below ten million.
    pub fn from_digits(digits: u64) -> (r: ExtraPrecision)
        requires
            digits < EXTRA_PRECISION_CARRY,
        ensures
            r.digits == digits,
            r.count == count_digits_spec(digits as nat),
            r.wf(),
    {
        ExtraPrecision { digits: digits as u32, count: count_digits(digits) }
    }

    /// Structural invariant of a register filled from the top: only the
    /// `count` most significant positions hold digits.
    pub open spec fn top_aligned(self) -> bool {
        self.digits as nat % pow10((EXTRA_PRECISION_DIGITS - self.count) as nat) == 0
    }

    /// Appends the register `tail` below this register's recorded digits:
    /// the digits of `tail` fill the positions this register has not used.
    pub fn push_back(&mut self, tail: ExtraPrecision)
        requires
            old(self).wf(),
            old(self).top_aligned(),
            tail.wf(),
        ensures
            final(self).wf(),
            old(self).count < EXTRA_PRECISION_DIGITS ==> final(self).digits == old(self).digits
                + tail.digits as nat / pow10(old(self).count as nat),
            old(self).count < EXTRA_PRECISION_DIGITS ==> final(self).count == old(self).count
                + min_u32_spec((EXTRA_PRECISION_DIGITS - old(self).count) as u32, tail.count),
            old(self).count >= EXTRA_PRECISION_DIGITS ==> *final(self) == *old(self),
    {
        proof {
            lemma_pow10_small_table();
            lemma_push_back_digit_bound(old(self).digits as nat, tail.digits as nat,
                old(self).count as nat);
        }
        match self.count {
            0 => {
                proof {
                    vstd::arithmetic::div_mod::lemma_small_mod(old(self).digits as nat,
                        pow10(EXTRA_PRECISION_DIGITS as nat));
                    assert(old(self).digits == 0);
                    vstd::arithmetic::div_mod::lemma_div_basics_1(tail.digits as int);
                }
                self.digits = tail.digits;
                self.count = tail.count;
            },
            1 => {
                self.digits = self.digits + tail.digits / 10;
                self.count = self.count + min(6, tail.count);
            },
            2 => {
                self.digits = self.digits + tail.digits / 100;
                self.count = self.count + min(5, tail.count);
            },
            3 => {
                self.digits = self.digits + tail.digits / 1_000;
                self.count = self.count + min(4, tail.count);
            },
            4 => {
                self.digits = self.digits + tail.digits / 10_000;
                self.count = self.count + min(3, tail.count);
            },
            5 => {
                self.digits = self.digits + tail.digits / 100_000;
                self.count = self.count + min(2, tail.count);
            },
            6 => {
                self.digits = self.digits + tail.digits / 1_000_000;
                self.count = self.count + min(1, tail.count);
            },
            _ => {},
        }
    }

    /// Shifts one new most significant guard digit into the register; the
    /// least significant digit falls off the end.
    pub fn push_digit(&mut self, digit: u64)
        requires
            old(self).wf(),
            digit < 10,
        ensures
            final(self).wf(),
            final(self).digits == digit * EXTRA_PRECISION_SCALE + old(self).digits / 10,
            final(self).count == min_u32_spec((old(self).count + 1) as u32, EXTRA_PRECISION_DIGITS),
    {
        self.digits = (digit as u32) * EXTRA_PRECISION_SCALE + self.digits / 10;
        self.count = min(self.count + 1, EXTRA_PRECISION_DIGITS);
    }

    /// Adds the digit blocks of two registers; the result keeps the low
    /// seven digits and the returned flag reports a carry of one unit into
    /// the visible coefficient.
    pub fn overflowing_add(&mut self, other: ExtraPrecision) -> (carry: bool)
        requires
            old(self).wf(),
            other.wf(),
        ensures
            final(self).wf(),
            final(self).digits + (if carry { EXTRA_PRECISION_CARRY as nat } else { 0nat })
                == old(self).digits + other.digits,
            final(self).count == count_digits_spec(final(self).digits as nat),
            carry == (old(self).digits + other.digits >= EXTRA_PRECISION_CARRY),
    {
        let res: u64 = self.digits as u64 + other.digits as u64;
        if res >= EXTRA_PRECISION_CARRY {
            let res: u64 = res - EXTRA_PRECISION_CARRY;
            self.digits = res as u32;
            self.count = count_digits(res);
            true
        } else {
            self.digits = res as u32;
            self.count = count_digits(res);
            false
        }
    }

    /// Subtracts another register's digit block from this one; the returned
    /// flag reports a borrow of one unit from the visible coefficient.
    pub fn overflowing_sub(&mut self, other: ExtraPrecision) -> (borrow: bool)
        requires
            old(self).wf(),
            other.wf(),
        ensures
            final(self).wf(),
            final(self).digits as int == old(self).digits - other.digits
                + (if borrow { EXTRA_PRECISION_CARRY as int } else { 0int }),
            final(self).count == count_digits_spec(final(self).digits as nat),
            borrow == (old(self).digits < other.digits),
    {
        if self.digits >= other.digits {
            self.digits = self.digits - other.digits;
            self.count = count_digits(self.digits as u64);
            false
        } else {
            let res: u64 = EXTRA_PRECISION_CARRY - (other.digits - self.digits) as u64;
            self.digits = res as u32;
            self.count = count_digits(res);
            true
        }
    }
}

/// The smaller of two numbers.
pub open spec fn min_u32_spec(lhs: u32, rhs: u32) -> u32 {
    if lhs < rhs {
        lhs
    } else {
        rhs
    }
}

/// The smaller of two numbers.
pub fn min(lhs: u32, rhs: u32) -> (r: u32)
    ensures
        r == min_u32_spec(lhs, rhs),
{
    if lhs < rhs {
        lhs
    } else {
        rhs
    }
}

/// Number of decimal digits of a guard-digit block; zero has none.
pub open spec fn count_digits_spec(digits: nat) -> nat {
    if digits == 0 {
        0
    } else {
        crate::intrinsics::clength_spec(digits)
    }
}

/// Number of decimal digits of a guard-digit block; zero has none.
fn count_digits(digits: u64) -> (r: u32)
    requires
        digits < EXTRA_PRECISION_CARRY,
    ensures
        r == count_digits_spec(digits as nat),
        r <= EXTRA_PRECISION_DIGITS,
{
    proof {
        lemma_pow10_small_table();
    }
    if digits == 0 {
        0
    } else if digits >= 1_000_000 {
        proof {
            crate::intrinsics::lemma_clength_exact(digits as nat, 6);
        }
        7
    } else if digits >= 100_000 {
        proof {
            crate::intrinsics::lemma_clength_exact(digits as nat, 5);
        }
        6
    } else if digits >= 10_000 {
        proof {
            crate::intrinsics::lemma_clength_exact(digits as nat, 4);
        }
        5
    } else if digits >= 1_000 {
        proof {
            crate::intrinsics::lemma_clength_exact(digits as nat, 3);
        }
        4
    } else if digits >= 100 {
        proof {
            crate::intrinsics::lemma_clength_exact(digits as nat, 2);
        }
        3
    } else if digits >= 10 {
        proof {
            crate::intrinsics::lemma_clength_exact(digits as nat, 1);
        }
        2
    } else {
        proof {
            crate::intrinsics::lemma_clength_exact(digits as nat, 0);
        }
        1
    }
}

/// The values of the first few powers of ten.
pub proof fn lemma_pow10_small_table()
    ensures
        pow10(0) == 1,
        pow10(1) == 10,
        pow10(2) == 100,
        pow10(3) == 1_000,
        pow10(4) == 10_000,
        pow10(5) == 100_000,
        pow10(6) == 1_000_000,
        pow10(7) == 10_000_000,
        pow10(8) == 100_000_000,
{
    crate::intrinsics::lemma_pow10_table();
    crate::intrinsics::lemma_pow10_step(7);
}

/// Appending below the used positions cannot overflow the register.
proof fn lemma_push_back_digit_bound(digits: nat, tail: nat, count: nat)
    requires
        digits < EXTRA_PRECISION_CARRY,
        tail < EXTRA_PRECISION_CARRY,
        count <= EXTRA_PRECISION_DIGITS,
        digits % pow10((EXTRA_PRECISION_DIGITS - count) as nat) == 0,
    ensures
        count < EXTRA_PRECISION_DIGITS ==> digits + tail / pow10(count) < EXTRA_PRECISION_CARRY,
{
    lemma_pow10_small_table();
    if count < EXTRA_PRECISION_DIGITS {
        let low = pow10((EXTRA_PRECISION_DIGITS - count) as nat);
        let high = pow10(count);
        crate::intrinsics::lemma_pow10_adds(count, (EXTRA_PRECISION_DIGITS - count) as nat);
        assert(high * low == pow10(EXTRA_PRECISION_DIGITS as nat));
        crate::intrinsics::lemma_pow10_pos(count);
        crate::intrinsics::lemma_pow10_pos((EXTRA_PRECISION_DIGITS - count) as nat);
        let k = digits / low;
        vstd::arithmetic::div_mod::lemma_fundamental_div_mod(digits as int, low as int);
        assert(digits == k * low);
        assert(k < high) by (nonlinear_arith)
            requires
                digits == k * low,
                digits < high * low,
                low >= 1,
        ;
        assert(k * low <= (high - 1) * low) by (nonlinear_arith)
            requires
                k <= high - 1,
                low >= 1,
        ;
        assert(tail / high < low) by (nonlinear_arith)
            requires
                tail < high * low,
                high >= 1,
                low >= 1,
        ;
        assert((high - 1) * low + low == high * low) by (nonlinear_arith);
    }
}

} // verus!
