use vstd::prelude::*;
use crate::context::Context;
use crate::control_block::{ControlBlock, Special};
use crate::extra_precision::ExtraPrecision;
use crate::intrinsics::{clength, clength_spec, pow10, MAX_CLENGTH};
use crate::rounding::RoundingMode;
use crate::sign::Sign;
use crate::signals::Signals;

verus! {

/// A signed decimal number: an unsigned 128-bit coefficient and a control
/// block. A finite value stands for `sign × coefficient × 10^(−scale)`, plus
/// up to seven guard digits just below the scale.
#[derive(Clone, Copy, PartialEq, Eq, Debug, Structural)]
pub struct Decimal {
    /// The coefficient: the significant digits, including significant
    /// trailing zeros.
    pub digits: u128,
    /// Sign, scale, special tag, context, signals and guard digits.
    pub cb: ControlBlock,
}

/// The class of a decimal value, from the special tag downward.
#[derive(Clone, Copy, PartialEq, Eq, Debug, Structural)]
pub enum DecimalCategory {
    /// Not a number.
    Nan,
    /// A signed infinity.
    Infinite,
    /// A zero of either sign.
    Zero,
    /// A nonzero number flagged as subnormal.
    Subnormal,
    /// An ordinary nonzero number.
    Normal,
}

/// Exponent offset of the fixed-point value model: `value_units` measures
/// every finite decimal in units of ten to the minus `SCALE_UNITS`, so that
/// the largest scale plus the seven guard digits still map to a nonnegative
/// power.
pub const SCALE_UNITS: i32 = 32775;

/// The power of ten that one coefficient unit is worth at scale `scale`, in
/// the fixed-point value model.
pub open spec fn unit_exp(scale: i16) -> nat {
    (SCALE_UNITS - scale) as nat
}

impl Decimal {
    /// Structural invariant: the guard-digit register is well formed.
    pub open spec fn wf(self) -> bool {
        self.cb.wf()
    }

    /// Magnitude of a finite decimal in units of ten to the minus
    /// `SCALE_UNITS`: the coefficient at its scale plus the guard digits just
    /// below it.
    pub open spec fn magnitude_units(self) -> nat {
        (self.digits * pow10(unit_exp(self.cb.scale)) + self.cb.extra.digits * pow10(
            (unit_exp(self.cb.scale) - 7) as nat,
        )) as nat
    }

    /// Signed value of a finite decimal in units of ten to the minus
    /// `SCALE_UNITS`. Two finite decimals are numerically equal exactly when
    /// these integers are equal.
    pub open spec fn value_units(self) -> int {
        self.cb.sign.factor() * self.magnitude_units()
    }

    /// The decimal is finite: neither an infinity nor a NaN.
    pub open spec fn is_finite_spec(self) -> bool {
        self.cb.special == Special::Finite
    }

    /// The decimal is a NaN of either kind.
    pub open spec fn is_nan_spec(self) -> bool {
        self.cb.special == Special::QuietNan || self.cb.special == Special::SignalingNan
    }

    /// The decimal is a signed infinity.
    pub open spec fn is_infinite_spec(self) -> bool {
        self.cb.special == Special::Infinity
    }

    /// The decimal is a zero: finite, zero coefficient, no guard digits.
    pub open spec fn is_zero_spec(self) -> bool {
        self.digits == 0 && self.is_finite_spec() && self.cb.extra.spec_is_empty()
    }

    /// The guard-digit register is empty, as it is on every value a public
    /// operation returns.
    pub open spec fn no_extra_spec(self) -> bool {
        self.cb.extra.spec_is_empty()
    }

    /// The plain decimal with a whole-number value: the magnitude at scale
    /// zero under the sign of the number.
    pub open spec fn int_value_spec(n: int) -> Decimal {
        if n >= 0 {
            Decimal { digits: n as u128, cb: ControlBlock::spec_basic(0, Sign::Plus) }
        } else {
            Decimal { digits: (-n) as u128, cb: ControlBlock::spec_basic(0, Sign::Minus) }
        }
    }

    /// The quiet NaN with a clean control block.
    pub open spec fn spec_nan() -> Decimal {
        Decimal {
            digits: 0,
            cb: ControlBlock { special: Special::QuietNan, ..ControlBlock::spec_basic(0, Sign::Plus) },
        }
    }

    /// The positive infinity with a clean control block.
    pub open spec fn spec_infinity(sign: Sign) -> Decimal {
        Decimal {
            digits: 0,
            cb: ControlBlock { special: Special::Infinity, ..ControlBlock::spec_basic(0, sign) },
        }
    }

    /// Assembles a decimal from a coefficient and a control block.
    pub fn new(digits: u128, cb: ControlBlock) -> (r: Decimal)
        ensures
            r == (Decimal { digits, cb }),
    {
        Decimal { digits, cb }
    }

    /// The zero of scale zero and positive sign.
    pub fn zero() -> (r: Decimal)
        ensures
            r == (Decimal { digits: 0, cb: ControlBlock::spec_basic(0, Sign::Plus) }),
            r.is_zero_spec(),
            r.wf(),
    {
        Decimal { digits: 0, cb: ControlBlock::basic(0, Sign::Plus) }
    }

    /// The number one.
    pub fn one() -> (r: Decimal)
        ensures
            r == (Decimal { digits: 1, cb: ControlBlock::spec_basic(0, Sign::Plus) }),
            r.wf(),
    {
        Decimal { digits: 1, cb: ControlBlock::basic(0, Sign::Plus) }
    }

    /// The quiet NaN.
    pub fn nan() -> (r: Decimal)
        ensures
            r == Decimal::spec_nan(),
            r.is_nan_spec(),
            r.wf(),
    {
        let mut cb = ControlBlock::basic(0, Sign::Plus);
        cb.special = Special::QuietNan;
        Decimal { digits: 0, cb }
    }

    /// The positive infinity.
    pub fn infinity() -> (r: Decimal)
        ensures
            r == Decimal::spec_infinity(Sign::Plus),
            r.is_infinite_spec(),
            r.wf(),
    {
        let mut cb = ControlBlock::basic(0, Sign::Plus);
        cb.special = Special::Infinity;
        Decimal { digits: 0, cb }
    }

    /// The negative infinity.
    pub fn neg_infinity() -> (r: Decimal)
        ensures
            r == Decimal::spec_infinity(Sign::Minus),
            r.is_infinite_spec(),
            r.wf(),
    {
        let mut cb = ControlBlock::basic(0, Sign::Minus);
        cb.special = Special::Infinity;
        Decimal { digits: 0, cb }
    }

    /// The signaling NaN a meaningless operation returns: NaN with the
    /// invalid signal raised.
    pub(crate) fn signaling_nan_from(self) -> (r: Decimal)
        ensures
            r == (Decimal {
                digits: self.digits,
                cb: ControlBlock {
                    special: Special::SignalingNan,
                    signals: (Signals { invalid: true, ..self.cb.signals }),
                    ..self.cb
                },
            }),
    {
        let mut d = self;
        d.cb.signaling_nan();
        d
    }

    /// The coefficient: the significant digits of the value including its
    /// significant trailing zeros.
    pub fn digits(&self) -> (r: u128)
        ensures
            r == self.digits,
    {
        self.digits
    }

    /// How many decimal digits the coefficient has; zero counts one digit.
    pub fn digits_count(&self) -> (r: usize)
        ensures
            r == clength_spec(self.digits as nat),
            1 <= r <= MAX_CLENGTH,
    {
        clength(self.digits) as usize
    }

    /// The scale: digits right of the decimal point, negative when the value
    /// carries implied trailing zeros left of it.
    pub fn fractional_digits_count(&self) -> (r: i16)
        ensures
            r == self.cb.scale,
    {
        self.cb.get_scale()
    }

    /// The sign of the value.
    pub fn sign(&self) -> (r: Sign)
        ensures
            r == self.cb.sign,
    {
        self.cb.get_sign()
    }

    /// The decimal exponent of the coefficient: the negated scale.
    pub(crate) fn decimal_power(&self) -> (r: i32)
        ensures
            r == clength_spec(self.digits as nat) - self.cb.scale,
    {
        clength(self.digits) as i32 - self.cb.scale as i32
    }

    /// True while the division-by-zero signal is raised.
    pub fn is_op_div_by_zero(&self) -> (r: bool)
        ensures
            r == self.cb.signals.div_by_zero,
    {
        self.cb.is_op_div_by_zero()
    }

    /// True while the overflow signal is raised.
    pub fn is_op_overflow(&self) -> (r: bool)
        ensures
            r == self.cb.signals.overflow,
    {
        self.cb.is_op_overflow()
    }

    /// True while the underflow signal is raised.
    pub fn is_op_underflow(&self) -> (r: bool)
        ensures
            r == self.cb.signals.underflow,
    {
        self.cb.is_op_underflow()
    }

    /// True while the invalid-operation signal is raised.
    pub fn is_op_invalid(&self) -> (r: bool)
        ensures
            r == self.cb.signals.invalid,
    {
        self.cb.is_op_invalid()
    }

    /// True while the subnormal signal is raised.
    pub fn is_op_subnormal(&self) -> (r: bool)
        ensures
            r == self.cb.signals.subnormal,
    {
        self.cb.is_op_subnormal()
    }

    /// True while the inexact signal is raised.
    pub fn is_op_inexact(&self) -> (r: bool)
        ensures
            r == self.cb.signals.inexact,
    {
        self.cb.is_op_inexact()
    }

    /// True while the rounded signal is raised.
    pub fn is_op_rounded(&self) -> (r: bool)
        ensures
            r == self.cb.signals.rounded,
    {
        self.cb.is_op_rounded()
    }

    /// True while the clamped signal is raised.
    pub fn is_op_clamped(&self) -> (r: bool)
        ensures
            r == self.cb.signals.clamped,
    {
        self.cb.is_op_clamped()
    }

    /// True while no signal at all is raised.
    pub fn is_op_ok(&self) -> (r: bool)
        ensures
            r == self.cb.signals.spec_is_empty(),
    {
        self.cb.is_op_ok()
    }

    /// The raised signal flags.
    pub fn op_signals(&self) -> (r: Signals)
        ensures
            r == self.cb.signals,
    {
        self.cb.signals
    }

    /// The class of the value: NaN, infinite, zero, subnormal or normal.
    pub fn classify(&self) -> (r: DecimalCategory)
        ensures
            r == (if self.is_nan_spec() {
                DecimalCategory::Nan
            } else if self.is_infinite_spec() {
                DecimalCategory::Infinite
            } else if self.digits == 0 {
                DecimalCategory::Zero
            } else if self.cb.signals.subnormal {
                DecimalCategory::Subnormal
            } else {
                DecimalCategory::Normal
            }),
    {
        if self.cb.is_nan() {
            DecimalCategory::Nan
        } else if self.cb.is_infinity() {
            DecimalCategory::Infinite
        } else if self.digits == 0 {
            DecimalCategory::Zero
        } else if self.is_subnormal() {
            DecimalCategory::Subnormal
        } else {
            DecimalCategory::Normal
        }
    }

    /// True for an ordinary nonzero number: finite, nonzero and not
    /// subnormal.
    pub fn is_normal(&self) -> (r: bool)
        ensures
            r == (self.is_finite_spec() && self.digits != 0 && !self.cb.signals.subnormal),
    {
        matches!(self.classify(), DecimalCategory::Normal)
    }

    /// True for a value flagged subnormal.
    pub fn is_subnormal(&self) -> (r: bool)
        ensures
            r == self.cb.signals.subnormal,
    {
        self.is_op_subnormal()
    }

    /// True for a finite value: neither an infinity nor a NaN.
    pub fn is_finite(&self) -> (r: bool)
        ensures
            r == self.is_finite_spec(),
    {
        !self.cb.is_special()
    }

    /// True for a signed infinity.
    pub fn is_infinite(&self) -> (r: bool)
        ensures
            r == self.is_infinite_spec(),
    {
        self.cb.is_infinity()
    }

    /// True for a NaN of either kind.
    pub fn is_nan(&self) -> (r: bool)
        ensures
            r == self.is_nan_spec(),
    {
        self.cb.is_nan()
    }

    /// True for a positive sign bit, whatever the value (a NaN and a zero
    /// can be sign-positive).
    pub fn is_sign_positive(&self) -> (r: bool)
        ensures
            r == (self.cb.sign == Sign::Plus),
    {
        !self.cb.is_negative()
    }

    /// True for a negative sign bit, whatever the value.
    pub fn is_sign_negative(&self) -> (r: bool)
        ensures
            r == (self.cb.sign == Sign::Minus),
    {
        self.cb.is_negative()
    }

    /// True for a zero of either sign.
    pub fn is_zero(&self) -> (r: bool)
        ensures
            r == self.is_zero_spec(),
    {
        self.digits == 0 && !self.cb.is_special() && !self.cb.has_extra_precision()
    }

    /// True for the number one in its plain representation: coefficient one
    /// at scale zero.
    pub fn is_one(&self) -> (r: bool)
        ensures
            r == (self.digits == 1 && self.cb.scale == 0 && self.cb.sign == Sign::Plus
                && self.is_finite_spec() && self.cb.extra.spec_is_empty()),
    {
        self.digits == 1 && self.cb.get_scale() == 0 && !self.cb.is_negative()
            && !self.cb.is_special() && !self.cb.has_extra_precision()
    }

    /// True for a positive sign bit; the positive twin of `is_negative`.
    pub fn is_positive(&self) -> (r: bool)
        ensures
            r == (self.cb.sign == Sign::Plus),
    {
        !self.cb.is_negative()
    }

    /// True for a negative sign bit.
    pub fn is_negative(&self) -> (r: bool)
        ensures
            r == (self.cb.sign == Sign::Minus),
    {
        self.cb.is_negative()
    }

    /// The same value with the opposite sign, as a specification value.
    pub open spec fn neg_spec(self) -> Decimal {
        Decimal {
            digits: self.digits,
            cb: ControlBlock {
                sign: if self.cb.sign == Sign::Plus {
                    Sign::Minus
                } else {
                    Sign::Plus
                },
                ..self.cb
            },
        }
    }

    /// The same value with the opposite sign.
    pub fn neg(self) -> (r: Decimal)
        ensures
            r == self.neg_spec(),
    {
        let mut d = self;
        d.cb.neg();
        d
    }

    /// The same value with a positive sign.
    pub fn abs(self) -> (r: Decimal)
        ensures
            r == (Decimal {
                digits: self.digits,
                cb: ControlBlock { sign: Sign::Plus, ..self.cb },
            }),
    {
        let mut d = self;
        d.cb.set_sign(Sign::Plus);
        d
    }

    /// The sign of the value as a decimal: minus one, one, or NaN for a NaN.
    pub fn signum(&self) -> (r: Decimal)
        ensures
            self.is_nan_spec() ==> r == Decimal::spec_nan(),
            !self.is_nan_spec() && self.cb.sign == Sign::Minus ==> r == (Decimal {
                digits: 1,
                cb: ControlBlock { sign: Sign::Minus, ..ControlBlock::spec_basic(0, Sign::Plus) },
            }),
            !self.is_nan_spec() && self.cb.sign == Sign::Plus ==> r == (Decimal {
                digits: 1,
                cb: ControlBlock::spec_basic(0, Sign::Plus),
            }),
    {
        if self.cb.is_nan() {
            Decimal::nan()
        } else if self.cb.is_negative() {
            Decimal::one().neg()
        } else {
            Decimal::one()
        }
    }

    /// The same value carrying another context, with nothing re-rounded: the
    /// new context governs the operations that follow.
    pub fn with_ctx(self, ctx: Context) -> (r: Decimal)
        ensures
            r == (Decimal { digits: self.digits, cb: ControlBlock { ctx: ctx, ..self.cb } }),
    {
        let mut d = self;
        d.cb.set_context(ctx);
        d
    }

    /// The same value carrying another rounding mode.
    pub fn with_rounding_mode(self, rm: RoundingMode) -> (r: Decimal)
        ensures
            r == (Decimal {
                digits: self.digits,
                cb: ControlBlock {
                    ctx: Context { rounding_mode: rm, ..self.cb.ctx },
                    ..self.cb
                },
            }),
    {
        let mut d = self;
        d.cb.set_rounding_mode(rm);
        d
    }

    /// True while no raised signal is trapped by the carried context.
    pub fn is_ok(&self) -> (r: bool)
        ensures
            r == self.cb.signals.spec_intersect(self.cb.ctx.traps).spec_is_empty(),
    {
        self.cb.trap_signals().is_empty()
    }

    /// The value, unless a raised signal is trapped by the carried context.
    pub fn ok(self) -> (r: Option<Decimal>)
        ensures
            r == (if self.cb.signals.spec_intersect(self.cb.ctx.traps).spec_is_empty() {
                Some(self)
            } else {
                None::<Decimal>
            }),
    {
        if self.cb.trap_signals().is_empty() {
            Some(self)
        } else {
            None
        }
    }

    /// True while the guard-digit register holds pending digits; every value
    /// a public operation returns has none.
    pub fn has_extra_precision(&self) -> (r: bool)
        ensures
            r == !self.no_extra_spec(),
    {
        self.cb.has_extra_precision()
    }

    /// True when the representation is well formed: the guard-digit register
    /// is within its seven-digit capacity. Every constructor and operation
    /// of the library keeps this; a caller assembling raw parts can test it.
    pub fn is_well_formed(&self) -> (r: bool)
        ensures
            r == self.wf(),
    {
        self.cb.extra.digits < crate::extra_precision::EXTRA_PRECISION_CARRY as u32
            && self.cb.extra.count <= crate::extra_precision::EXTRA_PRECISION_DIGITS
    }

    /// True when the coefficient is even; meaningful for integral values.
    pub fn is_even(&self) -> (r: bool)
        ensures
            r == (self.digits % 2 == 0),
    {
        self.digits % 2 == 0
    }

    /// True when the coefficient is odd; meaningful for integral values.
    pub fn is_odd(&self) -> (r: bool)
        ensures
            r == (self.digits % 2 == 1),
    {
        self.digits % 2 == 1
    }
}

} // verus!
