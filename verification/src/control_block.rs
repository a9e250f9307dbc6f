use vstd::prelude::*;
use crate::context::Context;
use crate::extra_precision::{ExtraPrecision, EXTRA_PRECISION_CARRY, EXTRA_PRECISION_SCALE};
use crate::rounding::RoundingMode;
use crate::sign::Sign;
use crate::signals::Signals;

verus! {

/// The special-value tag of a decimal.
#[derive(Clone, Copy, PartialEq, Eq, Debug, Structural)]
pub enum Special {
    /// An ordinary finite number.
    Finite,
    /// A signed infinity.
    Infinity,
    /// A quiet not-a-number.
    QuietNan,
    /// A signaling not-a-number, produced by invalid operations.
    SignalingNan,
}

/// The control block of a decimal: everything besides the coefficient.
///
/// It packs the sign, the scale (digits right of the decimal point, possibly
/// negative), the special-value tag, the operation context, the sticky signal
/// flags, and the extra-precision guard-digit register.
#[derive(Clone, Copy, PartialEq, Eq, Debug, Structural)]
pub struct ControlBlock {
    /// Sign of the value (zero and infinity are signed too).
    pub sign: Sign,
    /// Count of digits right of the decimal point; the value's exponent is
    /// its negation.
    pub scale: i16,
    /// Special-value tag.
    pub special: Special,
    /// Per-value operation policy.
    pub ctx: Context,
    /// Sticky signal flags raised so far.
    pub signals: Signals,
    /// Guard digits below the visible scale.
    pub extra: ExtraPrecision,
}

impl ControlBlock {
    /// Structural invariant: the guard-digit register is well formed.
    pub open spec fn wf(self) -> bool {
        self.extra.wf()
    }

    /// A plain finite control block: given scale and sign, default context,
    /// no signals, no guard digits.
    pub open spec fn spec_basic(scale: i16, sign: Sign) -> ControlBlock {
        ControlBlock {
            sign: sign,
            scale: scale,
            special: Special::Finite,
            ctx: Context::spec_default(),
            signals: Signals::spec_empty(),
            extra: ExtraPrecision::spec_empty(),
        }
    }

    /// Creates a plain finite control block with the given scale and sign.
    pub fn basic(scale: i16, sign: Sign) -> (r: ControlBlock)
        ensures
            r == ControlBlock::spec_basic(scale, sign),
            r.wf(),
    {
        ControlBlock {
            sign: sign,
            scale: scale,
            special: Special::Finite,
            ctx: Context::new(),
            signals: Signals::empty(),
            extra: ExtraPrecision::new(),
        }
    }

    /// The sign field.
    pub fn get_sign(&self) -> (r: Sign)
        ensures
            r == self.sign,
    {
        self.sign
    }

    /// Replaces the sign.
    pub fn set_sign(&mut self, sign: Sign)
        ensures
            *final(self) == (ControlBlock { sign: sign, ..*old(self) }),
    {
        self.sign = sign;
    }

    /// Flips the sign.
    pub fn neg(&mut self)
        ensures
            *final(self) == (ControlBlock {
                sign: if old(self).sign == Sign::Plus {
                    Sign::Minus
                } else {
                    Sign::Plus
                },
                ..*old(self)
            }),
    {
        self.sign = self.sign.negate();
    }

    /// True for a negative sign.
    pub fn is_negative(&self) -> (r: bool)
        ensures
            r == (self.sign == Sign::Minus),
    {
        self.sign.is_negative()
    }

    /// The scale field.
    pub fn get_scale(&self) -> (r: i16)
        ensures
            r == self.scale,
    {
        self.scale
    }

    /// Replaces the scale.
    pub fn set_scale(&mut self, scale: i16)
        ensures
            *final(self) == (ControlBlock { scale: scale, ..*old(self) }),
    {
        self.scale = scale;
    }

    /// Lowers the scale by `delta`.
    pub fn dec_scale(&mut self, delta: i16)
        requires
            i16::MIN <= old(self).scale - delta <= i16::MAX,
        ensures
            *final(self) == (ControlBlock { scale: (old(self).scale - delta) as i16, ..*old(self) }),
    {
        self.scale = self.scale - delta;
    }

    /// The decimal exponent: the negated scale.
    pub fn get_exponent(&self) -> (r: i32)
        ensures
            r == -(self.scale as int),
    {
        -(self.scale as i32)
    }

    /// The operation context carried by the value.
    pub fn get_context(&self) -> (r: Context)
        ensures
            r == self.ctx,
    {
        self.ctx
    }

    /// Replaces the operation context.
    pub fn set_context(&mut self, ctx: Context)
        ensures
            *final(self) == (ControlBlock { ctx: ctx, ..*old(self) }),
    {
        self.ctx = ctx;
    }

    /// Replaces the rounding mode of the carried context.
    pub fn set_rounding_mode(&mut self, rm: RoundingMode)
        ensures
            *final(self) == (ControlBlock {
                ctx: Context { rounding_mode: rm, ..old(self).ctx },
                ..*old(self)
            }),
    {
        self.ctx = self.ctx.with_rounding_mode(rm);
    }

    /// The rounding mode of the carried context.
    pub fn get_rounding_mode(&self) -> (r: RoundingMode)
        ensures
            r == self.ctx.rounding_mode,
    {
        self.ctx.rounding_mode
    }

    /// True for any special tag: infinity or a NaN.
    pub fn is_special(&self) -> (r: bool)
        ensures
            r == (self.special != Special::Finite),
    {
        !matches!(self.special, Special::Finite)
    }

    /// True for either kind of NaN.
    pub fn is_nan(&self) -> (r: bool)
        ensures
            r == (self.special == Special::QuietNan || self.special == Special::SignalingNan),
    {
        matches!(self.special, Special::QuietNan | Special::SignalingNan)
    }

    /// True for a signed infinity.
    pub fn is_infinity(&self) -> (r: bool)
        ensures
            r == (self.special == Special::Infinity),
    {
        matches!(self.special, Special::Infinity)
    }

    /// Turns the value into a signaling NaN and raises the invalid signal.
    pub fn signaling_nan(&mut self)
        ensures
            *final(self) == (ControlBlock {
                special: Special::SignalingNan,
                signals: (Signals { invalid: true, ..old(self).signals }),
                ..*old(self)
            }),
    {
        self.special = Special::SignalingNan;
        self.signals = self.signals.with_invalid();
    }

    /// Merges the other block's raised signals into this one.
    pub fn combine_signals(&mut self, other: &ControlBlock)
        ensures
            *final(self) == (ControlBlock {
                signals: old(self).signals.spec_combine(other.signals),
                ..*old(self)
            }),
    {
        self.signals = self.signals.combine(other.signals);
    }

    /// Merges the other block's raised signals into this one; the carried
    /// context and everything else stays.
    pub fn compound(&mut self, other: &ControlBlock)
        ensures
            *final(self) == (ControlBlock {
                signals: old(self).signals.spec_combine(other.signals),
                ..*old(self)
            }),
    {
        self.signals = self.signals.combine(other.signals);
    }

    /// The raised signals that the carried context traps.
    pub fn trap_signals(&self) -> (r: Signals)
        ensures
            r == self.signals.spec_intersect(self.ctx.traps),
    {
        self.signals.intersect(self.ctx.traps)
    }

    /// True while the division-by-zero signal is raised.
    pub fn is_op_div_by_zero(&self) -> (r: bool)
        ensures
            r == self.signals.div_by_zero,
    {
        self.signals.div_by_zero
    }

    /// True while the overflow signal is raised.
    pub fn is_op_overflow(&self) -> (r: bool)
        ensures
            r == self.signals.overflow,
    {
        self.signals.overflow
    }

    /// True while the underflow signal is raised.
    pub fn is_op_underflow(&self) -> (r: bool)
        ensures
            r == self.signals.underflow,
    {
        self.signals.underflow
    }

    /// True while the invalid-operation signal is raised.
    pub fn is_op_invalid(&self) -> (r: bool)
        ensures
            r == self.signals.invalid,
    {
        self.signals.invalid
    }

    /// True while the subnormal signal is raised.
    pub fn is_op_subnormal(&self) -> (r: bool)
        ensures
            r == self.signals.subnormal,
    {
        self.signals.subnormal
    }

    /// True while the inexact signal is raised.
    pub fn is_op_inexact(&self) -> (r: bool)
        ensures
            r == self.signals.inexact,
    {
        self.signals.inexact
    }

    /// True while the rounded signal is raised.
    pub fn is_op_rounded(&self) -> (r: bool)
        ensures
            r == self.signals.rounded,
    {
        self.signals.rounded
    }

    /// True while the clamped signal is raised.
    pub fn is_op_clamped(&self) -> (r: bool)
        ensures
            r == self.signals.clamped,
    {
        self.signals.clamped
    }

    /// True while no signal at all is raised.
    pub fn is_op_ok(&self) -> (r: bool)
        ensures
            r == self.signals.spec_is_empty(),
    {
        self.signals.is_empty()
    }

    /// Raises the division-by-zero signal.
    pub fn raise_op_div_by_zero(&mut self)
        ensures
            *final(self) == (ControlBlock {
                signals: (Signals { div_by_zero: true, ..old(self).signals }),
                ..*old(self)
            }),
    {
        self.signals = self.signals.with_div_by_zero();
    }

    /// Raises the overflow signal.
    pub fn raise_op_overflow(&mut self)
        ensures
            *final(self) == (ControlBlock {
                signals: (Signals { overflow: true, ..old(self).signals }),
                ..*old(self)
            }),
    {
        self.signals = self.signals.with_overflow();
    }

    /// Raises the underflow signal.
    pub fn raise_op_underflow(&mut self)
        ensures
            *final(self) == (ControlBlock {
                signals: (Signals { underflow: true, ..old(self).signals }),
                ..*old(self)
            }),
    {
        self.signals = self.signals.with_underflow();
    }

    /// Raises the invalid-operation signal.
    pub fn raise_op_invalid(&mut self)
        ensures
            *final(self) == (ControlBlock {
                signals: (Signals { invalid: true, ..old(self).signals }),
                ..*old(self)
            }),
    {
        self.signals = self.signals.with_invalid();
    }

    /// Raises the subnormal signal.
    pub fn raise_op_subnormal(&mut self)
        ensures
            *final(self) == (ControlBlock {
                signals: (Signals { subnormal: true, ..old(self).signals }),
                ..*old(self)
            }),
    {
        self.signals = self.signals.with_subnormal();
    }

    /// Raises the inexact signal.
    pub fn raise_op_inexact(&mut self)
        ensures
            *final(self) == (ControlBlock {
                signals: (Signals { inexact: true, ..old(self).signals }),
                ..*old(self)
            }),
    {
        self.signals = self.signals.with_inexact();
    }

    /// Raises the rounded signal.
    pub fn raise_op_rounded(&mut self)
        ensures
            *final(self) == (ControlBlock {
                signals: (Signals { rounded: true, ..old(self).signals }),
                ..*old(self)
            }),
    {
        self.signals = self.signals.with_rounded();
    }

    /// Raises the clamped signal.
    pub fn raise_op_clamped(&mut self)
        ensures
            *final(self) == (ControlBlock {
                signals: (Signals { clamped: true, ..old(self).signals }),
                ..*old(self)
            }),
    {
        self.signals = self.signals.with_clamped();
    }

    /// Clears the division-by-zero signal.
    pub fn quiet_op_div_by_zero(&mut self)
        ensures
            *final(self) == (ControlBlock {
                signals: (Signals { div_by_zero: false, ..old(self).signals }),
                ..*old(self)
            }),
    {
        self.signals = Signals { div_by_zero: false, ..self.signals };
    }

    /// Clears the overflow signal.
    pub fn quiet_op_overflow(&mut self)
        ensures
            *final(self) == (ControlBlock {
                signals: (Signals { overflow: false, ..old(self).signals }),
                ..*old(self)
            }),
    {
        self.signals = Signals { overflow: false, ..self.signals };
    }

    /// Clears the underflow signal.
    pub fn quiet_op_underflow(&mut self)
        ensures
            *final(self) == (ControlBlock {
                signals: (Signals { underflow: false, ..old(self).signals }),
                ..*old(self)
            }),
    {
        self.signals = Signals { underflow: false, ..self.signals };
    }

    /// Clears the invalid-operation signal.
    pub fn quiet_op_invalid(&mut self)
        ensures
            *final(self) == (ControlBlock {
                signals: (Signals { invalid: false, ..old(self).signals }),
                ..*old(self)
            }),
    {
        self.signals = Signals { invalid: false, ..self.signals };
    }

    /// Clears the subnormal signal.
    pub fn quiet_op_subnormal(&mut self)
        ensures
            *final(self) == (ControlBlock {
                signals: (Signals { subnormal: false, ..old(self).signals }),
                ..*old(self)
            }),
    {
        self.signals = Signals { subnormal: false, ..self.signals };
    }

    /// Clears the inexact signal.
    pub fn quiet_op_inexact(&mut self)
        ensures
            *final(self) == (ControlBlock {
                signals: (Signals { inexact: false, ..old(self).signals }),
                ..*old(self)
            }),
    {
        self.signals = Signals { inexact: false, ..self.signals };
    }

    /// Clears the rounded signal.
    pub fn quiet_op_rounded(&mut self)
        ensures
            *final(self) == (ControlBlock {
                signals: (Signals { rounded: false, ..old(self).signals }),
                ..*old(self)
            }),
    {
        self.signals = Signals { rounded: false, ..self.signals };
    }

    /// Clears the clamped signal.
    pub fn quiet_op_clamped(&mut self)
        ensures
            *final(self) == (ControlBlock {
                signals: (Signals { clamped: false, ..old(self).signals }),
                ..*old(self)
            }),
    {
        self.signals = Signals { clamped: false, ..self.signals };
    }

    /// True while the guard-digit register is not empty.
    pub fn has_extra_precision(&self) -> (r: bool)
        ensures
            r == !self.extra.spec_is_empty(),
    {
        !self.extra.is_empty()
    }

    /// Shifts one new most significant guard digit into the register.
    pub fn push_extra_precision_digit(&mut self, digit: u64)
        requires
            old(self).wf(),
            digit < 10,
        ensures
            final(self).wf(),
            *final(self) == (ControlBlock {
                extra: final(self).extra,
                ..*old(self)
            }),
            final(self).extra.digits == digit * EXTRA_PRECISION_SCALE + old(self).extra.digits
                / 10,
            final(self).extra.count == crate::extra_precision::min_u32_spec(
                (old(self).extra.count + 1) as u32,
                crate::extra_precision::EXTRA_PRECISION_DIGITS,
            ),
    {
        self.extra.push_digit(digit);
    }

    /// True when both registers hold the same guard digits.
    pub fn eq_extra_precision(&self, other: &ControlBlock) -> (r: bool)
        ensures
            r == (self.extra.digits == other.extra.digits),
    {
        self.extra.digits == other.extra.digits
    }

    /// Pops the most significant guard digit for the rounding step: clears
    /// the whole register, and raises rounded and inexact when it held
    /// anything.
    pub fn take_round_reminder(&mut self) -> (r: u8)
        requires
            old(self).wf(),
        ensures
            final(self).wf(),
            r == old(self).extra.digits / EXTRA_PRECISION_SCALE,
            r <= 9,
            final(self).extra == ExtraPrecision::spec_empty(),
            old(self).extra.digits != 0 ==> *final(self) == (ControlBlock {
                extra: ExtraPrecision::spec_empty(),
                signals: (Signals { rounded: true, inexact: true, ..old(self).signals }),
                ..*old(self)
            }),
            old(self).extra.digits == 0 ==> *final(self) == (ControlBlock {
                extra: ExtraPrecision::spec_empty(),
                ..*old(self)
            }),
    {
        let digits = self.extra.digits;
        if digits != 0 {
            self.signals = self.signals.with_rounded().with_inexact();
        }
        self.extra = ExtraPrecision::new();
        (digits / EXTRA_PRECISION_SCALE) as u8
    }

    /// The guard digits as one integer below ten million.
    pub fn get_extra_digits(&self) -> (r: u64)
        ensures
            r == self.extra.digits,
    {
        self.extra.digits as u64
    }

    /// Replaces the guard digits with the given block below ten million; the
    /// digit count is recomputed.
    pub fn set_extra_digits(&mut self, extra_digits: u64)
        requires
            extra_digits < EXTRA_PRECISION_CARRY,
        ensures
            final(self).wf(),
            *final(self) == (ControlBlock { extra: final(self).extra, ..*old(self) }),
            final(self).extra.digits == extra_digits,
    {
        self.extra = ExtraPrecision::from_digits(extra_digits);
    }

    /// Clears the guard-digit register.
    pub fn reset_extra_digits(&mut self)
        ensures
            final(self).wf(),
            *final(self) == (ControlBlock { extra: ExtraPrecision::spec_empty(), ..*old(self) }),
    {
        self.extra = ExtraPrecision::new();
    }

    /// Adds the other block's guard digits onto this one's; true reports a
    /// carry of one unit into the visible coefficient.
    pub fn add_extra_digits(&mut self, other: &ControlBlock) -> (carry: bool)
        requires
            old(self).wf(),
            other.wf(),
        ensures
            final(self).wf(),
            *final(self) == (ControlBlock { extra: final(self).extra, ..*old(self) }),
            final(self).extra.digits + (if carry {
                EXTRA_PRECISION_CARRY as nat
            } else {
                0nat
            }) == old(self).extra.digits + other.extra.digits,
            carry == (old(self).extra.digits + other.extra.digits >= EXTRA_PRECISION_CARRY),
    {
        self.extra.overflowing_add(other.extra)
    }

    /// Subtracts the other block's guard digits from this one's; true reports
    /// a borrow of one unit from the visible coefficient.
    pub fn sub_extra_digits(&mut self, other: &ControlBlock) -> (borrow: bool)
        requires
            old(self).wf(),
            other.wf(),
        ensures
            final(self).wf(),
            *final(self) == (ControlBlock { extra: final(self).extra, ..*old(self) }),
            final(self).extra.digits as int == old(self).extra.digits - other.extra.digits + (
            if borrow {
                EXTRA_PRECISION_CARRY as int
            } else {
                0int
            }),
            borrow == (old(self).extra.digits < other.extra.digits),
    {
        self.extra.overflowing_sub(other.extra)
    }
}

} // verus!
