use vstd::prelude::*;
use crate::construct::{construct, construct_spec};
use crate::context::Context;
use crate::control_block::{ControlBlock, Special};
use crate::decimal::Decimal;
use crate::extra_precision::{ExtraPrecision, EXTRA_PRECISION_SCALE};
use crate::round::round_spec;
use crate::rounding::RoundingMode;
use crate::sign::Sign;
use crate::signals::Signals;

verus! {

/// The guard-digit register after its most significant digit moved up into
/// the coefficient: the rest shifts one position toward the top.
pub open spec fn shift_extra_up_spec(e: ExtraPrecision) -> ExtraPrecision {
    ExtraPrecision {
        digits: ((e.digits % EXTRA_PRECISION_SCALE) * 10) as u32,
        count: if e.count > 0 {
            (e.count - 1) as u32
        } else {
            0
        },
    }
}

/// The guard-digit register after one new most significant digit was pushed.
pub open spec fn push_extra_spec(e: ExtraPrecision, digit: nat) -> ExtraPrecision {
    ExtraPrecision {
        digits: (digit * EXTRA_PRECISION_SCALE + e.digits / 10) as u32,
        count: crate::extra_precision::min_u32_spec((e.count + 1) as u32, 7),
    }
}

/// One coefficient, register and scale step at a time, the result of scaling
/// up to `target`: the coefficient grows by a factor of ten per step, taking
/// in the top guard digit, until the target is reached or one more digit
/// would overflow the coefficient; the final flag reports that early stop.
pub open spec fn rescale_up_spec(c: u128, e: ExtraPrecision, s: i16, target: i16) -> (
    u128,
    ExtraPrecision,
    i16,
    bool,
)
    decreases target - s,
{
    if s >= target {
        (c, e, s, false)
    } else {
        let top = (e.digits / EXTRA_PRECISION_SCALE) as u128;
        if c <= (u128::MAX - top) / 10 {
            rescale_up_spec((c * 10 + top) as u128, shift_extra_up_spec(e), (s + 1) as i16, target)
        } else {
            (c, e, s, true)
        }
    }
}

/// One step at a time, the result of scaling down to `target`: each step
/// divides the coefficient by ten and pushes the dropped digit into the
/// guard register — a zero digit once the coefficient is spent, which keeps
/// shifting the register so every dropped digit stays at its true place
/// below the final scale. The final flag reports whether a nonzero digit
/// was dropped.
pub open spec fn rescale_down_spec(c: u128, e: ExtraPrecision, s: i16, target: i16, inexact: bool)
    -> (u128, ExtraPrecision, i16, bool)
    decreases s - target,
{
    if s <= target {
        (c, e, s, inexact)
    } else {
        rescale_down_spec(
            c / 10,
            push_extra_spec(e, (c % 10) as nat),
            (s - 1) as i16,
            target,
            inexact || c % 10 != 0,
        )
    }
}

/// The decimal after moving its decimal point to `new_scale`.
///
/// Special values turn into a signaling NaN; a zero coefficient only
/// changes its scale; scaling up grows the coefficient and flags clamped
/// when it stops short; scaling down divides the coefficient into the guard
/// register digit by digit, always flagging rounded and, whenever a dropped
/// digit was nonzero, inexact.
pub open spec fn rescale_spec(d: Decimal, new_scale: i16) -> Decimal {
    if d.cb.special != Special::Finite {
        Decimal {
            digits: d.digits,
            cb: ControlBlock {
                special: Special::SignalingNan,
                signals: Signals { invalid: true, ..d.cb.signals },
                ..d.cb
            },
        }
    } else if d.digits == 0 {
        Decimal { digits: 0, cb: ControlBlock { scale: new_scale, ..d.cb } }
    } else if new_scale > d.cb.scale {
        let r = rescale_up_spec(d.digits, d.cb.extra, d.cb.scale, new_scale);
        Decimal {
            digits: r.0,
            cb: ControlBlock {
                scale: r.2,
                extra: r.1,
                signals: if r.3 {
                    Signals { clamped: true, ..d.cb.signals }
                } else {
                    d.cb.signals
                },
                ..d.cb
            },
        }
    } else if new_scale < d.cb.scale {
        let r = rescale_down_spec(d.digits, d.cb.extra, d.cb.scale, new_scale, false);
        Decimal {
            digits: r.0,
            cb: ControlBlock {
                scale: r.2,
                extra: r.1,
                signals: Signals {
                    rounded: true,
                    inexact: d.cb.signals.inexact || r.3,
                    ..d.cb.signals
                },
                ..d.cb
            },
        }
    } else {
        d
    }
}

/// Scales `d` up toward a larger scale, growing the coefficient.
#[verifier::loop_isolation(false)]
#[verifier::rlimit(60)]
fn rescale_up(d: &mut Decimal, new_scale: i16)
    requires
        old(d).wf(),
        old(d).cb.scale < new_scale,
    ensures
        final(d).wf(),
        *final(d) == ({
            let r = rescale_up_spec(old(d).digits, old(d).cb.extra, old(d).cb.scale, new_scale);
            Decimal {
                digits: r.0,
                cb: ControlBlock {
                    scale: r.2,
                    extra: r.1,
                    signals: if r.3 {
                        Signals { clamped: true, ..old(d).cb.signals }
                    } else {
                        old(d).cb.signals
                    },
                    ..old(d).cb
                },
            }
        }),
{
    let ghost orig = *d;
    let mut clamped = false;
    while d.cb.scale < new_scale && !clamped
        invariant
            d.wf(),
            d.cb.scale <= new_scale,
            d.cb == (ControlBlock { scale: d.cb.scale, extra: d.cb.extra, ..orig.cb }),
            rescale_up_spec(orig.digits, orig.cb.extra, orig.cb.scale, new_scale) == (
            if !clamped {
                rescale_up_spec(d.digits, d.cb.extra, d.cb.scale, new_scale)
            } else {
                (d.digits, d.cb.extra, d.cb.scale, true)
            }),
        decreases new_scale - d.cb.scale + (if clamped { 0int } else { 1int }),
    {
        let ghost pre = *d;
        let top = (d.cb.extra.digits / EXTRA_PRECISION_SCALE) as u128;
        if d.digits <= (u128::MAX - top) / 10 {
            proof {
                vstd::arithmetic::div_mod::lemma_fundamental_div_mod((u128::MAX - top) as int, 10);
                assert(d.digits * 10 + top <= u128::MAX);
            }
            d.digits = d.digits * 10 + top;
            d.cb.extra = ExtraPrecision {
                digits: (d.cb.extra.digits % EXTRA_PRECISION_SCALE) * 10,
                count: if d.cb.extra.count > 0 {
                    d.cb.extra.count - 1
                } else {
                    0
                },
            };
            d.cb.scale = d.cb.scale + 1;
            proof {
                assert(d.cb.extra == shift_extra_up_spec(pre.cb.extra));
                assert(rescale_up_spec(pre.digits, pre.cb.extra, pre.cb.scale, new_scale)
                    == rescale_up_spec(d.digits, d.cb.extra, d.cb.scale, new_scale));
            }
        } else {
            clamped = true;
        }
    }
    if clamped {
        d.cb.signals = Signals { clamped: true, ..d.cb.signals };
    }
}

/// Scales `d` down toward a smaller scale, dividing the coefficient into
/// the guard register.
#[verifier::loop_isolation(false)]
#[verifier::rlimit(60)]
fn rescale_down(d: &mut Decimal, new_scale: i16)
    requires
        old(d).wf(),
        old(d).cb.scale > new_scale,
    ensures
        final(d).wf(),
        *final(d) == ({
            let r = rescale_down_spec(
                old(d).digits,
                old(d).cb.extra,
                old(d).cb.scale,
                new_scale,
                false,
            );
            Decimal {
                digits: r.0,
                cb: ControlBlock {
                    scale: r.2,
                    extra: r.1,
                    signals: (Signals {
                        rounded: true,
                        inexact: old(d).cb.signals.inexact || r.3,
                        ..old(d).cb.signals
                    }),
                    ..old(d).cb
                },
            }
        }),
{
    let ghost orig = *d;
    let mut inexact = false;
    while d.cb.scale > new_scale
        invariant
            d.wf(),
            d.cb.scale >= new_scale,
            d.cb == (ControlBlock { scale: d.cb.scale, extra: d.cb.extra, ..orig.cb }),
            rescale_down_spec(orig.digits, orig.cb.extra, orig.cb.scale, new_scale, false)
                == rescale_down_spec(d.digits, d.cb.extra, d.cb.scale, new_scale, inexact),
        decreases d.cb.scale - new_scale,
    {
        let ghost pre = *d;
        let ghost pre_inexact = inexact;
        let digit = (d.digits % 10) as u64;
        if digit != 0 {
            inexact = true;
        }
        d.digits = d.digits / 10;
        d.cb.extra.push_digit(digit);
        d.cb.scale = d.cb.scale - 1;
        proof {
            assert(d.cb.extra == push_extra_spec(pre.cb.extra, (pre.digits % 10) as nat));
            assert(rescale_down_spec(pre.digits, pre.cb.extra, pre.cb.scale, new_scale,
                pre_inexact) == rescale_down_spec(d.digits, d.cb.extra, d.cb.scale, new_scale,
                inexact));
        }
    }
    d.cb.signals = Signals {
        rounded: true,
        inexact: d.cb.signals.inexact || inexact,
        ..d.cb.signals
    };
}

/// Moves the decimal point of `d` to `new_scale` in place.
#[verifier::spinoff_prover]
#[verifier::rlimit(100)]
pub(crate) fn rescale(d: &mut Decimal, new_scale: i16)
    requires
        old(d).wf(),
    ensures
        *final(d) == rescale_spec(*old(d), new_scale),
        final(d).wf(),
{
    if d.cb.is_special() {
        d.cb.signaling_nan();
        proof {
            assert(*d == rescale_spec(*old(d), new_scale));
        }
        return;
    }
    if d.digits == 0 {
        d.cb.set_scale(new_scale);
        proof {
            assert(*d == rescale_spec(*old(d), new_scale));
        }
        return;
    }
    if new_scale > d.cb.get_scale() {
        rescale_up(d, new_scale);
        proof {
            assert(*d == rescale_spec(*old(d), new_scale));
        }
        return;
    }
    if new_scale < d.cb.get_scale() {
        rescale_down(d, new_scale);
        proof {
            let o = *old(d);
            let r = rescale_down_spec(o.digits, o.cb.extra, o.cb.scale, new_scale, false);
            let expected = Decimal {
                digits: r.0,
                cb: ControlBlock {
                    scale: r.2,
                    extra: r.1,
                    signals: Signals {
                        rounded: true,
                        inexact: o.cb.signals.inexact || r.3,
                        ..o.cb.signals
                    },
                    ..o.cb
                },
            };
            assert(*d == expected);
            assert(rescale_spec(o, new_scale) == expected);
        }
        return;
    }
    proof {
        assert(*d == rescale_spec(*old(d), new_scale));
    }
}

/// One trailing-zero strip at a time, the canonical short form of a nonzero
/// coefficient: digits shift out into the scale until the last digit is
/// nonzero or the scale cannot go lower; the flag reports the latter stop.
pub open spec fn reduce_rec(c: u128, s: i16) -> (u128, i16, bool)
    decreases c,
{
    if c == 0 {
        (c, s, false)
    } else if c % 10 == 0 {
        if s > i16::MIN {
            reduce_rec(c / 10, (s - 1) as i16)
        } else {
            (c, s, true)
        }
    } else {
        (c, s, false)
    }
}

/// The canonical shortest form of a decimal: significant trailing zeros of
/// the coefficient move into the scale. Special values turn into a signaling
/// NaN; a zero snaps to scale zero; a strip stopped by the scale floor flags
/// subnormal.
pub open spec fn reduce_spec(d: Decimal) -> Decimal {
    if d.cb.special != Special::Finite {
        Decimal {
            digits: d.digits,
            cb: ControlBlock {
                special: Special::SignalingNan,
                signals: Signals { invalid: true, ..d.cb.signals },
                ..d.cb
            },
        }
    } else if d.digits == 0 {
        Decimal { digits: 0, cb: ControlBlock { scale: 0, ..d.cb } }
    } else {
        let r = reduce_rec(d.digits, d.cb.scale);
        Decimal {
            digits: r.0,
            cb: ControlBlock {
                scale: r.1,
                signals: if r.2 {
                    Signals { subnormal: true, ..d.cb.signals }
                } else {
                    d.cb.signals
                },
                ..d.cb
            },
        }
    }
}

/// The decimal rescaled to another value's scale, or a signaling NaN when
/// that scale cannot be reached exactly. Infinity quantized against infinity
/// passes through; any other special operand gives a signaling NaN.
pub open spec fn quantize_spec(d: Decimal, other: Decimal) -> Decimal {
    if d.cb.special == Special::Infinity && other.cb.special == Special::Infinity {
        d
    } else if d.cb.special != Special::Finite || other.cb.special != Special::Finite {
        Decimal {
            digits: d.digits,
            cb: ControlBlock {
                special: Special::SignalingNan,
                signals: Signals { invalid: true, ..d.cb.signals },
                ..d.cb
            },
        }
    } else {
        let r0 = rescale_spec(d, other.cb.scale);
        let r = Decimal {
            digits: r0.digits,
            cb: ControlBlock {
                signals: Signals { underflow: false, ..r0.cb.signals },
                ..r0.cb
            },
        };
        if r.cb.scale != other.cb.scale {
            Decimal {
                digits: r.digits,
                cb: ControlBlock {
                    special: Special::SignalingNan,
                    signals: Signals { invalid: true, ..r.cb.signals },
                    ..r.cb
                },
            }
        } else {
            r
        }
    }
}

/// The decimal cut to `scale` fractional digits: dropped digits are
/// discarded outright, never rounded up.
pub open spec fn trunc_spec(d: Decimal, scale: i16) -> Decimal {
    if d.cb.special != Special::Finite {
        Decimal {
            digits: d.digits,
            cb: ControlBlock {
                special: Special::SignalingNan,
                signals: Signals { invalid: true, ..d.cb.signals },
                ..d.cb
            },
        }
    } else if d.digits == 0 || scale >= d.cb.scale {
        d
    } else {
        let r = rescale_down_spec(d.digits, d.cb.extra, d.cb.scale, scale, false);
        Decimal {
            digits: r.0,
            cb: ControlBlock {
                scale: r.2,
                extra: ExtraPrecision::spec_empty(),
                signals: Signals {
                    rounded: true,
                    inexact: d.cb.signals.inexact || r.3,
                    ..d.cb.signals
                },
                ..d.cb
            },
        }
    }
}

/// Scaling up never passes the requested scale, nor goes backward.
pub proof fn lemma_rescale_up_scale_bounds(c: u128, e: ExtraPrecision, s: i16, t: i16)
    requires
        s <= t,
    ensures
        s <= rescale_up_spec(c, e, s, t).2 <= t,
    decreases t - s,
{
    if s < t {
        let top = (e.digits / EXTRA_PRECISION_SCALE) as u128;
        if c <= (u128::MAX - top) / 10 {
            lemma_rescale_up_scale_bounds((c * 10 + top) as u128, shift_extra_up_spec(e),
                (s + 1) as i16, t);
        }
    }
}

/// Scaling down always lands exactly on the requested scale.
pub proof fn lemma_rescale_down_reaches(c: u128, e: ExtraPrecision, s: i16, t: i16, i: bool)
    requires
        s >= t,
    ensures
        rescale_down_spec(c, e, s, t, i).2 == t,
    decreases s - t,
{
    if s > t {
        lemma_rescale_down_reaches(c / 10, push_extra_spec(e, (c % 10) as nat), (s - 1) as i16, t,
            i || c % 10 != 0);
    }
}

/// A decimal with the rounding mode of its carried context replaced.
pub open spec fn with_mode_spec(d: Decimal, rm: crate::rounding::RoundingMode) -> Decimal {
    Decimal {
        digits: d.digits,
        cb: ControlBlock {
            ctx: crate::context::Context { rounding_mode: rm, ..d.cb.ctx },
            ..d.cb
        },
    }
}

/// Rescales `d` up to `new_scale` when that raises the scale; otherwise
/// leaves it alone.
pub fn extend_scale_to(d: &mut Decimal, new_scale: i16)
    requires
        old(d).wf(),
    ensures
        final(d).wf(),
        *final(d) == (if new_scale > old(d).cb.scale {
            rescale_spec(*old(d), new_scale)
        } else {
            *old(d)
        }),
{
    if new_scale > d.cb.get_scale() {
        rescale(d, new_scale);
    }
}

impl Decimal {
    /// The value re-scaled to `new_scale` and rounded under the carried
    /// mode: scaling down consumes the dropped digits in one rounding step,
    /// scaling up pads the coefficient and flags clamped when it cannot
    /// reach the target.
    pub fn rescale(self, new_scale: i16) -> (r: Decimal)
        requires
            self.wf(),
        ensures
            r == round_spec(rescale_spec(self, new_scale)),
            r.wf(),
    {
        let mut d = self;
        rescale(&mut d, new_scale);
        d.round_extra_precision()
    }

    /// The value rounded to `digits` fractional digits under the carried
    /// rounding mode.
    pub fn round(self, digits: i16) -> (r: Decimal)
        requires
            self.wf(),
        ensures
            r == round_spec(rescale_spec(self, digits)),
            r.wf(),
    {
        self.rescale(digits)
    }

    /// The smallest representable increment at exponent `exp`: one times ten
    /// to the `exp`.
    pub fn quantum(exp: i32, ctx: Context) -> (r: Decimal)
        ensures
            r == construct_spec(
                1,
                exp as int,
                Sign::Plus,
                Signals::spec_empty(),
                ctx,
                ExtraPrecision::spec_empty(),
            ),
            r.wf(),
    {
        construct(1, exp, Sign::Plus, Signals::empty(), ctx, ExtraPrecision::new())
    }

    /// The canonical shortest form: significant trailing zeros of the
    /// coefficient move into the scale, so that numerically equal values get
    /// identical representations.
    pub fn reduce(self) -> (r: Decimal)
        requires
            self.wf(),
        ensures
            r == reduce_spec(self),
            r.wf(),
    {
        let mut d = self;
        if d.cb.is_special() {
            d.cb.signaling_nan();
            return d;
        }
        if d.digits == 0 {
            d.cb.set_scale(0);
            return d;
        }
        let ghost orig = d;
        let mut stopped_by_scale = false;
        while d.digits % 10 == 0 && d.cb.scale > i16::MIN
            invariant
                d.wf(),
                d.digits != 0,
                d.cb == (ControlBlock { scale: d.cb.scale, ..orig.cb }),
                reduce_rec(orig.digits, orig.cb.scale) == reduce_rec(d.digits, d.cb.scale),
            decreases d.digits,
        {
            d.digits = d.digits / 10;
            d.cb.scale = d.cb.scale - 1;
        }
        if d.digits % 10 == 0 {
            d.cb.signals = Signals { subnormal: true, ..d.cb.signals };
        }
        d
    }

    /// The value rescaled to `other`'s scale and rounded, or a signaling NaN
    /// when that scale cannot be represented exactly.
    pub fn quantize(self, other: Decimal) -> (r: Decimal)
        requires
            self.wf(),
        ensures
            r == round_spec(quantize_spec(self, other)),
            r.wf(),
    {
        let d = self;
        if d.cb.is_infinity() && other.cb.is_infinity() {
            return d.round_extra_precision();
        }
        if d.cb.is_special() || other.cb.is_special() {
            return d.signaling_nan_from().round_extra_precision();
        }
        let mut res = d;
        rescale(&mut res, other.cb.get_scale());
        res.cb.signals = Signals { underflow: false, ..res.cb.signals };
        if res.cb.get_scale() != other.cb.get_scale() {
            res.signaling_nan_from().round_extra_precision()
        } else {
            res.round_extra_precision()
        }
    }

    /// The value cut to `scale` fractional digits, discarding the rest.
    pub fn trunc_with_scale(self, scale: i16) -> (r: Decimal)
        requires
            self.wf(),
        ensures
            r == trunc_spec(self, scale),
            r.wf(),
    {
        if !self.is_finite() {
            return self.signaling_nan_from();
        }
        if self.digits == 0 || scale >= self.fractional_digits_count() {
            return self;
        }
        let mut d = self;
        rescale(&mut d, scale);
        d.cb.reset_extra_digits();
        d
    }

    /// The integer part of the value: everything after the decimal point is
    /// discarded.
    pub fn trunc(self) -> (r: Decimal)
        requires
            self.wf(),
        ensures
            r == trunc_spec(self, 0),
            r.wf(),
    {
        self.trunc_with_scale(0)
    }

    /// True when the value is a whole number: finite, with no nonzero digit
    /// right of the decimal point once trailing zeros are stripped.
    pub fn is_integral(&self) -> (r: bool)
        requires
            self.wf(),
        ensures
            r == (self.is_finite_spec() && reduce_spec(*self).cb.scale <= 0),
    {
        self.is_finite() && self.reduce().fractional_digits_count() <= 0
    }

    /// The largest whole number not above the value: rescaling to scale zero
    /// under the floor rounding mode, which is then restored.
    pub fn floor(self) -> (r: Decimal)
        requires
            self.wf(),
        ensures
            r == with_mode_spec(
                round_spec(rescale_spec(with_mode_spec(self, RoundingMode::Floor), 0)),
                self.cb.ctx.rounding_mode,
            ),
            r.wf(),
    {
        let rm = self.cb.get_rounding_mode();
        self.with_rounding_mode(RoundingMode::Floor).rescale(0).with_rounding_mode(rm)
    }

    /// The smallest whole number not below the value: rescaling to scale
    /// zero under the ceiling rounding mode, which is then restored.
    pub fn ceil(self) -> (r: Decimal)
        requires
            self.wf(),
        ensures
            r == with_mode_spec(
                round_spec(rescale_spec(with_mode_spec(self, RoundingMode::Ceiling), 0)),
                self.cb.ctx.rounding_mode,
            ),
            r.wf(),
    {
        let rm = self.cb.get_rounding_mode();
        self.with_rounding_mode(RoundingMode::Ceiling).rescale(0).with_rounding_mode(rm)
    }
}

} // verus!
