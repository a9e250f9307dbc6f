use vstd::prelude::*;
use crate::control_block::{ControlBlock, Special};
use crate::decimal::Decimal;
use crate::extra_precision::{count_digits_spec, ExtraPrecision, EXTRA_PRECISION_CARRY};
use crate::round::round_spec;
use crate::scale::{push_extra_spec, rescale_spec};
use crate::sign::Sign;
use crate::signals::Signals;

verus! {

/// The guard-digit register holding the digit block `digits`.
pub open spec fn extra_of_spec(digits: nat) -> ExtraPrecision {
    ExtraPrecision { digits: digits as u32, count: count_digits_spec(digits) as u32 }
}

/// Two finite operands brought to a common scale: the smaller-scale side is
/// scaled up toward the other; if it stops short of the target for want of
/// coefficient room, the other side is scaled down to meet it.
pub open spec fn align_spec(a: Decimal, b: Decimal) -> (Decimal, Decimal) {
    if a.cb.scale == b.cb.scale {
        (a, b)
    } else if a.cb.scale < b.cb.scale {
        let a2 = rescale_spec(a, b.cb.scale);
        if a2.cb.scale == b.cb.scale {
            (a2, b)
        } else {
            (a2, rescale_spec(b, a2.cb.scale))
        }
    } else {
        let b2 = rescale_spec(b, a.cb.scale);
        if b2.cb.scale == a.cb.scale {
            (a, b2)
        } else {
            (rescale_spec(a, b2.cb.scale), b2)
        }
    }
}

/// The sum of two finite operands at a common scale.
///
/// Same-signed coefficients add, with a carry out of the combined guard
/// registers; a sum past the coefficient limit first halves both operands
/// into their registers, and a sum at the lowest scale saturates with the
/// clamped flag. Opposite signs subtract the smaller magnitude from the
/// larger, whose sign wins; equal magnitudes give a positive zero.
pub open spec fn add_aligned_spec(a: Decimal, b: Decimal) -> Decimal {
    let sig = a.cb.signals.spec_combine(b.cb.signals);
    let s = a.cb.scale;
    if a.cb.sign == b.cb.sign {
        let esum = a.cb.extra.digits + b.cb.extra.digits;
        let carry: nat = if esum >= EXTRA_PRECISION_CARRY {
            1
        } else {
            0
        };
        let e1 = (esum - carry * EXTRA_PRECISION_CARRY) as nat;
        if a.digits + b.digits + carry <= u128::MAX {
            Decimal {
                digits: (a.digits + b.digits + carry) as u128,
                cb: ControlBlock {
                    sign: a.cb.sign,
                    scale: s,
                    special: Special::Finite,
                    ctx: a.cb.ctx,
                    signals: sig,
                    extra: extra_of_spec(e1),
                },
            }
        } else if s > i16::MIN {
            let ea = push_extra_spec(a.cb.extra, (a.digits % 10) as nat);
            let eb = push_extra_spec(b.cb.extra, (b.digits % 10) as nat);
            let esum2 = ea.digits + eb.digits;
            let carry2: nat = if esum2 >= EXTRA_PRECISION_CARRY {
                1
            } else {
                0
            };
            let e2 = (esum2 - carry2 * EXTRA_PRECISION_CARRY) as nat;
            Decimal {
                digits: (a.digits / 10 + b.digits / 10 + carry2) as u128,
                cb: ControlBlock {
                    sign: a.cb.sign,
                    scale: (s - 1) as i16,
                    special: Special::Finite,
                    ctx: a.cb.ctx,
                    signals: Signals {
                        rounded: true,
                        inexact: sig.inexact || a.digits % 10 != 0 || b.digits % 10 != 0,
                        ..sig
                    },
                    extra: extra_of_spec(e2),
                },
            }
        } else {
            Decimal {
                digits: u128::MAX,
                cb: ControlBlock {
                    sign: a.cb.sign,
                    scale: s,
                    special: Special::Finite,
                    ctx: a.cb.ctx,
                    signals: Signals { rounded: true, inexact: true, clamped: true, ..sig },
                    extra: ExtraPrecision::spec_empty(),
                },
            }
        }
    } else {
        if a.digits == b.digits && a.cb.extra.digits == b.cb.extra.digits {
            Decimal {
                digits: 0,
                cb: ControlBlock {
                    sign: Sign::Plus,
                    scale: s,
                    special: Special::Finite,
                    ctx: a.cb.ctx,
                    signals: sig,
                    extra: ExtraPrecision::spec_empty(),
                },
            }
        } else {
            let a_bigger = a.digits > b.digits || (a.digits == b.digits && a.cb.extra.digits
                > b.cb.extra.digits);
            let bg = if a_bigger {
                a
            } else {
                b
            };
            let sm = if a_bigger {
                b
            } else {
                a
            };
            let borrow: nat = if sm.cb.extra.digits > bg.cb.extra.digits {
                1
            } else {
                0
            };
            let e1 = (bg.cb.extra.digits - sm.cb.extra.digits + borrow * EXTRA_PRECISION_CARRY)
                as nat;
            Decimal {
                digits: (bg.digits - sm.digits - borrow) as u128,
                cb: ControlBlock {
                    sign: bg.cb.sign,
                    scale: s,
                    special: Special::Finite,
                    ctx: a.cb.ctx,
                    signals: sig,
                    extra: extra_of_spec(e1),
                },
            }
        }
    }
}

/// The sum of two decimals, before the final rounding step.
///
/// A NaN operand propagates with the invalid flag, compounding both signal
/// sets; two infinities of one sign pass through, of opposite signs they
/// give a signaling NaN; an infinity beside a finite value wins; finite
/// operands are aligned to one scale and added there.
pub open spec fn add_spec(lhs: Decimal, rhs: Decimal) -> Decimal {
    if lhs.is_nan_spec() {
        Decimal {
            digits: lhs.digits,
            cb: ControlBlock {
                signals: Signals {
                    invalid: true,
                    ..lhs.cb.signals.spec_combine(rhs.cb.signals)
                },
                ..lhs.cb
            },
        }
    } else if rhs.is_nan_spec() {
        Decimal {
            digits: rhs.digits,
            cb: ControlBlock {
                signals: Signals {
                    invalid: true,
                    ..rhs.cb.signals.spec_combine(lhs.cb.signals)
                },
                ..rhs.cb
            },
        }
    } else if lhs.is_infinite_spec() && rhs.is_infinite_spec() {
        if lhs.cb.sign == rhs.cb.sign {
            Decimal {
                digits: lhs.digits,
                cb: ControlBlock {
                    signals: lhs.cb.signals.spec_combine(rhs.cb.signals),
                    ..lhs.cb
                },
            }
        } else {
            Decimal {
                digits: 0,
                cb: ControlBlock {
                    special: Special::SignalingNan,
                    signals: Signals {
                        invalid: true,
                        ..lhs.cb.signals.spec_combine(rhs.cb.signals)
                    },
                    extra: ExtraPrecision::spec_empty(),
                    ..lhs.cb
                },
            }
        }
    } else if lhs.is_infinite_spec() {
        Decimal {
            digits: lhs.digits,
            cb: ControlBlock {
                signals: lhs.cb.signals.spec_combine(rhs.cb.signals),
                ..lhs.cb
            },
        }
    } else if rhs.is_infinite_spec() {
        Decimal {
            digits: rhs.digits,
            cb: ControlBlock {
                signals: rhs.cb.signals.spec_combine(lhs.cb.signals),
                ..rhs.cb
            },
        }
    } else {
        let ab = align_spec(lhs, rhs);
        add_aligned_spec(ab.0, ab.1)
    }
}

/// Adds two finite decimals already brought to one scale.
#[verifier::rlimit(100)]
#[verifier::spinoff_prover]
fn add_aligned(a: Decimal, b: Decimal) -> (r: Decimal)
    requires
        a.wf(),
        b.wf(),
        a.cb.scale == b.cb.scale,
    ensures
        r == add_aligned_spec(a, b),
        r.wf(),
{
    let sig = a.cb.signals.combine(b.cb.signals);
    let s = a.cb.get_scale();
    if matches!(a.cb.get_sign(), Sign::Plus) == matches!(b.cb.get_sign(), Sign::Plus) {
        let esum: u64 = a.cb.get_extra_digits() + b.cb.get_extra_digits();
        let carry: u128 = if esum >= EXTRA_PRECISION_CARRY {
            1
        } else {
            0
        };
        let e1: u64 = esum - (carry as u64) * EXTRA_PRECISION_CARRY;
        if a.digits <= u128::MAX - b.digits && a.digits + b.digits <= u128::MAX - carry {
            let mut cb = ControlBlock::basic(s, a.cb.get_sign());
            cb.ctx = a.cb.ctx;
            cb.signals = sig;
            cb.extra = ExtraPrecision::from_digits(e1);
            Decimal { digits: a.digits + b.digits + carry, cb }
        } else if s > i16::MIN {
            let da = (a.digits % 10) as u64;
            let db = (b.digits % 10) as u64;
            let mut ea = a.cb.extra;
            ea.push_digit(da);
            let mut eb = b.cb.extra;
            eb.push_digit(db);
            let esum2: u64 = ea.digits as u64 + eb.digits as u64;
            let carry2: u128 = if esum2 >= EXTRA_PRECISION_CARRY {
                1
            } else {
                0
            };
            let e2: u64 = esum2 - (carry2 as u64) * EXTRA_PRECISION_CARRY;
            let mut cb = ControlBlock::basic(s - 1, a.cb.get_sign());
            cb.ctx = a.cb.ctx;
            cb.signals = Signals {
                rounded: true,
                inexact: sig.inexact || da != 0 || db != 0,
                ..sig
            };
            cb.extra = ExtraPrecision::from_digits(e2);
            Decimal { digits: a.digits / 10 + b.digits / 10 + carry2, cb }
        } else {
            let mut cb = ControlBlock::basic(s, a.cb.get_sign());
            cb.ctx = a.cb.ctx;
            cb.signals = Signals { rounded: true, inexact: true, clamped: true, ..sig };
            Decimal { digits: u128::MAX, cb }
        }
    } else {
        if a.digits == b.digits && a.cb.extra.digits == b.cb.extra.digits {
            let mut cb = ControlBlock::basic(s, Sign::Plus);
            cb.ctx = a.cb.ctx;
            cb.signals = sig;
            return Decimal { digits: 0, cb };
        }
        let a_bigger = a.digits > b.digits || (a.digits == b.digits && a.cb.extra.digits
            > b.cb.extra.digits);
        let bg = if a_bigger {
            a
        } else {
            b
        };
        let sm = if a_bigger {
            b
        } else {
            a
        };
        let borrow: u128 = if sm.cb.extra.digits > bg.cb.extra.digits {
            1
        } else {
            0
        };
        let e1: u64 = bg.cb.get_extra_digits() + (borrow as u64) * EXTRA_PRECISION_CARRY
            - sm.cb.get_extra_digits();
        let mut cb = ControlBlock::basic(s, bg.cb.get_sign());
        cb.ctx = a.cb.ctx;
        cb.signals = sig;
        cb.extra = ExtraPrecision::from_digits(e1);
        Decimal { digits: bg.digits - sm.digits - borrow, cb }
    }
}

/// The sum of two decimals, before the final rounding step.
pub(crate) fn add(lhs: Decimal, rhs: Decimal) -> (r: Decimal)
    requires
        lhs.wf(),
        rhs.wf(),
    ensures
        r == add_spec(lhs, rhs),
        r.wf(),
{
    if lhs.is_nan() {
        let mut d = lhs;
        d.cb.compound(&rhs.cb);
        d.cb.raise_op_invalid();
        return d;
    }
    if rhs.is_nan() {
        let mut d = rhs;
        d.cb.compound(&lhs.cb);
        d.cb.raise_op_invalid();
        return d;
    }
    if lhs.is_infinite() && rhs.is_infinite() {
        if matches!(lhs.cb.get_sign(), Sign::Plus) == matches!(rhs.cb.get_sign(), Sign::Plus) {
            let mut d = lhs;
            d.cb.compound(&rhs.cb);
            return d;
        } else {
            let mut d = lhs;
            d.digits = 0;
            d.cb.compound(&rhs.cb);
            d.cb.signaling_nan();
            d.cb.reset_extra_digits();
            return d;
        }
    }
    if lhs.is_infinite() {
        let mut d = lhs;
        d.cb.compound(&rhs.cb);
        return d;
    }
    if rhs.is_infinite() {
        let mut d = rhs;
        d.cb.compound(&lhs.cb);
        return d;
    }
    let mut a = lhs;
    let mut b = rhs;
    if a.cb.get_scale() < b.cb.get_scale() {
        crate::scale::rescale(&mut a, b.cb.get_scale());
        if a.cb.get_scale() != b.cb.get_scale() {
            proof {
                crate::scale::lemma_rescale_up_scale_bounds(lhs.digits, lhs.cb.extra,
                    lhs.cb.scale, rhs.cb.scale);
                if b.digits != 0 {
                    crate::scale::lemma_rescale_down_reaches(b.digits, b.cb.extra, b.cb.scale,
                        a.cb.scale, false);
                }
            }
            crate::scale::rescale(&mut b, a.cb.get_scale());
        }
    } else if b.cb.get_scale() < a.cb.get_scale() {
        crate::scale::rescale(&mut b, a.cb.get_scale());
        if b.cb.get_scale() != a.cb.get_scale() {
            proof {
                crate::scale::lemma_rescale_up_scale_bounds(rhs.digits, rhs.cb.extra,
                    rhs.cb.scale, lhs.cb.scale);
                if a.digits != 0 {
                    crate::scale::lemma_rescale_down_reaches(a.digits, a.cb.extra, a.cb.scale,
                        b.cb.scale, false);
                }
            }
            crate::scale::rescale(&mut a, b.cb.get_scale());
        }
    }
    add_aligned(a, b)
}

impl Decimal {
    /// The sum of two decimals, rounded under the left operand's mode.
    pub fn add(self, rhs: Decimal) -> (r: Decimal)
        requires
            self.wf(),
            rhs.wf(),
        ensures
            r == round_spec(add_spec(self, rhs)),
            r.wf(),
    {
        crate::math::add::add(self, rhs).round_extra_precision()
    }

    /// The difference of two decimals: the right operand is negated and
    /// added.
    pub fn sub(self, rhs: Decimal) -> (r: Decimal)
        requires
            self.wf(),
            rhs.wf(),
        ensures
            r == round_spec(add_spec(self, rhs.neg_spec())),
            r.wf(),
    {
        crate::math::add::add(self, rhs.neg()).round_extra_precision()
    }

    /// The difference when it is positive, else zero.
    pub fn abs_sub(self, other: Decimal) -> (r: Decimal)
        requires
            self.wf(),
            other.wf(),
        ensures
            r.wf(),
            self.no_extra_spec() && other.no_extra_spec() ==> r == (if crate::cmp::cmp_spec(
                self,
                other,
            ) != core::cmp::Ordering::Greater {
                Decimal {
                    digits: 0,
                    cb: crate::control_block::ControlBlock::spec_basic(0, Sign::Plus),
                }
            } else {
                round_spec(add_spec(self, other.neg_spec()))
            }),
    {
        if self.le(&other) {
            Decimal::zero()
        } else {
            crate::math::add::add(self, other.neg()).round_extra_precision()
        }
    }
}

/// Raises the magnitude of a finite decimal by one unit in the last place,
/// dropping one digit first when the coefficient is full.
pub fn magnitude_inc(d: &mut Decimal)
    requires
        old(d).wf(),
    ensures
        final(d).wf(),
        old(d).digits < u128::MAX ==> *final(d) == (Decimal {
            digits: (old(d).digits + 1) as u128,
            cb: old(d).cb,
        }),
        old(d).digits == u128::MAX && old(d).cb.scale > i16::MIN ==> *final(d) == (Decimal {
            digits: (u128::MAX / 10 + 1) as u128,
            cb: ControlBlock { scale: (old(d).cb.scale - 1) as i16, ..old(d).cb },
        }),
        old(d).digits == u128::MAX && old(d).cb.scale == i16::MIN ==> *final(d) == (Decimal {
            digits: u128::MAX,
            cb: ControlBlock {
                signals: (Signals { clamped: true, ..old(d).cb.signals }),
                ..old(d).cb
            },
        }),
{
    if d.digits < u128::MAX {
        d.digits = d.digits + 1;
    } else if d.cb.get_scale() > i16::MIN {
        d.digits = d.digits / 10 + 1;
        d.cb.dec_scale(1);
    } else {
        d.cb.raise_op_clamped();
    }
}

/// Lowers the magnitude of a finite decimal by one unit in the last place.
pub fn magnitude_dec(d: &mut Decimal)
    requires
        old(d).wf(),
        old(d).digits >= 1,
    ensures
        final(d).wf(),
        *final(d) == (Decimal { digits: (old(d).digits - 1) as u128, cb: old(d).cb }),
{
    d.digits = d.digits - 1;
}

} // verus!
