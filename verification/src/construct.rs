use vstd::prelude::*;
use crate::context::Context;
use crate::control_block::{ControlBlock, Special};
use crate::decimal::Decimal;
use crate::extra_precision::ExtraPrecision;
use crate::intrinsics::{
    clength, clength_spec, lemma_pow10_nondec, lemma_pow10_step, pow10, E_LIMIT, E_MAX, E_MIN,
};
use crate::sign::Sign;
use crate::signals::Signals;

verus! {

/// Scale of a zero built at exponent `exp`: the negated exponent clamped
/// into the scale range, with a flag telling whether clamping happened.
pub open spec fn zero_scale_spec(exp: int) -> (i16, bool) {
    if exp > i16::MAX + 1 {
        (i16::MIN, true)
    } else if exp <= i16::MIN {
        (i16::MAX, true)
    } else {
        ((-exp) as i16, false)
    }
}

/// The decimal that `construct` builds from a coefficient, a decimal
/// exponent and a sign, carrying over signals, context and guard digits.
///
/// The exponent band works outward: a zero coefficient only clamps the
/// scale; an exponent above `E_MAX` overflows to infinity; one below
/// `E_MIN` underflows to zero; one at most `E_LIMIT` is stored directly,
/// flagged subnormal near the bottom of the band; and one between `E_LIMIT`
/// and `E_MAX` pads the coefficient with trailing zeros, overflowing to
/// infinity when the padded coefficient no longer fits.
pub open spec fn construct_spec(
    digits: u128,
    exp: int,
    sign: Sign,
    signals: Signals,
    ctx: Context,
    extra: ExtraPrecision,
) -> Decimal {
    if digits == 0 {
        let scale = zero_scale_spec(exp).0;
        let clamped = zero_scale_spec(exp).1;
        Decimal {
            digits: 0,
            cb: ControlBlock {
                sign: sign,
                scale: scale,
                special: Special::Finite,
                ctx: ctx,
                signals: if clamped {
                    Signals { clamped: true, ..signals }
                } else {
                    signals
                },
                extra: extra,
            },
        }
    } else if exp > E_MAX {
        Decimal {
            digits: 0,
            cb: ControlBlock {
                sign: sign,
                scale: 0,
                special: Special::Infinity,
                ctx: ctx,
                signals: Signals { overflow: true, ..signals },
                extra: ExtraPrecision::spec_empty(),
            },
        }
    } else if exp < E_MIN {
        Decimal {
            digits: 0,
            cb: ControlBlock {
                sign: sign,
                scale: i16::MAX,
                special: Special::Finite,
                ctx: ctx,
                signals: Signals { underflow: true, clamped: true, ..signals },
                extra: ExtraPrecision::spec_empty(),
            },
        }
    } else if exp <= E_LIMIT {
        Decimal {
            digits: digits,
            cb: ControlBlock {
                sign: sign,
                scale: (-exp) as i16,
                special: Special::Finite,
                ctx: ctx,
                signals: if exp < E_MIN + clength_spec(digits as nat) - 1 {
                    Signals { subnormal: true, ..signals }
                } else {
                    signals
                },
                extra: extra,
            },
        }
    } else {
        let k = (exp - E_LIMIT) as nat;
        if digits * pow10(k) <= u128::MAX {
            Decimal {
                digits: (digits * pow10(k)) as u128,
                cb: ControlBlock {
                    sign: sign,
                    scale: i16::MIN,
                    special: Special::Finite,
                    ctx: ctx,
                    signals: Signals { clamped: true, rounded: true, ..signals },
                    extra: extra,
                },
            }
        } else {
            Decimal {
                digits: 0,
                cb: ControlBlock {
                    sign: sign,
                    scale: 0,
                    special: Special::Infinity,
                    ctx: ctx,
                    signals: Signals {
                        clamped: true,
                        rounded: true,
                        overflow: true,
                        ..signals
                    },
                    extra: ExtraPrecision::spec_empty(),
                },
            }
        }
    }
}

/// Scaling a fixed coefficient by a larger power of ten never shrinks it.
proof fn lemma_mul_pow10_nondec(c: nat, a: nat, b: nat)
    requires
        a <= b,
    ensures
        c * pow10(a) <= c * pow10(b),
{
    lemma_pow10_nondec(a, b);
    vstd::arithmetic::mul::lemma_mul_inequality(pow10(a) as int, pow10(b) as int, c as int);
    vstd::arithmetic::mul::lemma_mul_is_commutative(c as int, pow10(a) as int);
    vstd::arithmetic::mul::lemma_mul_is_commutative(c as int, pow10(b) as int);
}

/// Builds a valid decimal from a coefficient, a decimal exponent and a
/// sign, enforcing the exponent bounds of the type.
#[verifier::loop_isolation(false)]
pub(crate) fn construct(
    digits: u128,
    exp: i32,
    sign: Sign,
    signals: Signals,
    ctx: Context,
    extra: ExtraPrecision,
) -> (r: Decimal)
    requires
        extra.wf(),
    ensures
        r == construct_spec(digits, exp as int, sign, signals, ctx, extra),
        r.wf(),
{
    if digits == 0 {
        return construct_zero(exp, sign, signals, ctx, extra);
    }
    if exp > E_MAX {
        let mut cb = ControlBlock::basic(0, sign);
        cb.special = Special::Infinity;
        cb.ctx = ctx;
        cb.signals = signals.with_overflow();
        return Decimal { digits: 0, cb };
    }
    if exp < E_MIN {
        let mut cb = ControlBlock::basic(i16::MAX, sign);
        cb.ctx = ctx;
        cb.signals = signals.with_underflow().with_clamped();
        return Decimal { digits: 0, cb };
    }
    if exp <= E_LIMIT {
        let clen = clength(digits);
        let mut signals = signals;
        if exp < E_MIN + (clen as i32 - 1) {
            signals = signals.with_subnormal();
        }
        let mut cb = ControlBlock::basic((-exp) as i16, sign);
        cb.ctx = ctx;
        cb.signals = signals;
        cb.extra = extra;
        return Decimal { digits, cb };
    }

    // Pad the coefficient with trailing zeros until the exponent is storable.
    let padded_signals = signals.with_clamped().with_rounded();
    let ghost k = (exp - E_LIMIT) as nat;
    let mut acc: u128 = digits;
    let mut e: i32 = exp;
    proof {
        assert(pow10(0) == 1);
        assert(digits * pow10(0) == digits) by (nonlinear_arith)
            requires
                pow10(0) == 1,
        ;
    }
    while e > E_LIMIT
        invariant
            E_LIMIT < exp <= E_MAX,
            E_LIMIT <= e <= exp,
            digits >= 1,
            acc == digits * pow10((exp - e) as nat),
            k == exp - E_LIMIT,
        decreases e,
    {
        if acc > u128::MAX / 10 {
            proof {
                assert(u128::MAX / 10 * 10 + 5 == u128::MAX);
                lemma_pow10_step((exp - e) as nat);
                assert(digits * pow10((exp - e + 1) as nat) == acc * 10) by (nonlinear_arith)
                    requires
                        acc == digits * pow10((exp - e) as nat),
                        pow10((exp - e + 1) as nat) == 10 * pow10((exp - e) as nat),
                ;
                lemma_mul_pow10_nondec(digits as nat, (exp - e + 1) as nat, k);
            }
            let mut cb = ControlBlock::basic(0, sign);
            cb.special = Special::Infinity;
            cb.ctx = ctx;
            cb.signals = padded_signals.with_overflow();
            return Decimal { digits: 0, cb };
        }
        proof {
            lemma_pow10_step((exp - e) as nat);
            assert(digits * pow10((exp - e + 1) as nat) == acc * 10) by (nonlinear_arith)
                requires
                    acc == digits * pow10((exp - e) as nat),
                    pow10((exp - e + 1) as nat) == 10 * pow10((exp - e) as nat),
            ;
        }
        acc = acc * 10;
        e = e - 1;
    }
    let mut cb = ControlBlock::basic(i16::MIN, sign);
    cb.ctx = ctx;
    cb.signals = padded_signals;
    cb.extra = extra;
    Decimal { digits: acc, cb }
}

impl Decimal {
    /// Builds a decimal from a coefficient, a decimal exponent and a sign,
    /// under the given context: the canonical fallible-free constructor.
    pub fn from_parts(digits: u128, exp: i32, sign: Sign, ctx: Context) -> (r: Decimal)
        ensures
            r == construct_spec(
                digits,
                exp as int,
                sign,
                Signals::spec_empty(),
                ctx,
                ExtraPrecision::spec_empty(),
            ),
            r.wf(),
    {
        construct(digits, exp, sign, Signals::empty(), ctx, ExtraPrecision::new())
    }

    /// The decimal with the value of an unsigned machine integer.
    pub fn from_u64(n: u64) -> (r: Decimal)
        ensures
            r == (Decimal { digits: n as u128, cb: ControlBlock::spec_basic(0, Sign::Plus) }),
    {
        Decimal { digits: n as u128, cb: ControlBlock::basic(0, Sign::Plus) }
    }

    /// The decimal with the value of an unsigned 128-bit integer.
    pub fn from_u128(n: u128) -> (r: Decimal)
        ensures
            r == (Decimal { digits: n, cb: ControlBlock::spec_basic(0, Sign::Plus) }),
    {
        Decimal { digits: n, cb: ControlBlock::basic(0, Sign::Plus) }
    }

    /// The decimal with the value of a signed machine integer.
    pub fn from_i64(n: i64) -> (r: Decimal)
        ensures
            n >= 0 ==> r == (Decimal {
                digits: n as u128,
                cb: ControlBlock::spec_basic(0, Sign::Plus),
            }),
            n < 0 ==> r == (Decimal {
                digits: (-(n as int)) as u128,
                cb: ControlBlock::spec_basic(0, Sign::Minus),
            }),
    {
        if n >= 0 {
            Decimal { digits: n as u128, cb: ControlBlock::basic(0, Sign::Plus) }
        } else {
            Decimal {
                digits: (-(n as i128)) as u128,
                cb: ControlBlock::basic(0, Sign::Minus),
            }
        }
    }
}

impl From<u64> for Decimal {
    fn from(n: u64) -> (r: Decimal)
        ensures
            r == (Decimal { digits: n as u128, cb: ControlBlock::spec_basic(0, Sign::Plus) }),
    {
        Decimal::from_u64(n)
    }
}

impl vstd::std_specs::convert::FromSpecImpl<u64> for Decimal {
    open spec fn obeys_from_spec() -> bool {
        true
    }

    open spec fn from_spec(n: u64) -> Decimal {
        Decimal { digits: n as u128, cb: ControlBlock::spec_basic(0, Sign::Plus) }
    }
}

impl From<i64> for Decimal {
    fn from(n: i64) -> (r: Decimal)
        ensures
            r == Decimal::int_value_spec(n as int),
    {
        Decimal::from_i64(n)
    }
}

impl vstd::std_specs::convert::FromSpecImpl<i64> for Decimal {
    open spec fn obeys_from_spec() -> bool {
        true
    }

    open spec fn from_spec(n: i64) -> Decimal {
        Decimal::int_value_spec(n as int)
    }
}

impl ExtraPrecision {
    /// The guard digits as a decimal of their own, seven places below the
    /// given exponent; an empty register gives a signed zero.
    pub fn as_decimal(self, exp: i32, sign: Sign, ctx: Context) -> (r: Decimal)
        requires
            self.wf(),
            exp >= i32::MIN + 7,
        ensures
            self.digits != 0 ==> r == construct_spec(
                self.digits as u128,
                exp - 7,
                sign,
                Signals::spec_empty(),
                ctx,
                ExtraPrecision::spec_empty(),
            ),
            self.digits == 0 ==> r == (Decimal {
                digits: 0,
                cb: ControlBlock {
                    ctx: ctx,
                    ..ControlBlock::spec_basic(0, sign)
                },
            }),
    {
        if self.digits != 0 {
            construct(
                self.digits as u128,
                exp - 7,
                sign,
                Signals::empty(),
                ctx,
                ExtraPrecision::new(),
            )
        } else {
            let mut cb = ControlBlock::basic(0, sign);
            cb.ctx = ctx;
            Decimal { digits: 0, cb }
        }
    }

}

impl ControlBlock {
    /// Empties the guard register into a decimal of its own, seven places
    /// below this block's exponent; an empty register gives a signed zero.
    pub fn take_extra_digits(&mut self, ctx: Context) -> (r: Decimal)
        requires
            old(self).wf(),
        ensures
            final(self).wf(),
            *final(self) == (ControlBlock { extra: ExtraPrecision::spec_empty(), ..*old(self) }),
            old(self).extra.digits != 0 ==> r == construct_spec(
                old(self).extra.digits as u128,
                -(old(self).scale as int) - 7,
                old(self).sign,
                Signals::spec_empty(),
                ctx,
                ExtraPrecision::spec_empty(),
            ),
            old(self).extra.digits == 0 ==> r == (Decimal {
                digits: 0,
                cb: ControlBlock { ctx: ctx, ..ControlBlock::spec_basic(0, old(self).sign) },
            }),
    {
        let extra = self.extra;
        let exp = self.get_exponent();
        let sign = self.get_sign();
        self.extra = ExtraPrecision::new();
        extra.as_decimal(exp, sign, ctx)
    }
}

/// Builds a zero at the given exponent, clamping the scale into range.
fn construct_zero(
    exp: i32,
    sign: Sign,
    signals: Signals,
    ctx: Context,
    extra: ExtraPrecision,
) -> (r: Decimal)
    requires
        extra.wf(),
    ensures
        r == construct_spec(0, exp as int, sign, signals, ctx, extra),
        r.wf(),
{
    let (scale, clamped): (i16, bool) = if exp > i16::MAX as i32 + 1 {
        (i16::MIN, true)
    } else if exp <= i16::MIN as i32 {
        (i16::MAX, true)
    } else {
        ((-exp) as i16, false)
    };
    let mut cb = ControlBlock::basic(scale, sign);
    cb.ctx = ctx;
    cb.signals = if clamped {
        signals.with_clamped()
    } else {
        signals
    };
    cb.extra = extra;
    Decimal { digits: 0, cb }
}

} // verus!
