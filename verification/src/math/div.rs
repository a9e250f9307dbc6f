use vstd::prelude::*;
use crate::construct::{construct, construct_spec};
use crate::control_block::{ControlBlock, Special};
use crate::decimal::Decimal;
use crate::extra_precision::ExtraPrecision;
use crate::intrinsics::{pow10, pow2_128, wide_div, wide_rem, widening_mul_u128};
use crate::round::round_spec;
use crate::rounding::{decide_round_up, rounds_up, RoundingMode};
use crate::scale::trunc_spec;
use crate::sign::Sign;
use crate::signals::Signals;

verus! {

/// One quotient digit at a time, the long division of a remainder against
/// the divisor coefficient: each step multiplies the remainder by ten,
/// divides out one digit and appends it to the quotient, lowering the
/// exponent. The division ends exactly when the remainder empties, or
/// inexactly when the quotient has no room for one more digit, in which case
/// the pending digit is rounded under the carried mode; a round-up of a full
/// quotient first drops one digit into the exponent to make room. The final
/// flag reports the exact ending.
pub open spec fn div_loop_spec(
    q: u128,
    r: u128,
    exp: int,
    c2: u128,
    mode: RoundingMode,
    sign: Sign,
) -> (u128, int, bool)
    decreases u128::MAX - q, u128::MAX - r,
    when c2 >= 1 && r < c2
    via div_loop_spec_decreases
{
    if r == 0 {
        (q, exp, true)
    } else {
        let t = r * 10;
        let digit = (t / (c2 as int)) as u128;
        let rem = (t % (c2 as int)) as u128;
        if q <= (u128::MAX - digit) / 10 {
            div_loop_spec((q * 10 + digit) as u128, rem, exp - 1, c2, mode, sign)
        } else {
            let inc = rounds_up(mode, sign, digit as u8, q);
            if !inc {
                (q, exp, false)
            } else if q < u128::MAX {
                ((q + 1) as u128, exp, false)
            } else {
                ((u128::MAX / 10 + 1) as u128, exp + 1, false)
            }
        }
    }
}

#[via_fn]
proof fn div_loop_spec_decreases(
    q: u128,
    r: u128,
    exp: int,
    c2: u128,
    mode: RoundingMode,
    sign: Sign,
) {
    if r != 0 {
        lemma_div_digit_bounds(q, r, c2);
    }
}

/// The next quotient digit is below ten, the next remainder below the
/// divisor, and every long-division step shrinks the lexicographic measure.
proof fn lemma_div_digit_bounds(q: u128, r: u128, c2: u128)
    requires
        c2 >= 1,
        1 <= r < c2,
    ensures
        0 <= r * 10 / (c2 as int) < 10,
        0 <= r * 10 % (c2 as int) < c2,
        ({
            let digit = (r * 10 / (c2 as int)) as u128;
            let rem = (r * 10 % (c2 as int)) as u128;
            q <= (u128::MAX - digit) / 10 ==> (q * 10 + digit > q || (q == 0 && digit == 0 && rem
                > r))
        }),
{
    let t = r * 10;
    vstd::arithmetic::div_mod::lemma_fundamental_div_mod(t, c2 as int);
    vstd::arithmetic::div_mod::lemma_mod_bound(t, c2 as int);
    vstd::arithmetic::div_mod::lemma_div_pos_is_pos(t, c2 as int);
    let digit = t / (c2 as int);
    let rem = t % (c2 as int);
    assert(t < 10 * c2);
    assert(digit < 10) by (nonlinear_arith)
        requires
            t == c2 * digit + rem,
            t < 10 * c2,
            rem >= 0,
            digit >= 0,
            c2 >= 1,
    ;
    if digit == 0 {
        assert((c2 as int) * digit == 0) by (nonlinear_arith)
            requires
                digit == 0,
        ;
        assert(rem == t);
    }
}

/// The quotient of two decimals, before the final rounding step.
///
/// A NaN operand propagates with the invalid flag; two infinities give a
/// signaling NaN with the invalid flag; a zero divisor coefficient gives a
/// signed infinity with the division-by-zero flag; a zero dividend or a
/// divisor of exactly one passes the dividend through; a lone infinite
/// dividend stays infinite and a lone infinite divisor gives zero. Finite
/// operands long-divide digit by digit until the division is exact or the
/// quotient coefficient is full, which rounds the last pending digit and
/// flags rounded and inexact. The operands' guard registers do not enter the
/// quotient.
pub open spec fn div_spec(lhs: Decimal, rhs: Decimal) -> Decimal {
    let sign = if lhs.cb.sign == rhs.cb.sign {
        Sign::Plus
    } else {
        Sign::Minus
    };
    let comb = lhs.cb.signals.spec_combine(rhs.cb.signals);
    if lhs.is_nan_spec() {
        Decimal {
            digits: lhs.digits,
            cb: ControlBlock { signals: Signals { invalid: true, ..comb }, ..lhs.cb },
        }
    } else if rhs.is_nan_spec() {
        Decimal {
            digits: rhs.digits,
            cb: ControlBlock {
                signals: Signals { invalid: true, ..rhs.cb.signals.spec_combine(lhs.cb.signals) },
                ..rhs.cb
            },
        }
    } else if lhs.is_infinite_spec() && rhs.is_infinite_spec() {
        Decimal {
            digits: 0,
            cb: ControlBlock {
                sign: sign,
                scale: 0,
                special: Special::SignalingNan,
                ctx: lhs.cb.ctx,
                signals: Signals { invalid: true, ..comb },
                extra: ExtraPrecision::spec_empty(),
            },
        }
    } else if !rhs.is_infinite_spec() && rhs.digits == 0 {
        Decimal {
            digits: 0,
            cb: ControlBlock {
                sign: sign,
                scale: 0,
                special: Special::Infinity,
                ctx: lhs.cb.ctx,
                signals: Signals { div_by_zero: true, ..comb },
                extra: ExtraPrecision::spec_empty(),
            },
        }
    } else if lhs.is_infinite_spec() {
        Decimal {
            digits: 0,
            cb: ControlBlock {
                sign: sign,
                scale: 0,
                special: Special::Infinity,
                ctx: lhs.cb.ctx,
                signals: comb,
                extra: ExtraPrecision::spec_empty(),
            },
        }
    } else if rhs.is_infinite_spec() {
        Decimal {
            digits: 0,
            cb: ControlBlock {
                sign: sign,
                scale: 0,
                special: Special::Finite,
                ctx: lhs.cb.ctx,
                signals: comb,
                extra: ExtraPrecision::spec_empty(),
            },
        }
    } else if lhs.digits == 0 || (rhs.digits == 1 && rhs.cb.scale == 0 && rhs.cb.sign == Sign::Plus
        && rhs.cb.extra.spec_is_empty()) {
        Decimal { digits: lhs.digits, cb: ControlBlock { signals: comb, ..lhs.cb } }
    } else {
        let exp0 = rhs.cb.scale - lhs.cb.scale;
        let q0 = (lhs.digits / rhs.digits) as u128;
        let r0 = (lhs.digits % rhs.digits) as u128;
        let res = div_loop_spec(q0, r0, exp0 as int, rhs.digits, lhs.cb.ctx.rounding_mode, sign);
        construct_spec(
            res.0,
            res.1,
            sign,
            if res.2 {
                comb
            } else {
                Signals { inexact: true, rounded: true, ..comb }
            },
            lhs.cb.ctx,
            ExtraPrecision::spec_empty(),
        )
    }
}

/// The quotient of two decimals, before the final rounding step.
#[verifier::loop_isolation(false)]
#[verifier::rlimit(100)]
#[verifier::spinoff_prover]
pub(crate) fn div(lhs: Decimal, rhs: Decimal) -> (res: Decimal)
    requires
        lhs.wf(),
        rhs.wf(),
    ensures
        res == div_spec(lhs, rhs),
        res.wf(),
{
    let sign = lhs.cb.get_sign().mul(rhs.cb.get_sign());
    let comb = lhs.cb.signals.combine(rhs.cb.signals);
    if lhs.is_nan() {
        let mut d = lhs;
        d.cb.compound(&rhs.cb);
        d.cb.raise_op_invalid();
        return d;
    }
    if rhs.is_nan() {
        let mut d = rhs;
        d.cb.compound(&lhs.cb);
        d.cb.raise_op_invalid();
        return d;
    }
    if lhs.is_infinite() && rhs.is_infinite() {
        let mut cb = ControlBlock::basic(0, sign);
        cb.special = Special::SignalingNan;
        cb.ctx = lhs.cb.get_context();
        cb.signals = comb.with_invalid();
        return Decimal { digits: 0, cb };
    }
    if !rhs.is_infinite() && rhs.digits == 0 {
        let mut cb = ControlBlock::basic(0, sign);
        cb.special = Special::Infinity;
        cb.ctx = lhs.cb.get_context();
        cb.signals = comb.with_div_by_zero();
        return Decimal { digits: 0, cb };
    }
    if lhs.is_infinite() {
        let mut cb = ControlBlock::basic(0, sign);
        cb.special = Special::Infinity;
        cb.ctx = lhs.cb.get_context();
        cb.signals = comb;
        return Decimal { digits: 0, cb };
    }
    if rhs.is_infinite() {
        let mut cb = ControlBlock::basic(0, sign);
        cb.ctx = lhs.cb.get_context();
        cb.signals = comb;
        return Decimal { digits: 0, cb };
    }
    if lhs.digits == 0 || rhs.is_one() {
        let mut d = lhs;
        d.cb.compound(&rhs.cb);
        return d;
    }
    let c2 = rhs.digits;
    let exp0: i32 = rhs.cb.get_scale() as i32 - lhs.cb.get_scale() as i32;
    let mut q: u128 = lhs.digits / c2;
    let mut r: u128 = lhs.digits % c2;
    let mut e: i32 = exp0;
    let mut exact = true;
    let mode = lhs.cb.get_rounding_mode();
    let ghost q0 = q;
    let ghost r0 = r;
    proof {
        vstd::arithmetic::div_mod::lemma_fundamental_div_mod(lhs.digits as int, c2 as int);
        vstd::arithmetic::div_mod::lemma_mod_bound(lhs.digits as int, c2 as int);
        crate::intrinsics::lemma_pow10_table();
        assert(q as int * c2 + r == lhs.digits as int * pow10(0)) by (nonlinear_arith)
            requires
                lhs.digits as int == c2 as int * q + r,
                pow10(0) == 1,
        ;
    }
    while r != 0 && exact
        invariant
            c2 >= 1,
            r < c2,
            e <= exp0 + 1,
            exact ==> e <= exp0,
            lhs.digits >= 1,
            exact ==> q as int * c2 + r == lhs.digits as int * pow10((exp0 - e) as nat),
            exact ==> div_loop_spec(q0, r0, exp0 as int, c2, mode, sign) == div_loop_spec(
                q,
                r,
                e as int,
                c2,
                mode,
                sign,
            ),
            !exact ==> ({
                let fin = div_loop_spec(q0, r0, exp0 as int, c2, mode, sign);
                fin.0 == q && fin.1 == e && fin.2 == false
            }),
        decreases (if exact { 1int } else { 0int }), u128::MAX - q, u128::MAX - r,
    {
        let ghost pre_q = q;
        let ghost pre_r = r;
        let ghost pre_e = e;
        proof {
            lemma_div_digit_bounds(q, r, c2);
            lemma_quotient_bound(q as int, r as int, c2 as int, lhs.digits as int,
                (exp0 - e) as nat);
        }
        let (tlo, thi) = widening_mul_u128(r, 10);
        let (dhi, dlo) = wide_div(thi, tlo, c2);
        let rem = wide_rem(thi, tlo, c2);
        proof {
            let t = pre_r as int * 10;
            assert(t == thi as int * pow2_128() + tlo as int);
            assert(dlo as int + dhi as int * pow2_128() == t / (c2 as int));
            assert(t / (c2 as int) < 10);
            assert(dhi == 0) by (nonlinear_arith)
                requires
                    dlo as int + dhi as int * pow2_128() < 10,
                    dlo >= 0,
                    dhi >= 0,
                    pow2_128() > 10,
            ;
        }
        let digit = dlo;
        if q <= (u128::MAX - digit) / 10 {
            proof {
                vstd::arithmetic::div_mod::lemma_fundamental_div_mod(
                    (u128::MAX - digit) as int,
                    10,
                );
            }
            q = q * 10 + digit;
            r = rem;
            e = e - 1;
            proof {
                crate::intrinsics::lemma_pow10_step((exp0 - pre_e) as nat);
                vstd::arithmetic::div_mod::lemma_fundamental_div_mod(
                    pre_r as int * 10,
                    c2 as int,
                );
                assert(q as int * c2 + r == 10 * (pre_q as int * c2 + pre_r))
                    by (nonlinear_arith)
                    requires
                        q == pre_q as int * 10 + digit,
                        pre_r as int * 10 == c2 as int * digit + rem,
                        r == rem,
                ;
                assert(10 * (lhs.digits as int * pow10((exp0 - pre_e) as nat)) == lhs.digits
                    as int * pow10((exp0 - pre_e + 1) as nat)) by (nonlinear_arith)
                    requires
                        pow10((exp0 - pre_e + 1) as nat) == 10 * pow10((exp0 - pre_e) as nat),
                ;
            }
        } else {
            if decide_round_up(mode, sign, digit as u8, q) {
                if q < u128::MAX {
                    q = q + 1;
                } else {
                    q = q / 10 + 1;
                    e = e + 1;
                }
            }
            exact = false;
        }
    }
    let sig = if exact {
        comb
    } else {
        comb.with_inexact().with_rounded()
    };
    construct(q, e, sign, sig, lhs.cb.get_context(), ExtraPrecision::new())
}

/// The remainder left after removing the whole quotient: the quotient is
/// computed, truncated to an integer, multiplied back and subtracted, each
/// step rounded as the operations themselves round.
pub open spec fn rem_spec(lhs: Decimal, rhs: Decimal) -> Decimal {
    let q = trunc_spec(round_spec(div_spec(lhs, rhs)), 0);
    let p = round_spec(crate::math::mul::mul_spec(q, rhs));
    round_spec(crate::math::add::add_spec(lhs, p.neg_spec()))
}

impl Decimal {
    /// The quotient of two decimals, rounded under the left operand's mode.
    pub fn div(self, rhs: Decimal) -> (r: Decimal)
        requires
            self.wf(),
            rhs.wf(),
        ensures
            r == round_spec(div_spec(self, rhs)),
            r.wf(),
    {
        crate::math::div::div(self, rhs).round_extra_precision()
    }

    /// The remainder of `self` after removing every whole multiple of `rhs`.
    /// The divisor must carry no pending guard digits, since the quotient is
    /// multiplied back against it.
    pub fn rem(self, rhs: Decimal) -> (r: Decimal)
        requires
            self.wf(),
            rhs.wf(),
            rhs.no_extra_spec(),
        ensures
            r == rem_spec(self, rhs),
            r.wf(),
    {
        let q = self.div(rhs).trunc();
        let p = q.mul(rhs);
        self.sub(p)
    }

    /// The reciprocal: one divided by the value, under the value's context.
    pub fn recip(self) -> (r: Decimal)
        requires
            self.wf(),
        ensures
            r == round_spec(div_spec(
                Decimal {
                    digits: 1,
                    cb: ControlBlock {
                        ctx: self.cb.ctx,
                        ..ControlBlock::spec_basic(0, Sign::Plus)
                    },
                },
                self,
            )),
            r.wf(),
    {
        Decimal::one().with_ctx(self.cb.get_context()).div(self)
    }
}

/// The running product `q·c2 + r` fits twice the coefficient width, so the
/// exponent can have fallen at most seventy-eight steps.
proof fn lemma_quotient_bound(q: int, r: int, c2: int, c1: int, k: nat)
    requires
        0 <= q <= u128::MAX,
        1 <= c2 <= u128::MAX,
        0 <= r < c2,
        c1 >= 1,
        q * c2 + r == c1 * pow10(k),
    ensures
        k < 78,
{
    crate::intrinsics::lemma_pow10_39_overflows(39);
    crate::intrinsics::lemma_pow10_adds(39, 39);
    assert(q * c2 + r < pow10(39) as int * pow10(39) as int) by (nonlinear_arith)
        requires
            0 <= q <= u128::MAX,
            1 <= c2 <= u128::MAX,
            0 <= r < c2,
            pow10(39) > u128::MAX,
    ;
    assert(pow10(k) as int <= c1 * pow10(k)) by (nonlinear_arith)
        requires
            c1 >= 1,
            pow10(k) >= 0,
    ;
    if k >= 78 {
        crate::intrinsics::lemma_pow10_nondec(78, k);
    }
}

} // verus!
