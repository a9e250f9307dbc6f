use vstd::prelude::*;
use crate::construct::{construct, construct_spec};
use crate::control_block::{ControlBlock, Special};
use crate::decimal::Decimal;
use crate::extra_precision::ExtraPrecision;
use crate::intrinsics::{pow10, pow2_128, wide_div, wide_rem, widening_mul_u128};
use crate::round::round_spec;
use crate::scale::push_extra_spec;
use crate::sign::Sign;
use crate::signals::Signals;

verus! {

/// One division by ten at a time, a double-width product is reduced until
/// its high half is empty; every digit shifted out lands in the guard
/// register and steps the exponent up. The final flag reports a nonzero
/// dropped digit.
pub open spec fn mul_reduce_spec(hi: u128, lo: u128, exp: int, e: ExtraPrecision, inexact: bool)
    -> (u128, int, ExtraPrecision, bool)
    decreases hi,
    via mul_reduce_spec_decreases
{
    if hi == 0 {
        (lo, exp, e, inexact)
    } else {
        let total = hi * pow2_128() + lo;
        let q = total / 10;
        let r = total % 10;
        mul_reduce_spec(
            (q / pow2_128()) as u128,
            (q % pow2_128()) as u128,
            exp + 1,
            push_extra_spec(e, r as nat),
            inexact || r != 0,
        )
    }
}

#[via_fn]
proof fn mul_reduce_spec_decreases(hi: u128, lo: u128, exp: int, e: ExtraPrecision, inexact: bool) {
    if hi != 0 {
        lemma_wide_div10_decreases(hi, lo);
    }
}

/// Dividing a double-width number by ten strictly shrinks its high half.
proof fn lemma_wide_div10_decreases(hi: u128, lo: u128)
    requires
        hi >= 1,
    ensures
        0 <= ((hi * pow2_128() + lo) / 10) / pow2_128() < hi,
        0 <= ((hi * pow2_128() + lo) / 10) % pow2_128() <= u128::MAX,
        0 <= (hi * pow2_128() + lo) % 10 < 10,
{
    let p = pow2_128();
    let total = hi * p + lo;
    let q = total / 10;
    vstd::arithmetic::div_mod::lemma_fundamental_div_mod(total, 10);
    vstd::arithmetic::div_mod::lemma_fundamental_div_mod(q, p);
    vstd::arithmetic::div_mod::lemma_mod_bound(total, 10);
    vstd::arithmetic::div_mod::lemma_mod_bound(q, p);
    assert(total >= 0) by (nonlinear_arith)
        requires
            total == hi * p + lo,
            hi >= 1,
            p >= 1,
            lo >= 0,
    ;
    vstd::arithmetic::div_mod::lemma_div_pos_is_pos(total, 10);
    vstd::arithmetic::div_mod::lemma_div_pos_is_pos(q, p);
    vstd::arithmetic::div_mod::lemma_mod_bound(q, p);
    // q <= total / 10 and total < (hi + 1) * p, so q / p < hi.
    assert(10 * q <= total);
    assert(total < (hi + 1) * p) by (nonlinear_arith)
        requires
            lo < p,
            total == hi * p + lo,
    ;
    let qh = q / p;
    assert(q == p * qh + q % p);
    assert(p * qh <= q);
    assert(10 * (p * qh) <= total);
    assert(10 * (p * qh) < (hi + 1) * p);
    assert(10 * qh < hi + 1) by (nonlinear_arith)
        requires
            10 * (p * qh) < (hi + 1) * p,
            p >= 1,
    ;
    assert(qh < hi) by (nonlinear_arith)
        requires
            10 * qh < hi + 1,
            hi >= 1,
            qh >= 0,
    ;
}

/// The product of two decimals, before the final rounding step.
///
/// A NaN operand propagates with the invalid flag; zero times infinity is a
/// signaling NaN; infinity times anything else keeps only the product sign;
/// a zero operand gives a zero at the summed exponent. Otherwise the
/// coefficients multiply into a double-width product whose overflowing
/// digits are divided back out into the guard register, raising rounded and,
/// for nonzero dropped digits, inexact. The operands' own guard registers do
/// not enter the product: public operations hand this function
/// register-free values.
pub open spec fn mul_spec(lhs: Decimal, rhs: Decimal) -> Decimal {
    let sign = if lhs.cb.sign == rhs.cb.sign {
        Sign::Plus
    } else {
        Sign::Minus
    };
    let exp = -(lhs.cb.scale as int) - (rhs.cb.scale as int);
    let comb = lhs.cb.signals.spec_combine(rhs.cb.signals);
    if lhs.is_nan_spec() {
        Decimal {
            digits: lhs.digits,
            cb: ControlBlock { signals: Signals { invalid: true, ..comb }, ..lhs.cb },
        }
    } else if rhs.is_nan_spec() {
        Decimal {
            digits: rhs.digits,
            cb: ControlBlock {
                signals: Signals { invalid: true, ..rhs.cb.signals.spec_combine(lhs.cb.signals) },
                ..rhs.cb
            },
        }
    } else if lhs.is_infinite_spec() || rhs.is_infinite_spec() {
        if lhs.is_zero_spec() || rhs.is_zero_spec() {
            Decimal {
                digits: 0,
                cb: ControlBlock {
                    special: Special::SignalingNan,
                    signals: Signals { invalid: true, ..comb },
                    extra: ExtraPrecision::spec_empty(),
                    ..ControlBlock::spec_basic(0, Sign::Plus)
                },
            }
        } else {
            Decimal::spec_infinity(sign)
        }
    } else if lhs.digits == 0 || rhs.digits == 0 {
        construct_spec(0, exp, sign, comb, lhs.cb.ctx, ExtraPrecision::spec_empty())
    } else {
        let wide = lhs.digits * rhs.digits;
        let hi = (wide / pow2_128()) as u128;
        let lo = (wide % pow2_128()) as u128;
        if hi == 0 {
            construct_spec(lo, exp, sign, comb, lhs.cb.ctx, ExtraPrecision::spec_empty())
        } else {
            let red = mul_reduce_spec(hi, lo, exp, ExtraPrecision::spec_empty(), false);
            construct_spec(
                red.0,
                red.1,
                sign,
                Signals { rounded: true, inexact: comb.inexact || red.3, ..comb },
                lhs.cb.ctx,
                red.2,
            )
        }
    }
}

/// The product of two decimals, before the final rounding step.
#[verifier::loop_isolation(false)]
#[verifier::rlimit(100)]
pub(crate) fn mul(lhs: Decimal, rhs: Decimal) -> (res: Decimal)
    requires
        lhs.wf(),
        rhs.wf(),
    ensures
        res == mul_spec(lhs, rhs),
        res.wf(),
{
    let sign = lhs.cb.get_sign().mul(rhs.cb.get_sign());
    let comb = lhs.cb.signals.combine(rhs.cb.signals);
    if lhs.is_nan() {
        let mut d = lhs;
        d.cb.compound(&rhs.cb);
        d.cb.raise_op_invalid();
        return d;
    }
    if rhs.is_nan() {
        let mut d = rhs;
        d.cb.compound(&lhs.cb);
        d.cb.raise_op_invalid();
        return d;
    }
    if lhs.is_infinite() || rhs.is_infinite() {
        if lhs.is_zero() || rhs.is_zero() {
            let mut cb = ControlBlock::basic(0, Sign::Plus);
            cb.signals = comb;
            cb.signaling_nan();
            return Decimal { digits: 0, cb };
        } else {
            let mut d = Decimal::infinity();
            d.cb.set_sign(sign);
            return d;
        }
    }
    let exp: i32 = -(lhs.cb.get_scale() as i32) - (rhs.cb.get_scale() as i32);
    if lhs.digits == 0 || rhs.digits == 0 {
        return construct(0, exp, sign, comb, lhs.cb.get_context(), ExtraPrecision::new());
    }
    let (lo0, hi0) = widening_mul_u128(lhs.digits, rhs.digits);
    proof {
        lemma_wide_split(lhs.digits as int * rhs.digits as int, hi0, lo0);
    }
    if hi0 == 0 {
        return construct(lo0, exp, sign, comb, lhs.cb.get_context(), ExtraPrecision::new());
    }
    let mut hi = hi0;
    let mut lo = lo0;
    let mut e: i32 = exp;
    let mut extra = ExtraPrecision::new();
    let mut inexact = false;
    proof {
        lemma_product_bound(lhs.digits, rhs.digits);
    }
    while hi != 0
        invariant
            extra.wf(),
            exp <= e,
            e <= exp + 78,
            (hi as int * pow2_128() + lo) < pow10((exp + 78 - e) as nat) as int,
            mul_reduce_spec(hi0, lo0, exp as int, ExtraPrecision::spec_empty(), false)
                == mul_reduce_spec(hi, lo, e as int, extra, inexact),
        decreases hi,
    {
        let ghost pre_hi = hi;
        let ghost pre_lo = lo;
        let ghost pre_e = e;
        let ghost pre_extra = extra;
        let ghost pre_inexact = inexact;
        proof {
            lemma_wide_div10_decreases(hi, lo);
            if e == exp + 78 {
                assert(hi as int * pow2_128() + lo >= pow2_128()) by (nonlinear_arith)
                    requires
                        hi >= 1,
                        lo >= 0,
                ;
            }
            crate::intrinsics::lemma_pow10_step((exp + 78 - e - 1) as nat);
            vstd::arithmetic::div_mod::lemma_fundamental_div_mod(
                hi as int * pow2_128() + lo,
                10,
            );
        }
        let (qhi, qlo) = wide_div(hi, lo, 10);
        let r = wide_rem(hi, lo, 10);
        proof {
            let total = pre_hi as int * pow2_128() + pre_lo as int;
            let q = total / 10;
            vstd::arithmetic::div_mod::lemma_fundamental_div_mod_converse(
                q,
                pow2_128(),
                qhi as int,
                qlo as int,
            );
        }
        hi = qhi;
        lo = qlo;
        extra.push_digit(r as u64);
        if r != 0 {
            inexact = true;
        }
        e = e + 1;
        proof {
            assert(extra == push_extra_spec(pre_extra, ((pre_hi as int * pow2_128() + pre_lo)
                % 10) as nat));
            assert(mul_reduce_spec(pre_hi, pre_lo, pre_e as int, pre_extra, pre_inexact)
                == mul_reduce_spec(hi, lo, e as int, extra, inexact));
        }
    }
    let mut sig = comb.with_rounded();
    if inexact {
        sig = sig.with_inexact();
    }
    construct(lo, e, sign, sig, lhs.cb.get_context(), extra)
}

/// The two halves that the widening multiply returns are the quotient and
/// remainder of the product by the half-width base.
proof fn lemma_wide_split(prod: int, hi: u128, lo: u128)
    requires
        lo as int + hi as int * pow2_128() == prod,
        prod >= 0,
    ensures
        hi == prod / pow2_128(),
        lo == prod % pow2_128(),
        hi == 0 ==> lo == prod,
{
    vstd::arithmetic::div_mod::lemma_fundamental_div_mod_converse(
        prod,
        pow2_128(),
        hi as int,
        lo as int,
    );
    if hi == 0 {
        assert(lo as int + 0 * pow2_128() == prod);
    }
}

impl Decimal {
    /// The product of two decimals, rounded under the left operand's mode.
    /// The operands must carry no pending guard digits, as no value a public
    /// operation returns does: the product is taken over the coefficients
    /// alone.
    pub fn mul(self, rhs: Decimal) -> (r: Decimal)
        requires
            self.wf(),
            rhs.wf(),
            self.no_extra_spec(),
            rhs.no_extra_spec(),
        ensures
            r == round_spec(mul_spec(self, rhs)),
            r.wf(),
    {
        crate::math::mul::mul(self, rhs).round_extra_precision()
    }

    /// The product of the first two operands plus the third: one rounded
    /// multiplication followed by one rounded addition. The factors must
    /// carry no pending guard digits.
    pub fn mul_add(self, a: Decimal, b: Decimal) -> (r: Decimal)
        requires
            self.wf(),
            a.wf(),
            b.wf(),
            self.no_extra_spec(),
            a.no_extra_spec(),
        ensures
            r == round_spec(crate::math::add::add_spec(round_spec(mul_spec(self, a)), b)),
            r.wf(),
    {
        self.mul(a).add(b)
    }
}

/// A product of two coefficients stays below ten to the seventy-eighth.
proof fn lemma_product_bound(a: u128, b: u128)
    ensures
        (a as int * b as int) < pow10(78),
{
    crate::intrinsics::lemma_clength_upper(a as nat);
    crate::intrinsics::lemma_clength_upper(b as nat);
    crate::intrinsics::lemma_pow10_39_overflows(39);
    crate::intrinsics::lemma_pow10_adds(39, 39);
    assert((a as int * b as int) < pow10(39) as int * pow10(39) as int) by (nonlinear_arith)
        requires
            a < pow10(39),
            b < pow10(39),
    ;
}

} // verus!
