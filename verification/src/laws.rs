use vstd::prelude::*;
use crate::control_block::Special;
use crate::decimal::{unit_exp, Decimal};
use crate::extra_precision::{ExtraPrecision, EXTRA_PRECISION_SCALE};
use crate::format::digits_spec;
use crate::intrinsics::pow10;
use crate::parse::is_digit;
use crate::round::round_spec;
use crate::scale::{reduce_rec, reduce_spec, rescale_spec, rescale_up_spec, shift_extra_up_spec};

verus! {

/// Folding an empty guard register changes nothing.
pub proof fn lemma_round_noop(d: Decimal)
    requires
        d.cb.extra == ExtraPrecision::spec_empty(),
    ensures
        round_spec(d) == d,
{
}

/// Stripping trailing zeros is a fixed point: a second strip returns the
/// same coefficient, scale and stop flag.
proof fn lemma_reduce_rec_fix(c: u128, s: i16)
    requires
        c != 0,
    ensures
        reduce_rec(c, s).0 != 0,
        reduce_rec(reduce_rec(c, s).0, reduce_rec(c, s).1) == reduce_rec(c, s),
    decreases c,
{
    if c % 10 == 0 && s > i16::MIN {
        lemma_reduce_rec_fix(c / 10, (s - 1) as i16);
    }
}

/// Reduction is idempotent: reducing a reduced decimal returns it bit for
/// bit, signals included.
pub proof fn lemma_reduce_fixpoint(d: Decimal)
    ensures
        reduce_spec(reduce_spec(d)) == reduce_spec(d),
{
    if d.cb.special == Special::Finite && d.digits != 0 {
        lemma_reduce_rec_fix(d.digits, d.cb.scale);
    }
}

/// Reduction never changes the numeric value of a finite decimal with an
/// empty guard register, only its coefficient and scale pairing.
pub proof fn lemma_reduce_preserves_value(d: Decimal)
    requires
        d.is_finite_spec(),
        d.no_extra_spec(),
    ensures
        reduce_spec(d).value_units() == d.value_units(),
        reduce_spec(d).is_finite_spec(),
        reduce_spec(d).no_extra_spec(),
        reduce_spec(d).cb.sign == d.cb.sign,
{
    crate::cmp::lemma_reduce_rec_value(d.digits, d.cb.scale);
    let r = reduce_spec(d);
    assert(r.cb.extra.digits == 0);
    if d.digits == 0 {
        assert(0 * pow10(unit_exp(r.cb.scale)) == 0) by (nonlinear_arith);
        assert(0 * pow10((unit_exp(r.cb.scale) - 7) as nat) == 0) by (nonlinear_arith);
        assert(0 * pow10(unit_exp(d.cb.scale)) == 0) by (nonlinear_arith);
        assert(0 * pow10((unit_exp(d.cb.scale) - 7) as nat) == 0) by (nonlinear_arith);
        assert(r.magnitude_units() == 0);
        assert(d.magnitude_units() == 0);
    } else {
        let rr = reduce_rec(d.digits, d.cb.scale);
        assert(r.digits == rr.0 && r.cb.scale == rr.1);
        assert(r.magnitude_units() == rr.0 * pow10(unit_exp(rr.1)));
        assert(d.magnitude_units() == d.digits * pow10(unit_exp(d.cb.scale)));
    }
}

/// Scaling up from a waypoint continues exactly as the one-step scaling
/// would have: the two-step and the direct runs land on the same state.
proof fn lemma_rescale_up_compose(c: u128, e: ExtraPrecision, s: i16, s1: i16, s2: i16)
    requires
        s <= s1 <= s2,
    ensures
        ({
            let m = rescale_up_spec(c, e, s, s1);
            rescale_up_spec(m.0, m.1, m.2, s2) == rescale_up_spec(c, e, s, s2)
        }),
    decreases s1 - s,
{
    if s < s1 {
        let top = (e.digits / EXTRA_PRECISION_SCALE) as u128;
        if c <= (u128::MAX - top) / 10 {
            lemma_rescale_up_compose(
                (c * 10 + top) as u128,
                shift_extra_up_spec(e),
                (s + 1) as i16,
                s1,
                s2,
            );
        }
    }
}

/// Scaling up keeps an empty guard register empty, keeps the coefficient
/// nonzero, stays within the target scale, and only stops short of the
/// target with the early-stop flag raised.
proof fn lemma_rescale_up_shape(c: u128, e: ExtraPrecision, s: i16, t: i16)
    requires
        s <= t,
        c >= 1,
        e == ExtraPrecision::spec_empty(),
    ensures
        ({
            let m = rescale_up_spec(c, e, s, t);
            m.1 == ExtraPrecision::spec_empty() && m.0 >= 1 && s <= m.2 <= t && (m.3 <==> m.2 < t)
                && (m.3 ==> m.0 > (u128::MAX - ((m.1.digits / EXTRA_PRECISION_SCALE) as u128))
                / 10)
        }),
    decreases t - s,
{
    if s < t {
        let top = (e.digits / EXTRA_PRECISION_SCALE) as u128;
        if c <= (u128::MAX - top) / 10 {
            assert(shift_extra_up_spec(e) == ExtraPrecision::spec_empty());
            lemma_rescale_up_shape((c * 10 + top) as u128, shift_extra_up_spec(e), (s + 1) as i16, t);
        }
    }
}

/// Re-scaling upward in two steps equals re-scaling once: for a decimal
/// without pending guard digits and targets `s2 >= s1 >=` its scale, scaling
/// to `s1` and then to `s2` gives, flag for flag, the decimal that scaling
/// straight to `s2` gives.
#[verifier::rlimit(100)]
#[verifier::spinoff_prover]
pub proof fn lemma_rescale_two_step(d: Decimal, s1: i16, s2: i16)
    requires
        d.no_extra_spec(),
        d.cb.scale <= s1 <= s2,
    ensures
        round_spec(rescale_spec(round_spec(rescale_spec(d, s1)), s2)) == round_spec(
            rescale_spec(d, s2),
        ),
{
    if d.cb.special != Special::Finite {
        let x = rescale_spec(d, s1);
        lemma_round_noop(x);
        lemma_round_noop(rescale_spec(x, s2));
        lemma_round_noop(rescale_spec(d, s2));
    } else if d.digits == 0 {
        let x = rescale_spec(d, s1);
        lemma_round_noop(x);
        lemma_round_noop(rescale_spec(x, s2));
        lemma_round_noop(rescale_spec(d, s2));
    } else if s1 == d.cb.scale {
        let x = rescale_spec(d, s1);
        assert(x == d);
        lemma_round_noop(d);
        if s2 > d.cb.scale {
            lemma_rescale_up_shape(d.digits, d.cb.extra, d.cb.scale, s2);
        }
        lemma_round_noop(rescale_spec(d, s2));
    } else {
        lemma_two_step_up_case(d, s1, s2);
    }
}

/// The two-step law in the case that actually scales: the first target lies
/// strictly above the decimal's scale.
#[verifier::rlimit(100)]
#[verifier::spinoff_prover]
proof fn lemma_two_step_up_case(d: Decimal, s1: i16, s2: i16)
    requires
        d.no_extra_spec(),
        d.cb.special == Special::Finite,
        d.digits != 0,
        d.cb.scale < s1 <= s2,
    ensures
        round_spec(rescale_spec(round_spec(rescale_spec(d, s1)), s2)) == round_spec(
            rescale_spec(d, s2),
        ),
{
    let m = rescale_up_spec(d.digits, d.cb.extra, d.cb.scale, s1);
    let x = rescale_spec(d, s1);
    lemma_rescale_up_shape(d.digits, d.cb.extra, d.cb.scale, s1);
    lemma_round_noop(x);
    lemma_rescale_up_compose(d.digits, d.cb.extra, d.cb.scale, s1, s2);
    let big = rescale_up_spec(d.digits, d.cb.extra, d.cb.scale, s2);
    assert(big == rescale_up_spec(m.0, m.1, m.2, s2));
    lemma_rescale_up_shape(d.digits, d.cb.extra, d.cb.scale, s2);
    lemma_round_noop(rescale_spec(d, s2));
    if m.2 == s2 {
        // The waypoint already sits at the final scale, so both runs
        // reached the target without clamping.
        assert(!m.3);
        assert(rescale_spec(x, s2) == x);
        assert(big == (m.0, m.1, m.2, false));
        lemma_round_noop(rescale_spec(x, s2));
    } else {
        lemma_rescale_up_shape(m.0, m.1, m.2, s2);
        if m.3 {
            // The first run stopped early; the continuation stops at the
            // very same state.
            assert(big == (m.0, m.1, m.2, true));
        }
        let x2 = rescale_spec(x, s2);
        lemma_round_noop(x2);
        assert(x2 == rescale_spec(d, s2));
    }
}

/// The exactness flag of long division is honest: starting from a partial
/// quotient that reconstructs the dividend, an exact ending still
/// reconstructs it, digit stream and shifted exponent included.
proof fn lemma_div_loop_exact(
    q: u128,
    r: u128,
    exp: int,
    c2: u128,
    mode: crate::rounding::RoundingMode,
    sign: crate::sign::Sign,
    c1: int,
    k: nat,
)
    requires
        c2 >= 1,
        r < c2,
        q as int * c2 + r == c1 * pow10(k),
    ensures
        ({
            let out = crate::math::div::div_loop_spec(q, r, exp, c2, mode, sign);
            out.2 ==> out.0 as int * c2 == c1 * pow10((k + (exp - out.1)) as nat)
        }),
    decreases u128::MAX - q, u128::MAX - r,
{
    let out = crate::math::div::div_loop_spec(q, r, exp, c2, mode, sign);
    if r == 0 {
        assert((k + (exp - out.1)) as nat == k);
    } else {
        let t = r as int * 10;
        let digit = (t / (c2 as int)) as u128;
        let rem = (t % (c2 as int)) as u128;
        vstd::arithmetic::div_mod::lemma_fundamental_div_mod(t, c2 as int);
        vstd::arithmetic::div_mod::lemma_mod_bound(t, c2 as int);
        vstd::arithmetic::div_mod::lemma_div_pos_is_pos(t, c2 as int);
        assert(t / (c2 as int) < 10) by (nonlinear_arith)
            requires
                t == (c2 as int) * (t / (c2 as int)) + t % (c2 as int),
                t < 10 * c2,
                t % (c2 as int) >= 0,
                t / (c2 as int) >= 0,
                c2 >= 1,
        ;
        if q <= (u128::MAX - digit) / 10 {
            crate::intrinsics::lemma_pow10_step(k);
            assert((q * 10 + digit) as int * c2 + rem == 10 * (q as int * c2 + r))
                by (nonlinear_arith)
                requires
                    r as int * 10 == (c2 as int) * digit + rem,
                    digit < 10,
            ;
            assert(10 * (c1 * pow10(k)) == c1 * pow10((k + 1) as nat)) by (nonlinear_arith)
                requires
                    pow10((k + 1) as nat) == 10 * pow10(k),
            ;
            lemma_div_loop_exact(
                (q * 10 + digit) as u128,
                rem,
                exp - 1,
                c2,
                mode,
                sign,
                c1,
                (k + 1) as nat,
            );
        }
    }
}

/// Division is exact exactly as flagged: when the quotient of two finite
/// nonzero decimals comes back without the inexact flag (and the operands
/// carried none), the quotient coefficient times the divisor coefficient
/// reconstructs the dividend coefficient shifted by the scale displacement
/// of the result.
pub proof fn lemma_div_exactness(lhs: Decimal, rhs: Decimal)
    requires
        lhs.is_finite_spec(),
        rhs.is_finite_spec(),
        lhs.digits >= 1,
        rhs.digits >= 1,
        !(rhs.digits == 1 && rhs.cb.scale == 0 && rhs.cb.sign == crate::sign::Sign::Plus
            && rhs.cb.extra.spec_is_empty()),
    ensures
        ({
            let q0 = (lhs.digits / rhs.digits) as u128;
            let r0 = (lhs.digits % rhs.digits) as u128;
            let exp0 = rhs.cb.scale - lhs.cb.scale;
            let out = crate::math::div::div_loop_spec(
                q0,
                r0,
                exp0 as int,
                rhs.digits,
                lhs.cb.ctx.rounding_mode,
                if lhs.cb.sign == rhs.cb.sign {
                    crate::sign::Sign::Plus
                } else {
                    crate::sign::Sign::Minus
                },
            );
            out.2 ==> out.0 as int * rhs.digits == lhs.digits as int * pow10(
                (exp0 - out.1) as nat,
            )
        }),
{
    let q0 = (lhs.digits / rhs.digits) as u128;
    let r0 = (lhs.digits % rhs.digits) as u128;
    let exp0 = rhs.cb.scale - lhs.cb.scale;
    vstd::arithmetic::div_mod::lemma_fundamental_div_mod(lhs.digits as int, rhs.digits as int);
    vstd::arithmetic::div_mod::lemma_mod_bound(lhs.digits as int, rhs.digits as int);
    assert(q0 as int * rhs.digits + r0 == lhs.digits as int * pow10(0)) by (nonlinear_arith)
        requires
            lhs.digits as int == (rhs.digits as int) * q0 + r0,
            pow10(0) == 1,
    ;
    lemma_div_loop_exact(
        q0,
        r0,
        exp0 as int,
        rhs.digits,
        lhs.cb.ctx.rounding_mode,
        if lhs.cb.sign == rhs.cb.sign {
            crate::sign::Sign::Plus
        } else {
            crate::sign::Sign::Minus
        },
        lhs.digits as int,
        0,
    );
}

/// Equality is scale-independent value equality: two finite decimals
/// without guard digits compare equal exactly when their numeric values are
/// equal, whatever coefficient-and-scale pairing represents them.
#[verifier::rlimit(100)]
#[verifier::spinoff_prover]
pub proof fn lemma_eq_is_value_equality(a: Decimal, b: Decimal)
    requires
        a.is_finite_spec(),
        b.is_finite_spec(),
        a.no_extra_spec(),
        b.no_extra_spec(),
    ensures
        (crate::cmp::cmp_spec(a, b) == core::cmp::Ordering::Equal) <==> a.value_units()
            == b.value_units(),
{
    lemma_magnitude_shape(a);
    lemma_magnitude_shape(b);
    if a.cb.sign == b.cb.sign {
        if a.cb.sign == crate::sign::Sign::Minus {
            assert(a.cb.sign.factor() == -1);
            assert(a.value_units() == a.cb.sign.factor() * a.magnitude_units());
            assert(a.value_units() == -(a.magnitude_units() as int));
            assert(b.value_units() == -(b.magnitude_units() as int));
        } else {
            assert(a.value_units() == a.magnitude_units() as int);
            assert(b.value_units() == b.magnitude_units() as int);
        }
        assert(a.value_units() == b.value_units() <==> a.magnitude_units()
            == b.magnitude_units());
    }
}

/// The magnitude of a register-free finite decimal is zero exactly for a
/// zero coefficient, and is the coefficient at its scale otherwise.
proof fn lemma_magnitude_shape(a: Decimal)
    requires
        a.is_finite_spec(),
        a.no_extra_spec(),
    ensures
        a.magnitude_units() == a.digits * pow10(unit_exp(a.cb.scale)),
        a.magnitude_units() == 0 <==> a.is_zero_spec(),
        a.value_units() == a.cb.sign.factor() * a.magnitude_units(),
        a.cb.sign == crate::sign::Sign::Minus ==> a.value_units() <= 0,
        a.cb.sign != crate::sign::Sign::Minus ==> a.value_units() >= 0,
{
    crate::intrinsics::lemma_pow10_pos(unit_exp(a.cb.scale));
    assert(0 * pow10((unit_exp(a.cb.scale) - 7) as nat) == 0) by (nonlinear_arith);
    if a.digits == 0 {
        assert(0 * pow10(unit_exp(a.cb.scale)) == 0) by (nonlinear_arith);
    } else {
        assert(a.digits * pow10(unit_exp(a.cb.scale)) >= 1 * pow10(unit_exp(a.cb.scale)))
            by (nonlinear_arith)
            requires
                a.digits >= 1,
                pow10(unit_exp(a.cb.scale)) >= 1,
        ;
    }
}

/// Multiplication that stays within the coefficient is exact: when the
/// product of the coefficients fits and the summed exponent lies in the
/// directly storable band, the rounded product is the product coefficient at
/// the summed scale, with no new signal raised beyond the operands' own.
pub proof fn lemma_mul_exact_fits(a: Decimal, b: Decimal)
    requires
        a.is_finite_spec(),
        b.is_finite_spec(),
        a.digits >= 1,
        b.digits >= 1,
        a.no_extra_spec(),
        b.no_extra_spec(),
        a.digits * b.digits <= u128::MAX,
        crate::intrinsics::E_MIN <= -(a.cb.scale as int) - (b.cb.scale as int)
            <= crate::intrinsics::E_LIMIT,
        -(a.cb.scale as int) - (b.cb.scale as int) >= crate::intrinsics::E_MIN
            + crate::intrinsics::clength_spec((a.digits * b.digits) as nat) - 1,
    ensures
        round_spec(crate::math::mul::mul_spec(a, b)) == (Decimal {
            digits: (a.digits * b.digits) as u128,
            cb: crate::control_block::ControlBlock {
                sign: if a.cb.sign == b.cb.sign {
                    crate::sign::Sign::Plus
                } else {
                    crate::sign::Sign::Minus
                },
                scale: (a.cb.scale + b.cb.scale) as i16,
                special: crate::control_block::Special::Finite,
                ctx: a.cb.ctx,
                signals: a.cb.signals.spec_combine(b.cb.signals),
                extra: ExtraPrecision::spec_empty(),
            },
        }),
{
    let prod = a.digits * b.digits;
    let p = crate::intrinsics::pow2_128();
    assert(prod >= 1) by (nonlinear_arith)
        requires
            prod == a.digits * b.digits,
            a.digits >= 1,
            b.digits >= 1,
    ;
    vstd::arithmetic::div_mod::lemma_fundamental_div_mod(prod as int, p);
    vstd::arithmetic::div_mod::lemma_mod_bound(prod as int, p);
    vstd::arithmetic::div_mod::lemma_basic_div(prod as int, p);
    assert(prod as int / p == 0);
    assert(prod as int % p == prod);
    let res = crate::math::mul::mul_spec(a, b);
    lemma_round_noop(res);
}

/// The half-even tie rule: a guard digit of exactly five with nothing
/// below it rounds to the neighbour whose last coefficient digit is even,
/// while half-up always rounds away from zero.
pub proof fn lemma_half_tie_rules(d: Decimal)
    requires
        d.cb.extra.digits == 5 * EXTRA_PRECISION_SCALE,
        d.digits < u128::MAX,
    ensures
        d.cb.ctx.rounding_mode == crate::rounding::RoundingMode::HalfEven ==> round_spec(d).digits
            == (if d.digits % 2 == 1 {
            (d.digits + 1) as u128
        } else {
            d.digits
        }),
        d.cb.ctx.rounding_mode == crate::rounding::RoundingMode::HalfUp ==> round_spec(d).digits
            == d.digits + 1,
{
}

/// The number a digit string denotes when read left to right into an
/// accumulator, as the parser reads it.
pub open spec fn digits_value_rec(t: Seq<u8>, acc: nat) -> nat
    decreases t.len(),
{
    if t.len() == 0 {
        acc
    } else {
        digits_value_rec(t.subrange(1, t.len() as int), acc * 10 + (t[0] - 48) as nat)
    }
}

/// Reading digits never shrinks the accumulator.
proof fn lemma_digits_value_monotone(t: Seq<u8>, acc: nat)
    requires
        forall|j: int| 0 <= j < t.len() ==> is_digit(#[trigger] t[j]),
    ensures
        digits_value_rec(t, acc) >= acc,
    decreases t.len(),
{
    if t.len() > 0 {
        lemma_digits_value_monotone(t.subrange(1, t.len() as int), acc * 10 + (t[0] - 48) as nat);
    }
}

/// Reading one more digit at the end multiplies the value by ten and adds it.
proof fn lemma_digits_value_snoc(t: Seq<u8>, c: u8, acc: nat)
    requires
        48 <= c,
    ensures
        digits_value_rec(t.push(c), acc) == digits_value_rec(t, acc) * 10 + ((c - 48) as nat),
    decreases t.len(),
{
    let u = t.push(c);
    assert(u.len() == t.len() + 1);
    if t.len() == 0 {
        assert(u[0] == c);
        let rest = u.subrange(1, 1);
        assert(rest =~= Seq::<u8>::empty());
        assert(digits_value_rec(u, acc) == digits_value_rec(rest, acc * 10 + (u[0] - 48) as nat));
        assert(digits_value_rec(rest, acc * 10 + (c - 48) as nat) == acc * 10 + ((c - 48) as nat));
        assert(digits_value_rec(t, acc) == acc);
    } else {
        assert(u[0] == t[0]);
        let tt = t.subrange(1, t.len() as int);
        let ut = u.subrange(1, u.len() as int);
        assert(ut =~= tt.push(c));
        let acc2 = acc * 10 + (t[0] - 48) as nat;
        lemma_digits_value_snoc(tt, c, acc2);
        assert(digits_value_rec(u, acc) == digits_value_rec(ut, acc2));
        assert(digits_value_rec(t, acc) == digits_value_rec(tt, acc2));
    }
}

/// The digit string of a number reads back as that number over any
/// accumulator, shifted by the string's length.
proof fn lemma_digits_value_of_digits(n: nat, acc: nat)
    requires
        n <= u128::MAX,
    ensures
        digits_value_rec(digits_spec(n), acc) == acc * pow10(
            crate::intrinsics::clength_spec(n),
        ) + n,
    decreases n,
{
    crate::intrinsics::lemma_pow10_table();
    if n < 10 {
        let s0 = digits_spec(n);
        assert(s0.len() == 1);
        assert(s0[0] == (48 + n) as u8);
        assert(s0.subrange(1, 1) =~= Seq::<u8>::empty());
        assert(digits_value_rec(s0, acc) == digits_value_rec(
            s0.subrange(1, 1),
            acc * 10 + (s0[0] - 48) as nat,
        ));
        assert(digits_value_rec(s0, acc) == acc * 10 + n);
    } else {
        lemma_digits_value_of_digits(n / 10, acc);
        lemma_digits_value_snoc(digits_spec(n / 10), (48 + n % 10) as u8, acc);
        crate::intrinsics::lemma_pow10_step(crate::intrinsics::clength_spec(n / 10));
        vstd::arithmetic::div_mod::lemma_fundamental_div_mod(n as int, 10);
        assert((acc * pow10(crate::intrinsics::clength_spec(n / 10)) + n / 10) * 10 == acc * (10
            * pow10(crate::intrinsics::clength_spec(n / 10))) + (n / 10) * 10)
            by (nonlinear_arith);
    }
}

/// Reading a concatenation reads the first part into the accumulator, then
/// the second.
proof fn lemma_digits_value_concat(a: Seq<u8>, b: Seq<u8>, acc: nat)
    ensures
        digits_value_rec(a + b, acc) == digits_value_rec(b, digits_value_rec(a, acc)),
    decreases a.len(),
{
    if a.len() == 0 {
        assert(a + b =~= b);
    } else {
        assert((a + b)[0] == a[0]);
        assert((a + b).subrange(1, (a + b).len() as int) =~= a.subrange(1, a.len() as int) + b);
        lemma_digits_value_concat(a.subrange(1, a.len() as int), b, acc * 10 + (a[0] - 48) as nat);
    }
}

/// The mantissa parser walks a run of digit bytes by accumulating their
/// value, stepping the fraction count under a decimal point.
proof fn lemma_parse_digits_run(
    s: Seq<u8>,
    i: int,
    acc: u128,
    seen: bool,
    dot: bool,
    frac: u32,
    t: Seq<u8>,
)
    requires
        0 <= i,
        i + t.len() <= s.len(),
        s.subrange(i, i + t.len()) == t,
        forall|j: int| 0 <= j < t.len() ==> is_digit(#[trigger] t[j]),
        digits_value_rec(t, acc as nat) <= u128::MAX,
        frac + t.len() < u32::MAX,
    ensures
        crate::parse::parse_mantissa_spec(s, i, acc, seen, dot, frac)
            == crate::parse::parse_mantissa_spec(
            s,
            i + t.len(),
            digits_value_rec(t, acc as nat) as u128,
            seen || t.len() > 0,
            dot,
            if dot {
                (frac + t.len()) as u32
            } else {
                frac
            },
        ),
    decreases t.len(),
{
    if t.len() > 0 {
        let b = s[i];
        assert(b == t[0]);
        assert(is_digit(b));
        let d = (b - 48) as u128;
        let acc2 = (acc * 10 + d) as u128;
        lemma_digits_value_monotone(t.subrange(1, t.len() as int), acc as nat * 10 + (d as nat));
        assert(digits_value_rec(t, acc as nat) == digits_value_rec(
            t.subrange(1, t.len() as int),
            acc as nat * 10 + (d as nat),
        ));
        assert(acc * 10 + d <= u128::MAX);
        vstd::arithmetic::div_mod::lemma_fundamental_div_mod((u128::MAX - d) as int, 10);
        assert(acc <= (u128::MAX - d) / 10);
        assert(s.subrange(i + 1, i + t.len()) =~= t.subrange(1, t.len() as int));
        lemma_parse_digits_run(
            s,
            i + 1,
            acc2,
            true,
            dot,
            if dot {
                (frac + 1) as u32
            } else {
                frac
            },
            t.subrange(1, t.len() as int),
        );
    }
}

/// The exponent parser walks a run of digit bytes the same way, under its
/// smaller early-rejection bound.
proof fn lemma_parse_exp_run(s: Seq<u8>, i: int, acc: u32, seen: bool, t: Seq<u8>)
    requires
        0 <= i,
        i + t.len() <= s.len(),
        s.subrange(i, i + t.len()) == t,
        forall|j: int| 0 <= j < t.len() ==> is_digit(#[trigger] t[j]),
        digits_value_rec(t, acc as nat) <= 100_000,
    ensures
        crate::parse::parse_exp_spec(s, i, acc, seen) == crate::parse::parse_exp_spec(
            s,
            i + t.len(),
            digits_value_rec(t, acc as nat) as u32,
            seen || t.len() > 0,
        ),
    decreases t.len(),
{
    if t.len() > 0 {
        let b = s[i];
        assert(b == t[0]);
        assert(is_digit(b));
        let d = (b - 48) as u32;
        lemma_digits_value_monotone(t.subrange(1, t.len() as int), acc as nat * 10 + (d as nat));
        assert(digits_value_rec(t, acc as nat) == digits_value_rec(
            t.subrange(1, t.len() as int),
            acc as nat * 10 + (d as nat),
        ));
        assert(acc <= 100_000);
        assert(s.subrange(i + 1, i + t.len()) =~= t.subrange(1, t.len() as int));
        lemma_parse_exp_run(s, i + 1, (acc * 10 + d) as u32, true, t.subrange(1, t.len() as int));
    }
}

/// The one-leading-digit exponential shape with either exponent marker: the
/// scientific form uses the small marker, the plain form's fallback the
/// capital one.
pub open spec fn sci_shape_spec(d: Decimal, marker: u8) -> Seq<u8> {
    let ds = digits_spec(d.digits as nat);
    let sign_part: Seq<u8> = if d.cb.sign == crate::sign::Sign::Minus {
        seq![45u8]
    } else {
        Seq::empty()
    };
    let exp = ds.len() - 1 - d.cb.scale;
    let mantissa = if ds.len() == 1 {
        ds
    } else {
        ds.subrange(0, 1) + seq![46u8] + ds.subrange(1, ds.len() as int)
    };
    sign_part + mantissa + seq![marker] + crate::format::int_digits_spec(exp)
}

/// Parsing the exponential rendering of a finite decimal rebuilds it through
/// `construct` at the negated scale.
#[verifier::rlimit(100)]
#[verifier::spinoff_prover]
proof fn lemma_parse_sci_shape(d: Decimal, ctx: crate::context::Context, marker: u8)
    requires
        d.is_finite_spec(),
        marker == 101 || marker == 69,
    ensures
        crate::parse::parse_spec(sci_shape_spec(d, marker), ctx) == Ok::<
            Decimal,
            crate::errors::ParseError,
        >(
            crate::construct::construct_spec(
                d.digits,
                -(d.cb.scale as int),
                d.cb.sign,
                crate::signals::Signals::spec_empty(),
                ctx,
                ExtraPrecision::spec_empty(),
            ),
        ),
{
    let n = d.digits as nat;
    let ds = digits_spec(n);
    crate::format::lemma_digits_len(n);
    crate::format::lemma_digits_ascii(n);
    let ll = ds.len() as int;
    let sp: Seq<u8> = if d.cb.sign == crate::sign::Sign::Minus {
        seq![45u8]
    } else {
        Seq::<u8>::empty()
    };
    let mantissa = if ll == 1 {
        ds
    } else {
        ds.subrange(0, 1) + seq![46u8] + ds.subrange(1, ll)
    };
    let exp = ll - 1 - d.cb.scale;
    let ee = crate::format::int_digits_spec(exp);
    let mag = if exp < 0 {
        (-exp) as nat
    } else {
        exp as nat
    };
    crate::format::lemma_digits_ascii(mag);
    crate::format::lemma_digits_len(mag);
    let s = sci_shape_spec(d, marker);
    assert(s == sp + mantissa + seq![marker] + ee);
    let start: int = sp.len() as int;
    let mlen: int = mantissa.len() as int;
    assert(s.len() == start + mlen + 1 + ee.len());
    // The sign byte decides the parser's sign and starting point.
    if d.cb.sign == crate::sign::Sign::Minus {
        assert(s[0] == 45);
    } else {
        assert(s[0] == ds[0]);
        assert(48 <= s[0] <= 57);
    }
    // The digit run reads back the coefficient.
    lemma_digits_value_of_digits(n, 0);
    assert(0 * pow10(crate::intrinsics::clength_spec(n)) == 0) by (nonlinear_arith);
    assert(digits_value_rec(ds, 0) == n);
    let frac_m: u32 = if ll == 1 {
        0u32
    } else {
        (ll - 1) as u32
    };
    if ll == 1 {
        assert(s.subrange(start, start + 1) =~= ds);
        lemma_parse_digits_run(s, start, 0, false, false, 0, ds);
    } else {
        let t1 = ds.subrange(0, 1);
        let t2 = ds.subrange(1, ll);
        assert(ds =~= t1 + t2);
        lemma_digits_value_concat(t1, t2, 0);
        lemma_digits_value_monotone(t2, digits_value_rec(t1, 0));
        assert(s.subrange(start, start + 1) =~= t1);
        lemma_parse_digits_run(s, start, 0, false, false, 0, t1);
        let v1 = digits_value_rec(t1, 0) as u128;
        assert(s[start + 1] == 46);
        assert(s.subrange(start + 2, start + 1 + ll) =~= t2);
        lemma_parse_digits_run(s, start + 2, v1, true, true, 0, t2);
        assert(digits_value_rec(t2, v1 as nat) == n);
    }
    // The exponent marker ends the mantissa.
    assert(s[start + mlen] == marker);
    assert(crate::parse::parse_mantissa_spec(s, start, 0, false, false, 0) == Ok::<
        (u128, u32, int, bool),
        crate::errors::ParseError,
    >((d.digits, frac_m, start + mlen + 1, true)));
    // The exponent digits read back the exponent's magnitude.
    let next = start + mlen + 1;
    assert(next < s.len());
    let estart: int = if exp < 0 {
        next + 1
    } else {
        next
    };
    if exp < 0 {
        assert(ee == seq![45u8] + digits_spec((-exp) as nat));
        assert(s[next] == 45);
    } else {
        assert(s[next] == digits_spec(mag)[0]);
        assert(48 <= s[next] <= 57);
    }
    lemma_digits_value_of_digits(mag, 0);
    assert(0 * pow10(crate::intrinsics::clength_spec(mag)) == 0) by (nonlinear_arith);
    assert(mag <= 100_000);
    assert(s.subrange(estart, estart + digits_spec(mag).len()) =~= digits_spec(mag));
    assert(estart + digits_spec(mag).len() == s.len());
    lemma_parse_exp_run(s, estart, 0, false, digits_spec(mag));
    assert(crate::parse::parse_exp_spec(s, estart, 0, false) == Ok::<
        u32,
        crate::errors::ParseError,
    >(mag as u32));
    // The assembled exponent is exactly the negated scale, inside the band.
    let esigned: int = if exp < 0 {
        -(mag as int)
    } else {
        mag as int
    };
    assert(esigned == exp);
    assert(esigned - frac_m == -(d.cb.scale as int));
    assert(crate::parse::clamp_exp_spec(-(d.cb.scale as int)) == -(d.cb.scale as int));
}

/// Parsing the scientific rendering of a finite decimal rebuilds it through
/// `construct` at the negated scale.
proof fn lemma_parse_scientific(d: Decimal, ctx: crate::context::Context)
    requires
        d.is_finite_spec(),
    ensures
        crate::parse::parse_spec(crate::format::scientific_bytes_spec(d), ctx) == Ok::<
            Decimal,
            crate::errors::ParseError,
        >(
            crate::construct::construct_spec(
                d.digits,
                -(d.cb.scale as int),
                d.cb.sign,
                crate::signals::Signals::spec_empty(),
                ctx,
                ExtraPrecision::spec_empty(),
            ),
        ),
{
    lemma_parse_sci_shape(d, ctx, 101);
    assert(crate::format::scientific_bytes_spec(d) == sci_shape_spec(d, 101));
}

/// The scientific rendering of a finite decimal parses back to the very same
/// coefficient, scale and sign, and so to the same numeric value: the string
/// round trip loses nothing.
pub proof fn lemma_scientific_round_trip(d: Decimal, ctx: crate::context::Context)
    requires
        d.is_finite_spec(),
    ensures
        ({
            let r = crate::parse::parse_spec(crate::format::scientific_bytes_spec(d), ctx);
            r matches Ok(v) && v.digits == d.digits && v.cb.scale == d.cb.scale && v.cb.sign
                == d.cb.sign && v.is_finite_spec() && v.no_extra_spec() && (d.no_extra_spec()
                ==> v.value_units() == d.value_units())
        }),
{
    lemma_parse_scientific(d, ctx);
    let v = crate::construct::construct_spec(
        d.digits,
        -(d.cb.scale as int),
        d.cb.sign,
        crate::signals::Signals::spec_empty(),
        ctx,
        ExtraPrecision::spec_empty(),
    );
    assert(v.digits == d.digits && v.cb.scale == d.cb.scale && v.cb.sign == d.cb.sign
        && v.is_finite_spec() && v.no_extra_spec());
    if d.no_extra_spec() {
        lemma_magnitude_shape(d);
        lemma_magnitude_shape(v);
    }
}

/// Appended zeros multiply the accumulated value by their power of ten.
proof fn lemma_digits_value_zeros(k: nat, acc: nat)
    ensures
        digits_value_rec(crate::format::zeros_spec(k), acc) == acc * pow10(k),
        forall|j: int| 0 <= j < k ==> is_digit(#[trigger] crate::format::zeros_spec(k)[j]),
    decreases k,
{
    crate::intrinsics::lemma_pow10_table();
    if k == 0 {
        assert(crate::format::zeros_spec(0) =~= Seq::<u8>::empty());
        assert(acc * pow10(0) == acc) by (nonlinear_arith)
            requires
                pow10(0) == 1,
        ;
    } else {
        let z = crate::format::zeros_spec(k);
        assert(z[0] == 48);
        assert(z.subrange(1, k as int) =~= crate::format::zeros_spec((k - 1) as nat));
        lemma_digits_value_zeros((k - 1) as nat, acc * 10);
        crate::intrinsics::lemma_pow10_step((k - 1) as nat);
        assert((acc * 10) * pow10((k - 1) as nat) == acc * (10 * pow10((k - 1) as nat)))
            by (nonlinear_arith);
    }
}

/// A digit run that ends the string closes the mantissa without an exponent
/// part.
proof fn lemma_mantissa_ends(s: Seq<u8>, acc: u128, frac: u32)
    ensures
        crate::parse::parse_mantissa_spec(s, s.len() as int, acc, true, true, frac) == Ok::<
            (u128, u32, int, bool),
            crate::errors::ParseError,
        >((acc, frac, s.len() as int, false)),
        crate::parse::parse_mantissa_spec(s, s.len() as int, acc, true, false, frac) == Ok::<
            (u128, u32, int, bool),
            crate::errors::ParseError,
        >((acc, frac, s.len() as int, false)),
{
}

/// Building a decimal back at its negated scale restores coefficient, scale
/// and sign exactly: the exponent of any stored scale lies in the direct
/// band.
proof fn lemma_construct_at_neg_scale(d: Decimal, ctx: crate::context::Context)
    requires
        d.is_finite_spec(),
    ensures
        ({
            let v = crate::construct::construct_spec(
                d.digits,
                -(d.cb.scale as int),
                d.cb.sign,
                crate::signals::Signals::spec_empty(),
                ctx,
                ExtraPrecision::spec_empty(),
            );
            v.digits == d.digits && v.cb.scale == d.cb.scale && v.cb.sign == d.cb.sign
                && v.is_finite_spec() && v.no_extra_spec()
        }),
{
}

/// The exponential fallback of the plain form: many leading zeros print as
/// the one-digit mantissa shape with a capital marker, which parses back
/// field for field.
proof fn lemma_plain_rt_exponential(d: Decimal, ctx: crate::context::Context)
    requires
        d.is_finite_spec(),
        d.cb.scale as int - digits_spec(d.digits as nat).len()
            > crate::format::LEADING_ZERO_THRESHOLD as int,
    ensures
        crate::parse::parse_spec(crate::format::plain_bytes_spec(d), ctx) == Ok::<
            Decimal,
            crate::errors::ParseError,
        >(
            crate::construct::construct_spec(
                d.digits,
                -(d.cb.scale as int),
                d.cb.sign,
                crate::signals::Signals::spec_empty(),
                ctx,
                ExtraPrecision::spec_empty(),
            ),
        ),
{
    lemma_parse_sci_shape(d, ctx, 69);
    assert(crate::format::plain_bytes_spec(d) == sci_shape_spec(d, 69));
}

/// The dotless exponent form: digits, a marker, an explicit plus and the
/// positive exponent, which parses back field for field.
#[verifier::rlimit(100)]
#[verifier::spinoff_prover]
proof fn lemma_plain_rt_dotless(d: Decimal, ctx: crate::context::Context)
    requires
        d.is_finite_spec(),
        d.cb.scale < 0,
        -(d.cb.scale as int) > crate::format::TRAILING_ZERO_THRESHOLD as int,
    ensures
        crate::parse::parse_spec(crate::format::plain_bytes_spec(d), ctx) == Ok::<
            Decimal,
            crate::errors::ParseError,
        >(
            crate::construct::construct_spec(
                d.digits,
                -(d.cb.scale as int),
                d.cb.sign,
                crate::signals::Signals::spec_empty(),
                ctx,
                ExtraPrecision::spec_empty(),
            ),
        ),
{
    let n = d.digits as nat;
    let ds = digits_spec(n);
    crate::format::lemma_digits_len(n);
    crate::format::lemma_digits_ascii(n);
    let ll = ds.len() as int;
    let sp: Seq<u8> = if d.cb.sign == crate::sign::Sign::Minus {
        seq![45u8]
    } else {
        Seq::<u8>::empty()
    };
    let mag = (-(d.cb.scale as int)) as nat;
    crate::format::lemma_digits_ascii(mag);
    crate::format::lemma_digits_len(mag);
    let s = crate::format::plain_bytes_spec(d);
    assert(s == sp + ds + seq![101u8, 43u8] + digits_spec(mag));
    let start: int = sp.len() as int;
    if d.cb.sign == crate::sign::Sign::Minus {
        assert(s[0] == 45);
    } else {
        assert(s[0] == ds[0]);
        assert(48 <= s[0] <= 57);
    }
    lemma_digits_value_of_digits(n, 0);
    assert(0 * pow10(crate::intrinsics::clength_spec(n)) == 0) by (nonlinear_arith);
    assert(s.subrange(start, start + ll) =~= ds);
    lemma_parse_digits_run(s, start, 0, false, false, 0, ds);
    assert(s[start + ll] == 101);
    assert(crate::parse::parse_mantissa_spec(s, start, 0, false, false, 0) == Ok::<
        (u128, u32, int, bool),
        crate::errors::ParseError,
    >((d.digits, 0, start + ll + 1, true)));
    let next = start + ll + 1;
    assert(s[next] == 43);
    let estart = next + 1;
    lemma_digits_value_of_digits(mag, 0);
    assert(0 * pow10(crate::intrinsics::clength_spec(mag)) == 0) by (nonlinear_arith);
    assert(mag <= 100_000);
    assert(s.subrange(estart, estart + digits_spec(mag).len()) =~= digits_spec(mag));
    assert(estart + digits_spec(mag).len() == s.len());
    lemma_parse_exp_run(s, estart, 0, false, digits_spec(mag));
    assert(crate::parse::clamp_exp_spec(-(d.cb.scale as int)) == -(d.cb.scale as int));
}

/// The padded integer form: digits with their implied trailing zeros spelled
/// out, which parses back as the folded coefficient at scale zero.
#[verifier::rlimit(100)]
#[verifier::spinoff_prover]
proof fn lemma_plain_rt_padded(d: Decimal, ctx: crate::context::Context)
    requires
        d.is_finite_spec(),
        d.cb.scale <= 0,
        -(d.cb.scale as int) <= crate::format::TRAILING_ZERO_THRESHOLD as int,
        (d.digits as nat) * pow10((-(d.cb.scale as int)) as nat) <= u128::MAX,
    ensures
        crate::parse::parse_spec(crate::format::plain_bytes_spec(d), ctx) == Ok::<
            Decimal,
            crate::errors::ParseError,
        >(
            crate::construct::construct_spec(
                ((d.digits as nat) * pow10((-(d.cb.scale as int)) as nat)) as u128,
                0,
                d.cb.sign,
                crate::signals::Signals::spec_empty(),
                ctx,
                ExtraPrecision::spec_empty(),
            ),
        ),
{
    let n = d.digits as nat;
    let ds = digits_spec(n);
    crate::format::lemma_digits_len(n);
    crate::format::lemma_digits_ascii(n);
    let ll = ds.len() as int;
    let k = (-(d.cb.scale as int)) as nat;
    let sp: Seq<u8> = if d.cb.sign == crate::sign::Sign::Minus {
        seq![45u8]
    } else {
        Seq::<u8>::empty()
    };
    let s = crate::format::plain_bytes_spec(d);
    assert(s == sp + ds + crate::format::zeros_spec(k));
    let start: int = sp.len() as int;
    if d.cb.sign == crate::sign::Sign::Minus {
        assert(s[0] == 45);
    } else {
        assert(s[0] == ds[0]);
        assert(48 <= s[0] <= 57);
    }
    let t = ds + crate::format::zeros_spec(k);
    lemma_digits_value_of_digits(n, 0);
    assert(0 * pow10(crate::intrinsics::clength_spec(n)) == 0) by (nonlinear_arith);
    lemma_digits_value_zeros(k, n);
    lemma_digits_value_concat(ds, crate::format::zeros_spec(k), 0);
    assert(digits_value_rec(t, 0) == n * pow10(k));
    assert(s.subrange(start, start + t.len()) =~= t);
    assert(forall|j: int| 0 <= j < t.len() ==> is_digit(#[trigger] t[j]));
    lemma_parse_digits_run(s, start, 0, false, false, 0, t);
    assert(start + t.len() == s.len());
    assert(crate::parse::parse_mantissa_spec(s, start, 0, false, false, 0) == Ok::<
        (u128, u32, int, bool),
        crate::errors::ParseError,
    >(((n * pow10(k)) as u128, 0, s.len() as int, false)));
    assert(crate::parse::clamp_exp_spec(0) == 0);
}

/// The full-scale fraction form: integer digits, a point, fractional digits,
/// which parses back field for field.
#[verifier::rlimit(100)]
#[verifier::spinoff_prover]
proof fn lemma_plain_rt_fraction(d: Decimal, ctx: crate::context::Context)
    requires
        d.is_finite_spec(),
        0 < d.cb.scale,
        (d.cb.scale as int) < digits_spec(d.digits as nat).len(),
    ensures
        crate::parse::parse_spec(crate::format::plain_bytes_spec(d), ctx) == Ok::<
            Decimal,
            crate::errors::ParseError,
        >(
            crate::construct::construct_spec(
                d.digits,
                -(d.cb.scale as int),
                d.cb.sign,
                crate::signals::Signals::spec_empty(),
                ctx,
                ExtraPrecision::spec_empty(),
            ),
        ),
{
    let n = d.digits as nat;
    let ds = digits_spec(n);
    crate::format::lemma_digits_len(n);
    crate::format::lemma_digits_ascii(n);
    let ll = ds.len() as int;
    let sc = d.cb.scale as int;
    let sp: Seq<u8> = if d.cb.sign == crate::sign::Sign::Minus {
        seq![45u8]
    } else {
        Seq::<u8>::empty()
    };
    let s = crate::format::plain_bytes_spec(d);
    let t1 = ds.subrange(0, ll - sc);
    let t2 = ds.subrange(ll - sc, ll);
    assert(s == sp + t1 + seq![46u8] + t2);
    let start: int = sp.len() as int;
    if d.cb.sign == crate::sign::Sign::Minus {
        assert(s[0] == 45);
    } else {
        assert(s[0] == ds[0]);
        assert(48 <= s[0] <= 57);
    }
    lemma_digits_value_of_digits(n, 0);
    assert(0 * pow10(crate::intrinsics::clength_spec(n)) == 0) by (nonlinear_arith);
    assert(ds =~= t1 + t2);
    lemma_digits_value_concat(t1, t2, 0);
    lemma_digits_value_monotone(t2, digits_value_rec(t1, 0));
    assert(s.subrange(start, start + (ll - sc)) =~= t1);
    lemma_parse_digits_run(s, start, 0, false, false, 0, t1);
    let v1 = digits_value_rec(t1, 0) as u128;
    assert(s[start + (ll - sc)] == 46);
    assert(s.subrange(start + (ll - sc) + 1, start + ll + 1) =~= t2);
    lemma_parse_digits_run(s, start + (ll - sc) + 1, v1, true, true, 0, t2);
    assert(digits_value_rec(t2, v1 as nat) == n);
    assert(start + ll + 1 == s.len());
    assert(crate::parse::parse_mantissa_spec(s, start, 0, false, false, 0) == Ok::<
        (u128, u32, int, bool),
        crate::errors::ParseError,
    >((d.digits, sc as u32, s.len() as int, false)));
    assert(crate::parse::clamp_exp_spec(-sc) == -sc);
}

/// The below-one form: a leading zero, the point, padding zeros and the
/// digits, which parses back field for field.
#[verifier::rlimit(100)]
#[verifier::spinoff_prover]
proof fn lemma_plain_rt_small(d: Decimal, ctx: crate::context::Context)
    requires
        d.is_finite_spec(),
        0 < d.cb.scale,
        (d.cb.scale as int) >= digits_spec(d.digits as nat).len(),
        d.cb.scale as int - digits_spec(d.digits as nat).len()
            <= crate::format::LEADING_ZERO_THRESHOLD as int,
    ensures
        crate::parse::parse_spec(crate::format::plain_bytes_spec(d), ctx) == Ok::<
            Decimal,
            crate::errors::ParseError,
        >(
            crate::construct::construct_spec(
                d.digits,
                -(d.cb.scale as int),
                d.cb.sign,
                crate::signals::Signals::spec_empty(),
                ctx,
                ExtraPrecision::spec_empty(),
            ),
        ),
{
    let n = d.digits as nat;
    let ds = digits_spec(n);
    crate::format::lemma_digits_len(n);
    crate::format::lemma_digits_ascii(n);
    let ll = ds.len() as int;
    let sc = d.cb.scale as int;
    let k = (sc - ll) as nat;
    let sp: Seq<u8> = if d.cb.sign == crate::sign::Sign::Minus {
        seq![45u8]
    } else {
        Seq::<u8>::empty()
    };
    let s = crate::format::plain_bytes_spec(d);
    assert(s == sp + seq![48u8, 46u8] + crate::format::zeros_spec(k) + ds);
    let start: int = sp.len() as int;
    if d.cb.sign == crate::sign::Sign::Minus {
        assert(s[0] == 45);
    } else {
        assert(s[0] == 48);
    }
    // The single leading zero.
    let t1: Seq<u8> = seq![48u8];
    assert(s.subrange(start, start + 1) =~= t1);
    assert(t1.subrange(1, 1) =~= Seq::<u8>::empty());
    assert(t1[0] == 48);
    assert(digits_value_rec(t1, 0) == digits_value_rec(t1.subrange(1, 1), 0 * 10 + (t1[0]
        - 48) as nat));
    assert(digits_value_rec(t1, 0) == 0);
    lemma_parse_digits_run(s, start, 0, false, false, 0, t1);
    assert(s[start + 1] == 46);
    // The padding zeros and the digits.
    let t2 = crate::format::zeros_spec(k) + ds;
    lemma_digits_value_of_digits(n, 0);
    assert(0 * pow10(crate::intrinsics::clength_spec(n)) == 0) by (nonlinear_arith);
    lemma_digits_value_zeros(k, 0);
    assert(0 * pow10(k) == 0) by (nonlinear_arith);
    lemma_digits_value_concat(crate::format::zeros_spec(k), ds, 0);
    assert(digits_value_rec(t2, 0) == n);
    assert(forall|j: int| 0 <= j < t2.len() ==> is_digit(#[trigger] t2[j]));
    assert(s.subrange(start + 2, start + 2 + t2.len()) =~= t2);
    lemma_parse_digits_run(s, start + 2, 0, true, true, 0, t2);
    assert(start + 2 + t2.len() == s.len());
    assert(crate::parse::parse_mantissa_spec(s, start, 0, false, false, 0) == Ok::<
        (u128, u32, int, bool),
        crate::errors::ParseError,
    >((d.digits, sc as u32, s.len() as int, false)));
    assert(crate::parse::clamp_exp_spec(-sc) == -sc);
}

/// The plain string round trip loses nothing: parsing the plain rendering
/// of a finite decimal yields a value numerically equal to it, with the same
/// sign. The one family of inputs left out: a coefficient whose padded
/// integer form (a nonpositive scale within the trailing-zero threshold)
/// does not fit back into the coefficient type, which re-parses as a
/// coefficient overflow.
#[verifier::rlimit(100)]
#[verifier::spinoff_prover]
pub proof fn lemma_display_round_trip(d: Decimal, ctx: crate::context::Context)
    requires
        d.is_finite_spec(),
        d.no_extra_spec(),
        d.cb.scale <= 0 && -(d.cb.scale as int) <= crate::format::TRAILING_ZERO_THRESHOLD as int
            ==> (d.digits as nat) * pow10((-(d.cb.scale as int)) as nat) <= u128::MAX,
    ensures
        ({
            let r = crate::parse::parse_spec(crate::format::plain_bytes_spec(d), ctx);
            r matches Ok(v) && v.is_finite_spec() && v.no_extra_spec() && v.cb.sign == d.cb.sign
                && v.value_units() == d.value_units()
        }),
{
    let n = d.digits as nat;
    crate::format::lemma_digits_len(n);
    let ll = digits_spec(n).len() as int;
    let sc = d.cb.scale as int;
    let direct = crate::construct::construct_spec(
        d.digits,
        -sc,
        d.cb.sign,
        crate::signals::Signals::spec_empty(),
        ctx,
        ExtraPrecision::spec_empty(),
    );
    lemma_construct_at_neg_scale(d, ctx);
    lemma_magnitude_shape(d);
    if sc - ll > crate::format::LEADING_ZERO_THRESHOLD as int {
        lemma_plain_rt_exponential(d, ctx);
        lemma_magnitude_shape(direct);
    } else if sc < 0 && -sc > crate::format::TRAILING_ZERO_THRESHOLD as int {
        lemma_plain_rt_dotless(d, ctx);
        lemma_magnitude_shape(direct);
    } else if sc <= 0 {
        lemma_plain_rt_padded(d, ctx);
        let k = (-sc) as nat;
        let m = (n * pow10(k)) as u128;
        let v = crate::construct::construct_spec(
            m,
            0,
            d.cb.sign,
            crate::signals::Signals::spec_empty(),
            ctx,
            ExtraPrecision::spec_empty(),
        );
        crate::intrinsics::lemma_pow10_pos(k);
        if m == 0 {
            assert(n == 0) by (nonlinear_arith)
                requires
                    n * pow10(k) == 0,
                    pow10(k) >= 1,
            ;
            lemma_magnitude_shape(v);
            assert(0 * pow10(unit_exp(0)) == 0) by (nonlinear_arith);
            assert(0 * pow10(unit_exp(d.cb.scale)) == 0) by (nonlinear_arith);
        } else {
            assert(v.digits == m && v.cb.scale == 0 && v.cb.sign == d.cb.sign
                && v.is_finite_spec() && v.no_extra_spec());
            lemma_magnitude_shape(v);
            assert(unit_exp(d.cb.scale) == k + unit_exp(0));
            crate::intrinsics::lemma_pow10_adds(k, unit_exp(0));
            assert(n * (pow10(k) * pow10(unit_exp(0))) == (n * pow10(k)) * pow10(unit_exp(0)))
                by (nonlinear_arith);
            assert(v.magnitude_units() == d.magnitude_units());
        }
    } else if sc < ll {
        lemma_plain_rt_fraction(d, ctx);
        lemma_magnitude_shape(direct);
    } else {
        lemma_plain_rt_small(d, ctx);
        lemma_magnitude_shape(direct);
    }
}

/// The plain rendering's characters encode back to its bytes one for one:
/// what `from_str` reads from the returned string is exactly the byte
/// sequence the round-trip law speaks of.
pub proof fn lemma_display_bytes(d: Decimal)
    requires
        d.is_finite_spec(),
    ensures
        vstd::utf8::encode_utf8(crate::format::display_chars_spec(d))
            == crate::format::plain_bytes_spec(d),
{
    let bytes = crate::format::plain_bytes_spec(d);
    let chars = crate::format::display_chars_spec(d);
    crate::format::lemma_plain_ascii(d);
    assert(chars.len() == bytes.len());
    assert(forall|i: int| 0 <= i < chars.len() ==> #[trigger] chars[i] == bytes[i] as char);
    assert(vstd::utf8::is_ascii_chars(chars)) by {
        assert forall|i: int| 0 <= i < chars.len() implies '\0' <= #[trigger] chars[i]
            <= '\u{7f}' by {
            assert(bytes[i] < 128);
        }
    }
    vstd::utf8::is_ascii_chars_encode_utf8(chars);
    assert(vstd::utf8::encode_utf8(chars) =~= bytes);
}

/// The engineering form with a point: one to three leading digits, the rest
/// behind the point, a marker and the exponent, which parses back field for
/// field.
#[verifier::rlimit(100)]
#[verifier::spinoff_prover]
proof fn lemma_eng_rt_fraction(d: Decimal, ctx: crate::context::Context)
    requires
        d.is_finite_spec(),
        ({
            let ll = digits_spec(d.digits as nat).len() as int;
            let top = ll - d.cb.scale;
            let shift: int = if top % 3 == 0 {
                3
            } else {
                top % 3
            };
            0 < shift < ll
        }),
    ensures
        crate::parse::parse_spec(crate::format::engineering_bytes_spec(d), ctx) == Ok::<
            Decimal,
            crate::errors::ParseError,
        >(
            crate::construct::construct_spec(
                d.digits,
                -(d.cb.scale as int),
                d.cb.sign,
                crate::signals::Signals::spec_empty(),
                ctx,
                ExtraPrecision::spec_empty(),
            ),
        ),
{
    let n = d.digits as nat;
    let ds = digits_spec(n);
    crate::format::lemma_digits_len(n);
    crate::format::lemma_digits_ascii(n);
    let ll = ds.len() as int;
    let sc = d.cb.scale as int;
    let top = ll - sc;
    let shift: int = if top % 3 == 0 {
        3
    } else {
        top % 3
    };
    let exp = top - shift;
    let mag = if exp < 0 {
        (-exp) as nat
    } else {
        exp as nat
    };
    crate::format::lemma_digits_ascii(mag);
    crate::format::lemma_digits_len(mag);
    let sp: Seq<u8> = if d.cb.sign == crate::sign::Sign::Minus {
        seq![45u8]
    } else {
        Seq::<u8>::empty()
    };
    let t1 = ds.subrange(0, shift);
    let t2 = ds.subrange(shift, ll);
    let s = crate::format::engineering_bytes_spec(d);
    assert(s == sp + t1 + seq![46u8] + t2 + seq![101u8] + crate::format::int_digits_spec(exp));
    let start: int = sp.len() as int;
    if d.cb.sign == crate::sign::Sign::Minus {
        assert(s[0] == 45);
    } else {
        assert(s[0] == ds[0]);
        assert(48 <= s[0] <= 57);
    }
    lemma_digits_value_of_digits(n, 0);
    assert(0 * pow10(crate::intrinsics::clength_spec(n)) == 0) by (nonlinear_arith);
    assert(ds =~= t1 + t2);
    lemma_digits_value_concat(t1, t2, 0);
    lemma_digits_value_monotone(t2, digits_value_rec(t1, 0));
    assert(s.subrange(start, start + shift) =~= t1);
    lemma_parse_digits_run(s, start, 0, false, false, 0, t1);
    let v1 = digits_value_rec(t1, 0) as u128;
    assert(s[start + shift] == 46);
    assert(s.subrange(start + shift + 1, start + ll + 1) =~= t2);
    lemma_parse_digits_run(s, start + shift + 1, v1, true, true, 0, t2);
    assert(digits_value_rec(t2, v1 as nat) == n);
    assert(s[start + ll + 1] == 101);
    let frac_m: u32 = (ll - shift) as u32;
    assert(crate::parse::parse_mantissa_spec(s, start, 0, false, false, 0) == Ok::<
        (u128, u32, int, bool),
        crate::errors::ParseError,
    >((d.digits, frac_m, start + ll + 2, true)));
    let next = start + ll + 2;
    assert(next < s.len());
    let estart: int = if exp < 0 {
        next + 1
    } else {
        next
    };
    if exp < 0 {
        assert(crate::format::int_digits_spec(exp) == seq![45u8] + digits_spec(mag));
        assert(s[next] == 45);
    } else {
        assert(s[next] == digits_spec(mag)[0]);
        assert(48 <= s[next] <= 57);
    }
    lemma_digits_value_of_digits(mag, 0);
    assert(0 * pow10(crate::intrinsics::clength_spec(mag)) == 0) by (nonlinear_arith);
    assert(mag <= 100_000);
    assert(s.subrange(estart, estart + digits_spec(mag).len()) =~= digits_spec(mag));
    assert(estart + digits_spec(mag).len() == s.len());
    lemma_parse_exp_run(s, estart, 0, false, digits_spec(mag));
    let esigned: int = if exp < 0 {
        -(mag as int)
    } else {
        mag as int
    };
    assert(esigned == exp);
    assert(esigned - frac_m == -sc);
    assert(crate::parse::clamp_exp_spec(-sc) == -sc);
}

/// The engineering form without a point: every digit before the marker,
/// padded with zeros up to the shift, which parses back as the padded
/// coefficient at the shifted exponent.
#[verifier::rlimit(100)]
#[verifier::spinoff_prover]
proof fn lemma_eng_rt_padded(d: Decimal, ctx: crate::context::Context)
    requires
        d.is_finite_spec(),
        ({
            let ll = digits_spec(d.digits as nat).len() as int;
            let top = ll - d.cb.scale;
            let shift: int = if top % 3 == 0 {
                3
            } else {
                top % 3
            };
            shift >= ll && 0 < shift <= 3
        }),
    ensures
        ({
            let ll = digits_spec(d.digits as nat).len() as int;
            let top = ll - d.cb.scale;
            let shift: int = if top % 3 == 0 {
                3
            } else {
                top % 3
            };
            crate::parse::parse_spec(crate::format::engineering_bytes_spec(d), ctx) == Ok::<
                Decimal,
                crate::errors::ParseError,
            >(
                crate::construct::construct_spec(
                    ((d.digits as nat) * pow10((shift - ll) as nat)) as u128,
                    top - shift,
                    d.cb.sign,
                    crate::signals::Signals::spec_empty(),
                    ctx,
                    ExtraPrecision::spec_empty(),
                ),
            )
        }),
{
    let n = d.digits as nat;
    let ds = digits_spec(n);
    crate::format::lemma_digits_len(n);
    crate::format::lemma_digits_ascii(n);
    crate::intrinsics::lemma_clength_bounds(if n == 0 {
        1
    } else {
        n
    });
    let ll = ds.len() as int;
    let sc = d.cb.scale as int;
    let top = ll - sc;
    let shift: int = if top % 3 == 0 {
        3
    } else {
        top % 3
    };
    let k2 = (shift - ll) as nat;
    let exp = top - shift;
    let mag = if exp < 0 {
        (-exp) as nat
    } else {
        exp as nat
    };
    crate::format::lemma_digits_ascii(mag);
    crate::format::lemma_digits_len(mag);
    let sp: Seq<u8> = if d.cb.sign == crate::sign::Sign::Minus {
        seq![45u8]
    } else {
        Seq::<u8>::empty()
    };
    let s = crate::format::engineering_bytes_spec(d);
    assert(s == sp + ds + crate::format::zeros_spec(k2) + seq![101u8]
        + crate::format::int_digits_spec(exp));
    let start: int = sp.len() as int;
    if d.cb.sign == crate::sign::Sign::Minus {
        assert(s[0] == 45);
    } else {
        assert(s[0] == ds[0]);
        assert(48 <= s[0] <= 57);
    }
    // The run of digits and padding zeros reads back the padded coefficient.
    let t = ds + crate::format::zeros_spec(k2);
    lemma_digits_value_of_digits(n, 0);
    assert(0 * pow10(crate::intrinsics::clength_spec(n)) == 0) by (nonlinear_arith);
    lemma_digits_value_zeros(k2, n);
    lemma_digits_value_concat(ds, crate::format::zeros_spec(k2), 0);
    assert(digits_value_rec(t, 0) == n * pow10(k2));
    crate::intrinsics::lemma_pow10_table();
    assert(n < pow10(ll as nat)) by {
        if n >= 1 {
            crate::intrinsics::lemma_clength_bounds(n);
        } else {
            crate::intrinsics::lemma_pow10_pos(ll as nat);
        }
    }
    crate::intrinsics::lemma_pow10_adds(ll as nat, k2);
    assert(n * pow10(k2) < pow10(ll as nat) * pow10(k2)) by (nonlinear_arith)
        requires
            n < pow10(ll as nat),
            pow10(k2) >= 1,
    ;
    crate::intrinsics::lemma_pow10_nondec((ll + k2) as nat, 3);
    assert(n * pow10(k2) <= u128::MAX);
    assert(s.subrange(start, start + t.len()) =~= t);
    assert(forall|j: int| 0 <= j < t.len() ==> is_digit(#[trigger] t[j]));
    lemma_parse_digits_run(s, start, 0, false, false, 0, t);
    assert(s[start + ll + k2] == 101);
    assert(crate::parse::parse_mantissa_spec(s, start, 0, false, false, 0) == Ok::<
        (u128, u32, int, bool),
        crate::errors::ParseError,
    >(((n * pow10(k2)) as u128, 0, start + ll + k2 + 1, true)));
    // The exponent part.
    let next = start + ll + k2 + 1;
    assert(next < s.len());
    let estart: int = if exp < 0 {
        next + 1
    } else {
        next
    };
    if exp < 0 {
        assert(crate::format::int_digits_spec(exp) == seq![45u8] + digits_spec(mag));
        assert(s[next] == 45);
    } else {
        assert(s[next] == digits_spec(mag)[0]);
        assert(48 <= s[next] <= 57);
    }
    lemma_digits_value_of_digits(mag, 0);
    assert(0 * pow10(crate::intrinsics::clength_spec(mag)) == 0) by (nonlinear_arith);
    assert(mag <= 100_000);
    assert(s.subrange(estart, estart + digits_spec(mag).len()) =~= digits_spec(mag));
    assert(estart + digits_spec(mag).len() == s.len());
    lemma_parse_exp_run(s, estart, 0, false, digits_spec(mag));
    let esigned: int = if exp < 0 {
        -(mag as int)
    } else {
        mag as int
    };
    assert(esigned == exp);
    assert(crate::parse::clamp_exp_spec(exp) == exp);
}

/// The engineering string round trip loses nothing: parsing the engineering
/// rendering of a finite decimal yields a value numerically equal to it,
/// with the same sign. The one family of inputs left out: a value whose
/// shifted exponent falls below the representable band (a coefficient of up
/// to three digits within two places of the scale ceiling), which re-parses
/// as an underflowed zero.
#[verifier::rlimit(100)]
#[verifier::spinoff_prover]
pub proof fn lemma_engineering_round_trip(d: Decimal, ctx: crate::context::Context)
    requires
        d.is_finite_spec(),
        d.no_extra_spec(),
        ({
            let ll = digits_spec(d.digits as nat).len() as int;
            let top = ll - d.cb.scale;
            let shift: int = if top % 3 == 0 {
                3
            } else {
                top % 3
            };
            shift >= ll ==> top - shift >= crate::intrinsics::E_MIN
        }),
    ensures
        ({
            let r = crate::parse::parse_spec(crate::format::engineering_bytes_spec(d), ctx);
            r matches Ok(v) && v.is_finite_spec() && v.no_extra_spec() && v.cb.sign == d.cb.sign
                && v.value_units() == d.value_units()
        }),
{
    let n = d.digits as nat;
    crate::format::lemma_digits_len(n);
    let ll = digits_spec(n).len() as int;
    let sc = d.cb.scale as int;
    let top = ll - sc;
    vstd::arithmetic::div_mod::lemma_mod_bound(top, 3);
    let shift: int = if top % 3 == 0 {
        3
    } else {
        top % 3
    };
    assert(1 <= shift <= 3);
    lemma_magnitude_shape(d);
    if shift < ll {
        lemma_eng_rt_fraction(d, ctx);
        lemma_construct_at_neg_scale(d, ctx);
        let v = crate::construct::construct_spec(
            d.digits,
            -sc,
            d.cb.sign,
            crate::signals::Signals::spec_empty(),
            ctx,
            ExtraPrecision::spec_empty(),
        );
        lemma_magnitude_shape(v);
    } else {
        lemma_eng_rt_padded(d, ctx);
        let k2 = (shift - ll) as nat;
        let exp = top - shift;
        crate::intrinsics::lemma_pow10_table();
        assert(n < pow10(ll as nat)) by {
            if n >= 1 {
                crate::intrinsics::lemma_clength_bounds(n);
            } else {
                crate::intrinsics::lemma_pow10_pos(ll as nat);
            }
        }
        crate::intrinsics::lemma_pow10_adds(ll as nat, k2);
        assert(n * pow10(k2) < pow10(ll as nat) * pow10(k2)) by (nonlinear_arith)
            requires
                n < pow10(ll as nat),
                pow10(k2) >= 1,
        ;
        crate::intrinsics::lemma_pow10_pos(k2);
        crate::intrinsics::lemma_pow10_nondec((ll + k2) as nat, 3);
        assert(n * pow10(k2) <= u128::MAX);
        let m = (n * pow10(k2)) as u128;
        assert(m as nat == n * pow10(k2));
        let v = crate::construct::construct_spec(
            m,
            exp,
            d.cb.sign,
            crate::signals::Signals::spec_empty(),
            ctx,
            ExtraPrecision::spec_empty(),
        );
        assert(exp <= -sc);
        assert(exp <= crate::intrinsics::E_LIMIT);
        assert(exp >= crate::intrinsics::E_MIN);
        if m == 0 {
            assert(n == 0) by (nonlinear_arith)
                requires
                    n * pow10(k2) == 0,
                    pow10(k2) >= 1,
            ;
            assert(v.digits == 0 && v.is_finite_spec() && v.no_extra_spec() && v.cb.sign
                == d.cb.sign);
            lemma_magnitude_shape(v);
            assert(0 * pow10(unit_exp(v.cb.scale)) == 0) by (nonlinear_arith);
            assert(0 * pow10(unit_exp(d.cb.scale)) == 0) by (nonlinear_arith);
        } else {
            assert(v.digits == m && v.cb.scale == (-exp) as i16 && v.cb.sign == d.cb.sign
                && v.is_finite_spec() && v.no_extra_spec());
            lemma_magnitude_shape(v);
            assert(unit_exp(v.cb.scale) + k2 == unit_exp(d.cb.scale));
            crate::intrinsics::lemma_pow10_adds(k2, unit_exp(v.cb.scale));
            assert(n * (pow10(k2) * pow10(unit_exp(v.cb.scale))) == (n * pow10(k2)) * pow10(
                unit_exp(v.cb.scale),
            )) by (nonlinear_arith);
            assert(v.magnitude_units() == d.magnitude_units());
        }
    }
}

} // verus!
