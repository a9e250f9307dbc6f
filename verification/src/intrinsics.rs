use vstd::prelude::*;

verus! {

/// Largest number of decimal digits a 128-bit coefficient can hold.
pub const MAX_CLENGTH: u32 = 39;

/// Largest decimal exponent that can be stored directly as a negated scale.
pub const E_LIMIT: i32 = 32768;

/// Smallest decimal exponent that can be stored directly as a negated scale.
pub const E_MIN: i32 = -32767;

/// Largest decimal exponent representable at all: above `E_LIMIT` the
/// coefficient is padded with up to `MAX_CLENGTH - 1` trailing zeros.
pub const E_MAX: i32 = E_LIMIT + 38;

/// Ten to the `n`-th power.
pub open spec fn pow10(n: nat) -> nat
    decreases n,
{
    if n == 0 {
        1
    } else {
        10 * pow10((n - 1) as nat)
    }
}

/// One more than the largest 128-bit integer.
pub open spec fn pow2_128() -> int {
    u128::MAX as int + 1
}

/// Ten to any power is at least one.
pub proof fn lemma_pow10_pos(n: nat)
    ensures
        pow10(n) >= 1,
    decreases n,
{
    if n > 0 {
        lemma_pow10_pos((n - 1) as nat);
    }
}

/// Each power of ten is ten times the one before.
pub proof fn lemma_pow10_step(n: nat)
    ensures
        pow10(n + 1) == 10 * pow10(n),
{
}

/// Splitting an exponent splits the power into a product.
pub proof fn lemma_pow10_adds(a: nat, b: nat)
    ensures
        pow10(a + b) == pow10(a) * pow10(b),
    decreases a,
{
    if a == 0 {
        assert(pow10(0) == 1);
        assert(a + b == b);
        assert(pow10(a + b) == 1 * pow10(b));
    } else {
        let a1 = (a - 1) as nat;
        lemma_pow10_adds(a1, b);
        assert(pow10(a) == 10 * pow10(a1));
        assert((a + b - 1) as nat == a1 + b);
        assert(pow10(a + b) == 10 * pow10(a1 + b));
        assert(pow10(a1 + b) == pow10(a1) * pow10(b));
        assert(10 * (pow10(a1) * pow10(b)) == (10 * pow10(a1)) * pow10(b)) by (nonlinear_arith);
        assert(pow10(a + b) == pow10(a) * pow10(b));
    }
}

/// Ten to a power grows strictly with the exponent.
pub proof fn lemma_pow10_increases(a: nat, b: nat)
    requires
        a < b,
    ensures
        pow10(a) < pow10(b),
    decreases b,
{
    if b == a + 1 {
        lemma_pow10_pos(a);
    } else {
        lemma_pow10_increases(a, (b - 1) as nat);
        lemma_pow10_pos((b - 1) as nat);
    }
}

/// The values of the powers of ten up to the fourteenth.
pub proof fn lemma_pow10_table()
    ensures
        pow10(0) == 1,
        pow10(1) == 10,
        pow10(2) == 100,
        pow10(3) == 1_000,
        pow10(4) == 10_000,
        pow10(5) == 100_000,
        pow10(6) == 1_000_000,
        pow10(7) == 10_000_000,
        pow10(8) == 100_000_000,
        pow10(9) == 1_000_000_000,
        pow10(10) == 10_000_000_000,
        pow10(11) == 100_000_000_000,
        pow10(12) == 1_000_000_000_000,
        pow10(13) == 10_000_000_000_000,
{
    lemma_pow10_step(0);
    lemma_pow10_step(1);
    lemma_pow10_step(2);
    lemma_pow10_step(3);
    lemma_pow10_step(4);
    lemma_pow10_step(5);
    lemma_pow10_step(6);
    lemma_pow10_step(7);
    lemma_pow10_step(8);
    lemma_pow10_step(9);
    lemma_pow10_step(10);
    lemma_pow10_step(11);
    lemma_pow10_step(12);
}

/// Ten to the thirty-eighth still fits a 128-bit coefficient.
pub proof fn lemma_pow10_38_fits()
    ensures
        pow10(38) <= u128::MAX,
{
    lemma_pow10_table();
    lemma_pow10_adds(13, 13);
    lemma_pow10_adds(26, 12);
    assert(pow10(26) == 100_000_000_000_000_000_000_000_000nat);
    assert(pow10(38) == 100_000_000_000_000_000_000_000_000_000_000_000_000nat);
}

/// A power of ten with an exponent of `MAX_CLENGTH` or more exceeds any
/// 128-bit coefficient.
pub proof fn lemma_pow10_39_overflows(n: nat)
    requires
        n >= 39,
    ensures
        pow10(n) > u128::MAX,
{
    lemma_pow10_table();
    lemma_pow10_adds(13, 13);
    lemma_pow10_adds(26, 13);
    assert(pow10(26) == 100_000_000_000_000_000_000_000_000nat);
    assert(pow10(39) == 1_000_000_000_000_000_000_000_000_000_000_000_000_000nat);
    if n > 39 {
        lemma_pow10_increases(39, n);
    }
}

/// Number of decimal digits of `c`; zero is counted as one digit.
pub open spec fn clength_spec(c: nat) -> nat
    decreases c,
{
    if c < 10 {
        1
    } else {
        1 + clength_spec(c / 10)
    }
}

/// A nonzero number with `n` digits lies between ten to the `n - 1` and ten
/// to the `n`.
pub proof fn lemma_clength_bounds(c: nat)
    requires
        c >= 1,
    ensures
        clength_spec(c) >= 1,
        pow10((clength_spec(c) - 1) as nat) <= c < pow10(clength_spec(c)),
    decreases c,
{
    lemma_pow10_table();
    if c < 10 {
    } else {
        lemma_clength_bounds(c / 10);
        let n = clength_spec(c / 10);
        lemma_pow10_adds((n - 1) as nat, 1);
        lemma_pow10_adds(n, 1);
        assert(c / 10 * 10 <= c < (c / 10 + 1) * 10) by (nonlinear_arith);
        assert(pow10((n - 1) as nat) * 10 <= (c / 10) * 10) by (nonlinear_arith)
            requires
                pow10((n - 1) as nat) <= c / 10,
        ;
        assert((c / 10 + 1) * 10 <= pow10(n) * 10) by (nonlinear_arith)
            requires
                c / 10 + 1 <= pow10(n),
        ;
    }
}

/// Ten to a power never shrinks as the exponent grows.
pub proof fn lemma_pow10_nondec(a: nat, b: nat)
    requires
        a <= b,
    ensures
        pow10(a) <= pow10(b),
{
    if a < b {
        lemma_pow10_increases(a, b);
    }
}

/// The digit count of a number is fixed by its bracketing powers of ten.
pub proof fn lemma_clength_exact(c: nat, n: nat)
    requires
        pow10(n) <= c < pow10(n + 1),
    ensures
        clength_spec(c) == n + 1,
{
    lemma_pow10_pos(n);
    lemma_clength_bounds(c);
    let m = (clength_spec(c) - 1) as nat;
    if m < n {
        lemma_pow10_nondec(m + 1, n);
    }
    if n < m {
        lemma_pow10_nondec(n + 1, m);
    }
}

/// No 128-bit value has more than `MAX_CLENGTH` decimal digits.
pub proof fn lemma_clength_upper(c: nat)
    requires
        c <= u128::MAX,
    ensures
        clength_spec(c) <= MAX_CLENGTH,
{
    if c >= 1 {
        lemma_clength_bounds(c);
        if clength_spec(c) > MAX_CLENGTH {
            lemma_pow10_39_overflows((clength_spec(c) - 1) as nat);
        }
    }
}

/// Ten to the `p`-th power as a 128-bit integer, or `None` when it does not
/// fit.
pub fn pow10_u128(p: u32) -> (r: Option<u128>)
    ensures
        match r {
            Some(v) => v == pow10(p as nat),
            None => pow10(p as nat) > u128::MAX,
        },
{
    let mut acc: u128 = 1;
    let mut i: u32 = 0;
    proof {
        lemma_pow10_table();
    }
    while i < p
        invariant
            i <= p,
            acc == pow10(i as nat),
        decreases p - i,
    {
        if acc > u128::MAX / 10 {
            proof {
                lemma_pow10_step(i as nat);
                if (i as nat) + 1 < p as nat {
                    lemma_pow10_increases((i + 1) as nat, p as nat);
                }
            }
            return None;
        }
        proof {
            lemma_pow10_step(i as nat);
        }
        acc = acc * 10;
        i = i + 1;
    }
    Some(acc)
}

/// Number of decimal digits of a 128-bit coefficient; zero has one digit.
pub fn clength(c: u128) -> (r: u32)
    ensures
        r == clength_spec(c as nat),
        1 <= r <= MAX_CLENGTH,
{
    let mut n: u32 = 1;
    let mut rest: u128 = c;
    proof {
        lemma_clength_upper(c as nat);
    }
    while rest >= 10
        invariant
            clength_spec(c as nat) == n + clength_spec(rest as nat) - 1,
            n >= 1,
            n + clength_spec(rest as nat) - 1 <= MAX_CLENGTH,
        decreases rest,
    {
        rest = rest / 10;
        n = n + 1;
    }
    n
}

/// Relies on bnum's `U128::widening_mul`: the full 256-bit product of two
/// 128-bit integers, returned as its low and high 128-bit halves.
#[verifier::external_body]
pub(crate) fn widening_mul_u128(a: u128, b: u128) -> (r: (u128, u128))
    ensures
        r.0 as int + r.1 as int * pow2_128() == a as int * b as int,
{
    let (lo, hi) = bnum::types::U128::try_from(a)
        .unwrap()
        .widening_mul(bnum::types::U128::try_from(b).unwrap());
    (u128::try_from(lo).unwrap(), u128::try_from(hi).unwrap())
}

/// Relies on the `/` operator of bnum's `U256`: truncating division, as for
/// the primitive unsigned integers. The dividend is given and the quotient
/// returned as (high, low) 128-bit halves.
#[verifier::external_body]
pub(crate) fn wide_div(hi: u128, lo: u128, d: u128) -> (q: (u128, u128))
    requires
        d >= 1,
    ensures
        q.1 as int + q.0 as int * pow2_128() == (hi as int * pow2_128() + lo as int) / d as int,
{
    let n = (bnum::types::U256::try_from(hi).unwrap() << 128u32)
        | bnum::types::U256::try_from(lo).unwrap();
    let q = n / bnum::types::U256::try_from(d).unwrap();
    (
        u128::try_from(q >> 128u32).unwrap(),
        u128::try_from(q & bnum::types::U256::try_from(u128::MAX).unwrap()).unwrap(),
    )
}

/// Relies on the `%` operator of bnum's `U256`: the remainder of truncating
/// division, as for the primitive unsigned integers. The dividend is given
/// as (high, low) 128-bit halves.
#[verifier::external_body]
pub(crate) fn wide_rem(hi: u128, lo: u128, d: u128) -> (r: u128)
    requires
        d >= 1,
    ensures
        r as int == (hi as int * pow2_128() + lo as int) % d as int,
{
    let n = (bnum::types::U256::try_from(hi).unwrap() << 128u32)
        | bnum::types::U256::try_from(lo).unwrap();
    u128::try_from(n % bnum::types::U256::try_from(d).unwrap()).unwrap()
}

/// A table of the powers of ten that fit a 128-bit coefficient.
pub struct PowersOf10;

impl PowersOf10 {
    /// Ten to the `power`-th; `power` must keep the result within 128 bits.
    pub fn lookup(&self, power: u32) -> (r: u128)
        requires
            pow10(power as nat) <= u128::MAX,
        ensures
            r == pow10(power as nat),
    {
        let r = pow10_u128(power);
        match r {
            Some(v) => v,
            None => 0,
        }
    }
}

/// The width-dependent limits of the coefficient type.
pub struct Intrinsics;

impl Intrinsics {
    /// Largest power of ten that fits a 128-bit coefficient.
    pub fn max_power_of_ten(&self) -> (r: u32)
        ensures
            r == MAX_CLENGTH - 1,
            pow10(r as nat) <= u128::MAX,
            pow10((r + 1) as nat) > u128::MAX,
    {
        proof {
            lemma_pow10_38_fits();
            lemma_pow10_39_overflows(39);
        }
        38
    }
}

} // verus!
