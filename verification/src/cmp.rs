use vstd::prelude::*;
use core::cmp::Ordering;
use crate::control_block::Special;
use crate::decimal::{unit_exp, Decimal};
use crate::intrinsics::{
    clength, clength_spec, lemma_clength_bounds, lemma_pow10_adds, lemma_pow10_nondec,
    lemma_pow10_pos, pow10, pow10_u128,
};
use crate::scale::reduce_rec;
use crate::sign::Sign;

verus! {

/// The order of two integers, as an `Ordering`.
pub open spec fn ord_of(a: int, b: int) -> Ordering {
    if a < b {
        Ordering::Less
    } else if a == b {
        Ordering::Equal
    } else {
        Ordering::Greater
    }
}

/// The opposite of an ordering.
pub open spec fn reverse_spec(o: Ordering) -> Ordering {
    match o {
        Ordering::Less => Ordering::Greater,
        Ordering::Equal => Ordering::Equal,
        Ordering::Greater => Ordering::Less,
    }
}

/// How the magnitudes of two same-signed decimals compare, from the special
/// classes downward: a NaN outranks everything, then infinity, then finite
/// values by their absolute numeric value, with zero lowest.
pub open spec fn magnitude_cmp_spec(l: Decimal, r: Decimal) -> Ordering {
    if l.is_nan_spec() && r.is_nan_spec() {
        Ordering::Equal
    } else if l.is_nan_spec() {
        Ordering::Greater
    } else if r.is_nan_spec() {
        Ordering::Less
    } else if l.is_infinite_spec() && r.is_infinite_spec() {
        Ordering::Equal
    } else if r.is_infinite_spec() {
        Ordering::Less
    } else if l.is_infinite_spec() {
        Ordering::Greater
    } else if l.is_zero_spec() && r.is_zero_spec() {
        Ordering::Equal
    } else if l.is_zero_spec() {
        Ordering::Less
    } else if r.is_zero_spec() {
        Ordering::Greater
    } else {
        ord_of(l.magnitude_units() as int, r.magnitude_units() as int)
    }
}

/// The total order used by `cmp`: two zeros are equal whatever their signs;
/// otherwise an unequal sign decides, and same-signed values compare by
/// magnitude, reversed for two negatives. A NaN sorts above every other
/// value of its sign.
pub open spec fn cmp_spec(l: Decimal, r: Decimal) -> Ordering {
    if l.is_zero_spec() && r.is_zero_spec() {
        Ordering::Equal
    } else if l.cb.sign != Sign::Minus && r.cb.sign == Sign::Minus {
        Ordering::Greater
    } else if l.cb.sign == Sign::Minus && r.cb.sign != Sign::Minus {
        Ordering::Less
    } else if l.cb.sign == Sign::Minus {
        reverse_spec(magnitude_cmp_spec(l, r))
    } else {
        magnitude_cmp_spec(l, r)
    }
}

/// At a common scale the magnitude order is the coefficient order.
proof fn lemma_mag_same_scale(l: Decimal, r: Decimal)
    requires
        l.cb.scale == r.cb.scale,
        l.cb.extra.digits == 0,
        r.cb.extra.digits == 0,
    ensures
        ord_of(l.magnitude_units() as int, r.magnitude_units() as int) == ord_of(
            l.digits as int,
            r.digits as int,
        ),
{
    let p = pow10(unit_exp(l.cb.scale));
    lemma_pow10_pos(unit_exp(l.cb.scale));
    assert(l.magnitude_units() == l.digits * p);
    assert(r.magnitude_units() == r.digits * p);
    assert((l.digits < r.digits ==> l.digits * p < r.digits * p) && (l.digits == r.digits
        ==> l.digits * p == r.digits * p) && (l.digits > r.digits ==> l.digits * p > r.digits
        * p)) by (nonlinear_arith)
        requires
            p >= 1,
    ;
}

/// A smaller decimal power means a strictly smaller magnitude.
proof fn lemma_mag_by_power(l: Decimal, r: Decimal)
    requires
        l.digits >= 1,
        r.digits >= 1,
        l.cb.extra.digits == 0,
        r.cb.extra.digits == 0,
        clength_spec(l.digits as nat) - l.cb.scale < clength_spec(r.digits as nat) - r.cb.scale,
    ensures
        l.magnitude_units() < r.magnitude_units(),
{
    let cl = clength_spec(l.digits as nat);
    let cr = clength_spec(r.digits as nat);
    let el = unit_exp(l.cb.scale);
    let er = unit_exp(r.cb.scale);
    lemma_clength_bounds(l.digits as nat);
    lemma_clength_bounds(r.digits as nat);
    lemma_pow10_pos(el);
    lemma_pow10_pos(er);
    assert(l.magnitude_units() == l.digits * pow10(el));
    assert(r.magnitude_units() == r.digits * pow10(er));
    assert(l.digits * pow10(el) < pow10(cl) * pow10(el)) by (nonlinear_arith)
        requires
            l.digits < pow10(cl),
            pow10(el) >= 1,
    ;
    assert(pow10((cr - 1) as nat) * pow10(er) <= r.digits * pow10(er)) by (nonlinear_arith)
        requires
            pow10((cr - 1) as nat) <= r.digits,
            pow10(er) >= 1,
    ;
    lemma_pow10_adds(cl, el);
    lemma_pow10_adds((cr - 1) as nat, er);
    assert(cl + el <= (cr - 1) + er);
    lemma_pow10_nondec(cl + el, ((cr - 1) + er) as nat);
}

/// Aligning the smaller-scale coefficient up by the scale difference turns a
/// magnitude comparison into an integer comparison; if the aligned
/// coefficient overflows, its side is the strictly larger one.
proof fn lemma_mag_shift(l: Decimal, r: Decimal)
    requires
        l.cb.scale > r.cb.scale,
        l.cb.extra.digits == 0,
        r.cb.extra.digits == 0,
    ensures
        ord_of(l.magnitude_units() as int, (r.digits * pow10((l.cb.scale - r.cb.scale) as nat)
            * pow10(unit_exp(l.cb.scale))) as int) == ord_of(
            l.digits as int,
            (r.digits * pow10((l.cb.scale - r.cb.scale) as nat)) as int,
        ),
        r.magnitude_units() == r.digits * pow10((l.cb.scale - r.cb.scale) as nat) * pow10(
            unit_exp(l.cb.scale),
        ),
{
    let delta = (l.cb.scale - r.cb.scale) as nat;
    let el = unit_exp(l.cb.scale);
    let er = unit_exp(r.cb.scale);
    lemma_pow10_pos(el);
    lemma_pow10_adds(delta, el);
    assert(er == delta + el);
    assert(r.magnitude_units() == r.digits * pow10(er));
    assert(r.digits * (pow10(delta) * pow10(el)) == r.digits * pow10(delta) * pow10(el))
        by (nonlinear_arith);
    let shifted = r.digits * pow10(delta);
    let p = pow10(el);
    assert((l.digits < shifted ==> l.digits * p < shifted * p) && (l.digits == shifted ==> l.digits
        * p == shifted * p) && (l.digits > shifted ==> l.digits * p > shifted * p))
        by (nonlinear_arith)
        requires
            p >= 1,
    ;
    assert(l.magnitude_units() == l.digits * p);
}

/// Stripping trailing zeros does not change the magnitude.
pub proof fn lemma_reduce_rec_value(c: u128, s: i16)
    ensures
        ({
            let r = reduce_rec(c, s);
            r.0 * pow10(unit_exp(r.1)) == c * pow10(unit_exp(s))
        }),
        reduce_rec(c, s).0 as int <= c as int,
        c != 0 ==> reduce_rec(c, s).0 != 0,
    decreases c,
{
    let r = reduce_rec(c, s);
    if c != 0 && c % 10 == 0 && s > i16::MIN {
        lemma_reduce_rec_value(c / 10, (s - 1) as i16);
        crate::intrinsics::lemma_pow10_step(unit_exp(s));
        assert(unit_exp((s - 1) as i16) == unit_exp(s) + 1);
        vstd::arithmetic::div_mod::lemma_fundamental_div_mod(c as int, 10);
        assert((c / 10) * (10 * pow10(unit_exp(s))) == c * pow10(unit_exp(s)))
            by (nonlinear_arith)
            requires
                c == 10 * (c / 10),
        ;
    }
}

/// Compares the magnitudes of two same-signed decimals: special classes
/// first, then absolute numeric value.
#[verifier::loop_isolation(false)]
fn cmp_magnitude(lhs: &Decimal, rhs: &Decimal) -> (r: Ordering)
    requires
        lhs.wf(),
        rhs.wf(),
    ensures
        lhs.no_extra_spec() && rhs.no_extra_spec() ==> r == magnitude_cmp_spec(*lhs, *rhs),
{
    if lhs.is_nan() && rhs.is_nan() {
        return Ordering::Equal;
    }
    if lhs.is_nan() {
        return Ordering::Greater;
    }
    if rhs.is_nan() {
        return Ordering::Less;
    }
    match (lhs.is_infinite(), rhs.is_infinite()) {
        (true, true) => {
            return Ordering::Equal;
        },
        (false, true) => {
            return Ordering::Less;
        },
        (true, false) => {
            return Ordering::Greater;
        },
        (false, false) => {},
    }
    match (lhs.is_zero(), rhs.is_zero()) {
        (true, true) => {
            return Ordering::Equal;
        },
        (true, false) => {
            return Ordering::Less;
        },
        (false, true) => {
            return Ordering::Greater;
        },
        (false, false) => {},
    }
    // From here on both are finite; with empty guard registers both
    // coefficients are nonzero.
    if lhs.digits == 0 || rhs.digits == 0 {
        // A nonempty guard register below a zero coefficient: order by the
        // coefficients alone, as the callers' contract says nothing here.
        if lhs.digits == rhs.digits {
            return Ordering::Equal;
        } else if lhs.digits < rhs.digits {
            return Ordering::Less;
        } else {
            return Ordering::Greater;
        }
    }
    let lhs_power = lhs.decimal_power();
    let rhs_power = rhs.decimal_power();
    if lhs_power < rhs_power {
        proof {
            if lhs.no_extra_spec() && rhs.no_extra_spec() {
                lemma_mag_by_power(*lhs, *rhs);
            }
        }
        return Ordering::Less;
    }
    if lhs_power > rhs_power {
        proof {
            if lhs.no_extra_spec() && rhs.no_extra_spec() {
                lemma_mag_by_power(*rhs, *lhs);
            }
        }
        return Ordering::Greater;
    }
    let lr = lhs.reduce();
    let rr = rhs.reduce();
    proof {
        lemma_reduce_rec_value(lhs.digits, lhs.cb.scale);
        lemma_reduce_rec_value(rhs.digits, rhs.cb.scale);
    }
    cmp_rounded(&lr, &rr)
}

/// Compares two finite nonzero decimals by aligning their coefficients at
/// the larger scale; an alignment that overflows proves its side larger.
fn cmp_rounded(a: &Decimal, b: &Decimal) -> (r: Ordering)
    requires
        a.wf(),
        b.wf(),
        a.digits >= 1,
        b.digits >= 1,
    ensures
        a.no_extra_spec() && b.no_extra_spec() ==> r == ord_of(
            a.magnitude_units() as int,
            b.magnitude_units() as int,
        ),
{
    if a.cb.get_scale() == b.cb.get_scale() {
        proof {
            if a.no_extra_spec() && b.no_extra_spec() {
                lemma_mag_same_scale(*a, *b);
            }
        }
        if a.digits == b.digits {
            return Ordering::Equal;
        } else if a.digits < b.digits {
            return Ordering::Less;
        } else {
            return Ordering::Greater;
        }
    }
    if a.cb.get_scale() > b.cb.get_scale() {
        proof {
            if a.no_extra_spec() && b.no_extra_spec() {
                lemma_mag_shift(*a, *b);
            }
        }
        let delta = (a.cb.get_scale() as i32 - b.cb.get_scale() as i32) as u32;
        let shifted: u128 = match pow10_u128(delta) {
            Some(m) => {
                match b.digits.checked_mul(m) {
                    Some(v) => v,
                    None => {
                        return Ordering::Less;
                    },
                }
            },
            None => {
                proof {
                    if a.no_extra_spec() && b.no_extra_spec() {
                        lemma_shift_overflow(b.digits as nat, (a.cb.scale - b.cb.scale) as nat);
                    }
                }
                return Ordering::Less;
            },
        };
        if a.digits == shifted {
            return Ordering::Equal;
        } else if a.digits < shifted {
            return Ordering::Less;
        } else {
            return Ordering::Greater;
        }
    } else {
        proof {
            if a.no_extra_spec() && b.no_extra_spec() {
                lemma_mag_shift(*b, *a);
            }
        }
        let delta = (b.cb.get_scale() as i32 - a.cb.get_scale() as i32) as u32;
        let shifted: u128 = match pow10_u128(delta) {
            Some(m) => {
                match a.digits.checked_mul(m) {
                    Some(v) => v,
                    None => {
                        return Ordering::Greater;
                    },
                }
            },
            None => {
                proof {
                    if a.no_extra_spec() && b.no_extra_spec() {
                        lemma_shift_overflow(a.digits as nat, (b.cb.scale - a.cb.scale) as nat);
                    }
                }
                return Ordering::Greater;
            },
        };
        if shifted == b.digits {
            return Ordering::Equal;
        } else if shifted < b.digits {
            return Ordering::Less;
        } else {
            return Ordering::Greater;
        }
    }
}

/// A coefficient shifted by a power of ten too large for the type exceeds
/// every coefficient.
proof fn lemma_shift_overflow(c: nat, delta: nat)
    requires
        c >= 1,
        pow10(delta) > u128::MAX,
    ensures
        c * pow10(delta) > u128::MAX,
{
    lemma_pow10_pos(delta);
    assert(c * pow10(delta) >= 1 * pow10(delta)) by (nonlinear_arith)
        requires
            c >= 1,
            pow10(delta) >= 1,
    ;
}

impl Decimal {
    /// The total order of two decimals: zeros of either sign are equal, an
    /// unequal sign decides, same-signed values compare by magnitude, and a
    /// NaN sorts above every other value of its sign.
    ///
    /// The contract binds for operands without pending guard digits — the
    /// state of every value a public operation returns; the comparison does
    /// not consult the registers of hand-assembled intermediates.
    pub fn cmp(&self, other: &Decimal) -> (r: Ordering)
        requires
            self.wf(),
            other.wf(),
        ensures
            self.no_extra_spec() && other.no_extra_spec() ==> r == cmp_spec(*self, *other),
    {
        if self.is_zero() && other.is_zero() {
            return Ordering::Equal;
        }
        match (self.is_negative(), other.is_negative()) {
            (false, true) => Ordering::Greater,
            (true, false) => Ordering::Less,
            (true, true) => {
                let m = cmp_magnitude(self, other);
                match m {
                    Ordering::Less => Ordering::Greater,
                    Ordering::Equal => Ordering::Equal,
                    Ordering::Greater => Ordering::Less,
                }
            },
            (false, false) => cmp_magnitude(self, other),
        }
    }

    /// The partial order of the numeric values: `None` whenever a NaN is
    /// involved, the total order of `cmp` otherwise; bound, as `cmp` is, for
    /// operands without pending guard digits.
    pub fn partial_cmp(&self, other: &Decimal) -> (r: Option<Ordering>)
        requires
            self.wf(),
            other.wf(),
        ensures
            self.is_nan_spec() || other.is_nan_spec() ==> r is None,
            !self.is_nan_spec() && !other.is_nan_spec() && self.no_extra_spec()
                && other.no_extra_spec() ==> r == Some(cmp_spec(*self, *other)),
    {
        if self.is_nan() || other.is_nan() {
            None
        } else {
            Some(self.cmp(other))
        }
    }

    /// Value equality: false whenever either side is a NaN, true for two
    /// zeros of any sign, and otherwise numeric equality regardless of
    /// representation scale. As for `cmp`, the contract binds for operands
    /// without pending guard digits.
    pub fn eq(&self, other: &Decimal) -> (r: bool)
        requires
            self.wf(),
            other.wf(),
        ensures
            self.is_nan_spec() || other.is_nan_spec() ==> r == false,
            !self.is_nan_spec() && !other.is_nan_spec() && self.no_extra_spec()
                && other.no_extra_spec() ==> r == (cmp_spec(*self, *other) == Ordering::Equal),
    {
        if self.is_nan() || other.is_nan() {
            return false;
        }
        matches!(self.cmp(other), Ordering::Equal)
    }

    /// The negation of `eq`: true whenever either side is a NaN.
    pub fn ne(&self, other: &Decimal) -> (r: bool)
        requires
            self.wf(),
            other.wf(),
        ensures
            self.is_nan_spec() || other.is_nan_spec() ==> r == true,
            !self.is_nan_spec() && !other.is_nan_spec() && self.no_extra_spec()
                && other.no_extra_spec() ==> r == (cmp_spec(*self, *other) != Ordering::Equal),
    {
        !self.eq(other)
    }

    /// Strictly less, under the total order of `cmp` and its register-free
    /// proviso.
    pub fn lt(&self, other: &Decimal) -> (r: bool)
        requires
            self.wf(),
            other.wf(),
        ensures
            self.no_extra_spec() && other.no_extra_spec() ==> r == (cmp_spec(*self, *other)
                == Ordering::Less),
    {
        matches!(self.cmp(other), Ordering::Less)
    }

    /// Less or equal, under the total order of `cmp` and its register-free
    /// proviso.
    pub fn le(&self, other: &Decimal) -> (r: bool)
        requires
            self.wf(),
            other.wf(),
        ensures
            self.no_extra_spec() && other.no_extra_spec() ==> r == (cmp_spec(*self, *other)
                != Ordering::Greater),
    {
        !matches!(self.cmp(other), Ordering::Greater)
    }

    /// Strictly greater, under the total order of `cmp` and its
    /// register-free proviso.
    pub fn gt(&self, other: &Decimal) -> (r: bool)
        requires
            self.wf(),
            other.wf(),
        ensures
            self.no_extra_spec() && other.no_extra_spec() ==> r == (cmp_spec(*self, *other)
                == Ordering::Greater),
    {
        matches!(self.cmp(other), Ordering::Greater)
    }

    /// Greater or equal, under the total order of `cmp` and its
    /// register-free proviso.
    pub fn ge(&self, other: &Decimal) -> (r: bool)
        requires
            self.wf(),
            other.wf(),
        ensures
            self.no_extra_spec() && other.no_extra_spec() ==> r == (cmp_spec(*self, *other)
                != Ordering::Less),
    {
        !matches!(self.cmp(other), Ordering::Less)
    }

    /// The larger operand; on a tie the right one.
    pub fn max(self, other: Decimal) -> (r: Decimal)
        requires
            self.wf(),
            other.wf(),
        ensures
            self.no_extra_spec() && other.no_extra_spec() ==> r == (if cmp_spec(self, other)
                == Ordering::Greater {
                self
            } else {
                other
            }),
            r == self || r == other,
    {
        match self.cmp(&other) {
            Ordering::Less | Ordering::Equal => other,
            Ordering::Greater => self,
        }
    }

    /// The smaller operand; on a tie the left one.
    pub fn min(self, other: Decimal) -> (r: Decimal)
        requires
            self.wf(),
            other.wf(),
        ensures
            self.no_extra_spec() && other.no_extra_spec() ==> r == (if cmp_spec(self, other)
                == Ordering::Greater {
                other
            } else {
                self
            }),
            r == self || r == other,
    {
        match self.cmp(&other) {
            Ordering::Less | Ordering::Equal => self,
            Ordering::Greater => other,
        }
    }

    /// The value forced into the closed range from `lo` to `hi`.
    pub fn clamp(self, lo: Decimal, hi: Decimal) -> (r: Decimal)
        requires
            self.wf(),
            lo.wf(),
            hi.wf(),
            self.no_extra_spec(),
            lo.no_extra_spec(),
            hi.no_extra_spec(),
            cmp_spec(lo, hi) != Ordering::Greater,
        ensures
            r == (if cmp_spec(self, lo) == Ordering::Less {
                lo
            } else if cmp_spec(self, hi) == Ordering::Greater {
                hi
            } else {
                self
            }),
    {
        if matches!(self.cmp(&lo), Ordering::Less) {
            lo
        } else if matches!(self.cmp(&hi), Ordering::Greater) {
            hi
        } else {
            self
        }
    }
}

} // verus!
