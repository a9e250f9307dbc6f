use vstd::prelude::*;
use crate::decimal::Decimal;
use crate::sign::Sign;

verus! {

/// Scales with more than this many zeros between the decimal point and the
/// first significant digit are written exponentially.
pub const LEADING_ZERO_THRESHOLD: i32 = 5;

/// Values with more than this many implied trailing zeros are written
/// exponentially without a point.
pub const TRAILING_ZERO_THRESHOLD: i32 = 5;

/// The ASCII digits of a number, most significant first; zero is "0".
pub open spec fn digits_spec(n: nat) -> Seq<u8>
    decreases n,
{
    if n < 10 {
        seq![(48 + n) as u8]
    } else {
        digits_spec(n / 10).push((48 + n % 10) as u8)
    }
}

/// The ASCII rendering of a signed number: a minus sign before the digits
/// of the magnitude.
pub open spec fn int_digits_spec(e: int) -> Seq<u8> {
    if e < 0 {
        seq![45u8] + digits_spec((-e) as nat)
    } else {
        digits_spec(e as nat)
    }
}

/// A run of ASCII zeros.
pub open spec fn zeros_spec(n: nat) -> Seq<u8> {
    Seq::new(n, |i: int| 48u8)
}

/// A number's digit string is as long as its digit count.
pub proof fn lemma_digits_len(n: nat)
    requires
        n <= u128::MAX,
    ensures
        digits_spec(n).len() == crate::intrinsics::clength_spec(n),
        1 <= digits_spec(n).len() <= 39,
    decreases n,
{
    crate::intrinsics::lemma_clength_upper(n);
    if n >= 10 {
        lemma_digits_len(n / 10);
    }
}

/// The digit seqence of a number never holds a byte outside ASCII.
pub proof fn lemma_digits_ascii(n: nat)
    ensures
        forall|i: int| 0 <= i < digits_spec(n).len() ==> 48 <= #[trigger] digits_spec(n)[i] <= 57,
        digits_spec(n).len() >= 1,
    decreases n,
{
    if n >= 10 {
        lemma_digits_ascii(n / 10);
    }
}

/// The ASCII digits of a 128-bit number, most significant first.
pub fn u128_digits(n: u128) -> (v: Vec<u8>)
    ensures
        v@ == digits_spec(n as nat),
    decreases n,
{
    if n < 10 {
        let mut v: Vec<u8> = Vec::new();
        v.push(48 + n as u8);
        proof {
            assert(v@ =~= digits_spec(n as nat));
        }
        v
    } else {
        let mut v = u128_digits(n / 10);
        v.push(48 + (n % 10) as u8);
        proof {
            assert(v@ =~= digits_spec(n as nat));
        }
        v
    }
}

/// The ASCII rendering of a signed 64-bit number.
pub fn i64_digits(e: i64) -> (v: Vec<u8>)
    ensures
        v@ == int_digits_spec(e as int),
{
    if e < 0 {
        let mag: u128 = (-(e as i128)) as u128;
        let mut v: Vec<u8> = Vec::new();
        v.push(45);
        let d = u128_digits(mag);
        let mut k: usize = 0;
        while k < d.len()
            invariant
                k <= d.len(),
                v@ == seq![45u8] + d@.subrange(0, k as int),
            decreases d.len() - k,
        {
            let b = d[k];
            v.push(b);
            proof {
                assert(v@ =~= seq![45u8] + d@.subrange(0, k + 1 as int));
            }
            k = k + 1;
        }
        proof {
            assert(d@.subrange(0, d@.len() as int) =~= d@);
            assert(v@ =~= int_digits_spec(e as int));
        }
        v
    } else {
        let v = u128_digits(e as u128);
        v
    }
}

/// Appends `n` ASCII zeros.
fn push_zeros(v: &mut Vec<u8>, n: usize)
    ensures
        final(v)@ == old(v)@ + zeros_spec(n as nat),
{
    let mut k: usize = 0;
    while k < n
        invariant
            k <= n,
            v@ == old(v)@ + zeros_spec(k as nat),
        decreases n - k,
    {
        v.push(48);
        proof {
            assert(v@ =~= old(v)@ + zeros_spec((k + 1) as nat));
        }
        k = k + 1;
    }
}

/// Appends every byte of `w`.
fn push_all(v: &mut Vec<u8>, w: &Vec<u8>)
    ensures
        final(v)@ == old(v)@ + w@,
{
    let mut k: usize = 0;
    while k < w.len()
        invariant
            k <= w.len(),
            v@ == old(v)@ + w@.subrange(0, k as int),
        decreases w.len() - k,
    {
        let b = w[k];
        v.push(b);
        proof {
            assert(v@ =~= old(v)@ + w@.subrange(0, k + 1 as int));
        }
        k = k + 1;
    }
    proof {
        assert(w@.subrange(0, w@.len() as int) =~= w@);
    }
}

/// Appends a prefix of `w`, the bytes before `mid`.
fn push_prefix(v: &mut Vec<u8>, w: &Vec<u8>, mid: usize)
    requires
        mid <= w@.len(),
    ensures
        final(v)@ == old(v)@ + w@.subrange(0, mid as int),
{
    let mut k: usize = 0;
    while k < mid
        invariant
            k <= mid <= w@.len(),
            v@ == old(v)@ + w@.subrange(0, k as int),
        decreases mid - k,
    {
        let b = w[k];
        v.push(b);
        proof {
            assert(v@ =~= old(v)@ + w@.subrange(0, k + 1 as int));
        }
        k = k + 1;
    }
}

/// Appends a suffix of `w`, the bytes from `mid` on.
fn push_suffix(v: &mut Vec<u8>, w: &Vec<u8>, mid: usize)
    requires
        mid <= w@.len(),
    ensures
        final(v)@ == old(v)@ + w@.subrange(mid as int, w@.len() as int),
{
    let mut k: usize = mid;
    while k < w.len()
        invariant
            mid <= k <= w@.len(),
            v@ == old(v)@ + w@.subrange(mid as int, k as int),
        decreases w.len() - k,
    {
        let b = w[k];
        v.push(b);
        proof {
            assert(v@ =~= old(v)@ + w@.subrange(mid as int, k + 1 as int));
        }
        k = k + 1;
    }
}

/// Relies on std's `String::from_utf8`: bytes below 128 decode one to a
/// character each.
#[verifier::external_body]
fn string_from_ascii(v: Vec<u8>) -> (r: String)
    requires
        forall|i: int| 0 <= i < v@.len() ==> v@[i] < 128,
    ensures
        r@.len() == v@.len(),
        forall|i: int| 0 <= i < v@.len() ==> r@[i] == v@[i] as char,
{
    String::from_utf8(v).unwrap()
}

/// The scientific-notation bytes of a finite decimal: the first significant
/// digit, a point and the rest when there is one, then `e` and the signed
/// exponent of the leading digit.
pub open spec fn scientific_bytes_spec(d: Decimal) -> Seq<u8> {
    let ds = digits_spec(d.digits as nat);
    let sign_part: Seq<u8> = if d.cb.sign == Sign::Minus {
        seq![45u8]
    } else {
        Seq::empty()
    };
    let exp = ds.len() - 1 - d.cb.scale;
    let mantissa = if ds.len() == 1 {
        ds
    } else {
        ds.subrange(0, 1) + seq![46u8] + ds.subrange(1, ds.len() as int)
    };
    sign_part + mantissa + seq![101u8] + int_digits_spec(exp)
}

/// The engineering-notation bytes of a finite decimal: one to three digits
/// before the point so that the exponent is a multiple of three.
pub open spec fn engineering_bytes_spec(d: Decimal) -> Seq<u8> {
    let ds = digits_spec(d.digits as nat);
    let sign_part: Seq<u8> = if d.cb.sign == Sign::Minus {
        seq![45u8]
    } else {
        Seq::empty()
    };
    let top = ds.len() - d.cb.scale;
    let shift: int = if top % 3 == 0 {
        3
    } else {
        top % 3
    };
    let exp = top - shift;
    if shift >= ds.len() {
        sign_part + ds + zeros_spec((shift - ds.len()) as nat) + seq![101u8] + int_digits_spec(exp)
    } else {
        sign_part + ds.subrange(0, shift) + seq![46u8] + ds.subrange(shift, ds.len() as int)
            + seq![101u8] + int_digits_spec(exp)
    }
}

/// The plain rendering of a finite decimal, with the exponential fallbacks
/// of the thresholds: many leading zeros switch to scientific notation with
/// a capital marker, many implied trailing zeros to a dotless exponent form,
/// and everything else prints at full scale.
pub open spec fn plain_bytes_spec(d: Decimal) -> Seq<u8> {
    let ds = digits_spec(d.digits as nat);
    let sign_part: Seq<u8> = if d.cb.sign == Sign::Minus {
        seq![45u8]
    } else {
        Seq::empty()
    };
    let s = d.cb.scale as int;
    if s - ds.len() > LEADING_ZERO_THRESHOLD {
        let exp = ds.len() - 1 - s;
        let mantissa = if ds.len() == 1 {
            ds
        } else {
            ds.subrange(0, 1) + seq![46u8] + ds.subrange(1, ds.len() as int)
        };
        sign_part + mantissa + seq![69u8] + int_digits_spec(exp)
    } else if s < 0 && -s > TRAILING_ZERO_THRESHOLD {
        sign_part + ds + seq![101u8, 43u8] + digits_spec((-s) as nat)
    } else if s <= 0 {
        sign_part + ds + zeros_spec((-s) as nat)
    } else if s < ds.len() {
        sign_part + ds.subrange(0, ds.len() - s) + seq![46u8] + ds.subrange(
            ds.len() - s,
            ds.len() as int,
        )
    } else {
        sign_part + seq![48u8, 46u8] + zeros_spec((s - ds.len()) as nat) + ds
    }
}

/// The rendering of any decimal: `NaN`, a signed `Inf`, or the plain form.
pub open spec fn display_chars_spec(d: Decimal) -> Seq<char> {
    if d.is_nan_spec() {
        seq!['N', 'a', 'N']
    } else if d.is_infinite_spec() {
        if d.cb.sign == Sign::Minus {
            seq!['-', 'I', 'n', 'f']
        } else {
            seq!['I', 'n', 'f']
        }
    } else {
        Seq::new(plain_bytes_spec(d).len(), |i: int| plain_bytes_spec(d)[i] as char)
    }
}

/// Every byte either rendering produces is ASCII.
pub proof fn lemma_plain_ascii(d: Decimal)
    ensures
        forall|i: int| 0 <= i < plain_bytes_spec(d).len() ==> #[trigger] plain_bytes_spec(d)[i]
            < 128,
{
    lemma_digits_ascii(d.digits as nat);
    lemma_digits_ascii((-(d.cb.scale as int)) as nat);
    let s = d.cb.scale as int;
    let ds = digits_spec(d.digits as nat);
    let exp = ds.len() - 1 - s;
    if exp < 0 {
        lemma_digits_ascii((-exp) as nat);
    } else {
        lemma_digits_ascii(exp as nat);
    }
}

impl Decimal {
    /// The value as scientific notation, one leading digit before the point.
    pub fn write_scientific_notation_bytes(&self) -> (v: Vec<u8>)
        requires
            self.is_finite_spec(),
        ensures
            v@ == scientific_bytes_spec(*self),
    {
        let ds = u128_digits(self.digits);
        proof {
            lemma_digits_len(self.digits as nat);
        }
        let mut v: Vec<u8> = Vec::new();
        if matches!(self.cb.sign, Sign::Minus) {
            v.push(45);
        }
        if ds.len() == 1 {
            push_all(&mut v, &ds);
        } else {
            push_prefix(&mut v, &ds, 1);
            v.push(46);
            push_suffix(&mut v, &ds, 1);
        }
        v.push(101);
        let exp: i64 = ds.len() as i64 - 1 - self.cb.get_scale() as i64;
        let ed = i64_digits(exp);
        push_all(&mut v, &ed);
        proof {
            assert(v@ =~= scientific_bytes_spec(*self));
        }
        v
    }

    /// The value as a string in scientific notation; special values print as
    /// `NaN` and signed `Inf`.
    pub fn to_scientific_notation(&self) -> (r: String)
        ensures
            self.is_finite_spec() ==> r@.len() == scientific_bytes_spec(*self).len() && (forall|
                i: int,
            |
                0 <= i < r@.len() ==> r@[i] == scientific_bytes_spec(*self)[i] as char),
    {
        if self.is_nan() {
            return nan_string();
        }
        if self.is_infinite() {
            return inf_string(matches!(self.cb.sign, Sign::Minus));
        }
        let v = self.write_scientific_notation_bytes();
        proof {
            lemma_digits_ascii(self.digits as nat);
            let exp = digits_spec(self.digits as nat).len() - 1 - self.cb.scale;
            if exp < 0 {
                lemma_digits_ascii((-exp) as nat);
            } else {
                lemma_digits_ascii(exp as nat);
            }
        }
        string_from_ascii(v)
    }

    /// The value as engineering notation: the exponent is a multiple of
    /// three.
    #[verifier::rlimit(100)]
    pub fn write_engineering_notation_bytes(&self) -> (v: Vec<u8>)
        requires
            self.is_finite_spec(),
        ensures
            v@ == engineering_bytes_spec(*self),
    {
        let ds = u128_digits(self.digits);
        proof {
            lemma_digits_len(self.digits as nat);
        }
        let mut v: Vec<u8> = Vec::new();
        if matches!(self.cb.sign, Sign::Minus) {
            v.push(45);
        }
        let top: i64 = ds.len() as i64 - self.cb.get_scale() as i64;
        let tpos: i64 = top + 32_802;
        let m: i64 = tpos % 3;
        proof {
            vstd::arithmetic::div_mod::lemma_add_mod_noop(top as int, 32_802, 3);
            vstd::arithmetic::div_mod::lemma_mod_bound(top as int, 3);
            vstd::arithmetic::div_mod::lemma_mod_twice(top as int, 3);
            assert(32_802int % 3 == 0) by (nonlinear_arith);
            vstd::arithmetic::div_mod::lemma_mod_bound(top as int + 32_802, 3);
            assert(m as int == (ds@.len() - self.cb.scale) % 3);
        }
        let shift: i64 = if m == 0 {
            3
        } else {
            m
        };
        let exp: i64 = top - shift;
        if shift >= ds.len() as i64 {
            push_all(&mut v, &ds);
            push_zeros(&mut v, (shift as usize) - ds.len());
        } else {
            push_prefix(&mut v, &ds, shift as usize);
            v.push(46);
            push_suffix(&mut v, &ds, shift as usize);
        }
        v.push(101);
        let ed = i64_digits(exp);
        push_all(&mut v, &ed);
        proof {
            assert(v@ =~= engineering_bytes_spec(*self));
        }
        v
    }

    /// The value as a string in engineering notation; special values print
    /// as `NaN` and signed `Inf`.
    pub fn to_engineering_notation(&self) -> (r: String)
        ensures
            self.is_finite_spec() ==> r@.len() == engineering_bytes_spec(*self).len() && (forall|
                i: int,
            |
                0 <= i < r@.len() ==> r@[i] == engineering_bytes_spec(*self)[i] as char),
    {
        if self.is_nan() {
            return nan_string();
        }
        if self.is_infinite() {
            return inf_string(matches!(self.cb.sign, Sign::Minus));
        }
        let v = self.write_engineering_notation_bytes();
        proof {
            lemma_engineering_ascii(*self);
        }
        string_from_ascii(v)
    }

    /// The value as a plain decimal string: `NaN`, a signed `Inf`, or the
    /// full-scale form with the exponential fallbacks of the thresholds.
    pub fn to_string(&self) -> (r: String)
        ensures
            r@ == display_chars_spec(*self),
    {
        if self.is_nan() {
            return nan_string();
        }
        if self.is_infinite() {
            return inf_string(matches!(self.cb.sign, Sign::Minus));
        }
        let ds = u128_digits(self.digits);
        proof {
            lemma_digits_len(self.digits as nat);
        }
        let mut v: Vec<u8> = Vec::new();
        if matches!(self.cb.sign, Sign::Minus) {
            v.push(45);
        }
        let s: i32 = self.cb.get_scale() as i32;
        if s as i64 - ds.len() as i64 > LEADING_ZERO_THRESHOLD as i64 {
            if ds.len() == 1 {
                push_all(&mut v, &ds);
            } else {
                push_prefix(&mut v, &ds, 1);
                v.push(46);
                push_suffix(&mut v, &ds, 1);
            }
            v.push(69);
            let exp: i64 = ds.len() as i64 - 1 - s as i64;
            let ed = i64_digits(exp);
            push_all(&mut v, &ed);
        } else if s < 0 && -s > TRAILING_ZERO_THRESHOLD {
            push_all(&mut v, &ds);
            v.push(101);
            v.push(43);
            let ed = u128_digits((-(s as i64)) as u128);
            push_all(&mut v, &ed);
        } else if s <= 0 {
            push_all(&mut v, &ds);
            push_zeros(&mut v, (-(s as i64)) as usize);
        } else if (s as usize) < ds.len() {
            let mid = ds.len() - s as usize;
            push_prefix(&mut v, &ds, mid);
            v.push(46);
            push_suffix(&mut v, &ds, mid);
        } else {
            v.push(48);
            v.push(46);
            push_zeros(&mut v, s as usize - ds.len());
            push_all(&mut v, &ds);
        }
        proof {
            assert(v@ =~= plain_bytes_spec(*self));
            lemma_plain_ascii(*self);
        }
        let r = string_from_ascii(v);
        proof {
            assert(r@ =~= display_chars_spec(*self));
        }
        r
    }
}

/// Every byte of the engineering rendering is ASCII.
proof fn lemma_engineering_ascii(d: Decimal)
    ensures
        forall|i: int| 0 <= i < engineering_bytes_spec(d).len() ==> #[trigger] engineering_bytes_spec(
            d,
        )[i] < 128,
{
    lemma_digits_ascii(d.digits as nat);
    let ds = digits_spec(d.digits as nat);
    let top = ds.len() - d.cb.scale;
    let shift: int = if top % 3 == 0 {
        3
    } else {
        top % 3
    };
    let exp = top - shift;
    if exp < 0 {
        lemma_digits_ascii((-exp) as nat);
    } else {
        lemma_digits_ascii(exp as nat);
    }
}

/// The string `NaN`.
fn nan_string() -> (r: String)
    ensures
        r@ =~= seq!['N', 'a', 'N'],
{
    let mut v: Vec<u8> = Vec::new();
    v.push(78);
    v.push(97);
    v.push(78);
    string_from_ascii(v)
}

/// The string `Inf`, with a minus sign when asked.
fn inf_string(neg: bool) -> (r: String)
    ensures
        !neg ==> r@ =~= seq!['I', 'n', 'f'],
        neg ==> r@ =~= seq!['-', 'I', 'n', 'f'],
{
    let mut v: Vec<u8> = Vec::new();
    if neg {
        v.push(45);
    }
    v.push(73);
    v.push(110);
    v.push(102);
    string_from_ascii(v)
}

} // verus!
