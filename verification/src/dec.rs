//! Decimal numbers as plain values: a signed 96-bit mantissa and a scale of
//! at most 28, the representation of `rust_decimal::Decimal`.
//!
//! Every arithmetic step is done by `rust_decimal`; this module converts to and
//! from its type one for one. A value is read through `units`, the number of
//! `1e-28` steps it stands for, so equal values written with different scales
//! (`0.1` and `0.10`) have the same units.
use rust_decimal::Decimal;
use std::str::FromStr;
use crate::sort::Keyed;
use crate::text::decimal_digits;
use vstd::prelude::*;

verus! {

/// `10^n`.
pub open spec fn pow10(n: nat) -> int
    decreases n,
{
    if n == 0 {
        1
    } else {
        10 * pow10((n - 1) as nat)
    }
}

/// One more than the largest mantissa magnitude, `2^96`.
pub open spec fn mantissa_limit() -> int {
    0x1_0000_0000_0000_0000_0000_0000
}

/// Largest scale a decimal may carry.
pub open spec fn max_scale() -> nat {
    28
}

/// A decimal `m / 10^s`.
#[derive(Debug, Clone, Copy)]
pub struct Dec {
    pub(crate) m: i128,
    pub(crate) s: u32,
}

/// Whether `r` is the `(mantissa, scale)` pair `p` that `rust_decimal` handed back.
pub open spec fn lifted(r: Option<Dec>, p: Option<(int, int)>) -> bool {
    &&& (r is Some <==> p is Some)
    &&& r is Some ==> (r.unwrap().mant() == p.unwrap().0 && r.unwrap().scl() == p.unwrap().1)
}

/// `rust_decimal::Decimal::checked_add` on `(mantissa, scale)` pairs.
pub uninterp spec fn decimal_checked_add(am: int, a_s: int, bm: int, b_s: int) -> Option<(int, int)>;

/// `rust_decimal::Decimal::checked_sub` on `(mantissa, scale)` pairs.
pub uninterp spec fn decimal_checked_sub(am: int, a_s: int, bm: int, b_s: int) -> Option<(int, int)>;

/// `rust_decimal::Decimal::checked_mul` on `(mantissa, scale)` pairs.
pub uninterp spec fn decimal_checked_mul(am: int, a_s: int, bm: int, b_s: int) -> Option<(int, int)>;

/// `rust_decimal::Decimal::checked_div` on `(mantissa, scale)` pairs.
pub uninterp spec fn decimal_checked_div(am: int, a_s: int, bm: int, b_s: int) -> Option<(int, int)>;

/// `rust_decimal::Decimal::round_dp` on a `(mantissa, scale)` pair: the
/// value unchanged when its scale is at most `dp`; otherwise the magnitude
/// cut to `dp` places and rounded half to even, the sign kept, at scale `dp`.
pub open spec fn decimal_round_dp(m: int, s: int, dp: int) -> (int, int) {
    if s <= dp {
        (m, s)
    } else {
        let k = (s - dp) as nat;
        let mag = if m < 0 { -m } else { m };
        let q = mag / pow10(k);
        let rem = mag % pow10(k);
        let half = 5 * pow10((k - 1) as nat);
        let q2 = if rem > half || (rem == half && q % 2 == 1) { q + 1 } else { q };
        (if m < 0 { -q2 } else { q2 }, dp)
    }
}

/// `rust_decimal::Decimal::from_str` on a text.
pub uninterp spec fn decimal_from_text(text: Seq<char>) -> Option<(int, int)>;

/// The decimal digits of `n`; none for zero.
pub open spec fn mantissa_digits(n: nat) -> Seq<char> {
    if n == 0 {
        Seq::empty()
    } else {
        decimal_digits(n)
    }
}

/// `d` with leading zeros up to length `k`.
pub open spec fn zero_padded(d: Seq<char>, k: nat) -> Seq<char> {
    if d.len() >= k {
        d
    } else {
        Seq::new((k - d.len()) as nat, |i: int| '0') + d
    }
}

/// `Display` of `rust_decimal::Decimal` on a `(mantissa, scale)` pair: a
/// minus sign for a negative mantissa, the whole part (`0` when it has no
/// digit), and for a positive scale a point and exactly `scale` fractional
/// digits, trailing zeros kept.
pub open spec fn decimal_text(m: int, s: int) -> Seq<char> {
    let mag = if m < 0 { -m } else { m };
    let d = zero_padded(mantissa_digits(mag as nat), s as nat);
    let w = d.len() - s;
    let whole = if w <= 0 { seq!['0'] } else { d.subrange(0, w) };
    let sign = if m < 0 { seq!['-'] } else { Seq::<char>::empty() };
    if s <= 0 {
        sign + whole
    } else {
        sign + whole + seq!['.'] + d.subrange(w, d.len() as int)
    }
}

impl PartialEq for Dec {
    fn eq(&self, other: &Dec) -> (r: bool) {
        dec_eq(self, other)
    }
}

impl Eq for Dec {
}

impl vstd::std_specs::cmp::PartialEqSpecImpl for Dec {
    open spec fn obeys_eq_spec() -> bool {
        true
    }

    open spec fn eq_spec(&self, other: &Dec) -> bool {
        self.units() == other.units()
    }
}

impl Dec {
    /// The mantissa.
    pub closed spec fn mant(self) -> int {
        self.m as int
    }

    /// The scale.
    pub closed spec fn scl(self) -> int {
        self.s as int
    }

    #[verifier::type_invariant]
    pub closed spec fn wf(self) -> bool {
        &&& self.s <= max_scale()
        &&& -mantissa_limit() < self.m < mantissa_limit()
    }

    /// The value in steps of `1e-28`.
    pub open spec fn units(self) -> int {
        self.mant() * pow10((max_scale() - self.scl()) as nat)
    }

    /// Zero.
    pub fn zero() -> (r: Dec)
        ensures
            r.units() == 0,
            r.mant() == 0,
            r.scl() == 0,
    {
        let r = Dec { m: 0, s: 0 };
        proof {
            lemma_units_sign(r);
        }
        r
    }

    /// An integer as a decimal of scale 0.
    pub fn from_int(v: i64) -> (r: Dec)
        ensures
            r.mant() == v,
            r.scl() == 0,
            r.units() == v * pow10(28),
    {
        Dec { m: v as i128, s: 0 }
    }

    /// A count as a decimal of scale 0.
    pub fn from_count(n: usize) -> (r: Dec)
        ensures
            pair(r) == (n as int, 0int),
    {
        proof {
            assert(n as int <= 0xffff_ffff_ffff_ffff);
        }
        Dec { m: n as i128, s: 0 }
    }

    /// The decimal `mantissa / 10^scale`; `None` where `rust_decimal` has no such value.
    pub fn from_parts(mantissa: i128, scale: u32) -> (r: Option<Dec>)
        ensures
            r is Some <==> (scale <= 28 && -mantissa_limit() < mantissa < mantissa_limit()),
            r is Some ==> (r.unwrap().mant() == mantissa && r.unwrap().scl() == scale),
    {
        if scale <= 28 && -0x1_0000_0000_0000_0000_0000_0000i128 < mantissa
            && mantissa < 0x1_0000_0000_0000_0000_0000_0000i128 {
            Some(Dec { m: mantissa, s: scale })
        } else {
            None
        }
    }

    pub fn mantissa(&self) -> (r: i128)
        ensures
            r == self.mant(),
    {
        self.m
    }

    pub fn scale(&self) -> (r: u32)
        ensures
            r == self.scl(),
    {
        self.s
    }

    /// Parses decimal text as `rust_decimal` does.
    pub fn parse(text: &str) -> (r: Option<Dec>)
        ensures
            lifted(r, decimal_from_text(text@)),
    {
        match parse_decimal(text) {
            Ok(d) => Some(d),
            Err(_) => None,
        }
    }

    /// Parses decimal text as `rust_decimal` does; on failure, the text of
    /// `rust_decimal`'s error.
    pub fn parse_or_error(text: &str) -> (r: Result<Dec, String>)
        ensures
            lifted(r.ok(), decimal_from_text(text@)),
            r matches Err(e) ==> e@ == decimal_error_text(text@),
    {
        parse_decimal(text)
    }

    /// The text `rust_decimal` prints for this value.
    pub fn to_text(&self) -> (r: String)
        ensures
            r@ == decimal_text(self.mant(), self.scl()),
    {
        decimal_to_text(self)
    }
}

impl Keyed for Dec {
    open spec fn key(&self) -> int {
        self.units()
    }

    fn key_le(&self, other: &Self) -> (r: bool) {
        dec_le(self, other)
    }
}

/// The `(mantissa, scale)` pair of a decimal.
pub open spec fn pair(d: Dec) -> (int, int) {
    (d.mant(), d.scl())
}

/// The decimal with the given `(mantissa, scale)` pair.
pub closed spec fn dec_of(p: (int, int)) -> Dec {
    Dec { m: p.0 as i128, s: p.1 as u32 }
}

/// A decimal is the decimal of its own pair.
pub proof fn lemma_dec_of_pair(d: Dec)
    ensures
        dec_of(pair(d)) == d,
{
}

/// Units of a `(mantissa, scale)` pair.
pub open spec fn pair_units(p: (int, int)) -> int {
    p.0 * pow10((max_scale() - p.1) as nat)
}

/// The pair of zero as `Dec::zero` builds it.
pub open spec fn zero_pair() -> (int, int) {
    (0, 0)
}

/// `checked_add` on pairs.
pub open spec fn padd(p: (int, int), q: (int, int)) -> Option<(int, int)> {
    decimal_checked_add(p.0, p.1, q.0, q.1)
}

/// `checked_sub` on pairs.
pub open spec fn psub(p: (int, int), q: (int, int)) -> Option<(int, int)> {
    decimal_checked_sub(p.0, p.1, q.0, q.1)
}

/// `checked_mul` on pairs.
pub open spec fn pmul(p: (int, int), q: (int, int)) -> Option<(int, int)> {
    decimal_checked_mul(p.0, p.1, q.0, q.1)
}

/// `checked_div` on pairs.
pub open spec fn pdiv(p: (int, int), q: (int, int)) -> Option<(int, int)> {
    decimal_checked_div(p.0, p.1, q.0, q.1)
}

/// Whether the sum of the pairs `p + q` fits without rounding: the exact
/// sum, written at the larger of the two scales, has a mantissa below `2^96`
/// in magnitude.
pub open spec fn pair_add_exact(p: (int, int), q: (int, int)) -> bool {
    let s = if p.1 >= q.1 { p.1 } else { q.1 };
    -mantissa_limit() < p.0 * pow10((s - p.1) as nat) + q.0 * pow10((s - q.1) as nat) < mantissa_limit()
}

/// Whether the difference of the pairs `p - q` fits without rounding.
pub open spec fn pair_sub_exact(p: (int, int), q: (int, int)) -> bool {
    let s = if p.1 >= q.1 { p.1 } else { q.1 };
    -mantissa_limit() < p.0 * pow10((s - p.1) as nat) - q.0 * pow10((s - q.1) as nat) < mantissa_limit()
}

/// Whether `a + b` fits without rounding.
pub open spec fn add_is_exact(a: Dec, b: Dec) -> bool {
    pair_add_exact(pair(a), pair(b))
}

/// Whether `a - b` fits without rounding.
pub open spec fn sub_is_exact(a: Dec, b: Dec) -> bool {
    pair_sub_exact(pair(a), pair(b))
}

/// Calls `rust_decimal::Decimal::checked_add`. The result is the named
/// `decimal_checked_add`; where the exact sum fits at the larger scale, the
/// source adds without rounding, so the sum is `Some`, exact, and of a scale
/// no larger than the operands'.
#[verifier::external_body]
pub(crate) fn dec_add(a: &Dec, b: &Dec) -> (r: Option<Dec>)
    ensures
        lifted(r, decimal_checked_add(a.mant(), a.scl(), b.mant(), b.scl())),
        (a.units() >= 0 && b.units() >= 0 && r is Some) ==> r.unwrap().units() >= 0,
        add_is_exact(*a, *b) ==> r is Some,
        add_is_exact(*a, *b) ==> r.unwrap().units() == a.units() + b.units(),
        add_is_exact(*a, *b) ==> (r.unwrap().scl() <= a.scl() || r.unwrap().scl() <= b.scl()),
{
    let x = Decimal::from_i128_with_scale(a.m, a.s);
    let y = Decimal::from_i128_with_scale(b.m, b.s);
    x.checked_add(y).map(|z| Dec { m: z.mantissa(), s: z.scale() })
}

/// Calls `rust_decimal::Decimal::checked_sub`. As for `dec_add`: exact where
/// the exact difference fits at the larger scale.
#[verifier::external_body]
pub(crate) fn dec_sub(a: &Dec, b: &Dec) -> (r: Option<Dec>)
    ensures
        lifted(r, decimal_checked_sub(a.mant(), a.scl(), b.mant(), b.scl())),
        sub_is_exact(*a, *b) ==> r is Some,
        sub_is_exact(*a, *b) ==> r.unwrap().units() == a.units() - b.units(),
        sub_is_exact(*a, *b) ==> (r.unwrap().scl() <= a.scl() || r.unwrap().scl() <= b.scl()),
{
    let x = Decimal::from_i128_with_scale(a.m, a.s);
    let y = Decimal::from_i128_with_scale(b.m, b.s);
    x.checked_sub(y).map(|z| Dec { m: z.mantissa(), s: z.scale() })
}

/// Calls `rust_decimal::Decimal::checked_mul`. The source returns zero at
/// once when either factor is zero.
#[verifier::external_body]
pub(crate) fn dec_mul(a: &Dec, b: &Dec) -> (r: Option<Dec>)
    ensures
        lifted(r, decimal_checked_mul(a.mant(), a.scl(), b.mant(), b.scl())),
        (a.mant() == 0 || b.mant() == 0) ==> r is Some,
        (a.mant() == 0 || b.mant() == 0) ==> r.unwrap().mant() == 0,
{
    let x = Decimal::from_i128_with_scale(a.m, a.s);
    let y = Decimal::from_i128_with_scale(b.m, b.s);
    x.checked_mul(y).map(|z| Dec { m: z.mantissa(), s: z.scale() })
}

/// Calls `rust_decimal::Decimal::checked_div`. The source gives `None` for a
/// zero divisor and zero for a zero dividend over a non-zero divisor.
#[verifier::external_body]
pub(crate) fn dec_div(a: &Dec, b: &Dec) -> (r: Option<Dec>)
    ensures
        lifted(r, decimal_checked_div(a.mant(), a.scl(), b.mant(), b.scl())),
        b.mant() == 0 ==> r is None,
        (b.mant() != 0 && a.mant() == 0) ==> r is Some,
        (b.mant() != 0 && a.mant() == 0) ==> r.unwrap().mant() == 0,
{
    let x = Decimal::from_i128_with_scale(a.m, a.s);
    let y = Decimal::from_i128_with_scale(b.m, b.s);
    x.checked_div(y).map(|z| Dec { m: z.mantissa(), s: z.scale() })
}

/// Calls `rust_decimal::Decimal::round_dp`, which rounds half to even
/// (`MidpointNearestEven`) and returns the value unchanged when its scale is
/// at most `dp`.
#[verifier::external_body]
pub(crate) fn dec_round_dp(a: &Dec, dp: u32) -> (r: Dec)
    ensures
        r.mant() == decimal_round_dp(a.mant(), a.scl(), dp as int).0,
        r.scl() == decimal_round_dp(a.mant(), a.scl(), dp as int).1,
{
    let z = Decimal::from_i128_with_scale(a.m, a.s).round_dp(dp);
    Dec { m: z.mantissa(), s: z.scale() }
}

/// `Display` of the error `rust_decimal::Decimal::from_str` returns for `text`.
pub uninterp spec fn decimal_error_text(text: Seq<char>) -> Seq<char>;

/// Calls `rust_decimal::Decimal::from_str`; on failure, the error's text.
#[verifier::external_body]
fn parse_decimal(text: &str) -> (r: Result<Dec, String>)
    ensures
        lifted(r.ok(), decimal_from_text(text@)),
        r matches Err(e) ==> e@ == decimal_error_text(text@),
{
    match Decimal::from_str(text) {
        Ok(z) => Ok(Dec { m: z.mantissa(), s: z.scale() }),
        Err(e) => Err(e.to_string()),
    }
}

/// Calls `Display` of `rust_decimal::Decimal`, which writes the mantissa's
/// digits with the point placed by the scale.
#[verifier::external_body]
fn decimal_to_text(a: &Dec) -> (r: String)
    ensures
        r@ == decimal_text(a.mant(), a.scl()),
{
    Decimal::from_i128_with_scale(a.m, a.s).to_string()
}

/// Calls `<` of `rust_decimal::Decimal`, which orders by value.
#[verifier::external_body]
pub(crate) fn dec_lt(a: &Dec, b: &Dec) -> (r: bool)
    ensures
        r == (a.units() < b.units()),
{
    Decimal::from_i128_with_scale(a.m, a.s) < Decimal::from_i128_with_scale(b.m, b.s)
}

/// Calls `==` of `rust_decimal::Decimal`, which compares values.
#[verifier::external_body]
pub(crate) fn dec_eq(a: &Dec, b: &Dec) -> (r: bool)
    ensures
        r == (a.units() == b.units()),
{
    Decimal::from_i128_with_scale(a.m, a.s) == Decimal::from_i128_with_scale(b.m, b.s)
}

/// `a <= b` by value.
pub fn dec_le(a: &Dec, b: &Dec) -> (r: bool)
    ensures
        r == (a.units() <= b.units()),
{
    !dec_lt(b, a)
}

/// Whether the value is zero.
pub fn dec_is_zero(a: &Dec) -> (r: bool)
    ensures
        r == (a.units() == 0),
        r == (a.mant() == 0),
{
    proof {
        lemma_units_sign(*a);
    }
    a.m == 0
}

/// Sign of the value: `1`, `-1` or `0`.
pub fn dec_sign(a: &Dec) -> (r: i8)
    ensures
        r == sign_of(a.units()),
{
    proof {
        lemma_units_sign(*a);
    }
    if a.m > 0 {
        1
    } else if a.m < 0 {
        -1
    } else {
        0
    }
}

/// Sign of an integer.
pub open spec fn sign_of(v: int) -> int {
    if v > 0 {
        1
    } else if v < 0 {
        -1
    } else {
        0
    }
}

pub proof fn lemma_pow10_pos(n: nat)
    ensures
        pow10(n) > 0,
    decreases n,
{
    if n > 0 {
        lemma_pow10_pos((n - 1) as nat);
    }
}

/// The units of a decimal have the sign of its mantissa.
pub proof fn lemma_units_sign(a: Dec)
    ensures
        (a.units() > 0) == (a.mant() > 0),
        (a.units() < 0) == (a.mant() < 0),
        (a.units() == 0) == (a.mant() == 0),
{
    let p = pow10((max_scale() - a.scl()) as nat);
    lemma_pow10_pos((max_scale() - a.scl()) as nat);
    assert(a.units() == a.mant() * p);
    if a.mant() > 0 {
        vstd::arithmetic::mul::lemma_mul_strictly_positive(a.mant(), p);
    } else if a.mant() < 0 {
        vstd::arithmetic::mul::lemma_mul_strict_inequality(a.mant(), 0, p);
    }
}

} // verus!
