//! Fixed-point decimal numbers carried as plain values.
//!
//! A [`Dec`] holds the 96-bit signed mantissa and the base-ten scale that a
//! `rust_decimal::Decimal` is made of. Arithmetic and comparison are delegated
//! to `rust_decimal` through the trusted items at the end of this file.

use vstd::prelude::*;
use rust_decimal::Decimal;

verus! {

/// Largest mantissa magnitude a decimal can hold (2^96 - 1).
pub const MAX_MANTISSA: i128 = 79_228_162_514_264_337_593_543_950_335i128;

/// Largest supported scale.
pub const MAX_SCALE: u32 = 28u32;

pub open spec fn pow10(n: nat) -> int
    decreases n,
{
    if n == 0 {
        1
    } else {
        10 * pow10((n - 1) as nat)
    }
}

/// A decimal view: the mantissa and the scale, so that the number is
/// `mantissa / 10^scale`.
pub type DecView = (int, nat);

pub open spec fn dec_wf(v: DecView) -> bool {
    &&& -(MAX_MANTISSA as int) <= v.0 <= MAX_MANTISSA as int
    &&& v.1 <= MAX_SCALE
}

/// The value of a decimal counted in units of 10^-28.
pub open spec fn units(v: DecView) -> int {
    v.0 * pow10((MAX_SCALE - v.1) as nat)
}

/// Units of the plain integer `n`.
pub open spec fn int_units(n: int) -> int {
    n * pow10(MAX_SCALE as nat)
}

/// Units of one.
pub open spec fn one_units() -> int {
    pow10(MAX_SCALE as nat)
}

/// The view of the magnitude of a decimal.
pub open spec fn abs_view(v: DecView) -> DecView {
    if v.0 < 0 {
        (-v.0, v.1)
    } else {
        v
    }
}

pub open spec fn max_nat(a: nat, b: nat) -> nat {
    if a >= b { a } else { b }
}

/// The exact sum of `a` and `b` is representable at the larger of their scales.
pub open spec fn add_fits(a: DecView, b: DecView) -> bool {
    let s = max_nat(a.1, b.1);
    let total = units(a) + units(b);
    &&& s <= MAX_SCALE
    &&& total % pow10((MAX_SCALE - s) as nat) == 0
    &&& -(MAX_MANTISSA as int) <= total / pow10((MAX_SCALE - s) as nat) <= MAX_MANTISSA as int
}

/// The exact difference of `a` and `b` is representable at the larger scale.
pub open spec fn sub_fits(a: DecView, b: DecView) -> bool {
    add_fits(a, (-b.0, b.1))
}

/// The exact product of `a` and `b` has an integer part within the mantissa
/// range, so it can be held at some scale.
pub open spec fn mul_value_fits(a: DecView, b: DecView) -> bool {
    let p = units(a) * units(b);
    -(MAX_MANTISSA as int) * one_units() * one_units() <= p <= (MAX_MANTISSA as int) * one_units() * one_units()
}

/// A non-zero divisor and a quotient of magnitude below the largest mantissa.
pub open spec fn div_value_fits(a: DecView, b: DecView) -> bool {
    let ua = units(a);
    let ub = units(b);
    &&& ub != 0
    &&& (if ua >= 0 { ua } else { -ua }) <= (MAX_MANTISSA as int - 1) * (if ub >= 0 { ub } else { -ub })
}

/// The exact product of `a` and `b` is representable at the summed scale.
pub open spec fn mul_fits(a: DecView, b: DecView) -> bool {
    &&& a.1 + b.1 <= MAX_SCALE
    &&& -(MAX_MANTISSA as int) <= a.0 * b.0 <= MAX_MANTISSA as int
}

#[derive(Clone, Copy, Debug)]
pub struct Dec {
    mantissa: i128,
    scale: u32,
}

impl View for Dec {
    type V = DecView;

    open spec fn view(&self) -> DecView {
        (self.spec_mantissa() as int, self.spec_scale() as nat)
    }
}

impl Dec {
    pub closed spec fn spec_mantissa(&self) -> i128 {
        self.mantissa
    }

    pub closed spec fn spec_scale(&self) -> u32 {
        self.scale
    }

    #[verifier::type_invariant]
    closed spec fn inv(self) -> bool {
        dec_wf((self.mantissa as int, self.scale as nat))
    }

    pub fn mantissa(&self) -> (m: i128)
        ensures
            m as int == self@.0,
    {
        self.mantissa
    }

    pub fn scale(&self) -> (s: u32)
        ensures
            s as nat == self@.1,
            s <= MAX_SCALE,
    {
        proof { use_type_invariant(self); }
        self.scale
    }

    /// The decimal `num / 10^scale`.
    pub fn new(num: i64, scale: u32) -> (d: Dec)
        requires
            scale <= MAX_SCALE,
        ensures
            d@ == (num as int, scale as nat),
    {
        Dec { mantissa: num as i128, scale }
    }

    pub fn from_i128_with_scale(num: i128, scale: u32) -> (d: Dec)
        requires
            dec_wf((num as int, scale as nat)),
        ensures
            d@ == (num as int, scale as nat),
    {
        Dec { mantissa: num, scale }
    }

    /// The decimal zero at scale zero.
    pub closed spec fn spec_zero() -> Dec {
        Dec { mantissa: 0, scale: 0 }
    }

    pub fn zero() -> (d: Dec)
        ensures
            d == Dec::spec_zero(),
            d@ == (0int, 0nat),
            units(d@) == 0,
    {
        let d = Dec { mantissa: 0, scale: 0 };
        assert(units(d@) == 0 * pow10(MAX_SCALE as nat));
        d
    }

    pub fn one() -> (d: Dec)
        ensures
            d@ == (1int, 0nat),
            units(d@) == one_units(),
    {
        let d = Dec { mantissa: 1, scale: 0 };
        assert(units(d@) == 1 * pow10(MAX_SCALE as nat));
        d
    }

    pub fn from_i64(n: i64) -> (d: Dec)
        ensures
            d@ == (n as int, 0nat),
            units(d@) == int_units(n as int),
    {
        Dec { mantissa: n as i128, scale: 0 }
    }

    pub fn is_zero(&self) -> (b: bool)
        ensures
            b == (units(self@) == 0),
    {
        proof { use_type_invariant(self); lemma_units_zero(self@); }
        self.mantissa == 0
    }

    pub fn is_positive(&self) -> (b: bool)
        ensures
            b == (units(self@) > 0),
            dec_wf(self@),
    {
        proof { use_type_invariant(self); lemma_units_sign(self@); }
        self.mantissa > 0
    }

    pub fn is_negative(&self) -> (b: bool)
        ensures
            b == (units(self@) < 0),
    {
        proof { use_type_invariant(self); lemma_units_sign(self@); }
        self.mantissa < 0
    }

    pub fn copy(&self) -> (d: Dec)
        ensures
            d@ == self@,
    {
        *self
    }

    /// The negation `-self`.
    pub fn neg(&self) -> (d: Dec)
        ensures
            d@ == (-self@.0, self@.1),
            units(d@) == -units(self@),
    {
        proof { use_type_invariant(self); lemma_units_neg(self@); }
        Dec { mantissa: -self.mantissa, scale: self.scale }
    }

    /// The magnitude `|self|`.
    pub fn abs(&self) -> (d: Dec)
        ensures
            d@ == abs_view(self@),
            units(d@) == (if units(self@) < 0 { -units(self@) } else { units(self@) }),
    {
        proof { use_type_invariant(self); lemma_units_sign(self@); lemma_units_neg(self@); }
        if self.mantissa < 0 {
            self.neg()
        } else {
            *self
        }
    }

    /// One less this fraction, written at the fraction's scale; exact for a
    /// fraction between zero and one.
    pub fn one_less(&self) -> (d: Dec)
        requires
            0 <= units(self@) <= one_units(),
        ensures
            d@ == one_less_view(self@),
            units(d@) == one_units() - units(self@),
    {
        proof {
            use_type_invariant(self);
        }
        let s = self.scale;
        let p = pow10_exec(s);
        proof {
            let t = (MAX_SCALE - s) as nat;
            lemma_pow10_split(s as nat, t);
            lemma_pow10_positive(t);
            lemma_pow10_positive(s as nat);
            assert((s as nat + t) as nat == MAX_SCALE as nat);
            let m = self.mantissa as int;
            assert(units(self@) == m * pow10(t));
            assert(m >= 0) by (nonlinear_arith)
                requires
                    m * pow10(t) >= 0,
                    pow10(t) > 0,
            ;
            assert(m <= pow10(s as nat)) by (nonlinear_arith)
                requires
                    m * pow10(t) <= pow10(s as nat) * pow10(t),
                    pow10(t) > 0,
            ;
            lemma_pow10_monotonic(s as nat, MAX_SCALE as nat);
            assert(pow10(MAX_SCALE as nat) == 10_000_000_000_000_000_000_000_000_000) by {
                reveal_with_fuel(pow10, 29);
            }
            assert((pow10(s as nat) - m) * pow10(t) == pow10(s as nat) * pow10(t) - m * pow10(t)) by (nonlinear_arith);
        }
        Dec { mantissa: p - self.mantissa, scale: s }
    }

    /// One more than this fraction, written at the fraction's scale; exact
    /// for a fraction between zero and one.
    pub fn one_more(&self) -> (d: Dec)
        requires
            0 <= units(self@) <= one_units(),
        ensures
            d@ == one_more_view(self@),
            units(d@) == one_units() + units(self@),
    {
        proof {
            use_type_invariant(self);
        }
        let s = self.scale;
        let p = pow10_exec(s);
        proof {
            let t = (MAX_SCALE - s) as nat;
            lemma_pow10_split(s as nat, t);
            lemma_pow10_positive(t);
            lemma_pow10_positive(s as nat);
            assert((s as nat + t) as nat == MAX_SCALE as nat);
            let m = self.mantissa as int;
            assert(units(self@) == m * pow10(t));
            assert(m >= 0) by (nonlinear_arith)
                requires
                    m * pow10(t) >= 0,
                    pow10(t) > 0,
            ;
            assert(m <= pow10(s as nat)) by (nonlinear_arith)
                requires
                    m * pow10(t) <= pow10(s as nat) * pow10(t),
                    pow10(t) > 0,
            ;
            lemma_pow10_monotonic(s as nat, MAX_SCALE as nat);
            assert(pow10(MAX_SCALE as nat) == 10_000_000_000_000_000_000_000_000_000) by {
                reveal_with_fuel(pow10, 29);
            }
            assert((pow10(s as nat) + m) * pow10(t) == pow10(s as nat) * pow10(t) + m * pow10(t)) by (nonlinear_arith);
        }
        Dec { mantissa: p + self.mantissa, scale: s }
    }

    pub fn le(&self, other: &Dec) -> (b: bool)
        ensures
            b == (units(self@) <= units(other@)),
    {
        decimal_le(self, other)
    }

    pub fn lt(&self, other: &Dec) -> (b: bool)
        ensures
            b == (units(self@) < units(other@)),
    {
        !decimal_le(other, self)
    }

    pub fn eq_value(&self, other: &Dec) -> (b: bool)
        ensures
            b == (units(self@) == units(other@)),
    {
        decimal_le(self, other) && decimal_le(other, self)
    }

    /// The larger of the two values; `other` when they are equal.
    pub fn max(&self, other: &Dec) -> (d: Dec)
        ensures
            d@ == (if units(other@) >= units(self@) { other@ } else { self@ }),
    {
        if self.le(other) { other.copy() } else { self.copy() }
    }

    /// The smaller of the two values; `self` when they are equal.
    pub fn min(&self, other: &Dec) -> (d: Dec)
        ensures
            d@ == (if units(self@) <= units(other@) { self@ } else { other@ }),
    {
        if self.le(other) { self.copy() } else { other.copy() }
    }

    /// The decimal written out, as `Display` writes it.
    pub fn to_text(&self) -> (s: String)
        ensures
            s@ == decimal_text(self@),
    {
        decimal_to_string(self)
    }

    pub fn checked_add(&self, other: &Dec) -> (r: Option<Dec>)
        ensures
            r matches Some(d) ==> Some(d@) == decimal_add(self@, other@),
            r is None ==> decimal_add(self@, other@) is None,
            add_fits(self@, other@) ==> r is Some && units(r->0@) == units(self@) + units(other@),
    {
        decimal_checked_add(self, other)
    }

    pub fn checked_sub(&self, other: &Dec) -> (r: Option<Dec>)
        ensures
            r matches Some(d) ==> Some(d@) == decimal_sub(self@, other@),
            r is None ==> decimal_sub(self@, other@) is None,
            sub_fits(self@, other@) ==> r is Some && units(r->0@) == units(self@) - units(other@),
    {
        decimal_checked_sub(self, other)
    }

    pub fn checked_mul(&self, other: &Dec) -> (r: Option<Dec>)
        ensures
            r matches Some(d) ==> Some(d@) == decimal_mul(self@, other@),
            r is None ==> decimal_mul(self@, other@) is None,
            mul_fits(self@, other@) ==> r is Some && units(r->0@) * one_units()
                == units(self@) * units(other@),
    {
        decimal_checked_mul(self, other)
    }

    /// The product of `self` and a fraction in the closed unit interval, which
    /// can never leave the decimal range.
    pub fn mul_fraction(&self, fraction: &Dec) -> (r: Dec)
        requires
            0 <= units(fraction@) <= one_units(),
        ensures
            Some(r@) == decimal_mul(self@, fraction@),
            mul_fits(self@, fraction@) ==> units(r@) * one_units() == units(self@) * units(fraction@),
    {
        proof {
            use_type_invariant(self);
            lemma_units_bound(self@);
            let a = units(self@);
            let b = units(fraction@);
            let mx = MAX_MANTISSA as int;
            let o = one_units();
            lemma_pow10_positive(MAX_SCALE as nat);
            assert(-mx * o * o <= a * b <= mx * o * o) by (nonlinear_arith)
                requires
                    -mx * o <= a <= mx * o,
                    0 <= b <= o,
                    mx >= 0,
                    o > 0,
            ;
        }
        match decimal_checked_mul(self, fraction) {
            Some(d) => d,
            None => {
                proof {
                    assert(false);
                }
                *self
            },
        }
    }

    pub fn checked_div(&self, other: &Dec) -> (r: Option<Dec>)
        ensures
            r matches Some(d) ==> Some(d@) == decimal_div(self@, other@),
            r is None ==> decimal_div(self@, other@) is None,
            units(other@) == 0 ==> r is None,
            div_value_fits(self@, other@) ==> r is Some,
            (units(self@) >= 0 && units(other@) > 0 && r is Some) ==> units(r->0@) >= 0,
    {
        decimal_checked_div(self, other)
    }
}

/// Decimals are equal when their values are, whatever their scales.
impl PartialEq for Dec {
    fn eq(&self, other: &Dec) -> (r: bool) {
        self.eq_value(other)
    }
}

impl vstd::std_specs::cmp::PartialEqSpecImpl for Dec {
    open spec fn obeys_eq_spec() -> bool {
        true
    }

    open spec fn eq_spec(&self, other: &Dec) -> bool {
        units(self@) == units(other@)
    }
}

impl Eq for Dec {
}

/// `1 - f` written at the scale of `f`.
pub open spec fn one_less_view(f: DecView) -> DecView {
    (pow10(f.1) - f.0, f.1)
}

/// `1 + f` written at the scale of `f`.
pub open spec fn one_more_view(f: DecView) -> DecView {
    (pow10(f.1) + f.0, f.1)
}

/// Ten to the `n`, for a scale.
fn pow10_exec(n: u32) -> (p: i128)
    requires
        n <= MAX_SCALE,
    ensures
        p as int == pow10(n as nat),
    decreases n,
{
    if n == 0 {
        1
    } else {
        let q = pow10_exec(n - 1);
        proof {
            assert(q as int == pow10((n - 1) as nat));
            lemma_pow10_monotonic((n - 1) as nat, 27);
            assert(pow10(27) == 1_000_000_000_000_000_000_000_000_000) by {
                reveal_with_fuel(pow10, 28);
            }
            assert(q <= 1_000_000_000_000_000_000_000_000_000i128);
            lemma_pow10_positive((n - 1) as nat);
        }
        10 * q
    }
}

pub proof fn lemma_pow10_positive(n: nat)
    ensures
        pow10(n) > 0,
    decreases n,
{
    if n > 0 {
        lemma_pow10_positive((n - 1) as nat);
    }
}

pub proof fn lemma_pow10_split(a: nat, b: nat)
    ensures
        pow10(a + b) == pow10(a) * pow10(b),
    decreases a,
{
    if a > 0 {
        lemma_pow10_split((a - 1) as nat, b);
        assert(pow10(a + b) == 10 * pow10((a - 1 + b) as nat));
        assert(10 * (pow10((a - 1) as nat) * pow10(b)) == (10 * pow10((a - 1) as nat)) * pow10(b)) by (nonlinear_arith);
    }
}

pub proof fn lemma_pow10_monotonic(a: nat, b: nat)
    requires
        a <= b,
    ensures
        pow10(a) <= pow10(b),
    decreases b,
{
    if a < b {
        lemma_pow10_monotonic(a, (b - 1) as nat);
        lemma_pow10_positive((b - 1) as nat);
    }
}

/// The value of a decimal lies within the mantissa range times one.
pub proof fn lemma_units_bound(v: DecView)
    requires
        dec_wf(v),
    ensures
        -(MAX_MANTISSA as int) * one_units() <= units(v) <= (MAX_MANTISSA as int) * one_units(),
{
    let p = pow10((MAX_SCALE - v.1) as nat);
    let o = one_units();
    let m = MAX_MANTISSA as int;
    lemma_pow10_positive((MAX_SCALE - v.1) as nat);
    lemma_pow10_monotonic((MAX_SCALE - v.1) as nat, MAX_SCALE as nat);
    assert(-m * o <= v.0 * p <= m * o) by (nonlinear_arith)
        requires
            -m <= v.0 <= m,
            0 < p <= o,
            m >= 0,
    ;
}

pub proof fn lemma_units_zero(v: DecView)
    requires
        dec_wf(v),
    ensures
        (units(v) == 0) == (v.0 == 0),
{
    lemma_pow10_positive((MAX_SCALE - v.1) as nat);
    vstd::arithmetic::mul::lemma_mul_nonzero(v.0, pow10((MAX_SCALE - v.1) as nat));
}

pub proof fn lemma_units_sign(v: DecView)
    requires
        dec_wf(v),
    ensures
        (units(v) > 0) == (v.0 > 0),
        (units(v) < 0) == (v.0 < 0),
{
    let p = pow10((MAX_SCALE - v.1) as nat);
    lemma_pow10_positive((MAX_SCALE - v.1) as nat);
    if v.0 > 0 {
        vstd::arithmetic::mul::lemma_mul_strictly_positive(v.0, p);
    } else if v.0 < 0 {
        vstd::arithmetic::mul::lemma_mul_strictly_positive(-v.0, p);
        vstd::arithmetic::mul::lemma_mul_unary_negation(v.0, p);
    }
}

pub proof fn lemma_units_neg(v: DecView)
    ensures
        units((-v.0, v.1)) == -units(v),
{
    vstd::arithmetic::mul::lemma_mul_unary_negation(v.0, pow10((MAX_SCALE - v.1) as nat));
}

/// Result of `rust_decimal::Decimal::checked_add` on the decimals with the given views.
pub uninterp spec fn decimal_add(a: DecView, b: DecView) -> Option<DecView>;

/// Result of `rust_decimal::Decimal::checked_sub` on the decimals with the given views.
pub uninterp spec fn decimal_sub(a: DecView, b: DecView) -> Option<DecView>;

/// Result of `rust_decimal::Decimal::checked_mul` on the decimals with the given views.
pub uninterp spec fn decimal_mul(a: DecView, b: DecView) -> Option<DecView>;

/// Result of `rust_decimal::Decimal::checked_div` on the decimals with the given views.
pub uninterp spec fn decimal_div(a: DecView, b: DecView) -> Option<DecView>;

/// The text that `Decimal`'s `Display` writes for the decimal with this view.
pub uninterp spec fn decimal_text(v: DecView) -> Seq<char>;

/// `Decimal::to_string` (its `Display`), which writes the mantissa with the
/// decimal point placed by the scale; named by `decimal_text`.
#[verifier::external_body]
fn decimal_to_string(a: &Dec) -> (s: String)
    ensures
        s@ == decimal_text(a@),
{
    Decimal::from_i128_with_scale(a.mantissa, a.scale).to_string()
}

/// `<Decimal as PartialOrd>::le`: rust_decimal orders decimals by numeric
/// value, whatever their scales, so the answer is the comparison of the
/// values scaled to a common unit.
#[verifier::external_body]
fn decimal_le(a: &Dec, b: &Dec) -> (r: bool)
    ensures
        r == (units(a@) <= units(b@)),
{
    Decimal::from_i128_with_scale(a.mantissa, a.scale) <= Decimal::from_i128_with_scale(
        b.mantissa,
        b.scale,
    )
}

/// `Decimal::checked_add`. The result is named by `decimal_add`; the source
/// (ops/add.rs) aligns both operands at the larger scale and only rounds when
/// the aligned sum exceeds 96 bits, so a sum that fits there is exact.
#[verifier::external_body]
fn decimal_checked_add(a: &Dec, b: &Dec) -> (r: Option<Dec>)
    ensures
        r matches Some(d) ==> Some(d@) == decimal_add(a@, b@) && dec_wf(d@),
        r is None ==> decimal_add(a@, b@) is None,
        add_fits(a@, b@) ==> r is Some && units(r->0@) == units(a@) + units(b@),
{
    Decimal::from_i128_with_scale(a.mantissa, a.scale)
        .checked_add(Decimal::from_i128_with_scale(b.mantissa, b.scale))
        .map(|d| Dec { mantissa: d.mantissa(), scale: d.scale() })
}

/// `Decimal::checked_sub`, named by `decimal_sub`; exact when the aligned
/// difference fits in 96 bits (ops/add.rs, shared with addition).
#[verifier::external_body]
fn decimal_checked_sub(a: &Dec, b: &Dec) -> (r: Option<Dec>)
    ensures
        r matches Some(d) ==> Some(d@) == decimal_sub(a@, b@) && dec_wf(d@),
        r is None ==> decimal_sub(a@, b@) is None,
        sub_fits(a@, b@) ==> r is Some && units(r->0@) == units(a@) - units(b@),
{
    Decimal::from_i128_with_scale(a.mantissa, a.scale)
        .checked_sub(Decimal::from_i128_with_scale(b.mantissa, b.scale))
        .map(|d| Dec { mantissa: d.mantissa(), scale: d.scale() })
}

/// `Decimal::checked_mul`, named by `decimal_mul`. The source (ops/mul.rs)
/// multiplies the mantissas at the summed scale and only rounds when that
/// scale exceeds 28 or the product exceeds 96 bits; rounding lowers the scale
/// until the product fits and fails only when even scale zero does not, so a
/// product whose integer part fits is never refused.
#[verifier::external_body]
fn decimal_checked_mul(a: &Dec, b: &Dec) -> (r: Option<Dec>)
    ensures
        r matches Some(d) ==> Some(d@) == decimal_mul(a@, b@) && dec_wf(d@),
        r is None ==> decimal_mul(a@, b@) is None,
        mul_fits(a@, b@) ==> r is Some && units(r->0@) * one_units() == units(a@) * units(b@),
        mul_value_fits(a@, b@) ==> r is Some,
{
    Decimal::from_i128_with_scale(a.mantissa, a.scale)
        .checked_mul(Decimal::from_i128_with_scale(b.mantissa, b.scale))
        .map(|d| Dec { mantissa: d.mantissa(), scale: d.scale() })
}

/// `Decimal::checked_div`, named by `decimal_div`. Its documentation gives
/// `None` only for a zero divisor or a quotient too large to hold, so a
/// quotient whose magnitude stays below the largest mantissa is always given;
/// the source (ops/div.rs) sets the quotient's sign from the operands' signs,
/// so two non-negative operands never give a negative quotient. Nothing is
/// stated of the rounding of an inexact quotient.
#[verifier::external_body]
fn decimal_checked_div(a: &Dec, b: &Dec) -> (r: Option<Dec>)
    ensures
        r matches Some(d) ==> Some(d@) == decimal_div(a@, b@) && dec_wf(d@),
        r is None ==> decimal_div(a@, b@) is None,
        units(b@) == 0 ==> r is None,
        div_value_fits(a@, b@) ==> r is Some,
        (units(a@) >= 0 && units(b@) > 0 && r is Some) ==> units(r->0@) >= 0,
{
    Decimal::from_i128_with_scale(a.mantissa, a.scale)
        .checked_div(Decimal::from_i128_with_scale(b.mantissa, b.scale))
        .map(|d| Dec { mantissa: d.mantissa(), scale: d.scale() })
}

/// The decimal that `Decimal::from_str` reads from the text, where it reads one.
pub uninterp spec fn decimal_parse(text: Seq<char>) -> Option<DecView>;

/// `Decimal::from_str`, named by `decimal_parse`.
#[verifier::external_body]
pub fn parse_decimal(text: &str) -> (r: Option<Dec>)
    ensures
        r matches Some(d) ==> decimal_parse(text@) == Some(d@) && dec_wf(d@),
        r is None ==> decimal_parse(text@) is None,
{
    match <Decimal as core::str::FromStr>::from_str(text) {
        Ok(d) => Some(Dec { mantissa: d.mantissa(), scale: d.scale() }),
        Err(_) => None,
    }
}

} // verus!
