//! Exact fractions of `i64`, computed by `num_rational::Ratio<i64>`.
//!
//! A `Rational` carries the numerator and denominator that `Ratio` keeps:
//! lowest terms with a positive denominator. Each operation hands the two
//! numbers to `Ratio` and takes its result apart again.

use num_rational::Ratio;
use num_traits::ToPrimitive;
use vstd::prelude::*;

verus! {

/// A fraction `numer / denom`.
#[derive(Debug, Clone, Copy, PartialEq, Eq, Structural)]
pub struct Rational {
    pub numer: i64,
    pub denom: i64,
}

/// `k` is a factor, other than one, of both `a` and `b`.
pub open spec fn common_factor(k: int, a: int, b: int) -> bool {
    k > 1 && a % k == 0 && b % k == 0
}

/// `x` lies in `-i64::MAX ..= i64::MAX`: it fits an `i64` and so does `-x`.
pub open spec fn fits(x: int) -> bool {
    -i64::MAX <= x <= i64::MAX
}

pub open spec fn abs(x: int) -> int {
    if x < 0 {
        -x
    } else {
        x
    }
}

/// `n / d` rounded towards zero (for `d > 0`).
pub open spec fn trunc_div(n: int, d: int) -> int {
    if n >= 0 {
        n / d
    } else {
        -((-n) / d)
    }
}

/// `n / d` rounded to the nearest integer, halves away from zero (for `d > 0`).
pub open spec fn round_half_away(n: int, d: int) -> int {
    let t = trunc_div(n, d);
    let f = n - t * d;
    if 2 * abs(f) >= d {
        if n >= 0 {
            t + 1
        } else {
            t - 1
        }
    } else {
        t
    }
}

/// `n / d` rounded to the nearest integer, halves away from zero, for any
/// nonzero `d`.
pub open spec fn round_quotient(n: int, d: int) -> int {
    if d > 0 {
        round_half_away(n, d)
    } else {
        round_half_away(-n, -d)
    }
}

/// Equal fractions have the same floor.
pub proof fn lemma_floor_same_value(a: int, b: int, x: int, y: int)
    requires
        b > 0,
        y > 0,
        a * y == x * b,
    ensures
        a / b == x / y,
{
    let q = a / b;
    let r = a % b;
    vstd::arithmetic::div_mod::lemma_fundamental_div_mod(a, b);
    assert((x - q * y) * b == r * y) by (nonlinear_arith)
        requires
            a * y == x * b,
            a == b * q + r,
    ;
    assert(0 <= r * y < b * y) by (nonlinear_arith)
        requires
            0 <= r < b,
            y > 0,
    ;
    assert(0 <= x - q * y < y) by (nonlinear_arith)
        requires
            (x - q * y) * b == r * y,
            0 <= r * y < b * y,
            b > 0,
    ;
    vstd::arithmetic::div_mod::lemma_fundamental_div_mod_converse(x, y, q, x - q * y);
}

/// Equal fractions truncate to the same integer.
pub proof fn lemma_trunc_same_value(a: int, b: int, x: int, y: int)
    requires
        b > 0,
        y > 0,
        a * y == x * b,
    ensures
        trunc_div(a, b) == trunc_div(x, y),
{
    if a >= 0 {
        assert(x >= 0) by (nonlinear_arith)
            requires
                a >= 0,
                b > 0,
                y > 0,
                a * y == x * b,
        ;
        lemma_floor_same_value(a, b, x, y);
    } else {
        assert(x < 0) by (nonlinear_arith)
            requires
                a < 0,
                b > 0,
                y > 0,
                a * y == x * b,
        ;
        assert((-a) * y == (-x) * b) by (nonlinear_arith)
            requires
                a * y == x * b,
        ;
        lemma_floor_same_value(-a, b, -x, y);
    }
}

/// Equal fractions round to the same integer.
pub proof fn lemma_round_same_value(a: int, b: int, x: int, y: int)
    requires
        b > 0,
        y > 0,
        a * y == x * b,
    ensures
        round_half_away(a, b) == round_half_away(x, y),
{
    lemma_trunc_same_value(a, b, x, y);
    let t = trunc_div(a, b);
    let f = a - t * b;
    let g = x - t * y;
    assert(f * y == g * b) by (nonlinear_arith)
        requires
            a * y == x * b,
            f == a - t * b,
            g == x - t * y,
    ;
    assert(abs(f) * y == abs(g) * b) by (nonlinear_arith)
        requires
            f * y == g * b,
            b > 0,
            y > 0,
    ;
    assert((2 * abs(f) >= b) == (2 * abs(g) >= y)) by (nonlinear_arith)
        requires
            abs(f) * y == abs(g) * b,
            b > 0,
            y > 0,
    ;
    if a >= 0 {
        assert(x >= 0) by (nonlinear_arith)
            requires
                a >= 0,
                b > 0,
                y > 0,
                a * y == x * b,
        ;
    } else {
        assert(x < 0) by (nonlinear_arith)
            requires
                a < 0,
                b > 0,
                y > 0,
                a * y == x * b,
        ;
    }
}

/// Rounding moves a fraction by at most one half: `|round(x / d) * d - x| <= d / 2`.
pub proof fn lemma_round_error(x: int, d: int)
    requires
        d > 0,
    ensures
        2 * abs(round_half_away(x, d) * d - x) <= d,
{
    let t = trunc_div(x, d);
    let f = x - t * d;
    if x >= 0 {
        vstd::arithmetic::div_mod::lemma_fundamental_div_mod(x, d);
        assert(t * d == d * (x / d)) by (nonlinear_arith)
            requires
                t == x / d,
        ;
        assert(0 <= f < d);
    } else {
        vstd::arithmetic::div_mod::lemma_fundamental_div_mod(-x, d);
        assert(t * d == -(d * ((-x) / d))) by (nonlinear_arith)
            requires
                t == -((-x) / d),
        ;
        assert(-d < f <= 0);
    }
    let r = round_half_away(x, d);
    if 2 * abs(f) >= d {
        if x >= 0 {
            assert(r * d - x == d - f) by (nonlinear_arith)
                requires
                    r == t + 1,
                    f == x - t * d,
            ;
        } else {
            assert(r * d - x == -d - f) by (nonlinear_arith)
                requires
                    r == t - 1,
                    f == x - t * d,
            ;
        }
    } else {
        assert(r * d - x == -f);
    }
}

/// A fraction within less than one half of an integer rounds to it.
pub proof fn lemma_round_near(x: int, d: int, n: int)
    requires
        d > 0,
        2 * abs(x - n * d) < d,
    ensures
        round_half_away(x, d) == n,
{
    lemma_round_error(x, d);
    let r = round_half_away(x, d);
    assert(abs(r * d - n * d) < d);
    assert(abs(r - n) * d == abs(r * d - n * d)) by (nonlinear_arith)
        requires
            d > 0,
    ;
    assert(abs(r - n) < 1) by (nonlinear_arith)
        requires
            abs(r - n) * d < d,
            d > 0,
    ;
}

impl Rational {
    /// Lowest terms, a positive denominator, and a numerator that can be negated.
    pub open spec fn lowest(self) -> bool {
        &&& self.denom > 0
        &&& self.numer > i64::MIN
        &&& forall|k: int| !#[trigger] common_factor(k, self.numer as int, self.denom as int)
    }

    /// The fraction equals `n / d`.
    pub open spec fn equals(self, n: int, d: int) -> bool {
        self.numer * d == n * self.denom
    }

    /// The integer `x` as the fraction `x / 1`.
    pub fn from_integer(x: i64) -> (r: Rational)
        requires
            x > i64::MIN,
        ensures
            r.lowest(),
            r.numer == x,
            r.denom == 1,
    {
        let r = Rational { numer: x, denom: 1 };
        assert forall|k: int| !#[trigger] common_factor(k, x as int, 1) by {
            if k > 1 {
                assert(1int % k == 1) by (nonlinear_arith)
                    requires
                        k > 1,
                ;
            }
        }
        r
    }
}

/// `Ratio::new`: `numer / denom` in lowest terms with a positive denominator.
#[verifier::external_body]
pub(crate) fn ratio_new(numer: i64, denom: i64) -> (r: Rational)
    requires
        denom != 0,
        numer > i64::MIN,
        denom > i64::MIN,
    ensures
        r.lowest(),
        r.equals(numer as int, denom as int),
        abs(r.numer as int) <= abs(numer as int),
        r.denom <= abs(denom as int),
{
    let q = Ratio::new(numer, denom);
    Rational { numer: *q.numer(), denom: *q.denom() }
}

/// `Ratio * Ratio`: the product in lowest terms.
#[verifier::external_body]
pub(crate) fn ratio_mul(a: Rational, b: Rational) -> (r: Rational)
    requires
        a.lowest(),
        b.lowest(),
        fits(a.numer * b.numer),
        fits(a.denom * b.denom),
    ensures
        r.lowest(),
        r.equals(a.numer * b.numer, a.denom * b.denom),
        abs(r.numer as int) <= abs(a.numer * b.numer),
        r.denom <= a.denom * b.denom,
{
    let q = Ratio::new_raw(a.numer, a.denom) * Ratio::new_raw(b.numer, b.denom);
    Rational { numer: *q.numer(), denom: *q.denom() }
}

/// `Ratio * i64`: the product in lowest terms.
#[verifier::external_body]
pub(crate) fn ratio_mul_int(a: Rational, k: i64) -> (r: Rational)
    requires
        a.lowest(),
        k > i64::MIN,
        fits(a.numer * k),
    ensures
        r.lowest(),
        r.equals(a.numer * k, a.denom as int),
        abs(r.numer as int) <= abs(a.numer * k),
        r.denom <= a.denom,
{
    let q = Ratio::new_raw(a.numer, a.denom) * k;
    Rational { numer: *q.numer(), denom: *q.denom() }
}

/// `Ratio / Ratio`: the quotient in lowest terms.
#[verifier::external_body]
pub(crate) fn ratio_div(a: Rational, b: Rational) -> (r: Rational)
    requires
        a.lowest(),
        b.lowest(),
        b.numer != 0,
        fits(a.numer * b.denom),
        fits(a.denom * b.numer),
    ensures
        r.lowest(),
        r.equals(a.numer * b.denom, a.denom * b.numer),
        abs(r.numer as int) <= abs(a.numer * b.denom),
        r.denom <= abs(a.denom * b.numer),
{
    let q = Ratio::new_raw(a.numer, a.denom) / Ratio::new_raw(b.numer, b.denom);
    Rational { numer: *q.numer(), denom: *q.denom() }
}

/// `Ratio / i64`: the quotient in lowest terms.
#[verifier::external_body]
pub(crate) fn ratio_div_int(a: Rational, k: i64) -> (r: Rational)
    requires
        a.lowest(),
        k != 0,
        k > i64::MIN,
        fits(a.denom * k),
    ensures
        r.lowest(),
        r.equals(a.numer as int, a.denom * k),
        abs(r.numer as int) <= abs(a.numer as int),
        r.denom <= abs(a.denom * k),
{
    let q = Ratio::new_raw(a.numer, a.denom) / k;
    Rational { numer: *q.numer(), denom: *q.denom() }
}

/// `Ratio::round`: the nearest integer, halves rounded away from zero.
#[verifier::external_body]
pub(crate) fn ratio_round(a: Rational) -> (r: Rational)
    requires
        a.lowest(),
    ensures
        r.lowest(),
        r.denom == 1,
        r.numer == round_half_away(a.numer as int, a.denom as int),
{
    let q = Ratio::new_raw(a.numer, a.denom).round();
    Rational { numer: *q.numer(), denom: *q.denom() }
}

/// `Ratio::to_integer`: the integer part, rounded towards zero.
#[verifier::external_body]
pub(crate) fn ratio_to_integer(a: Rational) -> (r: i64)
    requires
        a.lowest(),
    ensures
        r == trunc_div(a.numer as int, a.denom as int),
{
    Ratio::new_raw(a.numer, a.denom).to_integer()
}

/// `ToPrimitive::to_i64` on a `Ratio<i64>`: the integer part, rounded
/// towards zero, which always fits.
#[verifier::external_body]
pub(crate) fn ratio_to_i64(a: Rational) -> (r: Option<i64>)
    requires
        a.lowest(),
    ensures
        r == Some(trunc_div(a.numer as int, a.denom as int) as i64),
{
    Ratio::new_raw(a.numer, a.denom).to_i64()
}

} // verus!
