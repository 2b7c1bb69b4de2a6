//! Exact fractions of arbitrary-precision integers.
//!
//! A fraction is a pair of integers. Every operation reduces its result to
//! lowest terms, but the fields are public, so a fraction built by hand may
//! be unreduced, and its denominator may even be 0.

use crate::arith::{
    abs, gcd, lcm, lemma_divides_abs, lemma_exact_div, lemma_gcd_of_quotients,
    lemma_gcd_properties, lemma_gcd_symmetric, lemma_pow_of_unit, pow, trunc_div,
};
use crate::base::{CalcError, ErrorKind};
use crate::big::{
    big_abs, big_add, big_div, big_eq, big_from_i64, big_gcd, big_is_zero, big_lcm,
    big_literal, big_lt, big_mul, big_neg, big_parse, big_pow, big_to_string, big_value,
    int_decimal,
};
use crate::reals::{Real, RealOps};
use crate::text::{
    capture_groups, join3, regex_groups, trim, trim_trailing_zeros, trimmed,
    without_trailing_zeros,
};
use num_bigint::BigInt;
use vstd::prelude::*;
use vstd::string::*;

verus! {

/// The mathematical content of a [`Rational`]: numerator and denominator.
pub ghost struct Ratio {
    pub num: int,
    pub den: int,
}

/// A fraction as a pair of big integers.
#[derive(Debug, Clone, PartialEq)]
pub struct Rational {
    pub numerator: BigInt,
    pub denominator: BigInt,
}

impl View for Rational {
    type V = Ratio;

    open spec fn view(&self) -> Ratio {
        Ratio { num: big_value(self.numerator), den: big_value(self.denominator) }
    }
}

impl Default for Rational {
    /// The fraction `0 / 0`, which stands for no number.
    fn default() -> (r: Self)
        ensures
            r@ == (Ratio { num: 0, den: 0 }),
    {
        Rational { numerator: big_from_i64(0), denominator: big_from_i64(0) }
    }
}

/// The fraction in lowest terms: both terms divided by their greatest
/// common divisor, where that is above 1. The sign of neither term changes.
pub open spec fn reduced(r: Ratio) -> Ratio {
    let g = gcd(r.num, r.den);
    if g > 1 {
        Ratio { num: r.num / g, den: r.den / g }
    } else {
        r
    }
}

pub open spec fn ratio_neg(r: Ratio) -> Ratio {
    Ratio { num: -r.num, den: r.den }
}

pub open spec fn ratio_inverse(r: Ratio) -> Ratio {
    Ratio { num: r.den, den: r.num }
}

pub open spec fn ratio_abs(r: Ratio) -> Ratio {
    Ratio { num: abs(r.num), den: abs(r.den) }
}

/// Term-wise product, reduced.
pub open spec fn ratio_mul(a: Ratio, b: Ratio) -> Ratio {
    reduced(Ratio { num: a.num * b.num, den: a.den * b.den })
}

/// Product with the inverse of the divisor.
pub open spec fn ratio_div(a: Ratio, b: Ratio) -> Ratio {
    ratio_mul(a, ratio_inverse(b))
}

/// Whether two fractions can be added: their denominators are equal, or
/// neither is 0.
pub open spec fn addable(a: Ratio, b: Ratio) -> bool {
    a.den == b.den || (a.den != 0 && b.den != 0)
}

/// Sum over the least common multiple of the denominators, reduced.
pub open spec fn ratio_add(a: Ratio, b: Ratio) -> Ratio {
    if a.den == b.den {
        reduced(Ratio { num: a.num + b.num, den: a.den })
    } else {
        let l = lcm(a.den, b.den);
        reduced(
            Ratio { num: a.num * trunc_div(l, a.den) + b.num * trunc_div(l, b.den), den: l },
        )
    }
}

/// Sum with the negated subtrahend, reduced.
pub open spec fn ratio_sub(a: Ratio, b: Ratio) -> Ratio {
    reduced(ratio_add(a, ratio_neg(b)))
}

/// A power that the machine can compute: the exponent fits 32 bits, or the
/// base is 0, 1 or -1, whose powers are known without computing.
pub open spec fn power_in_reach(base: int, exp: nat) -> bool {
    exp <= u32::MAX || abs(base) <= 1
}

/// Both terms of a fraction can be raised to the magnitude of `e`.
pub open spec fn ratio_power_in_reach(r: Ratio, e: int) -> bool {
    power_in_reach(r.num, abs(e) as nat) && power_in_reach(r.den, abs(e) as nat)
}

/// Integer power, reduced: both terms are raised to the magnitude of the
/// exponent, and a negative exponent swaps them first.
pub open spec fn ratio_pow(r: Ratio, e: int) -> Ratio {
    let k = abs(e) as nat;
    if e >= 0 {
        reduced(Ratio { num: pow(r.num, k), den: pow(r.den, k) })
    } else {
        reduced(Ratio { num: pow(r.den, k), den: pow(r.num, k) })
    }
}

/// The numerator, where the denominator is 1 or -1.
pub open spec fn ratio_integer(r: Ratio) -> Option<int> {
    if abs(r.den) == 1 {
        Some(r.num)
    } else {
        None
    }
}

/// The whole number that a fraction is, where its denominator is 1 or -1:
/// the numerator, with its sign changed under the denominator -1.
pub open spec fn ratio_whole(r: Ratio) -> Option<int> {
    if r.den == 1 {
        Some(r.num)
    } else if r.den == -1 {
        Some(-r.num)
    } else {
        None
    }
}

/// The pattern of a decimal number: digits, and optionally a point and
/// more digits.
pub open spec fn decimal_pattern() -> Seq<char> {
    "^(?<whole>\\d+)((\\.)(?<fraction>\\d+))?$"@
}

/// What the two parts of a decimal number denote: `whole` before the point
/// and `fraction` after it, if there is one. With `k` digits left in the
/// fraction after its trailing zeros are dropped, the number is
/// `whole * 10^k + fraction` over `10^k`, reduced.
pub open spec fn decimal_parts_ratio(whole: Seq<char>, fraction: Option<Seq<char>>) -> Result<
    Ratio,
    ErrorKind,
> {
    let digits = match fraction {
        Some(f) => without_trailing_zeros(trimmed(f)),
        None => Seq::empty(),
    };
    match big_literal(trimmed(whole)) {
        None => Err(ErrorKind::ParseBigInt),
        Some(w) => if digits.len() == 0 {
            Ok(Ratio { num: w, den: 1 })
        } else {
            match big_literal(digits) {
                None => Err(ErrorKind::ParseBigInt),
                Some(f) => if digits.len() > u32::MAX {
                    Err(ErrorKind::Parse)
                } else {
                    let scale = pow(10, digits.len());
                    Ok(reduced(Ratio { num: w * scale + f, den: scale }))
                },
            }
        },
    }
}

/// What a text denotes as a decimal number, given what the decimal pattern
/// captures in it.
pub open spec fn decimal_ratio(s: Seq<char>) -> Result<Ratio, ErrorKind> {
    match regex_groups(decimal_pattern(), s, "whole"@, "fraction"@) {
        Some((Some(whole), fraction)) => decimal_parts_ratio(whole, fraction),
        _ => Err(ErrorKind::Parse),
    }
}

/// A result of the library agrees with what a contract expects: the same
/// fraction, or an error of the same kind.
pub open spec fn same_ratio(r: Result<Rational, CalcError>, expected: Result<Ratio, ErrorKind>) -> bool {
    match expected {
        Ok(q) => r matches Ok(x) && x@ == q,
        Err(k) => r matches Err(e) && e.kind_of() == k,
    }
}

/// The magnitude of an integer.
pub fn magnitude(e: i64) -> (k: u64)
    ensures
        k == abs(e as int),
{
    if e >= 0 {
        e as u64
    } else if e == i64::MIN {
        0x8000_0000_0000_0000u64
    } else {
        (-e) as u64
    }
}

/// Whether a big integer is 0, 1 or -1.
pub fn is_unit(b: &BigInt) -> (r: bool)
    ensures
        r == (abs(big_value(*b)) <= 1),
{
    let one = big_from_i64(1);
    !big_lt(&one, &big_abs(b))
}

/// A big integer raised to `exp`. The powers of 0, 1 and -1 are known
/// without computing; every other power is computed, and its exponent
/// must fit 32 bits.
pub fn big_power(base: &BigInt, exp: u64) -> (r: BigInt)
    requires
        power_in_reach(big_value(*base), exp as nat),
    ensures
        big_value(r) == pow(big_value(*base), exp as nat),
{
    if exp <= 0xFFFF_FFFFu64 {
        big_pow(base, exp as u32)
    } else {
        proof {
            lemma_pow_of_unit(big_value(*base), exp as nat);
        }
        let zero = big_from_i64(0);
        if big_lt(base, &zero) && exp % 2 == 1 {
            big_from_i64(-1)
        } else if big_is_zero(base) {
            zero
        } else {
            big_from_i64(1)
        }
    }
}

impl Rational {
    /// Absolute value of both terms.
    pub fn abs(&self) -> (r: Rational)
        ensures
            r@ == ratio_abs(self@),
    {
        Rational {
            numerator: big_abs(&self.numerator),
            denominator: big_abs(&self.denominator),
        }
    }

    /// The real nearest to this fraction: the quotient of the reals nearest
    /// to its terms. `None` where a term has no real.
    pub fn to_real<R: RealOps>(&self) -> Option<Real> {
        let n = R::from_big(&self.numerator)?;
        let d = R::from_big(&self.denominator)?;
        Some(R::quotient(n, d))
    }

    /// The integer `i` as the fraction `i / 1`.
    pub fn from_int(i: i64) -> (r: Rational)
        ensures
            r@ == (Ratio { num: i as int, den: 1 }),
    {
        Rational { numerator: big_from_i64(i), denominator: big_from_i64(1) }
    }

    /// The big integer `i` as the fraction `i / 1`.
    pub fn from_bigint(i: BigInt) -> (r: Rational)
        ensures
            r@ == (Ratio { num: big_value(i), den: 1 }),
    {
        Rational { numerator: i, denominator: big_from_i64(1) }
    }

    /// The fraction `numerator / denominator` in lowest terms.
    pub fn new(numerator: i64, denominator: i64) -> (r: Rational)
        ensures
            r@ == reduced(Ratio { num: numerator as int, den: denominator as int }),
    {
        Rational {
            numerator: big_from_i64(numerator),
            denominator: big_from_i64(denominator),
        }.reduce_move()
    }

    /// The fraction `numerator / denominator` in lowest terms.
    pub fn new_bigint(numerator: BigInt, denominator: BigInt) -> (r: Rational)
        ensures
            r@ == reduced(Ratio { num: big_value(numerator), den: big_value(denominator) }),
    {
        Rational { numerator, denominator }.reduce_move()
    }

    /// The terms swapped.
    pub fn inverse(&self) -> (r: Rational)
        ensures
            r@ == ratio_inverse(self@),
    {
        Rational {
            numerator: self.denominator.clone(),
            denominator: self.numerator.clone(),
        }
    }

    /// A copy of this fraction.
    pub fn duplicate(&self) -> (r: Rational)
        ensures
            r@ == self@,
    {
        Rational {
            numerator: self.numerator.clone(),
            denominator: self.denominator.clone(),
        }
    }

    /// This fraction in lowest terms.
    pub fn reduce_move(self) -> (r: Rational)
        ensures
            r@ == reduced(self@),
    {
        let g = big_gcd(&self.numerator, &self.denominator);
        let one = big_from_i64(1);
        let magnitude = big_abs(&g);
        proof {
            lemma_gcd_properties(self@.num, self@.den);
        }
        if big_lt(&one, &magnitude) {
            proof {
                lemma_exact_div(self@.num, big_value(g));
                lemma_exact_div(self@.den, big_value(g));
            }
            let numerator = big_div(&self.numerator, &g);
            let denominator = big_div(&self.denominator, &g);
            Rational { numerator, denominator }
        } else {
            self
        }
    }

    /// The numerator, where the denominator is 1 or -1, reduced or not.
    pub fn to_bigint(&self) -> (r: Option<BigInt>)
        ensures
            r is Some <==> ratio_integer(self@) is Some,
            r matches Some(b) ==> Some(big_value(b)) == ratio_integer(self@),
    {
        let magnitude = big_abs(&self.denominator);
        let one = big_from_i64(1);
        if big_eq(&magnitude, &one) {
            Some(self.numerator.clone())
        } else {
            None
        }
    }

    /// The whole number that this fraction is, where its denominator is 1
    /// or -1.
    pub fn to_whole(&self) -> (r: Option<BigInt>)
        ensures
            r is Some <==> ratio_whole(self@) is Some,
            r matches Some(b) ==> Some(big_value(b)) == ratio_whole(self@),
    {
        let one = big_from_i64(1);
        let minus_one = big_from_i64(-1);
        if big_eq(&self.denominator, &one) {
            Some(self.numerator.clone())
        } else if big_eq(&self.denominator, &minus_one) {
            Some(big_neg(&self.numerator))
        } else {
            None
        }
    }

    /// Whether this fraction can be raised to `exponent`: the magnitude of
    /// the exponent fits 32 bits, or both terms are among 0, 1 and -1.
    pub fn can_pow(&self, exponent: i64) -> (r: bool)
        ensures
            r == ratio_power_in_reach(self@, exponent as int),
    {
        let k = magnitude(exponent);
        k <= 0xFFFF_FFFFu64 || (is_unit(&self.numerator) && is_unit(&self.denominator))
    }

    /// This fraction raised to an integer power, in lowest terms. A
    /// negative exponent swaps the terms and raises to its magnitude. An
    /// exponent whose magnitude does not fit 32 bits is taken for the
    /// terms 0, 1 and -1 only: no machine holds such a power of another
    /// number.
    pub fn pow_int(&self, exponent: i64) -> (r: Rational)
        requires
            ratio_power_in_reach(self@, exponent as int),
        ensures
            r@ == ratio_pow(self@, exponent as int),
    {
        let k = magnitude(exponent);
        if exponent >= 0 {
            Rational {
                numerator: big_power(&self.numerator, k),
                denominator: big_power(&self.denominator, k),
            }.reduce_move()
        } else {
            Rational {
                numerator: big_power(&self.denominator, k),
                denominator: big_power(&self.numerator, k),
            }.reduce_move()
        }
    }

    /// The fraction that the two parts of a decimal number denote: `whole`
    /// before the point, `fraction` after it.
    pub fn from_decimal_parts(whole: &str, fraction: Option<&str>) -> (r: Result<
        Rational,
        CalcError,
    >)
        ensures
            same_ratio(
                r,
                decimal_parts_ratio(
                    whole@,
                    match fraction {
                        Some(f) => Some(f@),
                        None => None,
                    },
                ),
            ),
    {
        let whole_text = trim(whole);
        let digits: &str = match fraction {
            Some(f) => trim_trailing_zeros(trim(f)),
            None => "",
        };
        proof {
            reveal_strlit("");
        }
        let w = match big_parse(whole_text) {
            Ok(w) => w,
            Err(e) => {
                return Err(CalcError::ParseBigIntErr(e));
            },
        };
        let count = digits.unicode_len();
        if count == 0 {
            return Ok(Rational::from_bigint(w));
        }
        let f = match big_parse(digits) {
            Ok(f) => f,
            Err(e) => {
                return Err(CalcError::ParseBigIntErr(e));
            },
        };
        if count > 0xFFFF_FFFFusize {
            return Err(CalcError::parse("Racionální číslo má příliš mnoho desetinných míst"));
        }
        let ten = big_from_i64(10);
        let scale = big_pow(&ten, count as u32);
        let numerator = big_add(&big_mul(&w, &scale), &f);
        Ok(Rational::new_bigint(numerator, scale))
    }

    /// The fraction that a decimal number denotes: digits, and optionally a
    /// point and more digits. A text of another shape is a syntax error.
    pub fn from_decimal_string(s: &str) -> (r: Result<Rational, CalcError>)
        ensures
            same_ratio(r, decimal_ratio(s@)),
    {
        let groups = capture_groups(
            "^(?<whole>\\d+)((\\.)(?<fraction>\\d+))?$",
            s,
            "whole",
            "fraction",
        );
        match groups {
            Some((Some(whole), fraction)) => {
                match fraction {
                    Some(f) => Rational::from_decimal_parts(whole.as_str(), Some(f.as_str())),
                    None => Rational::from_decimal_parts(whole.as_str(), None),
                }
            },
            Some((None, _)) => Err(CalcError::parse("Racionální číslo má mít tvar #.#")),
            None => Err(
                CalcError::parse("Nepodařilo se extrahovat části čísla regulárním výrazem"),
            ),
        }
    }

    /// The text `numerator / denominator`.
    pub fn to_string(&self) -> (r: String)
        ensures
            r@ == ratio_text(self@),
    {
        let n = big_to_string(&self.numerator);
        let d = big_to_string(&self.denominator);
        join3(n.as_str(), " / ", d.as_str())
    }

    /// The product, in lowest terms.
    pub fn mul(self, rhs: Rational) -> (r: Rational)
        ensures
            r@ == ratio_mul(self@, rhs@),
    {
        Rational {
            numerator: big_mul(&self.numerator, &rhs.numerator),
            denominator: big_mul(&self.denominator, &rhs.denominator),
        }.reduce_move()
    }

    /// The negation: the numerator changes its sign.
    pub fn neg(self) -> (r: Rational)
        ensures
            r@ == ratio_neg(self@),
    {
        Rational { numerator: big_neg(&self.numerator), denominator: self.denominator }
    }

    /// The difference, in lowest terms.
    pub fn sub(self, rhs: Rational) -> (r: Rational)
        requires
            addable(self@, rhs@),
        ensures
            r@ == ratio_sub(self@, rhs@),
    {
        self.add(rhs.neg()).reduce_move()
    }

    /// The quotient, in lowest terms: the product with the inverse of
    /// `rhs`. A zero divisor is not rejected here.
    pub fn div(self, rhs: Rational) -> (r: Rational)
        ensures
            r@ == ratio_div(self@, rhs@),
    {
        self.mul(rhs.inverse())
    }

    /// The sum, in lowest terms, over the least common multiple of the two
    /// denominators.
    pub fn add(self, rhs: Rational) -> (r: Rational)
        requires
            addable(self@, rhs@),
        ensures
            r@ == ratio_add(self@, rhs@),
    {
        if big_eq(&self.denominator, &rhs.denominator) {
            Rational {
                numerator: big_add(&self.numerator, &rhs.numerator),
                denominator: self.denominator,
            }.reduce_move()
        } else {
            let l = big_lcm(&self.denominator, &rhs.denominator);
            let self_coef = big_div(&l, &self.denominator);
            let rhs_coef = big_div(&l, &rhs.denominator);
            let numerator = big_add(
                &big_mul(&self.numerator, &self_coef),
                &big_mul(&rhs.numerator, &rhs_coef),
            );
            Rational { numerator, denominator: l }.reduce_move()
        }
    }

    /// Whether the two fractions can be added or subtracted.
    pub fn can_add(&self, rhs: &Rational) -> (r: bool)
        ensures
            r == addable(self@, rhs@),
    {
        big_eq(&self.denominator, &rhs.denominator) || (!big_is_zero(&self.denominator)
            && !big_is_zero(&rhs.denominator))
    }
}

/// The text of a fraction: its terms in decimal around ` / `.
pub open spec fn ratio_text(r: Ratio) -> Seq<char> {
    int_decimal(r.num) + " / "@ + int_decimal(r.den)
}

/// Reduction is idempotent: a reduced fraction reduces to itself.
pub proof fn lemma_reduced_idempotent(r: Ratio)
    ensures
        reduced(reduced(r)) == reduced(r),
{
    let g = gcd(r.num, r.den);
    lemma_gcd_properties(r.num, r.den);
    if g > 1 {
        lemma_gcd_of_quotients(r.num, r.den);
    }
}

/// The terms of a reduced fraction have no common divisor but 1, except
/// for `0 / 0`, which no reduction changes.
pub proof fn lemma_reduced_is_lowest_terms(r: Ratio)
    requires
        r.num != 0 || r.den != 0,
    ensures
        gcd(reduced(r).num, reduced(r).den) == 1,
{
    let g = gcd(r.num, r.den);
    lemma_gcd_properties(r.num, r.den);
    if g > 1 {
        lemma_gcd_of_quotients(r.num, r.den);
    }
}

/// The least common multiple does not depend on the order of its arguments.
pub proof fn lemma_lcm_symmetric(a: int, b: int)
    ensures
        lcm(a, b) == lcm(b, a),
{
    if a != 0 || b != 0 {
        let g = gcd(a, b);
        lemma_gcd_symmetric(a, b);
        lemma_gcd_properties(a, b);
        lemma_divides_abs(g, a);
        lemma_divides_abs(g, b);
        lemma_exact_div(abs(a), g);
        lemma_exact_div(abs(b), g);
        let x = abs(a) / g;
        let y = abs(b) / g;
        assert(x * abs(b) == y * abs(a)) by (nonlinear_arith)
            requires
                x * g == abs(a),
                y * g == abs(b),
        ;
    }
}

/// Addition of fractions is commutative.
pub proof fn lemma_ratio_add_commutes(a: Ratio, b: Ratio)
    ensures
        ratio_add(a, b) == ratio_add(b, a),
{
    lemma_lcm_symmetric(a.den, b.den);
}

/// Multiplication of fractions is commutative.
pub proof fn lemma_ratio_mul_commutes(a: Ratio, b: Ratio)
    ensures
        ratio_mul(a, b) == ratio_mul(b, a),
{
    assert(a.num * b.num == b.num * a.num) by (nonlinear_arith);
    assert(a.den * b.den == b.den * a.den) by (nonlinear_arith);
}

/// Reduction changes neither which terms are 0 nor the sign of a term.
pub proof fn lemma_reduced_keeps_signs(r: Ratio)
    ensures
        reduced(r).den == 0 <==> r.den == 0,
        reduced(r).num == 0 <==> r.num == 0,
        reduced(r).den > 0 <==> r.den > 0,
        reduced(r).num > 0 <==> r.num > 0,
{
    let g = gcd(r.num, r.den);
    lemma_gcd_properties(r.num, r.den);
    if g > 1 {
        lemma_exact_div(r.num, g);
        lemma_exact_div(r.den, g);
        let n = r.num / g;
        let d = r.den / g;
        assert((n == 0 <==> r.num == 0) && (n > 0 <==> r.num > 0)) by (nonlinear_arith)
            requires
                n * g == r.num,
                g > 1,
        ;
        assert((d == 0 <==> r.den == 0) && (d > 0 <==> r.den > 0)) by (nonlinear_arith)
            requires
                d * g == r.den,
                g > 1,
        ;
    }
}

/// The least common multiple of two integers other than 0 is positive.
pub proof fn lemma_lcm_positive(a: int, b: int)
    requires
        a != 0,
        b != 0,
    ensures
        lcm(a, b) > 0,
{
    let g = gcd(a, b);
    lemma_gcd_properties(a, b);
    lemma_divides_abs(g, a);
    lemma_exact_div(abs(a), g);
    let x = abs(a) / g;
    assert(x * abs(b) > 0) by (nonlinear_arith)
        requires
            x * g == abs(a),
            abs(a) > 0,
            abs(b) > 0,
            g > 0,
    ;
}

/// Sums, differences and products of fractions with denominators other
/// than 0 have denominators other than 0.
pub proof fn lemma_denominator_stays(a: Ratio, b: Ratio)
    requires
        a.den != 0,
        b.den != 0,
    ensures
        ratio_add(a, b).den != 0,
        ratio_sub(a, b).den != 0,
        ratio_mul(a, b).den != 0,
{
    assert(a.den * b.den != 0) by (nonlinear_arith)
        requires
            a.den != 0,
            b.den != 0,
    ;
    lemma_reduced_keeps_signs(Ratio { num: a.num * b.num, den: a.den * b.den });
    lemma_lcm_positive(a.den, b.den);
    let l = lcm(a.den, b.den);
    lemma_reduced_keeps_signs(Ratio { num: a.num + b.num, den: a.den });
    lemma_reduced_keeps_signs(
        Ratio { num: a.num * trunc_div(l, a.den) + b.num * trunc_div(l, b.den), den: l },
    );
    let c = ratio_neg(b);
    lemma_reduced_keeps_signs(Ratio { num: a.num + c.num, den: a.den });
    lemma_reduced_keeps_signs(
        Ratio { num: a.num * trunc_div(l, a.den) + c.num * trunc_div(l, c.den), den: l },
    );
    lemma_reduced_keeps_signs(ratio_add(a, c));
}

} // verus!
