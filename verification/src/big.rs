//! Arbitrary-precision integers.
//!
//! The integers themselves come from `num_bigint`; this module says what each
//! operation that the calculator uses does to the mathematical integer that a
//! [`BigInt`] holds. None of these statements is proved here: each one repeats
//! what `num_bigint` documents and implements.

use crate::arith::{abs, gcd, lcm, pow, trunc_div, trunc_rem};
use num_bigint::BigInt;
use num_bigint::ParseBigIntError;
use num_integer::Integer;
use num_traits::Signed;
use num_traits::ToPrimitive;
use num_traits::Zero;
use vstd::prelude::*;

verus! {

#[verifier::external_type_specification]
#[verifier::external_body]
pub struct ExBigInt(num_bigint::BigInt);

#[verifier::external_type_specification]
#[verifier::external_body]
pub struct ExParseBigIntError(num_bigint::ParseBigIntError);

/// The mathematical integer that a big integer holds.
pub uninterp spec fn big_value(b: BigInt) -> int;

/// Value of one decimal digit character.
pub open spec fn digit_value(c: char) -> int {
    c as int - '0' as int
}

/// `c` is one of `0` to `9`.
pub open spec fn is_digit(c: char) -> bool {
    '0' <= c && c <= '9'
}

/// Value of a run of decimal digits in which underscores are skipped.
pub open spec fn digits_value(s: Seq<char>) -> int
    decreases s.len(),
{
    if s.len() == 0 {
        0
    } else if s.last() == '_' {
        digits_value(s.drop_last())
    } else {
        digits_value(s.drop_last()) * 10 + digit_value(s.last())
    }
}

/// What a text means as a big-integer literal: an optional single sign, then
/// a digit, then digits and underscores. `None` where the text has another
/// shape.
pub open spec fn big_literal(s: Seq<char>) -> Option<int> {
    let negative = s.len() > 0 && s[0] == '-';
    let signed = s.len() > 0 && (s[0] == '-' || s[0] == '+');
    let body = if signed {
        s.skip(1)
    } else {
        s
    };
    if body.len() > 0 && is_digit(body[0]) && (forall|i: int|
        0 <= i < body.len() ==> is_digit(#[trigger] body[i]) || body[i] == '_') {
        Some(
            if negative {
                -digits_value(body)
            } else {
                digits_value(body)
            },
        )
    } else {
        None
    }
}

/// Decimal digits of a natural number, most significant first; `"0"` for 0.
pub open spec fn nat_decimal(n: nat) -> Seq<char>
    decreases n,
{
    let last = ('0' as int + (n % 10) as int) as char;
    if n < 10 {
        seq![last]
    } else {
        nat_decimal(n / 10).push(last)
    }
}

/// Decimal form of an integer: the digits, after a `-` if it is negative.
pub open spec fn int_decimal(n: int) -> Seq<char> {
    if n < 0 {
        seq!['-'] + nat_decimal((-n) as nat)
    } else {
        nat_decimal(n as nat)
    }
}

/// `BigInt::from` on an `i64`: the big integer holds the same number.
#[verifier::external_body]
pub(crate) fn big_from_i64(n: i64) -> (r: BigInt)
    ensures
        big_value(r) == n,
{
    BigInt::from(n)
}

/// `BigInt::clone`: the copy holds the same number.
pub assume_specification[ <num_bigint::BigInt as Clone>::clone ](
    b: &num_bigint::BigInt,
) -> (r: num_bigint::BigInt)
    ensures
        big_value(r) == big_value(*b),
;

/// `ParseBigIntError::clone`; nothing is said of an error but that it is one.
pub assume_specification[ <num_bigint::ParseBigIntError as Clone>::clone ](
    e: &num_bigint::ParseBigIntError,
) -> num_bigint::ParseBigIntError;

/// `&BigInt + &BigInt`: the sum, without any bound.
#[verifier::external_body]
pub(crate) fn big_add(a: &BigInt, b: &BigInt) -> (r: BigInt)
    ensures
        big_value(r) == big_value(*a) + big_value(*b),
{
    a + b
}

/// `&BigInt - &BigInt`: the difference, without any bound.
#[verifier::external_body]
pub(crate) fn big_sub(a: &BigInt, b: &BigInt) -> (r: BigInt)
    ensures
        big_value(r) == big_value(*a) - big_value(*b),
{
    a - b
}

/// `&BigInt * &BigInt`: the product, without any bound.
#[verifier::external_body]
pub(crate) fn big_mul(a: &BigInt, b: &BigInt) -> (r: BigInt)
    ensures
        big_value(r) == big_value(*a) * big_value(*b),
{
    a * b
}

/// `-&BigInt`: the negation.
#[verifier::external_body]
pub(crate) fn big_neg(a: &BigInt) -> (r: BigInt)
    ensures
        big_value(r) == -big_value(*a),
{
    -a
}

/// `&BigInt / &BigInt`: the quotient rounded toward zero. `num_bigint`
/// panics on a zero divisor, which is left out here.
#[verifier::external_body]
pub(crate) fn big_div(a: &BigInt, b: &BigInt) -> (r: BigInt)
    requires
        big_value(*b) != 0,
    ensures
        big_value(r) == trunc_div(big_value(*a), big_value(*b)),
{
    a / b
}

/// `&BigInt % &BigInt`: the remainder of the division rounded toward zero,
/// so with the sign of the dividend. `num_bigint` panics on a zero divisor,
/// which is left out here.
#[verifier::external_body]
pub(crate) fn big_rem(a: &BigInt, b: &BigInt) -> (r: BigInt)
    requires
        big_value(*b) != 0,
    ensures
        big_value(r) == trunc_rem(big_value(*a), big_value(*b)),
{
    a % b
}

/// `Integer::gcd` for `BigInt`: the greatest common divisor, never negative.
#[verifier::external_body]
pub(crate) fn big_gcd(a: &BigInt, b: &BigInt) -> (r: BigInt)
    ensures
        big_value(r) == gcd(big_value(*a), big_value(*b)),
{
    a.gcd(b)
}

/// `Integer::lcm` for `BigInt`: the least common multiple, never negative.
#[verifier::external_body]
pub(crate) fn big_lcm(a: &BigInt, b: &BigInt) -> (r: BigInt)
    ensures
        big_value(r) == lcm(big_value(*a), big_value(*b)),
{
    a.lcm(b)
}

/// `BigInt::pow`: the number raised to a `u32` exponent.
#[verifier::external_body]
pub(crate) fn big_pow(a: &BigInt, exponent: u32) -> (r: BigInt)
    ensures
        big_value(r) == pow(big_value(*a), exponent as nat),
{
    a.pow(exponent)
}

/// `Signed::abs` for `BigInt`: the absolute value.
#[verifier::external_body]
pub(crate) fn big_abs(a: &BigInt) -> (r: BigInt)
    ensures
        big_value(r) == abs(big_value(*a)),
{
    a.abs()
}

/// `Zero::is_zero` for `BigInt`.
#[verifier::external_body]
pub(crate) fn big_is_zero(a: &BigInt) -> (r: bool)
    ensures
        r == (big_value(*a) == 0),
{
    a.is_zero()
}

/// `==` on `BigInt`: equal exactly when the numbers are.
#[verifier::external_body]
pub(crate) fn big_eq(a: &BigInt, b: &BigInt) -> (r: bool)
    ensures
        r == (big_value(*a) == big_value(*b)),
{
    a == b
}

/// `<` on `BigInt`: the order of the numbers.
#[verifier::external_body]
pub(crate) fn big_lt(a: &BigInt, b: &BigInt) -> (r: bool)
    ensures
        r == (big_value(*a) < big_value(*b)),
{
    a < b
}

/// `ToPrimitive::to_i64` for `BigInt`: the number, where an `i64` can hold it.
#[verifier::external_body]
pub(crate) fn big_to_i64(a: &BigInt) -> (r: Option<i64>)
    ensures
        r == (if i64::MIN <= big_value(*a) <= i64::MAX {
            Some(big_value(*a) as i64)
        } else {
            None
        }),
{
    a.to_i64()
}

/// `str::parse::<BigInt>`: succeeds exactly on the texts that
/// [`big_literal`] accepts, with the number it gives.
#[verifier::external_body]
pub(crate) fn big_parse(text: &str) -> (r: Result<BigInt, ParseBigIntError>)
    ensures
        r is Ok <==> big_literal(text@) is Some,
        r matches Ok(b) ==> Some(big_value(b)) == big_literal(text@),
{
    text.parse::<BigInt>()
}

/// `BigInt::to_string`: the decimal form, with `-` before a negative number.
#[verifier::external_body]
pub(crate) fn big_to_string(a: &BigInt) -> (r: String)
    ensures
        r@ == int_decimal(big_value(*a)),
{
    a.to_string()
}

} // verus!
