//! The built-in functions of the calculator.
//!
//! Each function checks the kind of its arguments and its domain before it
//! computes. Exact arguments give exact results wherever the mathematics
//! allows; everything else is computed in reals.

use crate::arith::trunc_rem;
use crate::base::{CalcError, ErrorKind};
use crate::big::{big_abs, big_eq, big_from_i64, big_mul, big_rem, big_to_i64, big_value};
use crate::rational::{ratio_abs, ratio_div, Ratio, Rational};
use crate::reals::{Real, RealOps, PI_BITS};
use crate::text::{i64_to_string, join2, join3};
use crate::value::{integer_from_big, integer_value, simplified, Value, ValueView};
use crate::value_algebra::{admits, div_spec, exact_quotient, meets, shown, Outcome};
use num_bigint::BigInt;
use vstd::prelude::*;
use vstd::string::*;

verus! {

/// The greatest number whose factorial is computed.
pub const FACT_MAX: i64 = 100;

/// The factorial of `n`.
pub open spec fn factorial(n: nat) -> int
    decreases n,
{
    if n == 0 {
        1
    } else {
        n * factorial((n - 1) as nat)
    }
}

/// The product of the integers from `lo` to `hi`; 1 where there is none.
pub open spec fn range_product(lo: int, hi: int) -> int
    decreases hi - lo + 1,
{
    if hi < lo {
        1
    } else {
        range_product(lo, hi - 1) * hi
    }
}

/// A factorial is positive.
pub proof fn lemma_factorial_positive(n: nat)
    ensures
        factorial(n) >= 1,
    decreases n,
{
    if n > 0 {
        lemma_factorial_positive((n - 1) as nat);
        assert(n * factorial((n - 1) as nat) >= 1) by (nonlinear_arith)
            requires
                n >= 1,
                factorial((n - 1) as nat) >= 1,
        ;
    }
}

/// What a function gives that is computed in reals for every number.
pub open spec fn real_function_spec(x: ValueView) -> Outcome {
    if x.is_number() {
        Outcome::Inexact { sure: x.has_real() }
    } else {
        Outcome::Fails(ErrorKind::FuncCall)
    }
}

/// The absolute value: exact for exact numbers, and a big integer where an
/// `i64` cannot hold it.
pub open spec fn abs_spec(x: ValueView) -> Outcome {
    match x {
        ValueView::Integer(i) => Outcome::Exact(integer_value(crate::arith::abs(i as int))),
        ValueView::BigInteger(b) => Outcome::Exact(ValueView::BigInteger(crate::arith::abs(b))),
        ValueView::Rational(q) => Outcome::Exact(ValueView::Rational(ratio_abs(q))),
        ValueView::Real(_) => Outcome::Inexact { sure: true },
        _ => Outcome::Fails(ErrorKind::FuncCall),
    }
}

/// The factorial of a whole number from 0 to [`FACT_MAX`]; every other
/// argument is refused.
pub open spec fn fact_spec(x: ValueView) -> Outcome {
    if x.is_whole() && 0 <= x.whole() <= FACT_MAX {
        Outcome::Exact(integer_value(factorial(x.whole() as nat)))
    } else {
        Outcome::Fails(ErrorKind::FuncCall)
    }
}

/// The number of ways to choose `k` of `n`: the product of the `m` greatest
/// integers up to `n` divided by the factorial of `m`, where `m` is the
/// lesser of `k` and `n - k`. Refused for negative arguments and for
/// `n < k`; an evaluation error where `m` is above [`FACT_MAX`].
pub open spec fn choose_spec(n: int, k: int) -> Outcome {
    if n < 0 || k < 0 || n < k {
        Outcome::Fails(ErrorKind::FuncCall)
    } else if n == k || n == 0 {
        Outcome::Exact(ValueView::Integer(1))
    } else {
        let m = if n - k < k {
            n - k
        } else {
            k
        };
        if m > FACT_MAX {
            Outcome::Fails(ErrorKind::Evaluate)
        } else {
            Outcome::Exact(
                simplified(
                    ValueView::Rational(
                        ratio_div(
                            Ratio { num: range_product(n - m + 1, n), den: 1 },
                            Ratio { num: factorial(m as nat), den: 1 },
                        ),
                    ),
                ),
            )
        }
    }
}

/// `nck` of two values: both must be integers.
pub open spec fn nck_spec(n: ValueView, k: ValueView) -> Outcome {
    if n is Integer && k is Integer {
        choose_spec(n->Integer_0 as int, k->Integer_0 as int)
    } else {
        Outcome::Fails(ErrorKind::FuncCall)
    }
}

/// Combinations of `k` out of `n`, with repetition or without. With
/// repetition they are the choices of `k` out of `n + k - 1`, and every
/// failure of that count is an evaluation error.
pub open spec fn comb_count_spec(n: int, k: int, repetition: bool) -> Outcome {
    let inner = if !repetition {
        choose_spec(n, k)
    } else if n + k - 1 > i64::MAX {
        Outcome::Fails(ErrorKind::Evaluate)
    } else {
        choose_spec(n + k - 1, k)
    };
    match inner {
        Outcome::Exact(v) => inner,
        _ => Outcome::Fails(ErrorKind::Evaluate),
    }
}

/// `comb` of three values: two integers and a boolean, the integers not
/// negative and the first not below the second.
pub open spec fn comb_spec(n: ValueView, k: ValueView, repetition: ValueView) -> Outcome {
    if n is Integer && k is Integer && repetition is Bool {
        if n->Integer_0 < 0 || k->Integer_0 < 0 || n->Integer_0 < k->Integer_0 {
            Outcome::Fails(ErrorKind::FuncCall)
        } else {
            comb_count_spec(n->Integer_0 as int, k->Integer_0 as int, repetition->Bool_0)
        }
    } else {
        Outcome::Fails(ErrorKind::FuncCall)
    }
}

/// The sine of an angle in radians: exactly 0 for the integer 0 and for a
/// big integer that is a multiple of 360, else computed in reals.
pub open spec fn sin_spec(x: ValueView) -> Outcome {
    match x {
        ValueView::Integer(i) => if i == 0 {
            Outcome::Exact(ValueView::Integer(0))
        } else {
            Outcome::Inexact { sure: true }
        },
        ValueView::BigInteger(b) => if trunc_rem(b, 360) == 0 {
            Outcome::Exact(ValueView::Integer(0))
        } else {
            Outcome::Inexact { sure: true }
        },
        ValueView::Rational(_) => Outcome::Inexact { sure: false },
        ValueView::Real(_) => Outcome::Inexact { sure: true },
        _ => Outcome::Fails(ErrorKind::FuncCall),
    }
}

/// The sine of a whole number of degrees, given its remainder by 360:
/// exact at the angles where the sine is 0, 1, -1, 1/2 or -1/2.
pub open spec fn degrees_sine(d: int) -> Outcome {
    if d == 0 || d == 180 {
        Outcome::Exact(ValueView::Integer(0))
    } else if d == 30 || d == 150 {
        Outcome::Exact(ValueView::Rational(Ratio { num: 1, den: 2 }))
    } else if d == 90 {
        Outcome::Exact(ValueView::Integer(1))
    } else if d == 210 || d == 330 {
        Outcome::Exact(ValueView::Rational(Ratio { num: -1, den: 2 }))
    } else if d == 270 {
        Outcome::Exact(ValueView::Integer(-1i64))
    } else {
        Outcome::Inexact { sure: true }
    }
}

/// The sine of an angle in degrees.
pub open spec fn sind_spec(x: ValueView) -> Outcome {
    match x {
        ValueView::Integer(i) => degrees_sine(trunc_rem(i as int, 360)),
        ValueView::BigInteger(b) => degrees_sine(trunc_rem(b, 360)),
        ValueView::Rational(_) => Outcome::Inexact { sure: false },
        ValueView::Real(_) => Outcome::Inexact { sure: true },
        _ => Outcome::Fails(ErrorKind::FuncCall),
    }
}

/// `v` is a square root of the whole number `n`: a real, or a whole number
/// whose square is `n`.
pub open spec fn is_root_of(v: ValueView, n: int) -> bool {
    v is Real || (v.is_whole() && v.whole() * v.whole() == n)
}

/// What holds of every square root that `sqrt` gives.
pub open spec fn sqrt_ensures(x: ValueView, r: Result<ValueView, ErrorKind>) -> bool {
    match x {
        ValueView::Integer(i) => r matches Ok(v) && (v is Real || v is Integer) && is_root_of(
            v,
            i as int,
        ),
        ValueView::BigInteger(b) => match r {
            Ok(v) => (v is Real || v is BigInteger) && is_root_of(v, b),
            Err(k) => k == ErrorKind::Evaluate,
        },
        ValueView::Rational(q) => match r {
            Ok(v) => exists|n: ValueView, d: ValueView|
                is_root_of(n, q.num) && is_root_of(d, q.den) && admits(
                    #[trigger] div_spec(n, d),
                    Ok::<ValueView, ErrorKind>(v),
                ),
            Err(k) => k == ErrorKind::Evaluate,
        },
        ValueView::Real(_) => r matches Ok(v) && v is Real,
        _ => r == Err::<ValueView, ErrorKind>(ErrorKind::FuncCall),
    }
}

/// The error of a function that refuses the kind of its argument.
fn refused(function: &str, kind: &str) -> (e: CalcError)
    ensures
        e.kind_of() == ErrorKind::FuncCall,
{
    CalcError::FuncCallErr(
        join3(function, kind, " není platné volání funkce"),
    )
}

/// The word for the kind of an argument that a function refuses.
fn kind_word(x: &Value) -> (r: &'static str) {
    match x {
        Value::Nothing => "(Nothing)",
        Value::Integer(_) => "(Integer)",
        Value::BigInt(_) => "(BigInt)",
        Value::Rational(_) => "(Rational)",
        Value::Real(_) => "(Real)",
        Value::Text(_) => "(Text)",
        Value::Bool(_) => "(Bool)",
    }
}

/// Natural logarithm, computed in reals.
pub fn ln<R: RealOps>(x: Value) -> (r: Result<Value, CalcError>)
    ensures
        meets(r, real_function_spec(x@)),
{
    if !x.is_number() {
        return Err(refused("ln", kind_word(&x)));
    }
    match x.as_real::<R>() {
        Ok(v) => Ok(Value::Real(R::ln(v))),
        Err(e) => Err(e),
    }
}

/// Absolute value.
pub fn abs<R: RealOps>(x: Value) -> (r: Result<Value, CalcError>)
    ensures
        meets(r, abs_spec(x@)),
{
    match x {
        Value::Integer(i) => {
            if i == i64::MIN {
                Ok(Value::BigInt(big_abs(&big_from_i64(i))))
            } else if i < 0 {
                Ok(Value::Integer(-i))
            } else {
                Ok(Value::Integer(i))
            }
        },
        Value::BigInt(b) => Ok(Value::BigInt(big_abs(&b))),
        Value::Rational(q) => Ok(Value::Rational(q.abs())),
        Value::Real(v) => Ok(Value::Real(R::abs(v))),
        _ => Err(refused("abs", kind_word(&x))),
    }
}

/// Combinations of `k` out of `n`, with repetition if `repetition` is true.
pub fn comb(n: Value, k: Value, repetition: Value) -> (r: Result<Value, CalcError>)
    ensures
        meets(r, comb_spec(n@, k@, repetition@)),
{
    match (&n, &k, &repetition) {
        (Value::Integer(n_int), Value::Integer(k_int), Value::Bool(rep)) => {
            if *n_int < 0 {
                Err(CalcError::func_call("Chyba: comb(n,k,repetition): n musí být >= 0"))
            } else if *k_int < 0 {
                Err(CalcError::func_call("Chyba: comb(n,k,repetition): k musí být >= 0"))
            } else if *n_int < *k_int {
                Err(CalcError::func_call("Chyba: comb(n,k,repetition) vyžaduje: n >= k"))
            } else {
                comb_internal(*n_int, *k_int, *rep)
            }
        },
        _ => Err(
            CalcError::func_call(
                "Funkce comb(n,k,repetition) očekává dva celočíselné parametry a jeden bool",
            ),
        ),
    }
}

/// Combinations of `k` out of `n` for plain integers.
pub fn comb_internal(n: i64, k: i64, repetition: bool) -> (r: Result<Value, CalcError>)
    ensures
        meets(r, comb_count_spec(n as int, k as int, repetition)),
{
    let result = if repetition {
        let count: i128 = n as i128 + k as i128 - 1;
        if count > i64::MAX as i128 || count < 0 {
            Err(CalcError::func_call("Chyba: nck(n,k): n musí být >= 0"))
        } else {
            nck_internal(count as i64, k)
        }
    } else {
        nck_internal(n, k)
    };
    match result {
        Ok(value) => Ok(value),
        Err(e) => Err(
            CalcError::EvaluateErr(
                join2(
                    "Funkce comb využívá funkci nck, která skončila s chybou: ",
                    e.message().as_str(),
                ),
            ),
        ),
    }
}

/// The number of ways to choose `k` of `n`.
pub fn nck(n: Value, k: Value) -> (r: Result<Value, CalcError>)
    ensures
        meets(r, nck_spec(n@, k@)),
{
    match (&n, &k) {
        (Value::Integer(n_int), Value::Integer(k_int)) => nck_internal(*n_int, *k_int),
        _ => Err(CalcError::func_call("Funkce nck(n,k) očekává celočíselné parametry")),
    }
}

/// The number of ways to choose `k` of `n`, for plain integers.
pub fn nck_internal(n: i64, k: i64) -> (r: Result<Value, CalcError>)
    ensures
        meets(r, choose_spec(n as int, k as int)),
{
    if n < 0 {
        Err(CalcError::func_call("Chyba: nck(n,k): n musí být >= 0"))
    } else if k < 0 {
        Err(CalcError::func_call("Chyba: nck(n,k): k musí být >= 0"))
    } else if n < k {
        Err(CalcError::func_call("Chyba: nck(n,k) vyžaduje: n >= k"))
    } else if n == k || n == 0 {
        Ok(Value::Integer(1))
    } else {
        let n_min_k: i64 = n - k;
        let m: i64 = if n_min_k < k {
            n_min_k
        } else {
            k
        };
        let denominator = match fact(Value::Integer(m)) {
            Ok(d) => d,
            Err(e) => {
                return Err(
                    CalcError::EvaluateErr(
                        join2(
                            "Funkce nck využívá faktoriál, který skončil s chybou: ",
                            e.message().as_str(),
                        ),
                    ),
                );
            },
        };
        let mut numerator = big_from_i64(1);
        let below: i64 = n - m;
        let mut j: i64 = 0;
        while j < m
            invariant
                below == n - m,
                0 <= j <= m <= n,
                big_value(numerator) == range_product(below + 1, below + j),
            decreases m - j,
        {
            numerator = big_mul(&numerator, &big_from_i64(below + 1 + j));
            j = j + 1;
        }
        proof {
            lemma_factorial_positive(m as nat);
        }
        Ok(exact_quotient(&Value::BigInt(numerator), &denominator))
    }
}

/// The factorial of a whole number from 0 to [`FACT_MAX`].
pub fn fact(val: Value) -> (r: Result<Value, CalcError>)
    ensures
        meets(r, fact_spec(val@)),
{
    match val {
        Value::Integer(n) => integer_fact(n),
        Value::BigInt(n) => {
            match big_to_i64(&n) {
                Some(small) => integer_fact(small),
                None => Err(
                    CalcError::func_call(
                        "fact(BigInt) není platné volání funkce. Není povoleno faktoriálovat velká čísla",
                    ),
                ),
            }
        },
        _ => Err(refused("fact", kind_word(&val))),
    }
}

/// The factorial of an integer from 0 to [`FACT_MAX`].
pub fn integer_fact(n: i64) -> (r: Result<Value, CalcError>)
    ensures
        meets(r, fact_spec(ValueView::Integer(n))),
{
    if n == 0 {
        Ok(Value::Integer(1))
    } else if n < 0 {
        Err(
            CalcError::FuncCallErr(
                join3(
                    "fact(",
                    i64_to_string(n).as_str(),
                    ") není platné volání funkce. Očekává se nezáporné číslo",
                ),
            ),
        )
    } else if n <= FACT_MAX {
        let mut product = big_from_i64(1);
        let mut i: i64 = 1;
        while i <= n
            invariant
                1 <= i <= n + 1,
                n <= FACT_MAX,
                big_value(product) == factorial((i - 1) as nat),
            decreases n + 1 - i,
        {
            product = big_mul(&product, &big_from_i64(i));
            assert(big_value(product) == factorial(i as nat)) by (nonlinear_arith)
                requires
                    big_value(product) == factorial((i - 1) as nat) * i,
                    factorial(i as nat) == i * factorial((i - 1) as nat),
            ;
            i = i + 1;
        }
        Ok(integer_from_big(product))
    } else {
        Err(CalcError::func_call("Nelze faktoriálovat čísla větší než 100"))
    }
}

/// The remainder by 360 of an integer, with the sign of the integer.
pub fn degrees_in_turn(i: i64) -> (d: i64)
    ensures
        d == trunc_rem(i as int, 360),
        -360 < d < 360,
{
    proof {
        lemma_trunc_rem_by_turn(i as int);
    }
    if i >= 0 {
        i % 360
    } else {
        let m: i64 = (-(i + 1)) % 360;
        assert((m + 1) % 360 == (-i) % 360);
        -((m + 1) % 360)
    }
}

/// The remainder by 360 that goes with truncating division: the remainder
/// of the magnitude, with the sign of the dividend.
pub proof fn lemma_trunc_rem_by_turn(a: int)
    ensures
        a >= 0 ==> trunc_rem(a, 360) == a % 360,
        a < 0 ==> trunc_rem(a, 360) == -((-a) % 360),
        -360 < trunc_rem(a, 360) < 360,
{
    let m = crate::arith::abs(a);
    vstd::arithmetic::div_mod::lemma_fundamental_div_mod(m, 360);
    assert(m == 360 * (m / 360) + m % 360);
    assert(0 <= m % 360 < 360);
    assert(crate::arith::abs(360) == 360);
}

/// The remainder by 360 of a big integer, with the sign of the integer.
pub fn big_degrees_in_turn(b: &BigInt) -> (d: i64)
    ensures
        d == trunc_rem(big_value(*b), 360),
{
    let turn = big_from_i64(360);
    let rest = big_rem(b, &turn);
    proof {
        lemma_trunc_rem_by_turn(big_value(*b));
    }
    match big_to_i64(&rest) {
        Some(d) => d,
        None => 0,
    }
}

/// Sine of an angle in radians.
pub fn sin<R: RealOps>(rads: Value) -> (r: Result<Value, CalcError>)
    ensures
        meets(r, sin_spec(rads@)),
{
    match rads {
        Value::Integer(i) => {
            if i == 0 {
                Ok(Value::Integer(0))
            } else {
                Ok(Value::Real(R::sin(R::from_int(i))))
            }
        },
        Value::BigInt(b) => {
            let d = big_degrees_in_turn(&b);
            if d == 0 {
                Ok(Value::Integer(0))
            } else {
                Ok(Value::Real(R::sin(R::from_int(d))))
            }
        },
        Value::Rational(_) => match rads.as_real::<R>() {
            Ok(v) => Ok(Value::Real(R::sin(v))),
            Err(e) => Err(e),
        },
        Value::Real(v) => Ok(Value::Real(R::sin(v))),
        _ => Err(refused("sin", kind_word(&rads))),
    }
}

/// Sine of an angle given as a multiple of pi, computed in reals.
pub fn sinpi<R: RealOps>(rads_pi: Value) -> (r: Result<Value, CalcError>)
    ensures
        meets(r, real_function_spec(rads_pi@)),
{
    if !rads_pi.is_number() {
        return Err(
            CalcError::func_call(
                "Funkce sinpi vyžaduje jako parametr: int, bigint, real, nebo rational",
            ),
        );
    }
    match rads_pi.as_real::<R>() {
        Ok(v) => Ok(Value::Real(R::sin(R::product(v, Real { bits: PI_BITS })))),
        Err(e) => Err(e),
    }
}

/// Sine of an angle in degrees.
pub fn sind<R: RealOps>(degs: Value) -> (r: Result<Value, CalcError>)
    ensures
        meets(r, sind_spec(degs@)),
{
    match degs {
        Value::Integer(i) => Ok(sin_values_match_deg::<R>(degrees_in_turn(i))),
        Value::BigInt(b) => Ok(sin_values_match_deg::<R>(big_degrees_in_turn(&b))),
        Value::Rational(_) => match degs.as_real::<R>() {
            Ok(v) => Ok(Value::Real(R::sin(R::to_radians(v)))),
            Err(e) => Err(e),
        },
        Value::Real(v) => Ok(Value::Real(R::sin(R::to_radians(v)))),
        _ => Err(refused("sind", kind_word(&degs))),
    }
}

/// The sine of a whole number of degrees within one turn.
pub fn sin_values_match_deg<R: RealOps>(deg_0_360: i64) -> (v: Value)
    ensures
        meets(Ok::<Value, CalcError>(v), degrees_sine(deg_0_360 as int)),
{
    if deg_0_360 == 0 || deg_0_360 == 180 {
        Value::Integer(0)
    } else if deg_0_360 == 30 || deg_0_360 == 150 {
        Value::Rational(Rational { numerator: big_from_i64(1), denominator: big_from_i64(2) })
    } else if deg_0_360 == 90 {
        Value::Integer(1)
    } else if deg_0_360 == 210 || deg_0_360 == 330 {
        Value::Rational(Rational { numerator: big_from_i64(-1), denominator: big_from_i64(2) })
    } else if deg_0_360 == 270 {
        Value::Integer(-1)
    } else {
        Value::Real(R::sin(R::to_radians(R::from_int(deg_0_360))))
    }
}

/// The square root of an integer, from the root that the real arithmetic
/// found and the whole part of that root.
pub fn integer_root(input: i64, root: Real, whole: i64) -> (v: Value)
    ensures
        v@ == (if whole * whole == input {
            ValueView::Integer(whole)
        } else {
            ValueView::Real(root)
        }),
{
    match whole.checked_mul(whole) {
        Some(square) => if square == input {
            Value::Integer(whole)
        } else {
            Value::Real(root)
        },
        None => Value::Real(root),
    }
}

/// The square root of a big integer, from the root that the real
/// arithmetic found and the whole part of that root, if it has one.
pub fn big_root(input: &BigInt, root: Real, whole: Option<BigInt>) -> (v: Value)
    ensures
        v@ == (if whole is Some && big_value(whole->0) * big_value(whole->0) == big_value(*input) {
            ValueView::BigInteger(big_value(whole->0))
        } else {
            ValueView::Real(root)
        }),
{
    match whole {
        Some(w) => {
            let square = big_mul(&w, &w);
            if big_eq(&square, input) {
                Value::BigInt(w)
            } else {
                Value::Real(root)
            }
        },
        None => Value::Real(root),
    }
}

/// Square root: a whole number where the root is whole, else a real; for a
/// fraction, the quotient of the roots of its terms.
pub fn sqrt<R: RealOps>(val: Value) -> (r: Result<Value, CalcError>)
    ensures
        sqrt_ensures(val@, shown(r)),
{
    match val {
        Value::Integer(input) => {
            let root = R::sqrt(R::from_int(input));
            Ok(integer_root(input, root, R::to_int(root)))
        },
        Value::BigInt(input) => big_sqrt::<R>(&input),
        Value::Rational(q) => {
            let num = match big_sqrt::<R>(&q.numerator) {
                Ok(v) => v,
                Err(e) => {
                    return Err(e);
                },
            };
            let den = match big_sqrt::<R>(&q.denominator) {
                Ok(v) => v,
                Err(e) => {
                    return Err(e);
                },
            };
            let ghost n = num@;
            let ghost d = den@;
            let r = num.div::<R>(den);
            proof {
                if r is Ok {
                    assert(admits(div_spec(n, d), Ok::<ValueView, ErrorKind>(r->Ok_0@)));
                }
            }
            r
        },
        Value::Real(v) => Ok(Value::Real(R::sqrt(v))),
        _ => Err(refused("sqrt", kind_word(&val))),
    }
}

/// The square root of a big integer.
pub fn big_sqrt<R: RealOps>(input: &BigInt) -> (r: Result<Value, CalcError>)
    ensures
        sqrt_ensures(ValueView::BigInteger(big_value(*input)), shown(r)),
{
    let as_real = match R::from_big(input) {
        Some(v) => v,
        None => {
            return Err(CalcError::evaluate("Nepodařilo se odmocnit velké celé číslo"));
        },
    };
    let root = R::sqrt(as_real);
    Ok(big_root(input, root, R::to_big(root)))
}

} // verus!
