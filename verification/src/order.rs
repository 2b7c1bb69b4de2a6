//! The order of exact numbers, by cross-multiplication, and the greatest of
//! a list of values.

use crate::base::{CalcError, ErrorKind};
use crate::big::{big_eq, big_from_i64, big_is_zero, big_lt, big_mul};
use crate::func_call::views;
use crate::rational::{Ratio, Rational};
use crate::reals::RealOps;
use crate::value::{Value, ValueView};
use crate::value_algebra::{ratio_of, shown};
use std::cmp::Ordering;
use vstd::prelude::*;

verus! {

/// `a` is below `b`, for fractions with denominators other than 0. The
/// products across are compared, the other way round where exactly one
/// denominator is negative.
pub open spec fn ratio_lt(a: Ratio, b: Ratio) -> bool {
    if (a.den < 0) == (b.den < 0) {
        a.num * b.den < b.num * a.den
    } else {
        a.num * b.den > b.num * a.den
    }
}

/// The value with index `i` is the greatest of the list, and the first of
/// several that are equal: none is above it, and all before it are below.
pub open spec fn is_first_max(args: Seq<ValueView>, i: int) -> bool {
    &&& 0 <= i < args.len()
    &&& forall|j: int| 0 <= j < args.len() ==> !ratio_lt(args[i].ratio(), #[trigger] args[j].ratio())
    &&& forall|j: int| 0 <= j < i ==> ratio_lt(#[trigger] args[j].ratio(), args[i].ratio())
}

/// A list has one first greatest value at most.
pub proof fn lemma_first_max_unique(args: Seq<ValueView>, i: int, j: int)
    requires
        is_first_max(args, i),
        is_first_max(args, j),
    ensures
        i == j,
{
    if i < j {
        assert(ratio_lt(args[i].ratio(), args[j].ratio()));
    } else if j < i {
        assert(ratio_lt(args[j].ratio(), args[i].ratio()));
    }
}

/// What `max` gives. Only numbers can be compared. Exact numbers are
/// compared exactly, and the result is the first of the greatest; a
/// fraction with denominator 0 has no place in the order. If a real is
/// among the numbers, all are compared as reals, and the result is one of
/// the arguments.
pub open spec fn max_ensures(args: Seq<ValueView>, r: Result<ValueView, ErrorKind>) -> bool {
    if args.len() == 0 || exists|i: int| 0 <= i < args.len() && !(#[trigger] args[i]).is_number() {
        r == Err::<ValueView, ErrorKind>(ErrorKind::FuncCall)
    } else if exists|i: int| 0 <= i < args.len() && #[trigger] args[i] is Real {
        match r {
            Ok(v) => exists|i: int| 0 <= i < args.len() && v == #[trigger] args[i],
            Err(k) => k == ErrorKind::Evaluate,
        }
    } else if exists|i: int| 0 <= i < args.len() && (#[trigger] args[i]).ratio().den == 0 {
        r == Err::<ValueView, ErrorKind>(ErrorKind::Evaluate)
    } else {
        r matches Ok(v) && exists|i: int| #[trigger] is_first_max(args, i) && v == args[i]
    }
}

/// The order does not change when both terms of a fraction change their
/// sign.
proof fn lemma_ratio_lt_normal(a: Ratio, b: Ratio)
    requires
        a.den != 0,
        b.den != 0,
    ensures
        ratio_lt(a, b) == (sign_num(a) * crate::arith::abs(b.den) < sign_num(b) * crate::arith::abs(
            a.den,
        )),
{
    let (an, ad, bn, bd) = (a.num, a.den, b.num, b.den);
    if ad > 0 && bd > 0 {
    } else if ad < 0 && bd < 0 {
        assert(((-an) * (-bd) < (-bn) * (-ad)) == (an * bd < bn * ad)) by (nonlinear_arith);
    } else if ad < 0 {
        assert(((-an) * bd < bn * (-ad)) == (an * bd > bn * ad)) by (nonlinear_arith);
    } else {
        assert((an * (-bd) < (-bn) * ad) == (an * bd > bn * ad)) by (nonlinear_arith);
    }
}

/// The numerator of a fraction after its denominator is made positive.
pub open spec fn sign_num(a: Ratio) -> int {
    if a.den < 0 {
        -a.num
    } else {
        a.num
    }
}

/// What is not above a fraction is below everything above that fraction.
pub proof fn lemma_ratio_order_transitive(a: Ratio, b: Ratio, c: Ratio)
    requires
        a.den != 0,
        b.den != 0,
        c.den != 0,
        !ratio_lt(b, a),
        ratio_lt(b, c),
    ensures
        ratio_lt(a, c),
        !ratio_lt(c, a),
{
    lemma_ratio_lt_normal(a, b);
    lemma_ratio_lt_normal(b, a);
    lemma_ratio_lt_normal(b, c);
    lemma_ratio_lt_normal(a, c);
    lemma_ratio_lt_normal(c, a);
    let (an, bn, cn) = (sign_num(a), sign_num(b), sign_num(c));
    let ad = crate::arith::abs(a.den);
    let bd = crate::arith::abs(b.den);
    let cd = crate::arith::abs(c.den);
    assert(an * cd < cn * ad) by (nonlinear_arith)
        requires
            ad > 0,
            bd > 0,
            cd > 0,
            an * bd <= bn * ad,
            bn * cd < cn * bd,
    {
        assert((an * bd) * cd <= (bn * ad) * cd);
        assert((bn * cd) * ad < (cn * bd) * ad);
        assert((an * cd) * bd < (cn * ad) * bd);
    }
}

/// Whether `a` is below `b`, for fractions with denominators other than 0.
pub fn ratio_less(a: &Rational, b: &Rational) -> (r: bool)
    requires
        a@.den != 0,
        b@.den != 0,
    ensures
        r == ratio_lt(a@, b@),
{
    let left = big_mul(&a.numerator, &b.denominator);
    let right = big_mul(&b.numerator, &a.denominator);
    let zero = big_from_i64(0);
    if big_lt(&a.denominator, &zero) == big_lt(&b.denominator, &zero) {
        big_lt(&left, &right)
    } else {
        big_lt(&right, &left)
    }
}

/// The order of two fractions whose four terms are positive, by
/// cross-multiplication.
pub fn compare_positive_rationals(a: Rational, b: Rational) -> (r: Ordering)
    requires
        a@.num > 0,
        a@.den > 0,
        b@.num > 0,
        b@.den > 0,
    ensures
        r is Less <==> a@.num * b@.den < b@.num * a@.den,
        r is Equal <==> a@.num * b@.den == b@.num * a@.den,
        r is Greater <==> a@.num * b@.den > b@.num * a@.den,
{
    let left = big_mul(&a.numerator, &b.denominator);
    let right = big_mul(&b.numerator, &a.denominator);
    if big_lt(&left, &right) {
        Ordering::Less
    } else if big_eq(&left, &right) {
        Ordering::Equal
    } else {
        Ordering::Greater
    }
}

/// Whether the first of two fractions with positive terms is above the
/// second.
pub fn exceeds(a: &Rational, b: &Rational) -> (r: bool)
    requires
        a@.num > 0,
        a@.den > 0,
        b@.num > 0,
        b@.den > 0,
    ensures
        r == (a@.num * b@.den > b@.num * a@.den),
{
    match compare_positive_rationals(a.duplicate(), b.duplicate()) {
        Ordering::Greater => true,
        _ => false,
    }
}

/// The greatest of the values.
pub fn max<R: RealOps>(params: &Vec<Value>) -> (r: Result<Value, CalcError>)
    ensures
        max_ensures(views(params@), shown(r)),
{
    let ghost args = views(params@);
    let n = params.len();
    if n == 0 {
        return Err(CalcError::func_call("Funkce max vyžaduje aspoň 1 parametr"));
    }
    let mut any_real = false;
    let mut any_undefined = false;
    let mut i: usize = 0;
    while i < n
        invariant
            args == views(params@),
            n == params@.len(),
            i <= n,
            forall|j: int| 0 <= j < i ==> (#[trigger] args[j]).is_number(),
            any_real == exists|j: int| 0 <= j < i && #[trigger] args[j] is Real,
            !any_real ==> (any_undefined == exists|j: int|
                0 <= j < i && (#[trigger] args[j]).ratio().den == 0),
        decreases n - i,
    {
        let p = &params[i];
        assert(args[i as int] == p@);
        if !p.is_number() {
            return Err(CalcError::func_call("Funkce max umí porovnat jen čísla"));
        }
        match p {
            Value::Real(_) => {
                any_real = true;
            },
            Value::Rational(q) => {
                if big_is_zero(&q.denominator) {
                    any_undefined = true;
                }
            },
            _ => {},
        }
        i = i + 1;
    }
    if any_real {
        return max_as_reals::<R>(params);
    }
    if any_undefined {
        return Err(CalcError::evaluate("Zlomek s nulovým jmenovatelem nelze porovnat"));
    }
    let mut best: usize = 0;
    let mut k: usize = 1;
    while k < n
        invariant
            args == views(params@),
            n == params@.len(),
            1 <= k <= n,
            best < k,
            forall|j: int| 0 <= j < n ==> (#[trigger] args[j]).is_exact_number(),
            forall|j: int| 0 <= j < n ==> (#[trigger] args[j]).ratio().den != 0,
            forall|j: int|
                0 <= j < k ==> !ratio_lt(args[best as int].ratio(), #[trigger] args[j].ratio()),
            forall|j: int|
                0 <= j < best ==> ratio_lt(#[trigger] args[j].ratio(), args[best as int].ratio()),
        decreases n - k,
    {
        assert(args[best as int] == params@[best as int]@);
        assert(args[k as int] == params@[k as int]@);
        let current = ratio_of(&params[best]);
        let candidate = ratio_of(&params[k]);
        if ratio_less(&current, &candidate) {
            proof {
                let top = args[best as int].ratio();
                let new = args[k as int].ratio();
                assert forall|j: int| 0 <= j < k implies ratio_lt(
                    #[trigger] args[j].ratio(),
                    new,
                ) && !ratio_lt(new, args[j].ratio()) by {
                    lemma_ratio_order_transitive(args[j].ratio(), top, new);
                }
                assert(!ratio_lt(new, new));
            }
            best = k;
        }
        k = k + 1;
    }
    assert(is_first_max(args, best as int));
    assert(args[best as int] == params@[best as int]@);
    Ok(params[best].duplicate())
}

/// The greatest of numbers of which one is a real: all are compared as
/// reals.
fn max_as_reals<R: RealOps>(params: &Vec<Value>) -> (r: Result<Value, CalcError>)
    requires
        params@.len() > 0,
    ensures
        match r {
            Ok(v) => exists|i: int|
                0 <= i < params@.len() && v@ == #[trigger] views(params@)[i],
            Err(e) => e.kind_of() == ErrorKind::Evaluate,
        },
{
    let n = params.len();
    let mut best: usize = 0;
    let mut top = match params[0].as_real::<R>() {
        Ok(x) => x,
        Err(e) => {
            return Err(e);
        },
    };
    let mut k: usize = 1;
    while k < n
        invariant
            n == params@.len(),
            1 <= k <= n,
            best < k,
        decreases n - k,
    {
        let x = match params[k].as_real::<R>() {
            Ok(x) => x,
            Err(e) => {
                return Err(e);
            },
        };
        if R::less(top, x) {
            best = k;
            top = x;
        }
        k = k + 1;
    }
    assert(views(params@)[best as int] == params@[best as int]@);
    Ok(params[best].duplicate())
}

} // verus!
