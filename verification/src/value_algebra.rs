//! Arithmetic on values: the four operations, negation and power, with the
//! promotion of operands that goes with them.
//!
//! What an operation gives is stated as an [`Outcome`]. Where both operands
//! are exact the outcome is a value or a failure; where a real takes part,
//! the number that comes out is the real arithmetic's to decide, and the
//! outcome says only what holds of every such number.

use crate::arith::{
    abs, divides, gcd, lemma_divides_abs, lemma_divides_antisymmetric, lemma_divides_witness,
    lemma_exact_div, lemma_gcd_properties, pow,
};
use crate::base::{CalcError, ErrorKind};
use crate::big::{big_add, big_from_i64, big_is_zero, big_mul, big_neg, big_pow, big_sub, big_value};
use crate::rational::{
    addable, big_power, is_unit, lemma_ratio_add_commutes, lemma_ratio_mul_commutes,
    lemma_reduced_idempotent, lemma_reduced_keeps_signs, magnitude, power_in_reach, ratio_add,
    ratio_div, ratio_mul, ratio_neg, ratio_pow, ratio_power_in_reach, ratio_sub, ratio_whole,
    reduced, Ratio, Rational,
};
use crate::reals::{Real, RealOps};
use crate::text::{join2, join5};
use crate::value::{
    fits_i64, integer_from_big, integer_value, plain_text, simplified, Value, ValueView,
};
use num_bigint::BigInt;
use vstd::prelude::*;
use vstd::string::*;

verus! {

/// What an operation gives.
pub ghost enum Outcome {
    /// This value.
    Exact(ValueView),
    /// An error of this kind.
    Fails(ErrorKind),
    /// A real that the real arithmetic computes. Where `sure` is false, an
    /// operand may have no real, and the result may be an evaluation error
    /// instead.
    Inexact { sure: bool },
    /// Such a real after it is simplified: a real that is not zero, or
    /// `Integer(0)` for a real that is zero. Where `sure` is false, the
    /// result may be an evaluation error instead.
    Approx { sure: bool },
    /// A text that starts with `head` and ends with `tail`, with the text of
    /// a real between them.
    Joined { head: Seq<char>, tail: Seq<char> },
    /// Nothing is said: the result is the real arithmetic's to decide.
    Open,
}

/// What a result shows: the content of its value, or the kind of its
/// error.
pub open spec fn shown(r: Result<Value, CalcError>) -> Result<ValueView, ErrorKind> {
    match r {
        Ok(v) => Ok(v@),
        Err(e) => Err(e.kind_of()),
    }
}

/// An outcome admits what a result shows.
pub open spec fn admits(o: Outcome, r: Result<ValueView, ErrorKind>) -> bool {
    match o {
        Outcome::Exact(v) => r == Ok::<ValueView, ErrorKind>(v),
        Outcome::Fails(k) => r == Err::<ValueView, ErrorKind>(k),
        Outcome::Inexact { sure } => match r {
            Ok(x) => x is Real,
            Err(k) => !sure && k == ErrorKind::Evaluate,
        },
        Outcome::Approx { sure } => match r {
            Ok(x) => x.is_simple_real(),
            Err(k) => !sure && k == ErrorKind::Evaluate,
        },
        Outcome::Joined { head, tail } => r matches Ok(ValueView::Text(t)) && t.len()
            >= head.len() + tail.len() && t.take(head.len() as int) == head && t.skip(
            t.len() - tail.len(),
        ) == tail,
        Outcome::Open => true,
    }
}

/// A result meets an outcome.
pub open spec fn meets(r: Result<Value, CalcError>, o: Outcome) -> bool {
    admits(o, shown(r))
}

/// What an outcome fixes: the value or the kind of the error, where it is
/// exact.
pub open spec fn known(o: Outcome) -> Option<Result<ValueView, ErrorKind>> {
    match o {
        Outcome::Exact(v) => Some(Ok(v)),
        Outcome::Fails(k) => Some(Err(k)),
        _ => None,
    }
}

/// What a result shows is what is known of it, where anything is known.
pub open spec fn decided<T>(r: Result<T, ErrorKind>, k: Option<Result<T, ErrorKind>>) -> bool {
    k matches Some(x) ==> r == x
}

impl ValueView {
    /// An integer, a big integer, a fraction or a real.
    pub open spec fn is_number(self) -> bool {
        self is Integer || self is BigInteger || self is Rational || self is Real
    }

    /// An integer or a big integer.
    pub open spec fn is_whole(self) -> bool {
        self is Integer || self is BigInteger
    }

    /// An integer, a big integer or a fraction.
    pub open spec fn is_exact_number(self) -> bool {
        self is Integer || self is BigInteger || self is Rational
    }

    /// A number that surely has a real: an integer or a real. Whether a
    /// big integer or a fraction has one is for the real arithmetic to say.
    pub open spec fn has_real(self) -> bool {
        self is Integer || self is Real
    }

    /// What is left of a real after it is simplified: a real that is not
    /// zero, or `Integer(0)`.
    pub open spec fn is_simple_real(self) -> bool {
        match self {
            ValueView::Real(x) => !x.zero(),
            _ => self == ValueView::Integer(0),
        }
    }

    /// The number that an integer or a big integer holds.
    pub open spec fn whole(self) -> int
        recommends
            self.is_whole(),
    {
        match self {
            ValueView::Integer(i) => i as int,
            ValueView::BigInteger(b) => b,
            _ => 0,
        }
    }

    /// An exact number as a fraction; a whole number over 1.
    pub open spec fn ratio(self) -> Ratio
        recommends
            self.is_exact_number(),
    {
        match self {
            ValueView::Rational(q) => q,
            _ => Ratio { num: self.whole(), den: 1 },
        }
    }

    /// A number that is zero: a whole number 0, a fraction with numerator
    /// 0, or a real zero of either sign.
    pub open spec fn is_zero_number(self) -> bool {
        match self {
            ValueView::Integer(i) => i == 0,
            ValueView::BigInteger(b) => b == 0,
            ValueView::Rational(q) => q.num == 0,
            ValueView::Real(r) => r.zero(),
            _ => false,
        }
    }
}

/// What an operation on two numbers gives of which one is a real: both
/// become reals, and the real arithmetic computes.
pub open spec fn real_outcome(a: ValueView, b: ValueView) -> Outcome {
    Outcome::Approx { sure: a.has_real() && b.has_real() }
}

/// The sum of two values. `Nothing` absorbs; a text joins with the text of
/// the other operand; two booleans give their disjunction; two numbers are
/// added after the less general is promoted.
pub open spec fn add_spec(a: ValueView, b: ValueView) -> Outcome {
    if a is Nothing || b is Nothing {
        Outcome::Exact(ValueView::Nothing)
    } else if a is Text {
        if b is Real {
            Outcome::Joined { head: a->Text_0, tail: Seq::empty() }
        } else {
            Outcome::Exact(ValueView::Text(a->Text_0 + plain_text(b)))
        }
    } else if a is Bool {
        if b is Bool {
            Outcome::Exact(ValueView::Bool(a->Bool_0 || b->Bool_0))
        } else {
            Outcome::Fails(ErrorKind::Evaluate)
        }
    } else if b is Text {
        if a is Real {
            Outcome::Joined { head: Seq::empty(), tail: b->Text_0 }
        } else {
            Outcome::Exact(ValueView::Text(plain_text(a) + b->Text_0))
        }
    } else if b is Bool {
        Outcome::Fails(ErrorKind::Evaluate)
    } else if a is Real || b is Real {
        real_outcome(a, b)
    } else if a.is_whole() && b.is_whole() {
        Outcome::Exact(integer_value(a.whole() + b.whole()))
    } else if addable(a.ratio(), b.ratio()) {
        Outcome::Exact(simplified(ValueView::Rational(ratio_add(a.ratio(), b.ratio()))))
    } else {
        Outcome::Fails(ErrorKind::Evaluate)
    }
}

/// The difference of two values. `Nothing` absorbs; texts and booleans
/// cannot be subtracted.
pub open spec fn sub_spec(a: ValueView, b: ValueView) -> Outcome {
    if a is Nothing || b is Nothing {
        Outcome::Exact(ValueView::Nothing)
    } else if a is Text || a is Bool {
        Outcome::Fails(ErrorKind::Evaluate)
    } else if b is Text || b is Bool {
        Outcome::Fails(ErrorKind::Evaluate)
    } else if a is Real || b is Real {
        real_outcome(a, b)
    } else if a.is_whole() && b.is_whole() {
        Outcome::Exact(integer_value(a.whole() - b.whole()))
    } else if addable(a.ratio(), b.ratio()) {
        Outcome::Exact(simplified(ValueView::Rational(ratio_sub(a.ratio(), b.ratio()))))
    } else {
        Outcome::Fails(ErrorKind::Evaluate)
    }
}

/// The product of two values. `Nothing` absorbs; two booleans give their
/// conjunction; a text cannot be multiplied.
pub open spec fn mul_spec(a: ValueView, b: ValueView) -> Outcome {
    if a is Nothing || b is Nothing {
        Outcome::Exact(ValueView::Nothing)
    } else if a is Text {
        Outcome::Fails(ErrorKind::Evaluate)
    } else if a is Bool {
        if b is Bool {
            Outcome::Exact(ValueView::Bool(a->Bool_0 && b->Bool_0))
        } else {
            Outcome::Fails(ErrorKind::Evaluate)
        }
    } else if b is Text || b is Bool {
        Outcome::Fails(ErrorKind::Evaluate)
    } else if a is Real || b is Real {
        real_outcome(a, b)
    } else if a.is_whole() && b.is_whole() {
        Outcome::Exact(integer_value(a.whole() * b.whole()))
    } else {
        Outcome::Exact(simplified(ValueView::Rational(ratio_mul(a.ratio(), b.ratio()))))
    }
}

/// The quotient of two values. The divisor is looked at first: a zero
/// number, a text and a boolean are errors whatever the dividend is. Then
/// `Nothing` absorbs, and texts and booleans cannot be divided. Two exact
/// numbers give their exact quotient: a whole number where the division
/// leaves no remainder, else a fraction in lowest terms.
pub open spec fn div_spec(a: ValueView, b: ValueView) -> Outcome {
    if b.is_zero_number() || b is Text || b is Bool {
        Outcome::Fails(ErrorKind::Evaluate)
    } else if a is Nothing {
        Outcome::Exact(ValueView::Nothing)
    } else if a is Text || a is Bool {
        Outcome::Fails(ErrorKind::Evaluate)
    } else if b is Nothing {
        Outcome::Exact(ValueView::Nothing)
    } else if a is Real || b is Real {
        real_outcome(a, b)
    } else {
        Outcome::Exact(simplified(ValueView::Rational(ratio_div(a.ratio(), b.ratio()))))
    }
}

/// The message of a division by zero; it names the kind of the zero.
pub open spec fn zero_divisor_message(divisor: ValueView) -> Seq<char> {
    match divisor {
        ValueView::Integer(_) => "Nelze dělit celým číslem 0"@,
        ValueView::BigInteger(_) => "Nelze dělit bigintem 0"@,
        ValueView::Rational(_) => "Nelze dělit racionálním číslem 0"@,
        _ => "Nelze dělit reálným číslem 0"@,
    }
}

/// The negation of a value, simplified: an integer that has no negative
/// `i64` becomes a big integer, and a big integer whose negative an `i64`
/// can hold becomes an integer.
pub open spec fn neg_spec(a: ValueView) -> Outcome {
    match a {
        ValueView::Nothing => Outcome::Exact(ValueView::Nothing),
        ValueView::Integer(i) => Outcome::Exact(integer_value(-(i as int))),
        ValueView::BigInteger(b) => Outcome::Exact(integer_value(-b)),
        ValueView::Rational(q) => Outcome::Exact(simplified(ValueView::Rational(ratio_neg(q)))),
        ValueView::Real(_) => Outcome::Approx { sure: true },
        ValueView::Text(_) => Outcome::Fails(ErrorKind::Evaluate),
        ValueView::Bool(_) => Outcome::Fails(ErrorKind::Evaluate),
    }
}

/// An integer raised to an integer, exactly. The base is raised to the
/// magnitude of the exponent, and under a negative exponent 1 is divided by
/// that power: the result is a whole number or a fraction in lowest terms,
/// and an error for the base 0. An exponent whose magnitude does not fit
/// 32 bits is an error unless the base is 0, 1 or -1.
pub open spec fn integer_pow_spec(x: i64, e: i64) -> Outcome {
    let k = abs(e as int) as nat;
    if !power_in_reach(x as int, k) {
        Outcome::Fails(ErrorKind::Evaluate)
    } else if e >= 0 {
        Outcome::Exact(integer_value(pow(x as int, k)))
    } else {
        div_spec(ValueView::Integer(1), integer_value(pow(x as int, k)))
    }
}

/// A fraction raised to an integer, exactly and simplified. A fraction
/// that is zero has no negative power. An exponent whose magnitude does
/// not fit 32 bits is an error unless both terms are among 0, 1 and -1.
pub open spec fn ratio_pow_spec(q: Ratio, e: i64) -> Outcome {
    if !ratio_power_in_reach(q, e as int) {
        Outcome::Fails(ErrorKind::Evaluate)
    } else if e < 0 && q.num == 0 {
        Outcome::Fails(ErrorKind::Evaluate)
    } else {
        Outcome::Exact(simplified(ValueView::Rational(ratio_pow(q, e as int))))
    }
}

/// A value raised to another. `Nothing` absorbs. A big integer is never a
/// base nor an exponent. An integer or a fraction raised to an integer
/// stays exact; every other pair of numbers is computed in reals. The
/// result is simplified.
pub open spec fn pow_spec(a: ValueView, b: ValueView) -> Outcome {
    if a is Nothing || b is Nothing {
        Outcome::Exact(ValueView::Nothing)
    } else if a is BigInteger || a is Text || a is Bool {
        Outcome::Fails(ErrorKind::Evaluate)
    } else if b is BigInteger || b is Text || b is Bool {
        Outcome::Fails(ErrorKind::Evaluate)
    } else if a is Real || !(b is Integer) {
        real_outcome(a, b)
    } else if a is Rational {
        ratio_pow_spec(a->Rational_0, b->Integer_0)
    } else {
        integer_pow_spec(a->Integer_0, b->Integer_0)
    }
}

/// The word for the kind of a left operand in a message.
pub open spec fn left_word(v: ValueView) -> Seq<char> {
    match v {
        ValueView::Nothing => "nic"@,
        ValueView::Integer(_) => "celé číslo"@,
        ValueView::BigInteger(_) => "velké celé číslo"@,
        ValueView::Rational(_) => "racionální číslo"@,
        ValueView::Real(_) => "reálné číslo"@,
        ValueView::Text(_) => "text"@,
        ValueView::Bool(_) => "bool"@,
    }
}

/// The word for the kind of a right operand in a message.
pub open spec fn right_word(v: ValueView) -> Seq<char> {
    match v {
        ValueView::Bool(_) => "boolean"@,
        _ => left_word(v),
    }
}

/// A message that names an operation and both operands: their kinds and
/// their texts.
pub open spec fn operands_message(
    start: Seq<char>,
    a: ValueView,
    link: Seq<char>,
    b: ValueView,
) -> Seq<char> {
    start + left_word(a) + " "@ + plain_text(a) + link + right_word(b) + " "@ + plain_text(b)
        + "."@
}

/// A message that names an operation and its one operand.
pub open spec fn operand_message(start: Seq<char>, a: ValueView, end: Seq<char>) -> Seq<char> {
    start + left_word(a) + " "@ + plain_text(a) + end
}

/// The message of a sum that fails, for operands that are no reals.
pub open spec fn add_message(a: ValueView, b: ValueView) -> Seq<char> {
    if a is Bool || b is Bool {
        operands_message("Nelze sčítat "@, a, " a "@, b)
    } else {
        "Zlomek s nulovým jmenovatelem nelze sčítat ani odčítat"@
    }
}

/// The message of a difference that fails, for operands that are no reals.
pub open spec fn sub_message(a: ValueView, b: ValueView) -> Seq<char> {
    if a is Text || a is Bool {
        operand_message("Na "@, a, " nelze aplikovat operátor minus"@)
    } else if b is Text || b is Bool {
        operands_message("Nelze odčítat "@, a, " a "@, b)
    } else {
        "Zlomek s nulovým jmenovatelem nelze sčítat ani odčítat"@
    }
}

/// The message of a product that fails, for operands that are no reals.
pub open spec fn mul_message(a: ValueView, b: ValueView) -> Seq<char> {
    if a is Text {
        operand_message("Na "@, a, " nelze aplikovat operátor násobení"@)
    } else {
        operands_message("Nelze násobit "@, a, " a "@, b)
    }
}

/// The message of a quotient that fails, for a dividend that is no real.
pub open spec fn div_message(a: ValueView, b: ValueView) -> Seq<char> {
    if b.is_zero_number() {
        zero_divisor_message(b)
    } else if b is Text {
        "Nelze dělit textovou hodnotu."@
    } else if b is Bool {
        "Nelze dělit booleovskou bodnotu"@
    } else {
        operand_message("Na "@, a, " nelze aplikovat operátor dělení"@)
    }
}

/// The message of a power that fails, for operands that are no reals.
pub open spec fn pow_message(a: ValueView, b: ValueView) -> Seq<char> {
    if a is BigInteger {
        "Mocnění velkých celých čísel není povoleno"@
    } else if a is Text || a is Bool {
        operand_message("Nelze mocnit "@, a, "."@)
    } else if b is BigInteger {
        "Mocnění velkých celých čísel není povoleno"@
    } else if b is Text || b is Bool {
        operands_message("Nelze mocnit "@, a, " na "@, b)
    } else if !power_in_reach(a.ratio().num, abs(b.whole()) as nat) || !power_in_reach(
        a.ratio().den,
        abs(b.whole()) as nat,
    ) {
        "Exponent je příliš velký"@
    } else {
        zero_divisor_message(a)
    }
}

/// The message of a negation that fails.
pub open spec fn neg_message(a: ValueView) -> Seq<char> {
    operand_message("Na "@, a, " nelze aplikovat unární mínus"@)
}

/// A result fails with this message.
pub open spec fn fails_with(r: Result<Value, CalcError>, message: Seq<char>) -> bool {
    r matches Err(e) && e.detail() == message
}

/// The word for the kind of a left operand in a message.
fn left_kind(v: &Value) -> (r: &'static str)
    ensures
        r@ == left_word(v@),
{
    match v {
        Value::Nothing => "nic",
        Value::Integer(_) => "celé číslo",
        Value::BigInt(_) => "velké celé číslo",
        Value::Rational(_) => "racionální číslo",
        Value::Real(_) => "reálné číslo",
        Value::Text(_) => "text",
        Value::Bool(_) => "bool",
    }
}

/// The word for the kind of a right operand in a message.
fn right_kind(v: &Value) -> (r: &'static str)
    ensures
        r@ == right_word(v@),
{
    match v {
        Value::Bool(_) => "boolean",
        _ => left_kind(v),
    }
}

/// An evaluation error that names an operation and both operands.
fn operands_error<R: RealOps>(start: &str, a: &Value, link: &str, b: &Value) -> (e: CalcError)
    ensures
        e.kind_of() == ErrorKind::Evaluate,
        !(a@ is Real) && !(b@ is Real) ==> e.detail() == operands_message(start@, a@, link@, b@),
{
    let left = join5(start, left_kind(a), " ", a.plain_string::<R>().as_str(), link);
    let right = join5(left.as_str(), right_kind(b), " ", b.plain_string::<R>().as_str(), ".");
    CalcError::EvaluateErr(right)
}

/// An evaluation error that names an operation and its one operand.
fn operand_error<R: RealOps>(start: &str, a: &Value, end: &str) -> (e: CalcError)
    ensures
        e.kind_of() == ErrorKind::Evaluate,
        !(a@ is Real) ==> e.detail() == operand_message(start@, a@, end@),
{
    let text = join5(start, left_kind(a), " ", a.plain_string::<R>().as_str(), end);
    CalcError::EvaluateErr(text)
}

/// An evaluation error that names an operation and both operands, for
/// operands that are no reals.
fn exact_operands_error(start: &str, a: &Value, link: &str, b: &Value) -> (e: CalcError)
    ensures
        e.kind_of() == ErrorKind::Evaluate,
        e.detail() == operands_message(start@, a@, link@, b@),
{
    let left = join5(start, left_kind(a), " ", a.exact_string().as_str(), link);
    let right = join5(left.as_str(), right_kind(b), " ", b.exact_string().as_str(), ".");
    CalcError::EvaluateErr(right)
}

/// An evaluation error that names an operation and its one operand, for
/// an operand that is no real.
fn exact_operand_error(start: &str, a: &Value, end: &str) -> (e: CalcError)
    ensures
        e.kind_of() == ErrorKind::Evaluate,
        e.detail() == operand_message(start@, a@, end@),
{
    let text = join5(start, left_kind(a), " ", a.exact_string().as_str(), end);
    CalcError::EvaluateErr(text)
}

/// The error of a division by a number that is zero; it names the kind of
/// the zero.
fn zero_divisor(divisor: &Value) -> (e: CalcError)
    ensures
        e.kind_of() == ErrorKind::Evaluate,
        e.detail() == zero_divisor_message(divisor@),
{
    match divisor {
        Value::Integer(_) => CalcError::evaluate("Nelze dělit celým číslem 0"),
        Value::BigInt(_) => CalcError::evaluate("Nelze dělit bigintem 0"),
        Value::Rational(_) => CalcError::evaluate("Nelze dělit racionálním číslem 0"),
        _ => CalcError::evaluate("Nelze dělit reálným číslem 0"),
    }
}

/// The big integer that a whole number holds.
pub fn whole_of(v: &Value) -> (r: BigInt)
    requires
        v@.is_whole(),
    ensures
        big_value(r) == v@.whole(),
{
    match v {
        Value::Integer(i) => big_from_i64(*i),
        Value::BigInt(b) => b.clone(),
        _ => big_from_i64(0),
    }
}

/// The fraction that an exact number is.
pub fn ratio_of(v: &Value) -> (r: Rational)
    requires
        v@.is_exact_number(),
    ensures
        r@ == v@.ratio(),
{
    match v {
        Value::Integer(i) => Rational::from_int(*i),
        Value::BigInt(b) => Rational::from_bigint(b.clone()),
        Value::Rational(q) => q.duplicate(),
        _ => Rational::from_int(0),
    }
}

/// The exact quotient of two exact numbers, the divisor not zero: a whole
/// number where the division leaves no remainder, else a fraction in
/// lowest terms.
pub fn exact_quotient(a: &Value, b: &Value) -> (r: Value)
    requires
        a@.is_exact_number(),
        b@.is_exact_number(),
        !b@.is_zero_number(),
    ensures
        div_spec(a@, b@) == Outcome::Exact(r@),
{
    let x = ratio_of(a);
    let y = ratio_of(b);
    match Value::Rational(x.div(y)).simplify_type_move() {
        Ok(v) => v,
        Err(_) => Value::Nothing,
    }
}

/// A real as a value: `Integer(0)` for a zero, else the real.
pub fn real_value(x: Real) -> (r: Value)
    ensures
        r@ == simplified(ValueView::Real(x)),
{
    if x.is_zero() {
        Value::Integer(0)
    } else {
        Value::Real(x)
    }
}

/// Which of the four operations.
#[derive(Clone, Copy, Debug, PartialEq, Eq, Structural)]
enum Operation {
    Plus,
    Minus,
    Times,
    Over,
}

/// One of the four operations on two numbers of which one is a real: both
/// become reals, and the real arithmetic computes.
fn real_operation<R: RealOps>(op: Operation, a: &Value, b: &Value) -> (r: Result<
    Value,
    CalcError,
>)
    requires
        a@.is_number(),
        b@.is_number(),
    ensures
        meets(r, real_outcome(a@, b@)),
{
    let x = match a.as_real::<R>() {
        Ok(x) => x,
        Err(e) => {
            return Err(e);
        },
    };
    let y = match b.as_real::<R>() {
        Ok(y) => y,
        Err(e) => {
            return Err(e);
        },
    };
    let z = match op {
        Operation::Plus => R::sum(x, y),
        Operation::Minus => R::difference(x, y),
        Operation::Times => R::product(x, y),
        Operation::Over => R::quotient(x, y),
    };
    Ok(real_value(z))
}

/// The error for a fraction with denominator 0 where fractions are added
/// or subtracted.
fn zero_denominator() -> (e: CalcError)
    ensures
        e.kind_of() == ErrorKind::Evaluate,
        e.detail() == "Zlomek s nulovým jmenovatelem nelze sčítat ani odčítat"@,
{
    CalcError::evaluate("Zlomek s nulovým jmenovatelem nelze sčítat ani odčítat")
}

impl Value {
    /// Whether this value is a real.
    pub fn is_real(&self) -> (r: bool)
        ensures
            r == (self@ is Real),
    {
        matches!(self, Value::Real(_))
    }

    /// The negation of a value that is no real.
    pub fn exact_neg(self) -> (r: Result<Value, CalcError>)
        requires
            !(self@ is Real),
        ensures
            meets(r, neg_spec(self@)),
            neg_spec(self@) is Fails ==> fails_with(r, neg_message(self@)),
    {
        match self {
            Value::Nothing => Ok(Value::Nothing),
            Value::Integer(x) => {
                if x == i64::MIN {
                    Ok(Value::BigInt(big_neg(&big_from_i64(x))))
                } else {
                    Ok(Value::Integer(-x))
                }
            },
            Value::BigInt(x) => Ok(integer_from_big(big_neg(&x))),
            Value::Rational(x) => Value::Rational(x.neg()).simplify_type_move(),
            _ => Err(exact_operand_error("Na ", &self, " nelze aplikovat unární mínus")),
        }
    }

    /// The negation of this value.
    pub fn neg<R: RealOps>(self) -> (r: Result<Value, CalcError>)
        ensures
            meets(r, neg_spec(self@)),
            neg_spec(self@) is Fails ==> fails_with(r, neg_message(self@)),
    {
        match self {
            Value::Real(x) => Ok(real_value(R::negate(x))),
            _ => self.exact_neg(),
        }
    }

    /// The sum of two values of which neither is a real.
    pub fn exact_add(self, rhs: Value) -> (r: Result<Value, CalcError>)
        requires
            !(self@ is Real),
            !(rhs@ is Real),
        ensures
            meets(r, add_spec(self@, rhs@)),
            add_spec(self@, rhs@) is Fails ==> fails_with(r, add_message(self@, rhs@)),
    {
        if matches!(self, Value::Nothing) || matches!(rhs, Value::Nothing) {
            return Ok(Value::Nothing);
        }
        if let Value::Text(x) = &self {
            return Ok(Value::Text(join2(x.as_str(), rhs.exact_string().as_str())));
        }
        if let Value::Bool(x) = &self {
            return match &rhs {
                Value::Bool(y) => Ok(Value::Bool(*x || *y)),
                _ => Err(exact_operands_error("Nelze sčítat ", &self, " a ", &rhs)),
            };
        }
        if let Value::Text(y) = &rhs {
            return Ok(Value::Text(join2(self.exact_string().as_str(), y.as_str())));
        }
        if matches!(rhs, Value::Bool(_)) {
            return Err(exact_operands_error("Nelze sčítat ", &self, " a ", &rhs));
        }
        match (&self, &rhs) {
            (Value::Integer(x), Value::Integer(y)) => {
                if let Some(sum) = x.checked_add(*y) {
                    return Ok(Value::Integer(sum));
                }
            },
            _ => {},
        }
        if !matches!(self, Value::Rational(_)) && !matches!(rhs, Value::Rational(_)) {
            return Ok(integer_from_big(big_add(&whole_of(&self), &whole_of(&rhs))));
        }
        let x = ratio_of(&self);
        let y = ratio_of(&rhs);
        if !x.can_add(&y) {
            return Err(zero_denominator());
        }
        Value::Rational(x.add(y)).simplify_type_move()
    }

    /// The sum of this value and `rhs`.
    pub fn add<R: RealOps>(self, rhs: Value) -> (r: Result<Value, CalcError>)
        ensures
            meets(r, add_spec(self@, rhs@)),
            add_spec(self@, rhs@) is Fails && !(self@ is Real) && !(rhs@ is Real) ==> fails_with(
                r,
                add_message(self@, rhs@),
            ),
    {
        if !self.is_real() && !rhs.is_real() {
            return self.exact_add(rhs);
        }
        if matches!(self, Value::Nothing) || matches!(rhs, Value::Nothing) {
            return Ok(Value::Nothing);
        }
        if let Value::Text(x) = &self {
            let other = rhs.plain_string::<R>();
            let joined = join2(x.as_str(), other.as_str());
            proof {
                assert(joined@.take(x@.len() as int) =~= x@);
                assert(joined@.skip(joined@.len() as int) =~= Seq::<char>::empty());
            }
            return Ok(Value::Text(joined));
        }
        if matches!(self, Value::Bool(_)) {
            return Err(operands_error::<R>("Nelze sčítat ", &self, " a ", &rhs));
        }
        if let Value::Text(y) = &rhs {
            let other = self.plain_string::<R>();
            let joined = join2(other.as_str(), y.as_str());
            proof {
                assert(joined@.take(0) =~= Seq::<char>::empty());
                assert(joined@.skip(joined@.len() - y@.len()) =~= y@);
            }
            return Ok(Value::Text(joined));
        }
        if matches!(rhs, Value::Bool(_)) {
            return Err(operands_error::<R>("Nelze sčítat ", &self, " a ", &rhs));
        }
        real_operation::<R>(Operation::Plus, &self, &rhs)
    }

    /// The difference of two values of which neither is a real.
    pub fn exact_sub(self, rhs: Value) -> (r: Result<Value, CalcError>)
        requires
            !(self@ is Real),
            !(rhs@ is Real),
        ensures
            meets(r, sub_spec(self@, rhs@)),
            sub_spec(self@, rhs@) is Fails ==> fails_with(r, sub_message(self@, rhs@)),
    {
        if matches!(self, Value::Nothing) || matches!(rhs, Value::Nothing) {
            return Ok(Value::Nothing);
        }
        if matches!(self, Value::Text(_)) || matches!(self, Value::Bool(_)) {
            return Err(exact_operand_error("Na ", &self, " nelze aplikovat operátor minus"));
        }
        if matches!(rhs, Value::Text(_)) || matches!(rhs, Value::Bool(_)) {
            return Err(exact_operands_error("Nelze odčítat ", &self, " a ", &rhs));
        }
        match (&self, &rhs) {
            (Value::Integer(x), Value::Integer(y)) => {
                if let Some(difference) = x.checked_sub(*y) {
                    return Ok(Value::Integer(difference));
                }
            },
            _ => {},
        }
        if !matches!(self, Value::Rational(_)) && !matches!(rhs, Value::Rational(_)) {
            return Ok(integer_from_big(big_sub(&whole_of(&self), &whole_of(&rhs))));
        }
        let x = ratio_of(&self);
        let y = ratio_of(&rhs);
        if !x.can_add(&y) {
            return Err(zero_denominator());
        }
        Value::Rational(x.sub(y)).simplify_type_move()
    }

    /// The difference of this value and `rhs`.
    pub fn sub<R: RealOps>(self, rhs: Value) -> (r: Result<Value, CalcError>)
        ensures
            meets(r, sub_spec(self@, rhs@)),
            sub_spec(self@, rhs@) is Fails && !(self@ is Real) && !(rhs@ is Real) ==> fails_with(
                r,
                sub_message(self@, rhs@),
            ),
    {
        if !self.is_real() && !rhs.is_real() {
            return self.exact_sub(rhs);
        }
        if matches!(self, Value::Nothing) || matches!(rhs, Value::Nothing) {
            return Ok(Value::Nothing);
        }
        if matches!(self, Value::Text(_)) || matches!(self, Value::Bool(_)) {
            return Err(operand_error::<R>("Na ", &self, " nelze aplikovat operátor minus"));
        }
        if matches!(rhs, Value::Text(_)) || matches!(rhs, Value::Bool(_)) {
            return Err(operands_error::<R>("Nelze odčítat ", &self, " a ", &rhs));
        }
        real_operation::<R>(Operation::Minus, &self, &rhs)
    }

    /// The product of two values of which neither is a real.
    pub fn exact_mul(self, rhs: Value) -> (r: Result<Value, CalcError>)
        requires
            !(self@ is Real),
            !(rhs@ is Real),
        ensures
            meets(r, mul_spec(self@, rhs@)),
            mul_spec(self@, rhs@) is Fails ==> fails_with(r, mul_message(self@, rhs@)),
    {
        if matches!(self, Value::Nothing) || matches!(rhs, Value::Nothing) {
            return Ok(Value::Nothing);
        }
        if matches!(self, Value::Text(_)) {
            return Err(exact_operand_error("Na ", &self, " nelze aplikovat operátor násobení"));
        }
        if let Value::Bool(x) = &self {
            return match &rhs {
                Value::Bool(y) => Ok(Value::Bool(*x && *y)),
                _ => Err(exact_operands_error("Nelze násobit ", &self, " a ", &rhs)),
            };
        }
        if matches!(rhs, Value::Text(_)) || matches!(rhs, Value::Bool(_)) {
            return Err(exact_operands_error("Nelze násobit ", &self, " a ", &rhs));
        }
        match (&self, &rhs) {
            (Value::Integer(x), Value::Integer(y)) => {
                if let Some(product) = x.checked_mul(*y) {
                    return Ok(Value::Integer(product));
                }
            },
            _ => {},
        }
        if !matches!(self, Value::Rational(_)) && !matches!(rhs, Value::Rational(_)) {
            return Ok(integer_from_big(big_mul(&whole_of(&self), &whole_of(&rhs))));
        }
        let x = ratio_of(&self);
        let y = ratio_of(&rhs);
        Value::Rational(x.mul(y)).simplify_type_move()
    }

    /// The product of this value and `rhs`.
    pub fn mul<R: RealOps>(self, rhs: Value) -> (r: Result<Value, CalcError>)
        ensures
            meets(r, mul_spec(self@, rhs@)),
            mul_spec(self@, rhs@) is Fails && !(self@ is Real) && !(rhs@ is Real) ==> fails_with(
                r,
                mul_message(self@, rhs@),
            ),
    {
        if !self.is_real() && !rhs.is_real() {
            return self.exact_mul(rhs);
        }
        if matches!(self, Value::Nothing) || matches!(rhs, Value::Nothing) {
            return Ok(Value::Nothing);
        }
        if matches!(self, Value::Text(_)) {
            return Err(operand_error::<R>("Na ", &self, " nelze aplikovat operátor násobení"));
        }
        if matches!(self, Value::Bool(_)) || matches!(rhs, Value::Text(_)) || matches!(
            rhs,
            Value::Bool(_)
        ) {
            return Err(operands_error::<R>("Nelze násobit ", &self, " a ", &rhs));
        }
        real_operation::<R>(Operation::Times, &self, &rhs)
    }

    /// Whether this value is an integer, a big integer, a fraction or a real.
    pub fn is_number(&self) -> (n: bool)
        ensures
            n == self@.is_number(),
    {
        match self {
            Value::Integer(_) => true,
            Value::BigInt(_) => true,
            Value::Rational(_) => true,
            Value::Real(_) => true,
            _ => false,
        }
    }

    /// Whether this value is a number that is zero.
    pub fn is_zero_number(&self) -> (z: bool)
        ensures
            z == self@.is_zero_number(),
    {
        match self {
            Value::Integer(i) => *i == 0,
            Value::BigInt(b) => big_is_zero(b),
            Value::Rational(q) => big_is_zero(&q.numerator),
            Value::Real(x) => x.is_zero(),
            _ => false,
        }
    }

    /// The quotient of two values of which neither is a real.
    pub fn exact_div(self, rhs: Value) -> (r: Result<Value, CalcError>)
        requires
            !(self@ is Real),
            !(rhs@ is Real),
        ensures
            meets(r, div_spec(self@, rhs@)),
            div_spec(self@, rhs@) is Fails ==> fails_with(r, div_message(self@, rhs@)),
    {
        if rhs.is_zero_number() {
            return Err(zero_divisor(&rhs));
        }
        if matches!(rhs, Value::Text(_)) {
            return Err(CalcError::evaluate("Nelze dělit textovou hodnotu."));
        }
        if matches!(rhs, Value::Bool(_)) {
            return Err(CalcError::evaluate("Nelze dělit booleovskou bodnotu"));
        }
        if matches!(self, Value::Nothing) {
            return Ok(Value::Nothing);
        }
        if matches!(self, Value::Text(_)) || matches!(self, Value::Bool(_)) {
            return Err(exact_operand_error("Na ", &self, " nelze aplikovat operátor dělení"));
        }
        if matches!(rhs, Value::Nothing) {
            return Ok(Value::Nothing);
        }
        Ok(exact_quotient(&self, &rhs))
    }

    /// The quotient of this value and `rhs`.
    pub fn div<R: RealOps>(self, rhs: Value) -> (r: Result<Value, CalcError>)
        ensures
            meets(r, div_spec(self@, rhs@)),
            div_spec(self@, rhs@) is Fails && !(self@ is Real) ==> fails_with(
                r,
                div_message(self@, rhs@),
            ),
            rhs@.is_zero_number() ==> fails_with(r, zero_divisor_message(rhs@)),
    {
        if !self.is_real() && !rhs.is_real() {
            return self.exact_div(rhs);
        }
        if rhs.is_zero_number() {
            return Err(zero_divisor(&rhs));
        }
        if matches!(rhs, Value::Text(_)) {
            return Err(CalcError::evaluate("Nelze dělit textovou hodnotu."));
        }
        if matches!(rhs, Value::Bool(_)) {
            return Err(CalcError::evaluate("Nelze dělit booleovskou bodnotu"));
        }
        if matches!(self, Value::Nothing) {
            return Ok(Value::Nothing);
        }
        if matches!(self, Value::Text(_)) || matches!(self, Value::Bool(_)) {
            return Err(operand_error::<R>("Na ", &self, " nelze aplikovat operátor dělení"));
        }
        if matches!(rhs, Value::Nothing) {
            return Ok(Value::Nothing);
        }
        real_operation::<R>(Operation::Over, &self, &rhs)
    }

    /// This value raised to `rhs`, where the power is not computed in
    /// reals.
    pub fn exact_pow(self, rhs: &Value) -> (r: Result<Value, CalcError>)
        requires
            !(self@ is Real),
            !(rhs@ is Real),
            !(pow_spec(self@, rhs@) is Approx),
        ensures
            meets(r, pow_spec(self@, rhs@)),
            pow_spec(self@, rhs@) is Fails ==> fails_with(r, pow_message(self@, rhs@)),
    {
        if matches!(self, Value::Nothing) || matches!(rhs, Value::Nothing) {
            return Ok(Value::Nothing);
        }
        if matches!(self, Value::BigInt(_)) {
            return Err(CalcError::evaluate("Mocnění velkých celých čísel není povoleno"));
        }
        if matches!(self, Value::Text(_)) || matches!(self, Value::Bool(_)) {
            return Err(exact_operand_error("Nelze mocnit ", &self, "."));
        }
        if matches!(rhs, Value::BigInt(_)) {
            return Err(CalcError::evaluate("Mocnění velkých celých čísel není povoleno"));
        }
        if matches!(rhs, Value::Text(_)) || matches!(rhs, Value::Bool(_)) {
            return Err(exact_operands_error("Nelze mocnit ", &self, " na ", rhs));
        }
        match (&self, rhs) {
            (Value::Rational(x), Value::Integer(y)) => ratio_power(x, *y),
            (Value::Integer(x), Value::Integer(y)) => integer_power(*x, *y),
            _ => unreached(),
        }
    }

    /// This value raised to `rhs`.
    pub fn pow<R: RealOps>(self, rhs: &Value) -> (r: Result<Value, CalcError>)
        ensures
            meets(r, pow_spec(self@, rhs@)),
            pow_spec(self@, rhs@) is Fails && !(self@ is Real) && !(rhs@ is Real) ==> fails_with(
                r,
                pow_message(self@, rhs@),
            ),
    {
        let in_reals = self.is_real() || rhs.is_real() || (matches!(rhs, Value::Rational(_))
            && self.is_number() && !matches!(self, Value::BigInt(_)));
        if !in_reals {
            return self.exact_pow(rhs);
        }
        if matches!(self, Value::Nothing) || matches!(rhs, Value::Nothing) {
            return Ok(Value::Nothing);
        }
        if matches!(self, Value::BigInt(_)) {
            return Err(CalcError::evaluate("Mocnění velkých celých čísel není povoleno"));
        }
        if matches!(self, Value::Text(_)) || matches!(self, Value::Bool(_)) {
            return Err(operand_error::<R>("Nelze mocnit ", &self, "."));
        }
        if matches!(rhs, Value::BigInt(_)) {
            return Err(CalcError::evaluate("Mocnění velkých celých čísel není povoleno"));
        }
        if matches!(rhs, Value::Text(_)) || matches!(rhs, Value::Bool(_)) {
            return Err(operands_error::<R>("Nelze mocnit ", &self, " na ", rhs));
        }
        let x = match self.as_real::<R>() {
            Ok(x) => x,
            Err(e) => {
                return Err(e);
            },
        };
        let y = match rhs.as_real::<R>() {
            Ok(y) => y,
            Err(e) => {
                return Err(e);
            },
        };
        Ok(real_value(R::power(x, y)))
    }
}

/// `i64::checked_pow`: the power, where an `i64` can hold it.
#[verifier::external_body]
fn checked_pow_i64(base: i64, exponent: u32) -> (r: Option<i64>)
    ensures
        r == (if i64::MIN <= pow(base as int, exponent as nat) <= i64::MAX {
            Some(pow(base as int, exponent as nat) as i64)
        } else {
            None
        }),
{
    base.checked_pow(exponent)
}

/// The error of a power whose exponent is out of reach.
fn exponent_too_large() -> (e: CalcError)
    ensures
        e.kind_of() == ErrorKind::Evaluate,
        e.detail() == "Exponent je příliš velký"@,
{
    CalcError::evaluate("Exponent je příliš velký")
}

/// An integer raised to an integer, exactly: the power where an `i64` can
/// hold it, else a big integer; under a negative exponent, 1 divided by
/// the power.
pub fn integer_power(base: i64, exponent: i64) -> (r: Result<Value, CalcError>)
    ensures
        meets(r, integer_pow_spec(base, exponent)),
        integer_pow_spec(base, exponent) is Fails ==> fails_with(
            r,
            pow_message(ValueView::Integer(base), ValueView::Integer(exponent)),
        ),
{
    let k = magnitude(exponent);
    let big_base = big_from_i64(base);
    let power = if k <= 0xFFFF_FFFFu64 {
        match checked_pow_i64(base, k as u32) {
            Some(p) => Value::Integer(p),
            None => Value::BigInt(big_pow(&big_base, k as u32)),
        }
    } else if is_unit(&big_base) {
        integer_from_big(big_power(&big_base, k))
    } else {
        return Err(exponent_too_large());
    };
    if exponent >= 0 {
        Ok(power)
    } else if power.is_zero_number() {
        Err(CalcError::evaluate("Nelze dělit celým číslem 0"))
    } else {
        Ok(exact_quotient(&Value::Integer(1), &power))
    }
}

/// A fraction raised to an integer, exactly and simplified.
pub fn ratio_power(base: &Rational, exponent: i64) -> (r: Result<Value, CalcError>)
    ensures
        meets(r, ratio_pow_spec(base@, exponent)),
        ratio_pow_spec(base@, exponent) is Fails ==> fails_with(
            r,
            pow_message(ValueView::Rational(base@), ValueView::Integer(exponent)),
        ),
{
    if !base.can_pow(exponent) {
        return Err(exponent_too_large());
    }
    if exponent < 0 && big_is_zero(&base.numerator) {
        return Err(CalcError::evaluate("Nelze dělit racionálním číslem 0"));
    }
    Value::Rational(base.pow_int(exponent)).simplify_type_move()
}

/// Simplifying leaves the least general kind: a fraction that is left is
/// in lowest terms and no whole number, a big integer that is left fits
/// no `i64`, a real that is left is not zero. Simplifying once more
/// changes nothing.
pub proof fn lemma_simplified_is_simplest(v: ValueView)
    ensures
        simplified(simplified(v)) == simplified(v),
        simplified(v) matches ValueView::Rational(q) ==> q.num != 0 && reduced(q) == q
            && ratio_whole(q) is None,
        simplified(v) matches ValueView::BigInteger(b) ==> !fits_i64(b),
        simplified(v) matches ValueView::Real(x) ==> !x.zero(),
{
    if let ValueView::Rational(q) = v {
        lemma_reduced_idempotent(q);
        lemma_reduced_keeps_signs(q);
    }
}

/// Every operator gives a simplified value: no sum, difference, product,
/// quotient, power or negation is a fraction that is a whole number, or a
/// big integer that an `i64` can hold.
pub proof fn lemma_operations_simplify(a: ValueView, b: ValueView)
    ensures
        add_spec(a, b) matches Outcome::Exact(v) ==> (a is Text || b is Text || simplified(v)
            == v),
        sub_spec(a, b) matches Outcome::Exact(v) ==> simplified(v) == v,
        mul_spec(a, b) matches Outcome::Exact(v) ==> simplified(v) == v,
        div_spec(a, b) matches Outcome::Exact(v) ==> simplified(v) == v,
        pow_spec(a, b) matches Outcome::Exact(v) ==> simplified(v) == v,
        neg_spec(a) matches Outcome::Exact(v) ==> simplified(v) == v,
{
    lemma_simplified_is_simplest(ValueView::Rational(ratio_add(a.ratio(), b.ratio())));
    lemma_simplified_is_simplest(ValueView::Rational(ratio_sub(a.ratio(), b.ratio())));
    lemma_simplified_is_simplest(ValueView::Rational(ratio_mul(a.ratio(), b.ratio())));
    lemma_simplified_is_simplest(ValueView::Rational(ratio_div(a.ratio(), b.ratio())));
    if a is Rational {
        lemma_simplified_is_simplest(ValueView::Rational(ratio_neg(a->Rational_0)));
        if b is Integer {
            lemma_simplified_is_simplest(
                ValueView::Rational(ratio_pow(a->Rational_0, b->Integer_0 as int)),
            );
        }
    }
    if a is Integer && b is Integer {
        let power = integer_value(
            pow(a->Integer_0 as int, abs(b->Integer_0 as int) as nat),
        );
        lemma_simplified_is_simplest(
            ValueView::Rational(ratio_div(ValueView::Integer(1).ratio(), power.ratio())),
        );
    }
}

/// A quotient keeps its sign: a whole number divided by a whole number
/// that divides it gives the whole quotient, whatever the sign of the
/// divisor.
pub proof fn lemma_exact_quotient(q: int, y: int)
    requires
        y != 0,
    ensures
        div_spec(integer_value(q * y), integer_value(y)) == Outcome::Exact(integer_value(q)),
{
    let x = q * y;
    let g = gcd(x, y);
    assert(x * 1 == x && 1 * y == y);
    lemma_gcd_properties(x, y);
    assert(x == y * q) by (nonlinear_arith)
        requires
            x == q * y,
    ;
    lemma_divides_witness(y, q);
    lemma_divides_witness(y, 1);
    assert(y == y * 1);
    assert(divides(y, g));
    lemma_divides_abs(g, y);
    let m = choose|m: int| g == #[trigger] (y * m);
    assert(g == abs(y) * (if y < 0 {
        -m
    } else {
        m
    })) by (nonlinear_arith)
        requires
            g == y * m,
    ;
    lemma_divides_witness(abs(y), if y < 0 {
        -m
    } else {
        m
    });
    lemma_divides_antisymmetric(abs(y), g);
    lemma_exact_div(x, g);
    lemma_exact_div(y, g);
    let n = x / g;
    let d = y / g;
    assert(d == (if y < 0 {
        -1int
    } else {
        1int
    }) && n == q * d) by (nonlinear_arith)
        requires
            n * g == q * y,
            d * g == y,
            g == abs(y),
            y != 0,
    ;
    assert(x == 0 <==> q == 0) by (nonlinear_arith)
        requires
            x == q * y,
            y != 0,
    ;
    assert(ratio_whole(reduced(Ratio { num: x, den: y })) == Some(q));
    lemma_reduced_idempotent(Ratio { num: x, den: y });
    lemma_reduced_keeps_signs(Ratio { num: x, den: y });
}

/// Addition and multiplication of exact numbers do not depend on the order
/// of the operands.
pub proof fn lemma_exact_operations_commute(a: ValueView, b: ValueView)
    requires
        a.is_exact_number(),
        b.is_exact_number(),
    ensures
        add_spec(a, b) == add_spec(b, a),
        mul_spec(a, b) == mul_spec(b, a),
{
    lemma_ratio_add_commutes(a.ratio(), b.ratio());
    lemma_ratio_mul_commutes(a.ratio(), b.ratio());
    assert(a.whole() * b.whole() == b.whole() * a.whole()) by (nonlinear_arith);
}

/// A sum of integers that no `i64` can hold is a big integer with the
/// exact sum; no sum wraps around.
pub proof fn lemma_integer_sum_is_exact(x: i64, y: i64)
    ensures
        add_spec(ValueView::Integer(x), ValueView::Integer(y)) == Outcome::Exact(
            integer_value(x + y),
        ),
        integer_value(x + y).whole() == x + y,
{
}

/// `Nothing` propagates: a sum, a difference, a product and a power of
/// which an operand is `Nothing` are `Nothing`, whatever the other operand
/// is. So is a quotient, unless an operand is a text or a boolean, which
/// no division takes, or the divisor is zero.
pub proof fn lemma_nothing_propagates(a: ValueView)
    ensures
        add_spec(a, ValueView::Nothing) == Outcome::Exact(ValueView::Nothing),
        add_spec(ValueView::Nothing, a) == Outcome::Exact(ValueView::Nothing),
        sub_spec(a, ValueView::Nothing) == Outcome::Exact(ValueView::Nothing),
        sub_spec(ValueView::Nothing, a) == Outcome::Exact(ValueView::Nothing),
        mul_spec(a, ValueView::Nothing) == Outcome::Exact(ValueView::Nothing),
        mul_spec(ValueView::Nothing, a) == Outcome::Exact(ValueView::Nothing),
        pow_spec(a, ValueView::Nothing) == Outcome::Exact(ValueView::Nothing),
        pow_spec(ValueView::Nothing, a) == Outcome::Exact(ValueView::Nothing),
        !(a is Text) && !(a is Bool) ==> div_spec(a, ValueView::Nothing) == Outcome::Exact(
            ValueView::Nothing,
        ),
        !(a is Text) && !(a is Bool) && !a.is_zero_number() ==> div_spec(ValueView::Nothing, a)
            == Outcome::Exact(ValueView::Nothing),
{
}

/// A division by a number that is zero fails, whatever is divided.
pub proof fn lemma_division_by_zero_fails(a: ValueView, b: ValueView)
    requires
        b.is_zero_number(),
    ensures
        div_spec(a, b) == Outcome::Fails(ErrorKind::Evaluate),
{
}

/// The quotient of two whole numbers is a whole number where the division
/// leaves no remainder, and else the fraction in lowest terms: never a
/// quotient that is cut off.
pub proof fn lemma_whole_quotient(x: int, y: int)
    requires
        y != 0,
    ensures
        div_spec(integer_value(x), integer_value(y)) == Outcome::Exact(
            simplified(ValueView::Rational(reduced(Ratio { num: x, den: y }))),
        ),
{
    assert(x * 1 == x && 1 * y == y);
}

} // verus!
