//! The values that the calculator computes with, and their literal forms.

use crate::base::{CalcError, ErrorKind};
use crate::big::{
    big_is_zero, big_literal, big_parse, big_to_i64, big_to_string, big_value, digit_value,
    int_decimal, is_digit, nat_decimal,
};
use crate::rational::{decimal_ratio, ratio_text, ratio_whole, reduced, Ratio, Rational};
use crate::reals::{Real, RealOps, E_BITS, PI_BITS, SQRT2_BITS, SQRT3_BITS};
use crate::text::{
    char_range, chars_of, decimal_value, i64_literal, i64_to_string, is_whitespace, join2, join3,
    lowercase_of, owned, parse_i64, text_eq, to_lowercase, trim, trimmed,
};
use num_bigint::BigInt;
use vstd::prelude::*;
use vstd::string::*;

verus! {

/// The mathematical content of a [`Value`].
pub ghost enum ValueView {
    Nothing,
    Integer(i64),
    BigInteger(int),
    Rational(Ratio),
    Real(Real),
    Text(Seq<char>),
    Bool(bool),
}

/// A value of one of the kinds that the calculator knows.
#[derive(Debug, Clone, PartialEq)]
pub enum Value {
    Nothing,
    Integer(i64),
    BigInt(BigInt),
    Rational(Rational),
    Real(Real),
    Text(String),
    Bool(bool),
}

impl View for Value {
    type V = ValueView;

    open spec fn view(&self) -> ValueView {
        match self {
            Value::Nothing => ValueView::Nothing,
            Value::Integer(i) => ValueView::Integer(*i),
            Value::BigInt(b) => ValueView::BigInteger(big_value(*b)),
            Value::Rational(q) => ValueView::Rational(q@),
            Value::Real(r) => ValueView::Real(*r),
            Value::Text(t) => ValueView::Text(t@),
            Value::Bool(b) => ValueView::Bool(*b),
        }
    }
}

impl Default for Value {
    /// The value that stands for nothing.
    fn default() -> (r: Self)
        ensures
            r@ == ValueView::Nothing,
    {
        Value::Nothing
    }
}

/// An `i64` can hold `n`.
pub open spec fn fits_i64(n: int) -> bool {
    i64::MIN <= n <= i64::MAX
}

/// The integer `n` as the least general value: an `Integer` where an `i64`
/// can hold it, else a `BigInteger`.
pub open spec fn integer_value(n: int) -> ValueView {
    if fits_i64(n) {
        ValueView::Integer(n as i64)
    } else {
        ValueView::BigInteger(n)
    }
}

/// The least general value that stands for `v` exactly: a zero real and a
/// fraction with numerator 0 become `Integer(0)`; a fraction is reduced, and
/// with denominator 1 or -1 it becomes the whole number that it is; an
/// integer becomes an `Integer` where an `i64` can hold it.
pub open spec fn simplified(v: ValueView) -> ValueView {
    match v {
        ValueView::Real(r) => if r.zero() {
            ValueView::Integer(0)
        } else {
            v
        },
        ValueView::BigInteger(b) => integer_value(b),
        ValueView::Rational(q) => if q.num == 0 {
            ValueView::Integer(0)
        } else {
            match ratio_whole(reduced(q)) {
                Some(n) => integer_value(n),
                None => ValueView::Rational(reduced(q)),
            }
        },
        _ => v,
    }
}

/// What a text holds between its quotes, where it is a quoted text: after
/// trimming it starts and ends with `"` and holds no other `"`.
pub open spec fn string_literal(s: Seq<char>) -> Option<Seq<char>> {
    let t = trimmed(s);
    if t.len() >= 2 && t[0] == '"' && t.last() == '"' && (forall|i: int|
        0 < i < t.len() - 1 ==> #[trigger] t[i] != '"') {
        Some(t.subrange(1, t.len() - 1))
    } else {
        None
    }
}

/// The value of a named constant, looked up by the trimmed lower-case name.
pub open spec fn named_const(name: Seq<char>) -> Option<ValueView> {
    let key = lowercase_of(trimmed(name));
    if key == "pi"@ {
        Some(ValueView::Real(Real { bits: PI_BITS }))
    } else if key == "e"@ {
        Some(ValueView::Real(Real { bits: E_BITS }))
    } else if key == "sqrt2"@ {
        Some(ValueView::Real(Real { bits: SQRT2_BITS }))
    } else if key == "sqrt3"@ {
        Some(ValueView::Real(Real { bits: SQRT3_BITS }))
    } else if key == "i64max"@ {
        Some(ValueView::Integer(i64::MAX))
    } else if key == "i64min"@ {
        Some(ValueView::Integer(i64::MIN))
    } else {
        None
    }
}

/// What a literal denotes, as far as the text alone decides it. The forms
/// are tried in this order: quoted text, 64-bit integer, big integer,
/// decimal number, named constant, `true` or `false`. `None` for a text of
/// none of these forms: whether it denotes a real is for the real
/// arithmetic to say.
pub open spec fn literal_value(s: Seq<char>) -> Option<ValueView> {
    let t = trimmed(s);
    if string_literal(t) is Some {
        Some(ValueView::Text(string_literal(t)->0))
    } else if i64_literal(t) is Some {
        Some(ValueView::Integer(i64_literal(t)->0))
    } else if big_literal(t) is Some {
        Some(simplified(ValueView::BigInteger(big_literal(t)->0)))
    } else if decimal_ratio(t) is Ok {
        Some(simplified(ValueView::Rational(decimal_ratio(t)->Ok_0)))
    } else if named_const(t) is Some {
        named_const(t)
    } else if t == "true"@ {
        Some(ValueView::Bool(true))
    } else if t == "false"@ {
        Some(ValueView::Bool(false))
    } else {
        None
    }
}

/// The text of a value without a mark of its kind, as it stands in a
/// message or joins a text; a real has none here, since its text is for the
/// real arithmetic to give.
pub open spec fn plain_text(v: ValueView) -> Seq<char> {
    match v {
        ValueView::Nothing => Seq::empty(),
        ValueView::Integer(i) => int_decimal(i as int),
        ValueView::BigInteger(b) => int_decimal(b),
        ValueView::Rational(q) => ratio_text(q),
        ValueView::Real(_) => Seq::empty(),
        ValueView::Text(t) => t,
        ValueView::Bool(b) => if b {
            "true"@
        } else {
            "false"@
        },
    }
}

/// The text that shows a value: numbers with a mark of their kind, a text
/// in quotes, a boolean bare. For a real only the mark is fixed here.
pub open spec fn shown_text(v: ValueView) -> Seq<char> {
    match v {
        ValueView::Nothing => "{}"@,
        ValueView::Integer(_) => plain_text(v) + "\t(integer)"@,
        ValueView::BigInteger(_) => plain_text(v) + "\t(big integer)"@,
        ValueView::Rational(_) => plain_text(v) + "\t(rational)"@,
        ValueView::Real(_) => "\t(real)"@,
        ValueView::Text(t) => "\""@ + t + "\""@,
        ValueView::Bool(_) => plain_text(v),
    }
}

/// Whether a text is a quoted text, and what it holds between the quotes.
pub fn value_is_string_literal(expr: &str) -> (r: Option<&str>)
    ensures
        r is Some <==> string_literal(expr@) is Some,
        r matches Some(inner) ==> Some(inner@) == string_literal(expr@),
{
    let t = trim(expr);
    let chars = chars_of(t);
    let len = chars.len();
    if len >= 2 && chars[0] == '"' && chars[len - 1] == '"' {
        let mut idx: usize = 1;
        while idx < len - 1
            invariant
                chars@ == t@,
                t@ == trimmed(expr@),
                len == chars@.len(),
                len >= 2,
                1 <= idx <= len - 1,
                forall|i: int| 0 < i < idx ==> #[trigger] t@[i] != '"',
            decreases len - idx,
        {
            if chars[idx] == '"' {
                assert(t@[idx as int] == '"');
                return None;
            }
            idx = idx + 1;
        }
        Some(char_range(t, 1, len - 1))
    } else {
        None
    }
}

/// The value of a named constant, if `name` names one.
pub fn is_named_const(name: &str) -> (r: Option<Value>)
    ensures
        r is Some <==> named_const(name@) is Some,
        r matches Some(v) ==> Some(v@) == named_const(name@),
{
    let lowered = to_lowercase(trim(name));
    let key = lowered.as_str();
    if text_eq(key, "pi") {
        Some(Value::Real(Real { bits: PI_BITS }))
    } else if text_eq(key, "e") {
        Some(Value::Real(Real { bits: E_BITS }))
    } else if text_eq(key, "sqrt2") {
        Some(Value::Real(Real { bits: SQRT2_BITS }))
    } else if text_eq(key, "sqrt3") {
        Some(Value::Real(Real { bits: SQRT3_BITS }))
    } else if text_eq(key, "i64max") {
        Some(Value::Integer(i64::MAX))
    } else if text_eq(key, "i64min") {
        Some(Value::Integer(i64::MIN))
    } else {
        None
    }
}

/// The integer that a big integer holds, as the least general value.
pub fn integer_from_big(b: BigInt) -> (r: Value)
    ensures
        r@ == integer_value(big_value(b)),
{
    match big_to_i64(&b) {
        Some(i) => Value::Integer(i),
        None => Value::BigInt(b),
    }
}

impl Value {
    /// A copy of this value.
    pub fn duplicate(&self) -> (r: Value)
        ensures
            r@ == self@,
    {
        match self {
            Value::Nothing => Value::Nothing,
            Value::Integer(i) => Value::Integer(*i),
            Value::BigInt(b) => Value::BigInt(b.clone()),
            Value::Rational(q) => Value::Rational(q.duplicate()),
            Value::Real(r) => Value::Real(*r),
            Value::Text(t) => Value::Text(t.clone()),
            Value::Bool(b) => Value::Bool(*b),
        }
    }

    /// This value as a real. Only a number has one, and a big integer or a
    /// fraction only where the real arithmetic finds one.
    pub fn as_real<R: RealOps>(&self) -> (r: Result<Real, CalcError>)
        ensures
            r matches Err(e) ==> e.kind_of() == ErrorKind::Evaluate,
            self@ is Nothing || self@ is Text || self@ is Bool ==> r is Err,
            self@ is Integer ==> r is Ok,
            self@ matches ValueView::Real(x) ==> r == Ok::<Real, CalcError>(x),
    {
        match self {
            Value::Nothing => Err(
                CalcError::evaluate("Hodnota Nothing nelze převést na reálné číslo!"),
            ),
            Value::Integer(i) => Ok(R::from_int(*i)),
            Value::BigInt(b) => match R::from_big(b) {
                Some(x) => Ok(x),
                None => Err(
                    CalcError::evaluate("Nepodařilo se převést BigInt na reálné číslo"),
                ),
            },
            Value::Rational(q) => match q.to_real::<R>() {
                Some(x) => Ok(x),
                None => Err(
                    CalcError::evaluate("Nepodařilo se převést zlomek na reálné číslo"),
                ),
            },
            Value::Real(x) => Ok(*x),
            Value::Text(_) => Err(
                CalcError::evaluate("Hodnota Text nelze převést na reálné číslo!"),
            ),
            Value::Bool(_) => Err(
                CalcError::evaluate("Hodnota Bool nelze převést na reálné číslo!"),
            ),
        }
    }

    /// The value that a literal denotes. Where the text alone decides it,
    /// the result is that value; otherwise the text is handed to the real
    /// arithmetic, and it is a real or not a value at all.
    pub fn parse<R: RealOps>(value: &str) -> (r: Result<Value, CalcError>)
        ensures
            literal_value(value@) matches Some(v) ==> r matches Ok(x) && x@ == v,
            literal_value(value@) is None ==> match r {
                Ok(x) => x@ is Real,
                Err(e) => e.kind_of() == ErrorKind::Evaluate && e.detail() == "Výraz '"@
                    + trimmed(value@) + "' není platná hodnota."@,
            },
    {
        let value = trim(value);
        if let Some(inner) = value_is_string_literal(value) {
            return Ok(Value::Text(owned(inner)));
        }
        if let Some(integer) = parse_i64(value) {
            return Ok(Value::Integer(integer));
        }
        if let Ok(big) = big_parse(value) {
            return Value::BigInt(big).simplify_type_move();
        }
        if let Ok(ratio) = Rational::from_decimal_string(value) {
            return Value::Rational(ratio).simplify_type_move();
        }
        if let Some(constant) = is_named_const(value) {
            return Ok(constant);
        }
        if text_eq(value, "true") {
            return Ok(Value::Bool(true));
        }
        if text_eq(value, "false") {
            return Ok(Value::Bool(false));
        }
        match R::parse(value) {
            Some(x) => Ok(Value::Real(x)),
            None => Err(
                CalcError::EvaluateErr(join3("Výraz '", value, "' není platná hodnota.")),
            ),
        }
    }

    /// The least general value that stands for this one exactly. It never
    /// fails.
    pub fn simplify_type_move(self) -> (r: Result<Value, CalcError>)
        ensures
            r matches Ok(x) && x@ == simplified(self@),
    {
        let val = match self {
            Value::Nothing => Value::Nothing,
            Value::Integer(i) => Value::Integer(i),
            Value::Text(t) => Value::Text(t),
            Value::Bool(b) => Value::Bool(b),
            Value::Real(x) => {
                if x.is_zero() {
                    Value::Integer(0)
                } else {
                    Value::Real(x)
                }
            },
            Value::BigInt(b) => integer_from_big(b),
            Value::Rational(q) => {
                if big_is_zero(&q.numerator) {
                    return Ok(Value::Integer(0));
                }
                let q = q.reduce_move();
                match q.to_whole() {
                    Some(n) => integer_from_big(n),
                    None => Value::Rational(q),
                }
            },
        };
        Ok(val)
    }

    /// The text of this value without a mark of its kind, as far as no
    /// real arithmetic is needed for it: a real has the empty text here.
    pub fn exact_string(&self) -> (r: String)
        ensures
            r@ == plain_text(self@),
    {
        proof {
            reveal_strlit("");
        }
        match self {
            Value::Nothing => owned(""),
            Value::Integer(i) => i64_to_string(*i),
            Value::BigInt(b) => big_to_string(b),
            Value::Rational(q) => q.to_string(),
            Value::Real(_) => owned(""),
            Value::Text(t) => t.clone(),
            Value::Bool(b) => if *b {
                owned("true")
            } else {
                owned("false")
            },
        }
    }

    /// The text of this value without a mark of its kind.
    pub fn plain_string<R: RealOps>(&self) -> (r: String)
        ensures
            !(self@ is Real) ==> r@ == plain_text(self@),
    {
        match self {
            Value::Real(x) => R::format(*x),
            _ => self.exact_string(),
        }
    }

    /// The text that shows this value: numbers with a mark of their kind, a
    /// text in quotes, a boolean bare.
    pub fn to_string<R: RealOps>(&self) -> (r: String)
        ensures
            !(self@ is Real) ==> r@ == shown_text(self@),
            self@ is Real ==> exists|number: Seq<char>| r@ == number + shown_text(self@),
    {
        let plain = self.plain_string::<R>();
        proof {
            if self@ is Real {
                assert(plain@ + "\t(real)"@ == plain@ + shown_text(self@));
            }
        }
        match self {
            Value::Nothing => owned("{}"),
            Value::Integer(_) => join2(plain.as_str(), "\t(integer)"),
            Value::BigInt(_) => join2(plain.as_str(), "\t(big integer)"),
            Value::Rational(_) => join2(plain.as_str(), "\t(rational)"),
            Value::Real(_) => join2(plain.as_str(), "\t(real)"),
            Value::Text(_) => join3("\"", plain.as_str(), "\""),
            Value::Bool(_) => plain,
        }
    }
}

/// The decimal form of a natural number holds digits only, at least one,
/// and its value is the number.
pub proof fn lemma_nat_decimal(m: nat)
    ensures
        nat_decimal(m).len() >= 1,
        forall|i: int| 0 <= i < nat_decimal(m).len() ==> is_digit(#[trigger] nat_decimal(m)[i]),
        decimal_value(nat_decimal(m)) == m,
    decreases m,
{
    let d = (m % 10) as int;
    let last = ('0' as int + d) as char;
    assert('0' as int == 48);
    assert(last as int == 48 + d);
    assert(is_digit(last) && digit_value(last) == d);
    if m < 10 {
        assert(nat_decimal(m) =~= seq![last]);
        assert(seq![last].drop_last() =~= Seq::<char>::empty());
        assert(decimal_value(seq![last]) == decimal_value(Seq::<char>::empty()) * 10 + d);
    } else {
        lemma_nat_decimal(m / 10);
        let head = nat_decimal(m / 10);
        assert(nat_decimal(m) =~= head.push(last));
        assert(head.push(last).drop_last() =~= head);
        assert(decimal_value(head.push(last)) == decimal_value(head) * 10 + d);
    }
}

/// A text that neither starts nor ends with white space is trimmed
/// already.
pub proof fn lemma_trimmed_is_identity(s: Seq<char>)
    requires
        s.len() > 0,
        !is_whitespace(s[0]),
        !is_whitespace(s.last()),
    ensures
        trimmed(s) == s,
{
}

/// Every integer comes back from its decimal form: the literal that the
/// digits of an `i64` make denotes that integer.
pub proof fn lemma_integer_round_trip(n: i64)
    ensures
        literal_value(int_decimal(n as int)) == Some(ValueView::Integer(n)),
{
    let s = int_decimal(n as int);
    let m: nat = if n < 0 {
        (-(n as int)) as nat
    } else {
        n as nat
    };
    let digits = nat_decimal(m);
    lemma_nat_decimal(m);
    assert(is_digit(digits[0]) && is_digit(digits.last()));
    if n < 0 {
        assert(s =~= seq!['-'] + digits);
        assert(s[0] == '-');
        assert(s.last() == digits.last());
        assert(s.skip(1) =~= digits);
    } else {
        assert(s == digits);
    }
    lemma_trimmed_is_identity(s);
    assert(trimmed(s) == s);
    assert(string_literal(s) is None);
    assert(i64_literal(s) == Some(n));
}

} // verus!
