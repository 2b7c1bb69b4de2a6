use neucalc::base::{CalcError, ErrorKind};
use neucalc::func_call::FuncCall;
use neucalc::order::{compare_positive_rationals, exceeds, max, ratio_less};
use neucalc::wage::{cista_mzda, cista_mzda_impl, is_negative, is_positive, net_wage};
use neucalc::rational::{big_power, is_unit, magnitude, Rational};
use neucalc::reals::{Real, RealOps, E_BITS, PI_BITS, SQRT2_BITS, SQRT3_BITS};
use neucalc::std_funcs::{
    abs, comb, comb_internal, fact, ln, nck, nck_internal, sin, sin_values_match_deg, sind, sinpi,
    sqrt,
};
use neucalc::value::{is_named_const, value_is_string_literal, Value};
use neucalc::value_algebra::{integer_power, ratio_power};
use num_bigint::BigInt;
use num_traits::{FromPrimitive, ToPrimitive};
use std::cmp::Ordering;

struct Doubles;

fn r64(x: f64) -> Real {
    Real::from_bits(x.to_bits())
}

fn double(r: Real) -> f64 {
    f64::from_bits(r.to_bits())
}

impl RealOps for Doubles {
    fn from_int(i: i64) -> Real {
        r64(i as f64)
    }

    fn from_big(b: &BigInt) -> Option<Real> {
        b.to_f64().map(r64)
    }

    fn to_int(r: Real) -> i64 {
        double(r) as i64
    }

    fn to_big(r: Real) -> Option<BigInt> {
        BigInt::from_f64(double(r))
    }

    fn parse(text: &str) -> Option<Real> {
        text.parse::<f64>().ok().map(r64)
    }

    fn format(r: Real) -> String {
        double(r).to_string()
    }

    fn negate(r: Real) -> Real {
        r64(-double(r))
    }

    fn abs(r: Real) -> Real {
        r64(double(r).abs())
    }

    fn sum(a: Real, b: Real) -> Real {
        r64(double(a) + double(b))
    }

    fn difference(a: Real, b: Real) -> Real {
        r64(double(a) - double(b))
    }

    fn product(a: Real, b: Real) -> Real {
        r64(double(a) * double(b))
    }

    fn quotient(a: Real, b: Real) -> Real {
        r64(double(a) / double(b))
    }

    fn power(a: Real, b: Real) -> Real {
        r64(double(a).powf(double(b)))
    }

    fn ln(r: Real) -> Real {
        r64(double(r).ln())
    }

    fn sqrt(r: Real) -> Real {
        r64(double(r).sqrt())
    }

    fn sin(r: Real) -> Real {
        r64(double(r).sin())
    }

    fn to_radians(r: Real) -> Real {
        r64(double(r).to_radians())
    }

    fn ceil(r: Real) -> Real {
        r64(double(r).ceil())
    }

    fn less(a: Real, b: Real) -> bool {
        double(a) < double(b)
    }
}

fn big(text: &str) -> BigInt {
    text.parse::<BigInt>().unwrap()
}

fn raw(n: i64, d: i64) -> Rational {
    Rational { numerator: BigInt::from(n), denominator: BigInt::from(d) }
}

fn fraction(n: i64, d: i64) -> Value {
    Value::Rational(raw(n, d))
}

fn parse(text: &str) -> Result<Value, CalcError> {
    Value::parse::<Doubles>(text)
}

#[test]
fn integers_round_trip() {
    for n in [0i64, 1, -1, 7, 10, -10, 123456789, i64::MAX, i64::MIN, i64::MAX - 1, i64::MIN + 1] {
        assert_eq!(parse(&n.to_string()), Ok(Value::Integer(n)));
    }
}

#[test]
fn reduction_gives_lowest_terms() {
    assert_eq!(Rational::new(6, 4), raw(3, 2));
    assert_eq!(Rational::new(-6, 4), raw(-3, 2));
    assert_eq!(Rational::new(6, -4), raw(3, -2));
    assert_eq!(Rational::new(0, 5), raw(0, 1));
    assert_eq!(Rational::new(5, 0), raw(1, 0));
    assert_eq!(Rational::new(0, 0), raw(0, 0));
    assert_eq!(Rational::new(7, 3), raw(7, 3));
    assert_eq!(raw(6, 4).reduce_move(), raw(3, 2));
}

#[test]
fn reduction_is_idempotent() {
    for (n, d) in [(6, 4), (-6, 4), (0, 5), (0, 0), (17, 5), (100, 10), (3, -9)] {
        let once = raw(n, d).reduce_move();
        assert_eq!(once.clone().reduce_move(), once);
    }
}

#[test]
fn rational_arithmetic() {
    assert_eq!(raw(1, 2).add(raw(1, 3)), raw(5, 6));
    assert_eq!(raw(1, 6).add(raw(1, 3)), raw(1, 2));
    assert_eq!(raw(1, 4).add(raw(1, 4)), raw(1, 2));
    assert_eq!(raw(1, 2).sub(raw(1, 3)), raw(1, 6));
    assert_eq!(raw(2, 3).mul(raw(3, 4)), raw(1, 2));
    assert_eq!(raw(2, 3).div(raw(4, 3)), raw(1, 2));
    assert_eq!(raw(2, 3).neg(), raw(-2, 3));
    assert_eq!(raw(2, 3).inverse(), raw(3, 2));
    assert_eq!(raw(-2, -3).abs(), raw(2, 3));
    assert_eq!(raw(2, 3).pow_int(3), raw(8, 27));
    assert_eq!(raw(2, 3).pow_int(-3), raw(27, 8));
    assert_eq!(raw(2, 3).pow_int(0), raw(1, 1));
    assert_eq!(raw(1, -2).add(raw(1, 3)), raw(-1, 6));
    assert!(raw(1, 2).can_add(&raw(1, 3)));
    assert!(raw(1, 0).can_add(&raw(2, 0)));
    assert!(!raw(1, 0).can_add(&raw(2, 3)));
}

#[test]
fn rational_commutes() {
    let pairs = [((1, 2), (1, 3)), ((-5, 7), (3, 14)), ((2, -3), (5, 6)), ((0, 1), (4, 9))];
    for ((a, b), (c, d)) in pairs {
        assert_eq!(raw(a, b).add(raw(c, d)), raw(c, d).add(raw(a, b)));
        assert_eq!(raw(a, b).mul(raw(c, d)), raw(c, d).mul(raw(a, b)));
    }
}

#[test]
fn rational_conversions() {
    assert_eq!(Rational::from_int(5), raw(5, 1));
    assert_eq!(Rational::from_bigint(BigInt::from(7)), raw(7, 1));
    assert_eq!(Rational::new_bigint(BigInt::from(10), BigInt::from(4)), raw(5, 2));
    assert_eq!(raw(5, 1).to_bigint(), Some(BigInt::from(5)));
    assert_eq!(raw(5, -1).to_bigint(), Some(BigInt::from(5)));
    assert_eq!(raw(5, 2).to_bigint(), None);
    assert_eq!(raw(5, 1).to_whole(), Some(BigInt::from(5)));
    assert_eq!(raw(5, -1).to_whole(), Some(BigInt::from(-5)));
    assert_eq!(raw(-5, -1).to_whole(), Some(BigInt::from(5)));
    assert_eq!(raw(5, 2).to_whole(), None);
    assert_eq!(raw(5, 0).to_whole(), None);
    assert_eq!(raw(1, 2).to_real::<Doubles>(), Some(r64(0.5)));
    assert_eq!(raw(7, 3).to_string(), "7 / 3");
    assert_eq!(raw(-7, 3).to_string(), "-7 / 3");
    assert_eq!(raw(3, 4).duplicate(), raw(3, 4));
}

#[test]
fn decimal_numbers_become_fractions() {
    assert_eq!(Rational::from_decimal_string("52.708"), Ok(raw(13177, 250)));
    assert_eq!(Rational::from_decimal_string("0.5"), Ok(raw(1, 2)));
    assert_eq!(Rational::from_decimal_string("1.50"), Ok(raw(3, 2)));
    assert_eq!(Rational::from_decimal_string("3.000"), Ok(raw(3, 1)));
    assert_eq!(Rational::from_decimal_string("12"), Ok(raw(12, 1)));
    assert_eq!(Rational::from_decimal_string("007.25"), Ok(raw(29, 4)));
    assert_eq!(
        Rational::from_decimal_string("123456789012345678901234567890.5"),
        Ok(Rational {
            numerator: big("246913578024691357802469135781"),
            denominator: BigInt::from(2),
        })
    );
    assert_eq!(Rational::from_decimal_parts("52", Some("708")), Ok(raw(13177, 250)));
    assert_eq!(Rational::from_decimal_parts(" 3 ", None), Ok(raw(3, 1)));
}

#[test]
fn other_shapes_are_no_decimal_numbers() {
    for text in ["", "abc", "-1.5", "1.", ".5", "1.2.3", "1,5", " 1.5", "1e3", "1.5\n"] {
        assert_eq!(
            Rational::from_decimal_string(text).unwrap_err().kind(),
            ErrorKind::Parse
        );
    }
}

#[test]
fn digits_of_other_scripts_have_the_shape_but_no_value() {
    assert_eq!(
        Rational::from_decimal_string("١٢.٥").unwrap_err().kind(),
        ErrorKind::ParseBigInt
    );
    assert_eq!(
        Rational::from_decimal_string("1.٥").unwrap_err().kind(),
        ErrorKind::ParseBigInt
    );
    assert_eq!(
        Rational::from_decimal_string("١٢.٥").unwrap_err().message(),
        "Nepodařilo se převést text na BigInt."
    );
    assert_eq!(parse("١٢.٥").unwrap_err().kind(), ErrorKind::Evaluate);
}

#[test]
fn simplification_finds_the_least_general_kind() {
    let simplify = |v: Value| v.simplify_type_move().unwrap();
    assert_eq!(simplify(fraction(4, 2)), Value::Integer(2));
    assert_eq!(simplify(fraction(4, -2)), Value::Integer(-2));
    assert_eq!(simplify(fraction(-4, -2)), Value::Integer(2));
    assert_eq!(simplify(fraction(-3, -1)), Value::Integer(3));
    assert_eq!(simplify(fraction(3, -1)), Value::Integer(-3));
    assert_eq!(simplify(fraction(3, -6)), fraction(1, -2));
    assert_eq!(simplify(fraction(0, 7)), Value::Integer(0));
    assert_eq!(simplify(fraction(0, 0)), Value::Integer(0));
    assert_eq!(simplify(fraction(6, 4)), fraction(3, 2));
    assert_eq!(simplify(Value::BigInt(BigInt::from(5))), Value::Integer(5));
    assert_eq!(simplify(Value::BigInt(BigInt::from(i64::MIN))), Value::Integer(i64::MIN));
    let large = BigInt::from(i64::MAX) + 1i64;
    assert_eq!(simplify(Value::BigInt(large.clone())), Value::BigInt(large.clone()));
    assert_eq!(
        simplify(Value::Rational(Rational { numerator: large.clone(), denominator: BigInt::from(1) })),
        Value::BigInt(large)
    );
    assert_eq!(simplify(Value::Real(r64(0.0))), Value::Integer(0));
    assert_eq!(simplify(Value::Real(r64(-0.0))), Value::Integer(0));
    assert_eq!(simplify(Value::Real(r64(0.5))), Value::Real(r64(0.5)));
    assert_eq!(simplify(Value::Real(r64(f64::MIN_POSITIVE))), Value::Real(r64(f64::MIN_POSITIVE)));
    assert_eq!(simplify(Value::Text("a".to_string())), Value::Text("a".to_string()));
    assert_eq!(simplify(Value::Bool(true)), Value::Bool(true));
    assert_eq!(simplify(Value::Nothing), Value::Nothing);
    assert_eq!(simplify(Value::Integer(3)), Value::Integer(3));
}

#[test]
fn zero_reals_are_recognised_by_their_bits() {
    assert!(r64(0.0).is_zero());
    assert!(r64(-0.0).is_zero());
    assert!(!r64(1.0).is_zero());
    assert!(!r64(f64::NAN).is_zero());
    assert!(!r64(5e-324).is_zero());
    assert_eq!(Real::from_bits(7).to_bits(), 7);
}

#[test]
fn constants_have_the_bits_of_the_nearest_doubles() {
    assert_eq!(PI_BITS, std::f64::consts::PI.to_bits());
    assert_eq!(E_BITS, std::f64::consts::E.to_bits());
    assert_eq!(SQRT2_BITS, std::f64::consts::SQRT_2.to_bits());
    assert_eq!(SQRT3_BITS, 3.0f64.sqrt().to_bits());
    assert_eq!(is_named_const(" Pi "), Some(Value::Real(r64(std::f64::consts::PI))));
    assert_eq!(is_named_const("i64max"), Some(Value::Integer(i64::MAX)));
    assert_eq!(is_named_const("tau"), None);
}

#[test]
fn quoted_texts() {
    assert_eq!(value_is_string_literal("\"abc\""), Some("abc"));
    assert_eq!(value_is_string_literal("  \"abc\"  "), Some("abc"));
    assert_eq!(value_is_string_literal("\"\""), Some(""));
    assert_eq!(value_is_string_literal("\"žluťoučký\""), Some("žluťoučký"));
    assert_eq!(value_is_string_literal("\""), None);
    assert_eq!(value_is_string_literal("\"a\"b\""), None);
    assert_eq!(value_is_string_literal("\"a\"+\"b\""), None);
    assert_eq!(value_is_string_literal("abc"), None);
    assert_eq!(value_is_string_literal("\"abc"), None);
    assert_eq!(value_is_string_literal(""), None);
}

#[test]
fn literal_forms_are_tried_in_order() {
    assert_eq!(parse("\"12\""), Ok(Value::Text("12".to_string())));
    assert_eq!(parse("+12"), Ok(Value::Integer(12)));
    assert_eq!(parse("-12"), Ok(Value::Integer(-12)));
    assert_eq!(parse("9223372036854775808"), Ok(Value::BigInt(BigInt::from(i64::MAX) + 1i64)));
    assert_eq!(parse("-9223372036854775809"), Ok(Value::BigInt(BigInt::from(i64::MIN) - 1i64)));
    assert_eq!(parse("1_0"), Ok(Value::Integer(10)));
    assert_eq!(parse("2.5"), Ok(fraction(5, 2)));
    assert_eq!(parse("2.0"), Ok(Value::Integer(2)));
    assert_eq!(parse("0.0"), Ok(Value::Integer(0)));
    assert_eq!(parse("E"), Ok(Value::Real(r64(std::f64::consts::E))));
    assert_eq!(parse("true"), Ok(Value::Bool(true)));
    assert_eq!(parse("True").unwrap_err().kind(), ErrorKind::Evaluate);
    assert_eq!(parse("-2.5"), Ok(Value::Real(r64(-2.5))));
    assert_eq!(parse("inf"), Ok(Value::Real(r64(f64::INFINITY))));
    assert_eq!(
        parse("x"),
        Err(CalcError::EvaluateErr("Výraz 'x' není platná hodnota.".to_string()))
    );
    assert_eq!(parse("").unwrap_err().kind(), ErrorKind::Evaluate);
}

#[test]
fn addition_by_kinds() {
    let add = |a: Value, b: Value| a.add::<Doubles>(b);
    assert_eq!(add(Value::Integer(2), Value::Integer(3)), Ok(Value::Integer(5)));
    assert_eq!(
        add(Value::Integer(i64::MAX), Value::Integer(1)),
        Ok(Value::BigInt(BigInt::from(i64::MAX) + 1i64))
    );
    assert_eq!(
        add(Value::Integer(i64::MIN), Value::Integer(-1)),
        Ok(Value::BigInt(BigInt::from(i64::MIN) - 1i64))
    );
    assert_eq!(
        add(Value::BigInt(BigInt::from(i64::MAX) + 1i64), Value::Integer(-1)),
        Ok(Value::Integer(i64::MAX))
    );
    assert_eq!(add(Value::Integer(1), fraction(1, 2)), Ok(fraction(3, 2)));
    assert_eq!(add(fraction(1, 2), fraction(1, 2)), Ok(Value::Integer(1)));
    assert_eq!(add(Value::BigInt(BigInt::from(2)), fraction(1, 2)), Ok(fraction(5, 2)));
    assert_eq!(add(Value::Integer(1), Value::Real(r64(0.5))), Ok(Value::Real(r64(1.5))));
    assert_eq!(add(fraction(1, 2), Value::Real(r64(0.5))), Ok(Value::Real(r64(1.0))));
    assert_eq!(add(Value::Real(r64(0.5)), Value::Real(r64(-0.5))), Ok(Value::Integer(0)));
    assert_eq!(add(Value::Nothing, Value::Integer(1)), Ok(Value::Nothing));
    assert_eq!(add(Value::Integer(1), Value::Nothing), Ok(Value::Nothing));
    assert_eq!(add(Value::Text("a".to_string()), Value::Nothing), Ok(Value::Nothing));
    assert_eq!(add(Value::Bool(true), Value::Nothing), Ok(Value::Nothing));
    assert_eq!(add(Value::Nothing, Value::Bool(true)), Ok(Value::Nothing));
    assert_eq!(
        add(Value::Text("a".to_string()), Value::Real(r64(1.5))),
        Ok(Value::Text("a1.5".to_string()))
    );
    assert_eq!(
        add(Value::Real(r64(1.5)), Value::Text("a".to_string())),
        Ok(Value::Text("1.5a".to_string()))
    );
    assert_eq!(
        add(Value::BigInt(big("100000000000000000000")), Value::Text("a".to_string())),
        Ok(Value::Text("100000000000000000000a".to_string()))
    );
    assert_eq!(
        add(fraction(1, 0), fraction(1, 2)).unwrap_err().kind(),
        ErrorKind::Evaluate
    );
    assert_eq!(add(fraction(1, 0), fraction(2, 0)), Ok(fraction(1, 0)));
}

#[test]
fn addition_and_multiplication_commute() {
    let values = [
        Value::Integer(3),
        Value::Integer(i64::MAX),
        Value::Integer(i64::MIN),
        Value::BigInt(big("123456789012345678901234567890")),
        Value::BigInt(big("-98765432109876543210")),
        fraction(1, 3),
        fraction(-5, 7),
        fraction(2, -9),
    ];
    for a in values.iter() {
        for b in values.iter() {
            assert_eq!(
                a.clone().add::<Doubles>(b.clone()),
                b.clone().add::<Doubles>(a.clone())
            );
            assert_eq!(
                a.clone().mul::<Doubles>(b.clone()),
                b.clone().mul::<Doubles>(a.clone())
            );
        }
    }
}

#[test]
fn subtraction_by_kinds() {
    let sub = |a: Value, b: Value| a.sub::<Doubles>(b);
    assert_eq!(sub(Value::Integer(2), Value::Integer(3)), Ok(Value::Integer(-1)));
    assert_eq!(
        sub(Value::Integer(i64::MIN), Value::Integer(1)),
        Ok(Value::BigInt(BigInt::from(i64::MIN) - 1i64))
    );
    assert_eq!(sub(fraction(1, 2), fraction(1, 3)), Ok(fraction(1, 6)));
    assert_eq!(sub(Value::Integer(1), fraction(1, 2)), Ok(fraction(1, 2)));
    assert_eq!(sub(Value::Real(r64(1.5)), Value::Integer(1)), Ok(Value::Real(r64(0.5))));
    assert_eq!(sub(Value::Nothing, Value::Text("a".to_string())), Ok(Value::Nothing));
    assert_eq!(sub(Value::Integer(1), Value::Nothing), Ok(Value::Nothing));
    assert_eq!(sub(Value::Text("a".to_string()), Value::Nothing), Ok(Value::Nothing));
    assert_eq!(sub(Value::Bool(true), Value::Nothing), Ok(Value::Nothing));
    assert_eq!(
        sub(Value::Text("a".to_string()), Value::Integer(1)).unwrap_err().kind(),
        ErrorKind::Evaluate
    );
    assert_eq!(sub(Value::Bool(true), Value::Bool(true)).unwrap_err().kind(), ErrorKind::Evaluate);
    assert_eq!(
        sub(Value::Integer(1), Value::Text("a".to_string())),
        Err(CalcError::EvaluateErr("Nelze odčítat celé číslo 1 a text a.".to_string()))
    );
}

#[test]
fn multiplication_by_kinds() {
    let mul = |a: Value, b: Value| a.mul::<Doubles>(b);
    assert_eq!(mul(Value::Integer(2), Value::Integer(3)), Ok(Value::Integer(6)));
    assert_eq!(
        mul(Value::Integer(i64::MAX), Value::Integer(2)),
        Ok(Value::BigInt(BigInt::from(i64::MAX) * 2i64))
    );
    assert_eq!(mul(Value::Integer(2), fraction(1, 2)), Ok(Value::Integer(1)));
    assert_eq!(mul(fraction(2, 3), fraction(3, 4)), Ok(fraction(1, 2)));
    assert_eq!(mul(Value::Integer(2), Value::Real(r64(0.25))), Ok(Value::Real(r64(0.5))));
    assert_eq!(mul(Value::Integer(0), Value::Real(r64(0.25))), Ok(Value::Integer(0)));
    assert_eq!(mul(Value::Bool(true), Value::Bool(false)), Ok(Value::Bool(false)));
    assert_eq!(mul(Value::Bool(true), Value::Nothing), Ok(Value::Nothing));
    assert_eq!(mul(Value::Integer(1), Value::Nothing), Ok(Value::Nothing));
    assert_eq!(mul(Value::Text("a".to_string()), Value::Nothing), Ok(Value::Nothing));
    assert_eq!(mul(Value::Nothing, Value::Text("a".to_string())), Ok(Value::Nothing));
    assert_eq!(
        mul(Value::Text("a".to_string()), Value::Integer(2)).unwrap_err().kind(),
        ErrorKind::Evaluate
    );
    assert_eq!(
        mul(Value::Bool(true), Value::Integer(2)),
        Err(CalcError::EvaluateErr("Nelze násobit bool true a celé číslo 2.".to_string()))
    );
}

#[test]
fn division_by_kinds() {
    let div = |a: Value, b: Value| a.div::<Doubles>(b);
    assert_eq!(div(Value::Integer(6), Value::Integer(3)), Ok(Value::Integer(2)));
    assert_eq!(div(Value::Integer(7), Value::Integer(2)), Ok(fraction(7, 2)));
    assert_eq!(div(Value::Integer(-7), Value::Integer(2)), Ok(fraction(-7, 2)));
    assert_eq!(div(Value::Integer(6), Value::Integer(-3)), Ok(Value::Integer(-2)));
    assert_eq!(div(Value::Integer(-6), Value::Integer(-3)), Ok(Value::Integer(2)));
    assert_eq!(div(Value::Integer(-6), Value::Integer(3)), Ok(Value::Integer(-2)));
    assert_eq!(div(Value::Integer(5), Value::Integer(-1)), Ok(Value::Integer(-5)));
    assert_eq!(
        div(Value::Integer(i64::MIN), Value::Integer(-1)),
        Ok(Value::BigInt(-BigInt::from(i64::MIN)))
    );
    assert_eq!(div(Value::Integer(7), Value::Integer(-2)), Ok(fraction(7, -2)));
    assert_eq!(div(Value::Integer(1), fraction(1, -2)), Ok(Value::Integer(-2)));
    assert_eq!(
        div(Value::BigInt(big("100000000000000000000")), Value::BigInt(big("50000000000000000000"))),
        Ok(Value::Integer(2))
    );
    assert_eq!(div(Value::Integer(1), fraction(1, 2)), Ok(Value::Integer(2)));
    assert_eq!(div(fraction(1, 2), Value::Integer(2)), Ok(fraction(1, 4)));
    assert_eq!(div(Value::Integer(1), Value::Real(r64(4.0))), Ok(Value::Real(r64(0.25))));
    assert_eq!(
        div(Value::Integer(5), Value::Integer(0)),
        Err(CalcError::EvaluateErr("Nelze dělit celým číslem 0".to_string()))
    );
    assert_eq!(
        div(Value::Integer(5), Value::BigInt(BigInt::from(0))),
        Err(CalcError::EvaluateErr("Nelze dělit bigintem 0".to_string()))
    );
    assert_eq!(
        div(Value::Integer(5), fraction(0, 1)),
        Err(CalcError::EvaluateErr("Nelze dělit racionálním číslem 0".to_string()))
    );
    assert_eq!(
        div(Value::Integer(5), Value::Real(r64(0.0))),
        Err(CalcError::EvaluateErr("Nelze dělit reálným číslem 0".to_string()))
    );
    assert_eq!(
        div(Value::Integer(5), Value::Real(r64(-0.0))).unwrap_err().kind(),
        ErrorKind::Evaluate
    );
    assert_eq!(div(Value::Nothing, Value::Integer(0)).unwrap_err().kind(), ErrorKind::Evaluate);
    assert_eq!(div(Value::Nothing, Value::Bool(true)).unwrap_err().kind(), ErrorKind::Evaluate);
    assert_eq!(div(Value::Nothing, Value::Integer(1)), Ok(Value::Nothing));
    assert_eq!(div(Value::Integer(1), Value::Nothing), Ok(Value::Nothing));
    assert_eq!(div(Value::Bool(true), Value::Bool(true)).unwrap_err().kind(), ErrorKind::Evaluate);
    assert_eq!(
        div(Value::Text("a".to_string()), Value::Integer(1)).unwrap_err().kind(),
        ErrorKind::Evaluate
    );
}

#[test]
fn power_by_kinds() {
    let pow = |a: Value, b: Value| a.pow::<Doubles>(&b);
    assert_eq!(pow(Value::Integer(2), Value::Integer(10)), Ok(Value::Integer(1024)));
    assert_eq!(pow(Value::Integer(-2), Value::Integer(3)), Ok(Value::Integer(-8)));
    assert_eq!(pow(Value::Integer(0), Value::Integer(0)), Ok(Value::Integer(1)));
    assert_eq!(
        pow(Value::Integer(10), Value::Integer(30)),
        Ok(Value::BigInt(big("1000000000000000000000000000000")))
    );
    assert_eq!(pow(Value::Integer(2), Value::Integer(-1)), Ok(fraction(1, 2)));
    assert_eq!(pow(Value::Integer(1), Value::Integer(-5)), Ok(Value::Integer(1)));
    assert_eq!(pow(Value::Integer(1), Value::Integer(i64::MIN)), Ok(Value::Integer(1)));
    assert_eq!(pow(Value::Integer(-2), Value::Integer(-1)), Ok(fraction(1, -2)));
    assert_eq!(pow(Value::Integer(-1), Value::Integer(-3)), Ok(Value::Integer(-1)));
    assert_eq!(pow(fraction(1, 2), Value::Integer(2)), Ok(fraction(1, 4)));
    assert_eq!(pow(fraction(1, 2), Value::Integer(-1)), Ok(Value::Integer(2)));
    assert_eq!(pow(fraction(4, 2), Value::Integer(3)), Ok(Value::Integer(8)));
    assert_eq!(pow(fraction(2, 3), Value::Integer(0)), Ok(Value::Integer(1)));
    assert_eq!(
        pow(fraction(0, 1), Value::Integer(-1)),
        Err(CalcError::EvaluateErr("Nelze dělit racionálním číslem 0".to_string()))
    );
    assert_eq!(
        pow(Value::Integer(0), Value::Integer(-1)),
        Err(CalcError::EvaluateErr("Nelze dělit celým číslem 0".to_string()))
    );
    assert_eq!(pow(Value::Real(r64(2.0)), Value::Integer(3)), Ok(Value::Real(r64(8.0))));
    assert_eq!(pow(Value::Real(r64(0.0)), Value::Integer(3)), Ok(Value::Integer(0)));
    assert_eq!(pow(Value::Integer(2), Value::Real(r64(0.5))), Ok(Value::Real(r64(2.0f64.powf(0.5)))));
    assert_eq!(pow(Value::Nothing, Value::Bool(true)), Ok(Value::Nothing));
    assert_eq!(pow(Value::Integer(2), Value::Nothing), Ok(Value::Nothing));
    assert_eq!(pow(Value::BigInt(BigInt::from(2)), Value::Nothing), Ok(Value::Nothing));
    assert_eq!(pow(Value::Text("a".to_string()), Value::Nothing), Ok(Value::Nothing));
    assert_eq!(pow(Value::Nothing, Value::BigInt(BigInt::from(2))), Ok(Value::Nothing));
    assert_eq!(
        pow(Value::BigInt(BigInt::from(2)), Value::Integer(2)),
        Err(CalcError::EvaluateErr("Mocnění velkých celých čísel není povoleno".to_string()))
    );
    assert_eq!(
        pow(Value::Integer(2), Value::BigInt(BigInt::from(2))),
        Err(CalcError::EvaluateErr("Mocnění velkých celých čísel není povoleno".to_string()))
    );
    assert_eq!(
        pow(Value::Text("a".to_string()), Value::Integer(2)).unwrap_err().kind(),
        ErrorKind::Evaluate
    );
}

#[test]
fn exponents_beyond_32_bits() {
    let pow = |a: Value, b: i64| a.pow::<Doubles>(&Value::Integer(b));
    let beyond: i64 = 4294967296;
    assert_eq!(pow(Value::Integer(0), beyond), Ok(Value::Integer(0)));
    assert_eq!(pow(Value::Integer(1), beyond), Ok(Value::Integer(1)));
    assert_eq!(pow(Value::Integer(-1), beyond), Ok(Value::Integer(1)));
    assert_eq!(pow(Value::Integer(-1), beyond + 1), Ok(Value::Integer(-1)));
    assert_eq!(pow(Value::Integer(-1), -(beyond + 1)), Ok(Value::Integer(-1)));
    assert_eq!(pow(Value::Integer(-1), i64::MIN), Ok(Value::Integer(1)));
    assert_eq!(pow(Value::Integer(-1), i64::MAX), Ok(Value::Integer(-1)));
    assert_eq!(
        pow(Value::Integer(2), beyond),
        Err(CalcError::EvaluateErr("Exponent je příliš velký".to_string()))
    );
    assert_eq!(
        pow(Value::Integer(-3), -beyond),
        Err(CalcError::EvaluateErr("Exponent je příliš velký".to_string()))
    );
    assert_eq!(
        pow(Value::Integer(0), -beyond),
        Err(CalcError::EvaluateErr("Nelze dělit celým číslem 0".to_string()))
    );
    assert_eq!(pow(fraction(1, -1), beyond + 1), Ok(Value::Integer(-1)));
    assert_eq!(pow(fraction(-1, 1), -(beyond + 1)), Ok(Value::Integer(-1)));
    assert_eq!(
        pow(fraction(1, 2), beyond),
        Err(CalcError::EvaluateErr("Exponent je příliš velký".to_string()))
    );
    assert!(raw(1, -1).can_pow(i64::MIN));
    assert!(raw(2, 3).can_pow(4294967295));
    assert!(!raw(2, 3).can_pow(beyond));
    assert!(!raw(1, 3).can_pow(-beyond));
    assert_eq!(raw(-1, 1).pow_int(beyond + 1), raw(-1, 1));
    assert_eq!(raw(0, 1).pow_int(beyond), raw(0, 1));
    assert_eq!(raw(1, -1).pow_int(-(beyond + 1)), raw(-1, 1));
}

#[test]
fn operations_without_reals() {
    let text = || Value::Text("a".to_string());
    assert_eq!(Value::Integer(i64::MAX).exact_add(Value::Integer(1)), Ok(Value::BigInt(BigInt::from(i64::MAX) + 1i64)));
    assert_eq!(fraction(1, 3).exact_add(fraction(2, 3)), Ok(Value::Integer(1)));
    assert_eq!(text().exact_add(fraction(1, 3)), Ok(Value::Text("a1 / 3".to_string())));
    assert_eq!(Value::Integer(5).exact_add(text()), Ok(Value::Text("5a".to_string())));
    assert_eq!(text().exact_add(Value::Bool(true)), Ok(Value::Text("atrue".to_string())));
    assert_eq!(Value::Bool(false).exact_add(Value::Bool(true)), Ok(Value::Bool(true)));
    assert_eq!(Value::Bool(false).exact_add(Value::Nothing), Ok(Value::Nothing));
    assert_eq!(
        Value::Bool(true).exact_add(text()),
        Err(CalcError::EvaluateErr("Nelze sčítat bool true a text a.".to_string()))
    );
    assert_eq!(text().exact_sub(Value::Nothing), Ok(Value::Nothing));
    assert_eq!(Value::Nothing.exact_sub(text()), Ok(Value::Nothing));
    assert_eq!(Value::Integer(i64::MIN).exact_sub(Value::Integer(1)), Ok(Value::BigInt(BigInt::from(i64::MIN) - 1i64)));
    assert_eq!(fraction(3, 2).exact_sub(fraction(1, 2)), Ok(Value::Integer(1)));
    assert_eq!(
        text().exact_sub(Value::Integer(1)),
        Err(CalcError::EvaluateErr("Na text a nelze aplikovat operátor minus".to_string()))
    );
    assert_eq!(text().exact_mul(Value::Nothing), Ok(Value::Nothing));
    assert_eq!(Value::Bool(true).exact_mul(Value::Bool(false)), Ok(Value::Bool(false)));
    assert_eq!(fraction(2, 3).exact_mul(fraction(3, 2)), Ok(Value::Integer(1)));
    assert_eq!(Value::Integer(i64::MIN).exact_mul(Value::Integer(-1)), Ok(Value::BigInt(-BigInt::from(i64::MIN))));
    assert_eq!(
        text().exact_mul(Value::Integer(2)),
        Err(CalcError::EvaluateErr("Na text a nelze aplikovat operátor násobení".to_string()))
    );
    assert_eq!(Value::Integer(6).exact_div(Value::Integer(-3)), Ok(Value::Integer(-2)));
    assert_eq!(Value::Integer(6).exact_div(Value::Integer(4)), Ok(fraction(3, 2)));
    assert_eq!(Value::Integer(1).exact_div(Value::Nothing), Ok(Value::Nothing));
    assert_eq!(
        Value::Integer(1).exact_div(fraction(0, 5)),
        Err(CalcError::EvaluateErr("Nelze dělit racionálním číslem 0".to_string()))
    );
    assert_eq!(
        text().exact_div(Value::Integer(2)),
        Err(CalcError::EvaluateErr("Na text a nelze aplikovat operátor dělení".to_string()))
    );
    assert_eq!(fraction(1, 2).exact_pow(&Value::Integer(-1)), Ok(Value::Integer(2)));
    assert_eq!(Value::Integer(0).exact_pow(&Value::Integer(4294967296)), Ok(Value::Integer(0)));
    assert_eq!(text().exact_pow(&Value::Nothing), Ok(Value::Nothing));
    assert_eq!(
        Value::Integer(2).exact_pow(&Value::Bool(true)),
        Err(CalcError::EvaluateErr("Nelze mocnit celé číslo 2 na boolean true.".to_string()))
    );
    assert_eq!(Value::BigInt(BigInt::from(5)).exact_neg(), Ok(Value::Integer(-5)));
    assert_eq!(fraction(2, -1).exact_neg(), Ok(Value::Integer(2)));
    assert_eq!(
        Value::Bool(true).exact_neg(),
        Err(CalcError::EvaluateErr("Na bool true nelze aplikovat unární mínus".to_string()))
    );
    assert!(Value::Real(r64(1.0)).is_real());
    assert!(!Value::Integer(1).is_real());
    assert_eq!(fraction(1, 2).exact_string(), "1 / 2");
    assert_eq!(Value::Real(r64(1.5)).exact_string(), "");
    assert_eq!(Value::Real(r64(1.5)).plain_string::<Doubles>(), "1.5");
}

#[test]
fn exact_powers() {
    assert_eq!(integer_power(3, 4), Ok(Value::Integer(81)));
    assert_eq!(integer_power(-3, 3), Ok(Value::Integer(-27)));
    assert_eq!(integer_power(3, -2), Ok(fraction(1, 9)));
    assert_eq!(integer_power(-1, -1), Ok(Value::Integer(-1)));
    assert_eq!(integer_power(7, 0), Ok(Value::Integer(1)));
    assert_eq!(integer_power(2, 63), Ok(Value::BigInt(BigInt::from(2).pow(63))));
    assert_eq!(integer_power(-2, 63), Ok(Value::Integer(i64::MIN)));
    assert_eq!(
        integer_power(0, -3),
        Err(CalcError::EvaluateErr("Nelze dělit celým číslem 0".to_string()))
    );
    assert_eq!(ratio_power(&raw(2, 3), 2), Ok(fraction(4, 9)));
    assert_eq!(ratio_power(&raw(2, 3), -2), Ok(fraction(9, 4)));
    assert_eq!(ratio_power(&raw(1, 3), -2), Ok(Value::Integer(9)));
    assert_eq!(ratio_power(&raw(1, -3), -1), Ok(Value::Integer(-3)));
    assert_eq!(ratio_power(&raw(0, 3), 2), Ok(Value::Integer(0)));
    assert_eq!(magnitude(-5), 5);
    assert_eq!(magnitude(5), 5);
    assert_eq!(magnitude(i64::MIN), 9223372036854775808);
    assert!(is_unit(&BigInt::from(-1)) && is_unit(&BigInt::from(0)) && is_unit(&BigInt::from(1)));
    assert!(!is_unit(&BigInt::from(2)) && !is_unit(&BigInt::from(-2)));
    assert_eq!(big_power(&BigInt::from(3), 5), BigInt::from(243));
    assert_eq!(big_power(&BigInt::from(-1), u64::MAX), BigInt::from(-1));
    assert_eq!(big_power(&BigInt::from(-1), 1 << 40), BigInt::from(1));
    assert_eq!(big_power(&BigInt::from(0), 1 << 40), BigInt::from(0));
    assert_eq!(big_power(&BigInt::from(1), 1 << 40), BigInt::from(1));
}

#[test]
fn negation_by_kinds() {
    let neg = |a: Value| a.neg::<Doubles>();
    assert_eq!(neg(Value::Integer(5)), Ok(Value::Integer(-5)));
    assert_eq!(neg(Value::Integer(i64::MIN)), Ok(Value::BigInt(-BigInt::from(i64::MIN))));
    assert_eq!(neg(Value::BigInt(BigInt::from(5))), Ok(Value::Integer(-5)));
    assert_eq!(
        neg(Value::BigInt(-BigInt::from(i64::MIN))),
        Ok(Value::Integer(i64::MIN))
    );
    assert_eq!(
        neg(Value::BigInt(big("100000000000000000000"))),
        Ok(Value::BigInt(big("-100000000000000000000")))
    );
    assert_eq!(neg(fraction(1, 2)), Ok(fraction(-1, 2)));
    assert_eq!(neg(fraction(4, 2)), Ok(Value::Integer(-2)));
    assert_eq!(neg(fraction(3, -1)), Ok(Value::Integer(3)));
    assert_eq!(neg(Value::Real(r64(1.5))), Ok(Value::Real(r64(-1.5))));
    assert_eq!(neg(Value::Real(r64(0.0))), Ok(Value::Integer(0)));
    assert_eq!(neg(Value::Nothing), Ok(Value::Nothing));
    assert_eq!(neg(Value::Bool(true)).unwrap_err().kind(), ErrorKind::Evaluate);
    assert_eq!(neg(Value::Text("a".to_string())).unwrap_err().kind(), ErrorKind::Evaluate);
}

#[test]
fn failures_name_the_operands() {
    let message = |r: Result<Value, CalcError>| match r {
        Err(CalcError::EvaluateErr(m)) => m,
        other => panic!("{:?}", other),
    };
    let text = || Value::Text("a".to_string());
    assert_eq!(
        message(Value::Bool(true).add::<Doubles>(Value::Integer(1))),
        "Nelze sčítat bool true a celé číslo 1."
    );
    assert_eq!(
        message(Value::Integer(1).add::<Doubles>(Value::Bool(true))),
        "Nelze sčítat celé číslo 1 a boolean true."
    );
    assert_eq!(
        message(fraction(1, 2).add::<Doubles>(Value::Bool(false))),
        "Nelze sčítat racionální číslo 1 / 2 a boolean false."
    );
    assert_eq!(
        message(fraction(1, 0).add::<Doubles>(Value::Integer(1))),
        "Zlomek s nulovým jmenovatelem nelze sčítat ani odčítat"
    );
    assert_eq!(
        message(text().sub::<Doubles>(Value::Integer(1))),
        "Na text a nelze aplikovat operátor minus"
    );
    assert_eq!(
        message(Value::BigInt(big("100000000000000000000")).sub::<Doubles>(text())),
        "Nelze odčítat velké celé číslo 100000000000000000000 a text a."
    );
    assert_eq!(
        message(text().mul::<Doubles>(Value::Integer(1))),
        "Na text a nelze aplikovat operátor násobení"
    );
    assert_eq!(
        message(Value::Integer(2).mul::<Doubles>(text())),
        "Nelze násobit celé číslo 2 a text a."
    );
    assert_eq!(
        message(text().div::<Doubles>(Value::Integer(1))),
        "Na text a nelze aplikovat operátor dělení"
    );
    assert_eq!(
        message(Value::Integer(1).div::<Doubles>(text())),
        "Nelze dělit textovou hodnotu."
    );
    assert_eq!(
        message(Value::Integer(1).div::<Doubles>(Value::Bool(true))),
        "Nelze dělit booleovskou bodnotu"
    );
    assert_eq!(message(text().neg::<Doubles>()), "Na text a nelze aplikovat unární mínus");
    assert_eq!(message(text().pow::<Doubles>(&Value::Integer(2))), "Nelze mocnit text a.");
    assert_eq!(
        message(Value::Integer(2).pow::<Doubles>(&Value::Bool(true))),
        "Nelze mocnit celé číslo 2 na boolean true."
    );
    assert_eq!(
        message(Value::Integer(0).pow::<Doubles>(&Value::Integer(-1))),
        "Nelze dělit celým číslem 0"
    );
    assert_eq!(
        message(Value::Real(r64(1.5)).add::<Doubles>(Value::Bool(true))),
        "Nelze sčítat reálné číslo 1.5 a boolean true."
    );
}

#[test]
fn values_as_reals() {
    assert_eq!(Value::Integer(2).as_real::<Doubles>(), Ok(r64(2.0)));
    assert_eq!(Value::BigInt(BigInt::from(2)).as_real::<Doubles>(), Ok(r64(2.0)));
    assert_eq!(fraction(1, 4).as_real::<Doubles>(), Ok(r64(0.25)));
    assert_eq!(Value::Real(r64(1.5)).as_real::<Doubles>(), Ok(r64(1.5)));
    assert_eq!(Value::Nothing.as_real::<Doubles>().unwrap_err().kind(), ErrorKind::Evaluate);
    assert_eq!(Value::Bool(true).as_real::<Doubles>().unwrap_err().kind(), ErrorKind::Evaluate);
    assert_eq!(
        Value::Text("1".to_string()).as_real::<Doubles>().unwrap_err().kind(),
        ErrorKind::Evaluate
    );
}

#[test]
fn values_can_be_copied() {
    let values = [
        Value::Nothing,
        Value::Integer(1),
        Value::BigInt(big("123456789012345678901234567890")),
        fraction(1, 2),
        Value::Real(r64(1.5)),
        Value::Text("a".to_string()),
        Value::Bool(true),
    ];
    for v in values.iter() {
        assert_eq!(&v.duplicate(), v);
    }
}

#[test]
fn functions_check_their_arguments() {
    assert_eq!(fact(Value::Integer(5)), Ok(Value::Integer(120)));
    assert_eq!(fact(Value::BigInt(BigInt::from(5))), Ok(Value::Integer(120)));
    assert_eq!(
        fact(Value::Integer(-1)),
        Err(CalcError::FuncCallErr(
            "fact(-1) není platné volání funkce. Očekává se nezáporné číslo".to_string()
        ))
    );
    assert_eq!(
        fact(Value::Integer(101)),
        Err(CalcError::FuncCallErr("Nelze faktoriálovat čísla větší než 100".to_string()))
    );
    assert_eq!(
        fact(Value::Nothing),
        Err(CalcError::FuncCallErr("fact(Nothing) není platné volání funkce".to_string()))
    );
    assert_eq!(
        fact(Value::BigInt(big("100000000000000000000"))).unwrap_err().kind(),
        ErrorKind::FuncCall
    );
    assert_eq!(fact(Value::Real(r64(1.0))).unwrap_err().kind(), ErrorKind::FuncCall);
    assert_eq!(
        fact(Value::Integer(100)),
        Ok(Value::BigInt(big(
            "93326215443944152681699238856266700490715968264381621468592963895217599993229915608941463976156518286253697920827223758251185210916864000000000000000000000000"
        )))
    );
    assert_eq!(nck(Value::Integer(5), Value::Integer(2)), Ok(Value::Integer(10)));
    assert_eq!(nck(Value::Integer(5), Value::Bool(true)).unwrap_err().kind(), ErrorKind::FuncCall);
    assert_eq!(nck_internal(10, 3), Ok(Value::Integer(120)));
    assert_eq!(nck_internal(10, 7), Ok(Value::Integer(120)));
    assert_eq!(nck_internal(i64::MAX, 1), Ok(Value::Integer(i64::MAX)));
    assert_eq!(comb_internal(5, 2, true), Ok(Value::Integer(15)));
    assert_eq!(comb_internal(i64::MAX, 2, true).unwrap_err().kind(), ErrorKind::Evaluate);
    assert_eq!(
        comb(Value::Integer(5), Value::Integer(2), Value::Bool(false)),
        Ok(Value::Integer(10))
    );
    assert_eq!(abs::<Doubles>(Value::Integer(-3)), Ok(Value::Integer(3)));
    assert_eq!(
        abs::<Doubles>(Value::BigInt(BigInt::from(-3))),
        Ok(Value::BigInt(BigInt::from(3)))
    );
    assert_eq!(abs::<Doubles>(Value::Real(r64(-1.5))), Ok(Value::Real(r64(1.5))));
    assert_eq!(ln::<Doubles>(Value::Integer(1)), Ok(Value::Real(r64(0.0))));
    assert_eq!(ln::<Doubles>(fraction(1, 2)), Ok(Value::Real(r64(0.5f64.ln()))));
    assert_eq!(ln::<Doubles>(Value::Nothing).unwrap_err().kind(), ErrorKind::FuncCall);
    assert_eq!(sin::<Doubles>(Value::BigInt(BigInt::from(720))), Ok(Value::Integer(0)));
    assert_eq!(
        sin::<Doubles>(Value::BigInt(BigInt::from(361))),
        Ok(Value::Real(r64(1.0f64.sin())))
    );
    assert_eq!(sin::<Doubles>(fraction(1, 2)), Ok(Value::Real(r64(0.5f64.sin()))));
    assert_eq!(sind::<Doubles>(Value::Integer(-330)), Ok(Value::Real(r64((-330.0f64).to_radians().sin()))));
    assert_eq!(sind::<Doubles>(Value::Integer(750)), Ok(fraction(1, 2)));
    assert_eq!(sind::<Doubles>(Value::Real(r64(90.0))), Ok(Value::Real(r64(1.0))));
    assert_eq!(sin_values_match_deg::<Doubles>(270), Value::Integer(-1));
    assert_eq!(sinpi::<Doubles>(Value::Integer(0)), Ok(Value::Real(r64(0.0))));
    assert_eq!(sinpi::<Doubles>(fraction(1, 2)), Ok(Value::Real(r64(1.0))));
}

#[test]
fn square_roots_by_kinds() {
    assert_eq!(sqrt::<Doubles>(Value::Integer(16)), Ok(Value::Integer(4)));
    assert_eq!(sqrt::<Doubles>(Value::Integer(0)), Ok(Value::Integer(0)));
    assert_eq!(sqrt::<Doubles>(Value::Integer(17)), Ok(Value::Real(r64(17.0f64.sqrt()))));
    assert_eq!(
        sqrt::<Doubles>(Value::BigInt(big("10000000000000000000000"))),
        Ok(Value::BigInt(big("100000000000")))
    );
    assert_eq!(sqrt::<Doubles>(fraction(4, 9)), Ok(fraction(2, 3)));
    assert_eq!(sqrt::<Doubles>(fraction(1, 2)), Ok(Value::Real(r64(1.0 / 2.0f64.sqrt()))));
    assert_eq!(sqrt::<Doubles>(Value::Real(r64(2.25))), Ok(Value::Real(r64(1.5))));
    assert_eq!(sqrt::<Doubles>(Value::Bool(true)).unwrap_err().kind(), ErrorKind::FuncCall);
    match sqrt::<Doubles>(Value::Integer(-4)) {
        Ok(Value::Real(r)) => assert!(double(r).is_nan()),
        other => panic!("{:?}", other),
    }
}

#[test]
fn calls_are_dispatched_by_name() {
    assert_eq!(
        FuncCall::new(" FACT ", vec![Value::Integer(3)]).eval::<Doubles>(),
        Ok(Value::Integer(6))
    );
    assert_eq!(
        FuncCall::new("fact", vec![fraction(6, 2)]).eval::<Doubles>(),
        Ok(Value::Integer(6))
    );
    assert_eq!(
        FuncCall::new("nck", vec![Value::Integer(4), Value::BigInt(BigInt::from(2))])
            .eval::<Doubles>(),
        Ok(Value::Integer(6))
    );
    assert_eq!(
        FuncCall::new("fact", vec![]).eval::<Doubles>(),
        Err(CalcError::FuncCallErr("Funkce 'fact' vyžaduje 1 parametr".to_string()))
    );
    assert_eq!(
        FuncCall::new("nope", vec![]).eval::<Doubles>(),
        Err(CalcError::FuncCallErr("Funkce 'nope' není definována".to_string()))
    );
}

#[test]
fn greatest_of_values() {
    let greatest = |values: Vec<Value>| max::<Doubles>(&values);
    assert_eq!(
        greatest(vec![Value::Integer(1), fraction(3, 2), Value::Integer(-4)]),
        Ok(fraction(3, 2))
    );
    assert_eq!(greatest(vec![fraction(1, 2), fraction(2, 4)]), Ok(fraction(1, 2)));
    assert_eq!(greatest(vec![fraction(2, 4), fraction(1, 2)]), Ok(fraction(2, 4)));
    assert_eq!(greatest(vec![fraction(1, -2), fraction(-1, 3)]), Ok(fraction(-1, 3)));
    assert_eq!(greatest(vec![fraction(-1, -2), fraction(1, 3)]), Ok(fraction(-1, -2)));
    assert_eq!(
        greatest(vec![Value::BigInt(big("100000000000000000000")), Value::Integer(i64::MAX)]),
        Ok(Value::BigInt(big("100000000000000000000")))
    );
    assert_eq!(greatest(vec![Value::Integer(7)]), Ok(Value::Integer(7)));
    assert_eq!(
        greatest(vec![Value::Integer(1), Value::Real(r64(2.5)), fraction(1, 2)]),
        Ok(Value::Real(r64(2.5)))
    );
    assert_eq!(
        greatest(vec![Value::Integer(3), Value::Real(r64(2.5))]),
        Ok(Value::Integer(3))
    );
    assert_eq!(greatest(vec![]).unwrap_err().kind(), ErrorKind::FuncCall);
    assert_eq!(
        greatest(vec![Value::Integer(1), Value::Text("a".to_string())]).unwrap_err().kind(),
        ErrorKind::FuncCall
    );
    assert_eq!(
        greatest(vec![Value::Bool(true), Value::Real(r64(1.0))]).unwrap_err().kind(),
        ErrorKind::FuncCall
    );
    assert_eq!(
        greatest(vec![fraction(1, 0), Value::Integer(1)]).unwrap_err().kind(),
        ErrorKind::Evaluate
    );
    assert_eq!(
        FuncCall::new("max", vec![]).eval::<Doubles>(),
        Err(CalcError::FuncCallErr("Funkce 'max' vyžaduje aspoň 1 parametr".to_string()))
    );
    assert_eq!(
        FuncCall::new("max", vec![Value::Integer(1), Value::Integer(2)]).eval::<Doubles>(),
        Ok(Value::Integer(2))
    );
}

#[test]
fn positive_fractions_are_ordered_across() {
    assert_eq!(compare_positive_rationals(raw(1, 2), raw(2, 3)), Ordering::Less);
    assert_eq!(compare_positive_rationals(raw(2, 3), raw(1, 2)), Ordering::Greater);
    assert_eq!(compare_positive_rationals(raw(1, 2), raw(2, 4)), Ordering::Equal);
    assert_eq!(compare_positive_rationals(raw(161001, 1), raw(161000, 1)), Ordering::Greater);
    assert!(ratio_less(&raw(1, 2), &raw(2, 3)));
    assert!(!ratio_less(&raw(2, 3), &raw(1, 2)));
    assert!(ratio_less(&raw(1, -2), &raw(1, 3)));
    assert!(ratio_less(&raw(-1, 2), &raw(-1, 3)));
    assert!(!ratio_less(&raw(1, 2), &raw(2, 4)));
}

#[test]
fn net_wages() {
    assert_eq!(cista_mzda::<Doubles>(Value::Integer(30000)), Ok(fraction(24470, 1)));
    assert_eq!(cista_mzda::<Doubles>(Value::Integer(200000)), Ok(fraction(145450, 1)));
    assert_eq!(cista_mzda::<Doubles>(Value::Integer(10000)), Ok(fraction(8800, 1)));
    assert_eq!(cista_mzda::<Doubles>(Value::Integer(161000)), Ok(fraction(120100, 1)));
    assert_eq!(
        cista_mzda::<Doubles>(Value::BigInt(BigInt::from(30000))),
        Ok(fraction(24470, 1))
    );
    assert_eq!(cista_mzda::<Doubles>(fraction(1234567, 100)), Ok(fraction(13580237, 1250)));
    assert_eq!(cista_mzda::<Doubles>(fraction(-60000, -2)), Ok(fraction(24470, 1)));
    assert_eq!(cista_mzda_impl::<Doubles>(raw(30000, 1)), Ok(raw(24470, 1)));
    assert_eq!(net_wage(raw(30000, 1), 30000), raw(24470, 1));
    assert_eq!(net_wage(raw(30050, 1), 30100), raw(24499, 1));
    for refused in [
        Value::Integer(0),
        Value::Integer(-5),
        fraction(-1, 2),
        fraction(1, -2),
        fraction(0, 5),
        fraction(5, 0),
        Value::Real(r64(30000.0)),
        Value::Text("30000".to_string()),
        Value::Bool(true),
        Value::Nothing,
    ] {
        assert_eq!(cista_mzda::<Doubles>(refused).unwrap_err().kind(), ErrorKind::FuncCall);
    }
    assert!(is_positive(&raw(1, 2)));
    assert!(is_positive(&raw(-1, -2)));
    assert!(!is_positive(&raw(-1, 2)));
    assert!(!is_positive(&raw(0, 2)));
    assert!(!is_positive(&raw(1, 0)));
    assert!(is_negative(&raw(-1, 2)));
    assert!(is_negative(&raw(1, -2)));
    assert!(!is_negative(&raw(1, 2)));
    assert!(!is_negative(&raw(0, -2)));
    assert!(exceeds(&raw(3, 2), &raw(1, 1)));
    assert!(!exceeds(&raw(1, 1), &raw(1, 1)));
    assert_eq!(
        FuncCall::new("cista", vec![Value::Integer(30000)]).eval::<Doubles>(),
        Ok(fraction(24470, 1))
    );
    assert_eq!(
        FuncCall::new("cista", vec![]).eval::<Doubles>(),
        Err(CalcError::FuncCallErr("Funkce 'cista' vyžaduje 1 parametr".to_string()))
    );
}

#[test]
fn error_kinds() {
    assert_eq!(CalcError::evaluate("a").kind(), ErrorKind::Evaluate);
    assert_eq!(CalcError::func_call("a").kind(), ErrorKind::FuncCall);
    assert_eq!(CalcError::parse("a").kind(), ErrorKind::Parse);
    assert_eq!(CalcError::parse("a"), CalcError::ParseErr("a".to_string()));
    assert_eq!(
        CalcError::parse("a").message(),
        "Syntaktická chyba matematického výrazu: a"
    );
}
