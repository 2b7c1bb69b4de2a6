//! The net monthly wage that is left of a gross wage after insurance and
//! income tax, computed in exact fractions.

use crate::base::{CalcError, ErrorKind};
use crate::big::{big_from_i64, big_is_zero, big_lt};
use crate::order::exceeds;
use crate::rational::{
    lemma_denominator_stays, lemma_reduced_keeps_signs, ratio_add, ratio_mul, ratio_sub, reduced,
    Ratio, Rational,
};
use crate::reals::RealOps;
use crate::value::{Value, ValueView};
use crate::value_algebra::shown;
use vstd::prelude::*;

verus! {

/// The gross wage above which the higher rate of the tax applies.
pub const TAX_LIMIT: i64 = 161000;

/// What is taken off the tax of every payer.
pub const TAX_RELIEF: i64 = 2570;

/// A fraction below 0, for a denominator other than 0.
pub open spec fn ratio_negative(r: Ratio) -> bool {
    r.num != 0 && ((r.num < 0) != (r.den < 0))
}

/// A fraction above 0 with a denominator other than 0.
pub open spec fn ratio_positive(r: Ratio) -> bool {
    r.num != 0 && r.den != 0 && ((r.num < 0) == (r.den < 0))
}

/// The whole number `n` as a fraction.
pub open spec fn whole_ratio(n: int) -> Ratio {
    reduced(Ratio { num: n, den: 1 })
}

/// Whether a positive wage is above the limit of the lower tax rate.
pub open spec fn above_limit(gross: Ratio) -> bool {
    crate::arith::abs(gross.num) * whole_ratio(TAX_LIMIT as int).den > whole_ratio(
        TAX_LIMIT as int,
    ).num * crate::arith::abs(gross.den)
}

/// The tax of a wage before the relief: 15 % of the tax base, and 23 % of
/// what the tax base has above the limit where the wage is above it.
pub open spec fn tax_before_relief(gross: Ratio, tax_base: int) -> Ratio {
    let low = reduced(Ratio { num: 15, den: 100 });
    let high = reduced(Ratio { num: 23, den: 100 });
    let limit = whole_ratio(TAX_LIMIT as int);
    let base = whole_ratio(tax_base);
    if !above_limit(gross) {
        ratio_mul(low, base)
    } else {
        ratio_add(ratio_mul(low, limit), ratio_mul(high, ratio_sub(base, limit)))
    }
}

/// The tax that is due: the tax before the relief less the relief, and
/// nothing where that is below 0.
pub open spec fn tax_due(gross: Ratio, tax_base: int) -> Ratio {
    let after = ratio_sub(tax_before_relief(gross, tax_base), whole_ratio(TAX_RELIEF as int));
    if ratio_negative(after) {
        Ratio { num: 0, den: 1 }
    } else {
        after
    }
}

/// The net wage: the gross wage less social insurance of 7.5 %, health
/// insurance of 4.5 % and the tax that is due. The tax base is the gross
/// wage rounded up to hundreds.
pub open spec fn net_wage_spec(gross: Ratio, tax_base: int) -> Ratio {
    let social = ratio_mul(reduced(Ratio { num: 75, den: 1000 }), gross);
    let health = ratio_mul(reduced(Ratio { num: 45, den: 1000 }), gross);
    ratio_sub(ratio_sub(ratio_sub(gross, social), health), tax_due(gross, tax_base))
}

/// What `cista_mzda_impl` gives: a wage that is not above 0 is refused;
/// else the net wage for some tax base, which the real arithmetic finds, or
/// an evaluation error where the wage has no real.
pub open spec fn wage_ensures(gross: Ratio, r: Result<Rational, CalcError>) -> bool {
    if !ratio_positive(gross) {
        r matches Err(e) && e.kind_of() == ErrorKind::FuncCall
    } else {
        match r {
            Ok(net) => is_net_wage(gross, net@),
            Err(e) => e.kind_of() == ErrorKind::Evaluate,
        }
    }
}

/// `net` is the net wage of `gross` for some tax base.
pub open spec fn is_net_wage(gross: Ratio, net: Ratio) -> bool {
    exists|tax_base: i64| net == #[trigger] net_wage_spec(gross, tax_base as int)
}

/// What `cista_mzda` gives: the net wage of an exact number as a fraction;
/// every other value is refused.
pub open spec fn cista_mzda_ensures(gross: ValueView, r: Result<ValueView, ErrorKind>) -> bool {
    if gross.is_exact_number() && ratio_positive(gross.ratio()) {
        match r {
            Ok(v) => v matches ValueView::Rational(net) && is_net_wage(gross.ratio(), net),
            Err(k) => k == ErrorKind::Evaluate,
        }
    } else {
        r == Err::<ValueView, ErrorKind>(ErrorKind::FuncCall)
    }
}

/// Whether a fraction is above 0 and its denominator is not 0.
pub fn is_positive(r: &Rational) -> (p: bool)
    ensures
        p == ratio_positive(r@),
{
    let zero = big_from_i64(0);
    !big_is_zero(&r.numerator) && !big_is_zero(&r.denominator) && (big_lt(&r.numerator, &zero)
        == big_lt(&r.denominator, &zero))
}

/// Whether a fraction is below 0.
pub fn is_negative(r: &Rational) -> (n: bool)
    ensures
        n == ratio_negative(r@),
{
    let zero = big_from_i64(0);
    !big_is_zero(&r.numerator) && (big_lt(&r.numerator, &zero) != big_lt(
        &r.denominator,
        &zero,
    ))
}

/// The net wage that is left of a gross wage, given the tax base.
pub fn net_wage(gross: Rational, tax_base: i64) -> (net: Rational)
    requires
        ratio_positive(gross@),
    ensures
        net@ == net_wage_spec(gross@, tax_base as int),
{
    let ghost g = gross@;
    let r0075 = Rational::new(75, 1000);
    let r0045 = Rational::new(45, 1000);
    let r015 = Rational::new(15, 100);
    let r023 = Rational::new(23, 100);
    let limit = Rational::new(TAX_LIMIT, 1);
    let base = Rational::new(tax_base, 1);
    let relief = Rational::new(TAX_RELIEF, 1);
    proof {
        lemma_reduced_keeps_signs(Ratio { num: 75, den: 1000 });
        lemma_reduced_keeps_signs(Ratio { num: 45, den: 1000 });
        lemma_reduced_keeps_signs(Ratio { num: 15, den: 100 });
        lemma_reduced_keeps_signs(Ratio { num: 23, den: 100 });
        lemma_reduced_keeps_signs(Ratio { num: TAX_LIMIT as int, den: 1 });
        lemma_reduced_keeps_signs(Ratio { num: tax_base as int, den: 1 });
        lemma_reduced_keeps_signs(Ratio { num: TAX_RELIEF as int, den: 1 });
        lemma_denominator_stays(r0075@, g);
        lemma_denominator_stays(r0045@, g);
        lemma_denominator_stays(r015@, base@);
        lemma_denominator_stays(r015@, limit@);
        lemma_denominator_stays(base@, limit@);
        lemma_denominator_stays(r023@, ratio_sub(base@, limit@));
        lemma_denominator_stays(
            ratio_mul(r015@, limit@),
            ratio_mul(r023@, ratio_sub(base@, limit@)),
        );
    }
    let sp = r0075.mul(gross.duplicate());
    let zp = r0045.mul(gross.duplicate());
    let above = exceeds(&gross.abs(), &limit);
    let tax = if !above {
        r015.mul(base)
    } else {
        r015.mul(limit.duplicate()).add(r023.mul(base.sub(limit)))
    };
    proof {
        lemma_denominator_stays(tax@, relief@);
    }
    let after = tax.sub(relief);
    let due = if is_negative(&after) {
        Rational::from_int(0)
    } else {
        after
    };
    proof {
        lemma_denominator_stays(g, sp@);
        lemma_denominator_stays(ratio_sub(g, sp@), zp@);
    }
    gross.sub(sp).sub(zp).sub(due)
}

/// The net wage that is left of a gross wage. The tax base, the wage
/// rounded up to hundreds, is found in reals.
pub fn cista_mzda_impl<R: RealOps>(hruba: Rational) -> (r: Result<Rational, CalcError>)
    ensures
        wage_ensures(hruba@, r),
{
    if !is_positive(&hruba) {
        return Err(
            CalcError::func_call(
                "Funkce 'cista' nemůže spočítat čistou mzdu ze záporného čísla ani z nuly",
            ),
        );
    }
    let wage = match hruba.to_real::<R>() {
        Some(x) => x,
        None => {
            return Err(CalcError::evaluate("Selhal převod hodnoty na reálné číslo"));
        },
    };
    let hundred = R::from_int(100);
    let tax_base = R::to_int(R::product(R::ceil(R::quotient(wage, hundred)), hundred));
    let ghost gross = hruba@;
    let net = net_wage(hruba, tax_base);
    assert(net@ == net_wage_spec(gross, tax_base as int));
    Ok(net)
}

/// The net wage that is left of a gross wage; only an exact number is a
/// wage.
pub fn cista_mzda<R: RealOps>(hruba: Value) -> (r: Result<Value, CalcError>)
    ensures
        cista_mzda_ensures(hruba@, shown(r)),
{
    let gross = match hruba {
        Value::Integer(i) => Rational::from_int(i),
        Value::BigInt(b) => Rational::from_bigint(b),
        Value::Rational(q) => q,
        Value::Nothing => {
            return Err(CalcError::func_call("cista(Nothing) není platné volání funkce"));
        },
        Value::Real(_) => {
            return Err(CalcError::func_call("cista(Real) není platné volání funkce"));
        },
        Value::Text(_) => {
            return Err(CalcError::func_call("cista(Text) není platné volání funkce"));
        },
        Value::Bool(_) => {
            return Err(CalcError::func_call("cista(Bool) není platné volání funkce"));
        },
    };
    match cista_mzda_impl::<R>(gross) {
        Ok(net) => Ok(Value::Rational(net)),
        Err(e) => Err(e),
    }
}

} // verus!
