//! The calculator: the check of the text, then the evaluation by a strategy.

use crate::base::{CalcError, ErrorKind};
use crate::common::{balanced, check_brackets_and_quots, fault, fault_message};
use crate::expr::Expr;
use crate::reals::RealOps;
use crate::strategy::ICalculatorStrategy;
use crate::text::trimmed;
use crate::value::Value;
use core::marker::PhantomData;
use vstd::prelude::*;

verus! {

/// Evaluates expressions with the strategy `TStrategy`. A calculator holds
/// no state: every evaluation stands for itself.
pub struct Calculator<'expr, TStrategy: ICalculatorStrategy<'expr>> {
    g: PhantomData<TStrategy>,
    h: PhantomData<&'expr str>,
}

impl<'expr, TStrategy: ICalculatorStrategy<'expr>> Calculator<'expr, TStrategy> {
    /// The value of an expression. A text whose brackets or quotes are not
    /// balanced is a syntax error, and nothing of it is evaluated. Every
    /// other text goes to the strategy without the white space around it.
    pub fn evaluate_expr<R: RealOps>(&self, math_expr: &'expr str) -> (r: Result<Value, CalcError>)
        ensures
            fault(math_expr@) matches Some(f) ==> r matches Err(e) && e.kind_of()
                == ErrorKind::Parse && e.detail() == fault_message(f),
            balanced(math_expr@) && TStrategy::parses(trimmed(math_expr@)) ==> TStrategy::promises(
                trimmed(math_expr@),
                r,
            ),
            balanced(math_expr@) && !TStrategy::parses(trimmed(math_expr@)) ==> r is Err,
    {
        match check_brackets_and_quots(math_expr) {
            Ok(_) => {},
            Err(e) => {
                return Err(e);
            },
        }
        let mut calc_strategy: TStrategy = Default::default();
        match calc_strategy.parse(Expr::new(math_expr)) {
            Ok(_) => calc_strategy.evaluate::<R>(),
            Err(parse_err) => Err(parse_err),
        }
    }
}

impl<'expr, TStrategy: ICalculatorStrategy<'expr>> Default for Calculator<'expr, TStrategy> {
    fn default() -> Self {
        Calculator { g: PhantomData, h: PhantomData }
    }
}

} // verus!
