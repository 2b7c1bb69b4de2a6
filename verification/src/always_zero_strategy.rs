//! A strategy for trying out what stands around an evaluation.

use crate::base::CalcError;
use crate::expr::Expr;
use crate::func_call::FuncCall;
use crate::reals::RealOps;
use crate::strategy::ICalculatorStrategy;
use crate::value::{Value, ValueView};
use vstd::prelude::*;

verus! {

/// The strategy that computes nothing: the value of every expression is
/// the integer 0.
#[derive(Debug)]
pub struct AlwaysZeroStrategy<'expr> {
    math_expr: Expr<'expr>,
}

impl<'expr> Default for AlwaysZeroStrategy<'expr> {
    /// The strategy that holds the empty expression.
    fn default() -> (r: Self)
        ensures
            r.text() == Seq::<char>::empty(),
    {
        AlwaysZeroStrategy { math_expr: Expr::default() }
    }
}

impl<'expr> ICalculatorStrategy<'expr> for AlwaysZeroStrategy<'expr> {
    closed spec fn text(&self) -> Seq<char> {
        self.math_expr@
    }

    /// This strategy takes every text in.
    open spec fn parses(text: Seq<char>) -> bool {
        true
    }

    /// The result is the integer 0.
    open spec fn promises(text: Seq<char>, r: Result<Value, CalcError>) -> bool {
        r matches Ok(v) && v@ == ValueView::Integer(0)
    }

    fn parse(&mut self, math_expr: Expr<'expr>) -> (r: Result<(), CalcError>) {
        self.math_expr = math_expr;
        Ok(())
    }

    fn evaluate<R: RealOps>(&mut self) -> (r: Result<Value, CalcError>) {
        Ok(Value::Integer(0))
    }

    /// No text is a call for this strategy.
    fn parse_func_call<R: RealOps>(&self, expr: Expr<'expr>) -> (r: Result<FuncCall, CalcError>)
        ensures
            r is Err,
    {
        Err(CalcError::evaluate("Výraz nemá tvar volání funkce: název(parametry)"))
    }
}

} // verus!
