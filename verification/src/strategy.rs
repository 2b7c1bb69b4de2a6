//! The interface of an evaluation algorithm.

use crate::base::CalcError;
use crate::expr::Expr;
use crate::func_call::FuncCall;
use crate::reals::RealOps;
use crate::value::Value;
use vstd::prelude::*;

verus! {

/// A way to evaluate an expression, in two steps: `parse` takes the text
/// in, `evaluate` computes the value. An algorithm says by `parses` which
/// texts it takes in, and by `promises` what it computes for a text.
pub trait ICalculatorStrategy<'expr>: Default {
    /// The text that the strategy holds.
    spec fn text(&self) -> Seq<char>;

    /// Whether `parse` takes this text in.
    spec fn parses(text: Seq<char>) -> bool;

    /// What `evaluate` promises of its result for this text.
    spec fn promises(text: Seq<char>, r: Result<Value, CalcError>) -> bool;

    /// Takes an expression in.
    fn parse(&mut self, math_expr: Expr<'expr>) -> (r: Result<(), CalcError>)
        ensures
            r is Ok <==> Self::parses(math_expr@),
            r is Ok ==> final(self).text() == math_expr@,
    ;

    /// Computes the value of the expression that was taken in.
    fn evaluate<R: RealOps>(&mut self) -> (r: Result<Value, CalcError>)
        ensures
            Self::promises(old(self).text(), r),
    ;

    /// Takes an expression of the form `name(arguments)` apart.
    fn parse_func_call<R: RealOps>(&self, expr: Expr<'expr>) -> Result<FuncCall, CalcError>;
}

} // verus!
