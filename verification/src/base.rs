//! The error type shared by the whole calculator.

use crate::text::{join2, owned};
use num_bigint::ParseBigIntError;
use vstd::prelude::*;

verus! {

/// The kind of a [`CalcError`], without its message.
#[derive(Clone, Copy, Debug, PartialEq, Eq, Structural)]
pub enum ErrorKind {
    /// Valid shape, but the expression cannot be evaluated: operands of the
    /// wrong type, a division by zero, a missing operand, a number that no
    /// real can hold.
    Evaluate,
    /// Unknown function, wrong number of arguments, or an argument outside
    /// the function's domain.
    FuncCall,
    /// Malformed text: unbalanced brackets, an unterminated quote, a number
    /// of another shape.
    Parse,
    /// A number of the right shape whose digits no big integer can be read
    /// from.
    ParseBigInt,
}

/// What went wrong, with a message fit for display.
#[derive(Debug, Clone, PartialEq)]
pub enum CalcError {
    EvaluateErr(String),
    FuncCallErr(String),
    ParseErr(String),
    ParseBigIntErr(ParseBigIntError),
}

impl CalcError {
    /// The kind of this error.
    pub open spec fn kind_of(self) -> ErrorKind {
        match self {
            CalcError::EvaluateErr(_) => ErrorKind::Evaluate,
            CalcError::FuncCallErr(_) => ErrorKind::FuncCall,
            CalcError::ParseErr(_) => ErrorKind::Parse,
            CalcError::ParseBigIntErr(_) => ErrorKind::ParseBigInt,
        }
    }

    /// The message that the error carries; empty for `ParseBigIntErr`.
    pub open spec fn detail(self) -> Seq<char> {
        match self {
            CalcError::EvaluateErr(m) => m@,
            CalcError::FuncCallErr(m) => m@,
            CalcError::ParseErr(m) => m@,
            CalcError::ParseBigIntErr(_) => Seq::empty(),
        }
    }

    /// The kind of this error.
    pub fn kind(&self) -> (k: ErrorKind)
        ensures
            k == self.kind_of(),
    {
        match self {
            CalcError::EvaluateErr(_) => ErrorKind::Evaluate,
            CalcError::FuncCallErr(_) => ErrorKind::FuncCall,
            CalcError::ParseErr(_) => ErrorKind::Parse,
            CalcError::ParseBigIntErr(_) => ErrorKind::ParseBigInt,
        }
    }

    /// An evaluation error with the given message.
    pub fn evaluate(message: &str) -> (e: CalcError)
        ensures
            e.kind_of() == ErrorKind::Evaluate,
            e.detail() == message@,
    {
        CalcError::EvaluateErr(owned(message))
    }

    /// A function-call error with the given message.
    pub fn func_call(message: &str) -> (e: CalcError)
        ensures
            e.kind_of() == ErrorKind::FuncCall,
            e.detail() == message@,
    {
        CalcError::FuncCallErr(owned(message))
    }

    /// A syntax error with the given message.
    pub fn parse(message: &str) -> (e: CalcError)
        ensures
            e.kind_of() == ErrorKind::Parse,
            e.detail() == message@,
    {
        CalcError::ParseErr(owned(message))
    }

    /// The text to show for this error: a heading that names its kind, then
    /// the message.
    pub fn message(&self) -> (r: String)
        ensures
            r@ == self.heading() + self.detail(),
    {
        match self {
            CalcError::EvaluateErr(m) => join2(
                "Chyba vyhodnocení matematického výrazu: ",
                m.as_str(),
            ),
            CalcError::FuncCallErr(m) => join2("Chyba volání funkce: ", m.as_str()),
            CalcError::ParseErr(m) => join2(
                "Syntaktická chyba matematického výrazu: ",
                m.as_str(),
            ),
            CalcError::ParseBigIntErr(_) => {
                let text = owned("Nepodařilo se převést text na BigInt.");
                assert(text@ + Seq::<char>::empty() =~= text@);
                text
            },
        }
    }

    /// The heading that [`CalcError::message`] puts before the message.
    pub open spec fn heading(self) -> Seq<char> {
        match self {
            CalcError::EvaluateErr(_) => "Chyba vyhodnocení matematického výrazu: "@,
            CalcError::FuncCallErr(_) => "Chyba volání funkce: "@,
            CalcError::ParseErr(_) => "Syntaktická chyba matematického výrazu: "@,
            CalcError::ParseBigIntErr(_) => "Nepodařilo se převést text na BigInt."@,
        }
    }
}

} // verus!
