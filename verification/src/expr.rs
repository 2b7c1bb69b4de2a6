//! The text of an expression.

use crate::text::{lemma_trimmed_idempotent, trim, trimmed};
use std::str::Chars;
use vstd::prelude::*;
use vstd::std_specs::iter::IteratorSpec;
use vstd::string::*;

verus! {

/// A window on the text of an expression, without the white space around
/// it. It borrows the text and copies nothing.
#[derive(Debug, Clone, Copy)]
pub struct Expr<'expr> {
    expr: &'expr str,
}

impl<'expr> View for Expr<'expr> {
    type V = Seq<char>;

    closed spec fn view(&self) -> Seq<char> {
        self.expr@
    }
}

impl<'expr> Expr<'expr> {
    /// An expression never holds white space around its text.
    #[verifier::type_invariant]
    pub closed spec fn is_trimmed(self) -> bool {
        self.expr@ == trimmed(self.expr@)
    }

    /// The text without the white space around it.
    pub fn new(expr: &'expr str) -> (r: Self)
        ensures
            r@ == trimmed(expr@),
    {
        proof {
            lemma_trimmed_idempotent(expr@);
        }
        Expr { expr: trim(expr) }
    }

    /// The text of the expression.
    pub fn as_str(&self) -> (r: &'expr str)
        ensures
            r@ == self@,
            r@ == trimmed(self@),
    {
        proof {
            use_type_invariant(self);
        }
        self.expr
    }

    /// The same window once more.
    pub fn dupl(&self) -> (r: Self)
        ensures
            r@ == self@,
    {
        proof {
            use_type_invariant(self);
        }
        Expr::new(self.expr)
    }

    /// Whether the text holds no character.
    pub fn is_empty(&self) -> (r: bool)
        ensures
            r == (self@.len() == 0),
    {
        self.expr.is_empty()
    }

    /// The characters of the text, from the first on.
    pub fn chars(&self) -> (r: Chars<'_>)
        ensures
            r.remaining() == self@,
    {
        broadcast use vstd::string::group_string_axioms;

        self.expr.chars()
    }
}

impl<'expr> Default for Expr<'expr> {
    /// The empty expression.
    fn default() -> (r: Self)
        ensures
            r@ == Seq::<char>::empty(),
    {
        proof {
            reveal_strlit("");
            assert(trimmed(""@) == ""@) by {
                reveal_with_fuel(crate::text::trimmed_start, 1);
                reveal_with_fuel(crate::text::trimmed_end, 1);
            }
        }
        Expr::new("")
    }
}

} // verus!
