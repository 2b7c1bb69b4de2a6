//! Evaluation by scanning the text.
//!
//! The expression is never turned into tokens or a tree. The scan finds the
//! operator that binds least among those outside brackets and quoted texts,
//! the text is cut in two there, and both halves are evaluated in the same
//! way. A text without such an operator is a call of a function or a
//! literal.
//!
//! What an evaluation gives is stated in two ways. [`evaluates_to`] says
//! what every result shows, whatever the real arithmetic computes on the
//! way. [`eval_rec`] is the value itself where the text alone decides it,
//! and every result then shows that value: the lemmas at the end of this
//! module prove it.

use crate::base::{CalcError, ErrorKind};
use crate::big::int_decimal;
use crate::common::{in_text, is_oper, priority, strip_brackets, trim_brackets};
use crate::expr::Expr;
use crate::func_call::{
    call_admits, call_outcome, lemma_call_admits_outcome, lemma_call_meets_outcome, views,
    FuncCall,
};
use crate::reals::RealOps;
use crate::strategy::ICalculatorStrategy;
use crate::text::{
    byte_offset, capture_groups, char_range, char_width, chars_of, join5,
    lemma_byte_len_is_encoded_len, lemma_byte_offset_monotonic, lemma_byte_offset_step,
    lemma_trimmed_idempotent, lowercase_of, regex_groups, trim, trimmed, usize_to_string,
    utf8_width,
};
use crate::value::{literal_value, simplified, Value, ValueView};
use crate::value_algebra::{
    add_spec, admits, decided, div_spec, known, meets, mul_spec, neg_spec, pow_spec, shown,
    sub_spec, Outcome,
};
use vstd::prelude::*;
use vstd::string::*;

verus! {

/// How deep the evaluation may nest. An expression that needs more fails
/// with an evaluation error instead of using up the stack.
pub const MAX_DEPTH: u32 = 1000;

/// Scanning from the right end, whether the scan is inside a quoted text
/// after the characters from index `k` on: every `"` switches.
pub open spec fn in_text_right(s: Seq<char>, k: int) -> bool
    decreases s.len() - k,
{
    if k < 0 || k >= s.len() {
        false
    } else {
        in_text_right(s, k + 1) != (s[k] == '"')
    }
}

/// Scanning from the right end, how many brackets are closed and not yet
/// opened after the characters from index `k` on. Brackets inside quoted
/// texts do not count.
pub open spec fn depth_right(s: Seq<char>, k: int) -> int
    decreases s.len() - k,
{
    if k < 0 || k >= s.len() {
        0
    } else if s[k] != '"' && !in_text_right(s, k + 1) {
        if s[k] == ')' {
            depth_right(s, k + 1) + 1
        } else if s[k] == '(' {
            depth_right(s, k + 1) - 1
        } else {
            depth_right(s, k + 1)
        }
    } else {
        depth_right(s, k + 1)
    }
}

/// The character with index `k` is an operator at which the text may be
/// cut: outside quoted texts and outside brackets, as the scan from the
/// right sees them.
pub open spec fn candidate(s: Seq<char>, k: int) -> bool {
    0 <= k < s.len() && priority(s[k]) > 0 && !in_text_right(s, k + 1) && depth_right(s, k + 1)
        == 0
}

/// The index of the operator at which the text is cut, among the
/// characters from index `k` on: the candidate of the least priority, and
/// of several such the one furthest to the right.
pub open spec fn best_right(s: Seq<char>, k: int) -> Option<int>
    decreases s.len() - k,
{
    if k < 0 || k >= s.len() {
        None
    } else {
        let later = best_right(s, k + 1);
        if candidate(s, k) && (later is None || priority(s[k]) < priority(s[later->0])) {
            Some(k)
        } else {
            later
        }
    }
}

/// The operator at which a text is cut and the byte offset at which it
/// stands, if the text has one.
pub open spec fn find_oper_spec(s: Seq<char>) -> Option<(char, int)> {
    match best_right(s, 0) {
        Some(j) => Some((s[j], byte_offset(s, j) as int)),
        None => None,
    }
}

/// An operator that was found is the one that the scan of the text gives.
pub open spec fn is_found(r: Option<(char, usize)>, expected: Option<(char, int)>) -> bool {
    match expected {
        Some((symbol, offset)) => r matches Some((c, p)) && c == symbol && p == offset,
        None => r is None,
    }
}

/// A text can be cut at byte offset `pos`: a character of one byte starts
/// there.
pub open spec fn cuttable(s: Seq<char>, pos: int) -> bool {
    exists|j: int| 0 <= j < s.len() && #[trigger] byte_offset(s, j) == pos && utf8_width(s[j]) == 1
}

/// The index of the character that starts at byte offset `pos`.
pub open spec fn cut_index(s: Seq<char>, pos: int) -> int {
    choose|j: int| 0 <= j < s.len() && #[trigger] byte_offset(s, j) == pos
}

/// The character that starts at a byte offset is the only one that does.
pub proof fn lemma_cut_index(s: Seq<char>, j: int)
    requires
        0 <= j < s.len(),
    ensures
        cut_index(s, byte_offset(s, j) as int) == j,
{
    let i = cut_index(s, byte_offset(s, j) as int);
    if i < j {
        lemma_byte_offset_monotonic(s, i, j);
    } else if j < i {
        lemma_byte_offset_monotonic(s, j, i);
    }
}

/// An operator takes one byte.
pub proof fn lemma_operator_width(c: char)
    requires
        priority(c) > 0,
    ensures
        utf8_width(c) == 1,
{
}

/// Whether the character with index `k` separates two arguments: a comma
/// outside quoted texts and outside brackets, as the scan from the left
/// sees them. Here brackets count inside quoted texts too.
pub open spec fn separates(s: Seq<char>, k: int) -> bool {
    0 <= k < s.len() && s[k] == ',' && nesting(s, k) == 0 && !in_text(s, k)
}

/// How many more brackets are opened than closed among the first `k`
/// characters, inside quoted texts or not.
pub open spec fn nesting(s: Seq<char>, k: int) -> int
    decreases k,
{
    if k <= 0 {
        0
    } else if s[k - 1] == '(' {
        nesting(s, k - 1) + 1
    } else if s[k - 1] == ')' {
        nesting(s, k - 1) - 1
    } else {
        nesting(s, k - 1)
    }
}

/// The arguments of a call as texts: the pieces between separating commas,
/// scanning on from index `k` with the current piece starting at `start`.
pub open spec fn pieces(s: Seq<char>, start: int, k: int) -> Seq<Seq<char>>
    decreases s.len() - k,
{
    if k < 0 || k >= s.len() || start < 0 || start > k {
        seq![s.subrange(start, s.len() as int)]
    } else if separates(s, k) {
        seq![s.subrange(start, k)] + pieces(s, k + 1, k + 1)
    } else {
        pieces(s, start, k + 1)
    }
}

/// The pattern of a call: a name of letters, then the arguments in
/// brackets.
pub open spec fn call_pattern() -> Seq<char> {
    "^(?<fname>[a-zA-Z]+) *\\((?<params>.*)\\)$"@
}

/// The name and the arguments that the pattern of a call finds in a text.
pub open spec fn call_texts(s: Seq<char>) -> Option<(Seq<char>, Seq<char>)> {
    match regex_groups(call_pattern(), s, "fname"@, "params"@) {
        Some((Some(name), Some(params))) => Some((name, params)),
        _ => None,
    }
}

/// What is known of a result after it is simplified.
pub open spec fn known_simplified(k: Option<Result<ValueView, ErrorKind>>) -> Option<
    Result<ValueView, ErrorKind>,
> {
    match k {
        Some(Ok(v)) => Some(Ok(simplified(v))),
        other => other,
    }
}

/// What is known of a list of values with one more value in front.
pub open spec fn known_prepended(
    first: ValueView,
    rest: Option<Result<Seq<ValueView>, ErrorKind>>,
) -> Option<Result<Seq<ValueView>, ErrorKind>> {
    match rest {
        Some(Ok(values)) => Some(Ok(seq![first] + values)),
        other => other,
    }
}

/// Which of the five operators a symbol is, applied to two values.
pub open spec fn binary_spec(symbol: char, a: ValueView, b: ValueView) -> Outcome {
    if symbol == '+' {
        add_spec(a, b)
    } else if symbol == '-' {
        sub_spec(a, b)
    } else if symbol == '*' {
        mul_spec(a, b)
    } else if symbol == '/' {
        div_spec(a, b)
    } else {
        pow_spec(a, b)
    }
}

/// The two sides of a text that is cut at the character with index `j`,
/// each without the white space around it.
pub open spec fn sides(e: Seq<char>, j: int) -> (Seq<char>, Seq<char>) {
    (trimmed(e.take(j)), trimmed(e.skip(j + 1)))
}

/// What a result shows after its value is simplified.
pub open spec fn shown_simplified(r: Result<ValueView, ErrorKind>) -> Result<
    ValueView,
    ErrorKind,
> {
    match r {
        Ok(v) => Ok(simplified(v)),
        Err(k) => Err(k),
    }
}

/// `r` is what the negation of the result `b` may show: the error of `b`,
/// or what the negation of its value admits.
pub open spec fn negated(b: Result<ValueView, ErrorKind>, r: Result<ValueView, ErrorKind>) -> bool {
    match b {
        Ok(y) => admits(neg_spec(y), r),
        Err(k) => r == Err::<ValueView, ErrorKind>(k),
    }
}

/// `r` is what an operator may show that is applied to the results `a`
/// and `b` of its operands: the first error of the two, or what the
/// operator admits for their values.
pub open spec fn applied(
    symbol: char,
    a: Result<ValueView, ErrorKind>,
    b: Result<ValueView, ErrorKind>,
    r: Result<ValueView, ErrorKind>,
) -> bool {
    match a {
        Ok(x) => match b {
            Ok(y) => admits(binary_spec(symbol, x, y), r),
            Err(k) => r == Err::<ValueView, ErrorKind>(k),
        },
        Err(k) => r == Err::<ValueView, ErrorKind>(k),
    }
}

/// `r` is what a text `e` of the form of a call may show, given the
/// result `args` of its arguments: what the call of the function `name`
/// admits for their values; where an argument has no value, the text is no
/// call, and it is taken for a literal.
pub open spec fn called(
    e: Seq<char>,
    name: Seq<char>,
    args: Result<Seq<ValueView>, ErrorKind>,
    r: Result<ValueView, ErrorKind>,
) -> bool {
    match args {
        Ok(values) => call_admits(name, values, r),
        Err(_) => literal_evaluates_to(e, r),
    }
}

/// `r` is what the evaluation of an expression may show, simplified.
pub open spec fn simplifies_to(s: Seq<char>, depth: nat, r: Result<ValueView, ErrorKind>) -> bool
    decreases depth, 4nat, 0nat,
{
    exists|raw: Result<ValueView, ErrorKind>|
        evaluates_to(s, depth, raw) && r == #[trigger] shown_simplified(raw)
}

/// `r` is what the evaluation of an expression may show. Where only exact
/// numbers, texts and booleans take part, there is one such `r`; where a
/// real takes part, every `r` is one that the operators and functions
/// admit for the values of the parts. `depth` is how deep the evaluation
/// may still nest.
///
/// The white space and the brackets around the text are dropped. If an
/// operator cuts the text, both sides are evaluated, the left one first,
/// and the operator is applied to their values; the first error ends the
/// evaluation. `+` and `-` may lack their left side. A text that no
/// operator cuts is a call of a function where it has that form, and else
/// a literal.
pub open spec fn evaluates_to(s: Seq<char>, depth: nat, r: Result<ValueView, ErrorKind>) -> bool
    decreases depth, 3nat, 0nat,
{
    if depth == 0 {
        r == Err::<ValueView, ErrorKind>(ErrorKind::Evaluate)
    } else {
        let e = strip_brackets(s);
        match best_right(e, 0) {
            None => atom_evaluates_to(e, depth, r),
            Some(j) => cut_evaluates_to(e, j, depth, r),
        }
    }
}

/// `r` is what a text may show that is cut at the operator with index
/// `j`.
pub open spec fn cut_evaluates_to(
    e: Seq<char>,
    j: int,
    depth: nat,
    r: Result<ValueView, ErrorKind>,
) -> bool
    decreases depth, 2nat, 0nat,
{
    let symbol = e[j];
    let (left, right) = sides(e, j);
    if depth == 0 || right.len() == 0 {
        r == Err::<ValueView, ErrorKind>(ErrorKind::Evaluate)
    } else if left.len() == 0 {
        if symbol == '+' {
            simplifies_to(right, (depth - 1) as nat, r)
        } else if symbol == '-' {
            exists|b: Result<ValueView, ErrorKind>|
                simplifies_to(right, (depth - 1) as nat, b) && #[trigger] negated(b, r)
        } else {
            r == Err::<ValueView, ErrorKind>(ErrorKind::Evaluate)
        }
    } else {
        exists|a: Result<ValueView, ErrorKind>, b: Result<ValueView, ErrorKind>|
            simplifies_to(left, (depth - 1) as nat, a) && (a is Ok ==> simplifies_to(
                right,
                (depth - 1) as nat,
                b,
            )) && #[trigger] applied(symbol, a, b, r)
    }
}

/// `r` is what a text may show that no operator cuts. A text of the form
/// `name(arguments)` whose arguments have values is a call: the function
/// is called with these values. Every other text is a literal.
pub open spec fn atom_evaluates_to(e: Seq<char>, depth: nat, r: Result<ValueView, ErrorKind>) -> bool
    decreases depth, 2nat, 0nat,
{
    match call_texts(e) {
        None => literal_evaluates_to(e, r),
        Some((name, params)) => exists|args: Result<Seq<ValueView>, ErrorKind>|
            params_evaluate_to(params, depth, args) && #[trigger] called(
                e,
                lowercase_of(trimmed(name)),
                args,
                r,
            ),
    }
}

/// `r` is what a literal may show: the simplified value that the text
/// denotes where the text alone decides it; and else a real, simplified,
/// or an evaluation error for a text that denotes nothing.
pub open spec fn literal_evaluates_to(e: Seq<char>, r: Result<ValueView, ErrorKind>) -> bool {
    match literal_value(e) {
        Some(v) => r == Ok::<ValueView, ErrorKind>(simplified(v)),
        None => match r {
            Ok(x) => x.is_simple_real(),
            Err(k) => k == ErrorKind::Evaluate,
        },
    }
}

/// `r` is what the text between the brackets of a call may show: no
/// values for a text of white space, and else the values of the pieces
/// between the separating commas.
pub open spec fn params_evaluate_to(
    params: Seq<char>,
    depth: nat,
    r: Result<Seq<ValueView>, ErrorKind>,
) -> bool
    decreases depth, 1nat, 0nat,
{
    if trimmed(params).len() == 0 {
        r == Ok::<Seq<ValueView>, ErrorKind>(Seq::empty())
    } else {
        args_evaluate_to(pieces(trimmed(params), 0, 0), depth, r)
    }
}

/// The first texts of a list may show the values `values`, simplified.
pub open spec fn args_have(texts: Seq<Seq<char>>, depth: nat, values: Seq<ValueView>) -> bool
    decreases depth, 0nat, 0nat,
{
    depth > 0 && values.len() <= texts.len() && forall|i: int|
        0 <= i < values.len() ==> simplifies_to(
            trimmed(#[trigger] texts[i]),
            (depth - 1) as nat,
            Ok(values[i]),
        )
}

/// `r` is what the arguments of a call may show: the simplified value of
/// each of the texts, or the error of the first text that has no value.
pub open spec fn args_evaluate_to(
    texts: Seq<Seq<char>>,
    depth: nat,
    r: Result<Seq<ValueView>, ErrorKind>,
) -> bool
    decreases depth, 0nat, 1nat,
{
    match r {
        Ok(values) => values.len() == texts.len() && args_have(texts, depth, values),
        Err(k) => depth > 0 && exists|values: Seq<ValueView>| #[trigger]
            values.len() < texts.len() && args_have(texts, depth, values) && simplifies_to(
                trimmed(texts[values.len() as int]),
                (depth - 1) as nat,
                Err(k),
            ),
    }
}

/// The value of an expression, simplified, as far as the text alone decides
/// it. `depth` is how deep the evaluation may still nest.
pub open spec fn eval_simplified(s: Seq<char>, depth: nat) -> Option<Result<ValueView, ErrorKind>>
    decreases depth, 3nat, 0nat,
{
    known_simplified(eval_rec(s, depth))
}

/// The value of an expression as far as the text alone decides it: `None`
/// where the result is the real arithmetic's to decide. Every result that
/// [`evaluates_to`] admits is this value where there is one.
pub open spec fn eval_rec(s: Seq<char>, depth: nat) -> Option<Result<ValueView, ErrorKind>>
    decreases depth, 2nat, 0nat,
{
    if depth == 0 {
        Some(Err(ErrorKind::Evaluate))
    } else {
        let e = strip_brackets(s);
        match best_right(e, 0) {
            None => eval_atom(e, depth),
            Some(j) => eval_cut(e, j, depth),
        }
    }
}

/// The value of a text that is cut at the operator with index `j`, as far
/// as the text alone decides it.
pub open spec fn eval_cut(e: Seq<char>, j: int, depth: nat) -> Option<
    Result<ValueView, ErrorKind>,
>
    decreases depth, 1nat, 2nat,
{
    let symbol = e[j];
    let (left, right) = sides(e, j);
    if depth == 0 || right.len() == 0 {
        Some(Err(ErrorKind::Evaluate))
    } else if left.len() == 0 {
        if symbol == '+' {
            eval_simplified(right, (depth - 1) as nat)
        } else if symbol == '-' {
            match eval_simplified(right, (depth - 1) as nat) {
                Some(Ok(v)) => known(neg_spec(v)),
                other => other,
            }
        } else {
            Some(Err(ErrorKind::Evaluate))
        }
    } else {
        match eval_simplified(left, (depth - 1) as nat) {
            Some(Ok(a)) => match eval_simplified(right, (depth - 1) as nat) {
                Some(Ok(b)) => known(binary_spec(symbol, a, b)),
                other => other,
            },
            other => other,
        }
    }
}

/// The value of a text that no operator cuts, as far as the text alone
/// decides it: the result of a call, or a literal where the text is no
/// call or an argument has no value.
pub open spec fn eval_atom(e: Seq<char>, depth: nat) -> Option<Result<ValueView, ErrorKind>>
    decreases depth, 1nat, 1nat,
{
    if depth == 0 {
        None
    } else {
        match call_texts(e) {
            None => eval_literal(e),
            Some((name, params)) => match eval_params(params, depth) {
                Some(Ok(values)) => known(call_outcome(lowercase_of(trimmed(name)), values)),
                Some(Err(_)) => eval_literal(e),
                None => None,
            },
        }
    }
}

/// The value of a literal, simplified, where the text alone decides it.
pub open spec fn eval_literal(e: Seq<char>) -> Option<Result<ValueView, ErrorKind>> {
    match literal_value(e) {
        Some(v) => Some(Ok(simplified(v))),
        None => None,
    }
}

/// The values of the arguments that stand between the brackets of a call,
/// as far as the text alone decides them.
pub open spec fn eval_params(params: Seq<char>, depth: nat) -> Option<
    Result<Seq<ValueView>, ErrorKind>,
>
    decreases depth, 1nat, 0nat,
{
    if trimmed(params).len() == 0 {
        Some(Ok(Seq::empty()))
    } else {
        eval_args(pieces(trimmed(params), 0, 0), depth)
    }
}

/// The values of the arguments of a call, from the first on; the first
/// argument without a value decides.
pub open spec fn eval_args(texts: Seq<Seq<char>>, depth: nat) -> Option<
    Result<Seq<ValueView>, ErrorKind>,
>
    decreases depth, 0nat, texts.len(),
{
    if depth == 0 {
        None
    } else if texts.len() == 0 {
        Some(Ok(Seq::empty()))
    } else {
        match eval_simplified(trimmed(texts[0]), (depth - 1) as nat) {
            Some(Ok(v)) => known_prepended(v, eval_args(texts.drop_first(), depth)),
            Some(Err(k)) => Some(Err(k)),
            None => None,
        }
    }
}

/// The operator with index `j` lacks an operand where the text is cut
/// there: nothing stands on its right, or nothing stands on its left and
/// it is neither `+` nor `-`.
pub open spec fn lacking_cut(e: Seq<char>, j: int) -> bool {
    let (left, right) = sides(e, j);
    right.len() == 0 || (left.len() == 0 && e[j] != '+' && e[j] != '-')
}

/// The operator at which a text is cut and its byte offset, where the
/// operator lacks an operand.
pub open spec fn lacking_operand(s: Seq<char>) -> Option<(char, int)> {
    let e = strip_brackets(s);
    match best_right(e, 0) {
        None => None,
        Some(j) => if lacking_cut(e, j) {
            Some((e[j], byte_offset(e, j) as int))
        } else {
            None
        },
    }
}

/// The message for an operator that lacks an operand; it names the
/// operator and the byte offset at which it stands.
pub open spec fn missing_operand_message(symbol: char, offset: int) -> Seq<char> {
    "Operátoru "@ + seq![symbol] + " na pozici "@ + int_decimal(offset) + " chybí operand"@
}

/// What a call shows: the name of the function and the content of its
/// arguments.
pub open spec fn shown_call(r: Result<FuncCall, CalcError>) -> Result<
    (Seq<char>, Seq<ValueView>),
    ErrorKind,
> {
    match r {
        Ok(c) => Ok((c.name_text(), c.args())),
        Err(e) => Err(e.kind_of()),
    }
}

/// The arguments that a call shows.
pub open spec fn shown_args_of(r: Result<FuncCall, CalcError>) -> Result<
    Seq<ValueView>,
    ErrorKind,
> {
    match r {
        Ok(c) => Ok(c.args()),
        Err(e) => Err(e.kind_of()),
    }
}

/// What a list of values shows: the content of the values.
pub open spec fn shown_args(r: Result<Vec<Value>, CalcError>) -> Result<
    Seq<ValueView>,
    ErrorKind,
> {
    match r {
        Ok(v) => Ok(views(v@)),
        Err(e) => Err(e.kind_of()),
    }
}

/// `c` is what taking a call apart may show: for a text of the form
/// `name(arguments)` the name, trimmed and in lower case, with the values
/// of the arguments, or the error of an argument; for every other text an
/// evaluation error.
pub open spec fn call_evaluates_to(
    e: Seq<char>,
    depth: nat,
    c: Result<(Seq<char>, Seq<ValueView>), ErrorKind>,
) -> bool {
    match call_texts(e) {
        None => c == Err::<(Seq<char>, Seq<ValueView>), ErrorKind>(ErrorKind::Evaluate),
        Some((name, params)) => exists|args: Result<Seq<ValueView>, ErrorKind>| #[trigger]
            params_evaluate_to(params, depth, args) && c == (match args {
                Ok(values) => Ok((lowercase_of(trimmed(name)), values)),
                Err(k) => Err(k),
            }),
    }
}

/// What is known of the call that a text denotes: its name and the values
/// of its arguments; an error where the text is no call or an argument
/// fails.
pub open spec fn call_known(e: Seq<char>, depth: nat) -> Option<
    Result<(Seq<char>, Seq<ValueView>), ErrorKind>,
> {
    match call_texts(e) {
        None => Some(Err(ErrorKind::Evaluate)),
        Some((name, params)) => match eval_params(params, depth) {
            Some(Ok(values)) => Some(Ok((lowercase_of(trimmed(name)), values))),
            Some(Err(k)) => Some(Err(k)),
            None => None,
        },
    }
}

/// The strategy that evaluates by scanning the text.
#[derive(Debug)]
pub struct RecursiveScanStrategy<'expr> {
    math_expr: Expr<'expr>,
}

impl<'expr> Default for RecursiveScanStrategy<'expr> {
    /// The strategy that holds the empty expression.
    fn default() -> (r: Self)
        ensures
            r.text() == Seq::<char>::empty(),
    {
        RecursiveScanStrategy { math_expr: Expr::default() }
    }
}

impl<'expr> ICalculatorStrategy<'expr> for RecursiveScanStrategy<'expr> {
    closed spec fn text(&self) -> Seq<char> {
        self.math_expr@
    }

    /// This strategy takes every text in.
    open spec fn parses(text: Seq<char>) -> bool {
        true
    }

    /// The result shows what the evaluation of the text may show, and it
    /// is the value that the text alone decides where there is one.
    open spec fn promises(text: Seq<char>, r: Result<Value, CalcError>) -> bool {
        simplifies_to(text, MAX_DEPTH as nat, shown(r)) && decided(
            shown(r),
            eval_simplified(text, MAX_DEPTH as nat),
        )
    }

    fn parse(&mut self, math_expr: Expr<'expr>) -> (r: Result<(), CalcError>) {
        self.math_expr = math_expr;
        Ok(())
    }

    fn evaluate<R: RealOps>(&mut self) -> (r: Result<Value, CalcError>) {
        Self::evaluate_rec_simplify::<R>(self.math_expr, MAX_DEPTH)
    }

    fn parse_func_call<R: RealOps>(&self, expr: Expr<'expr>) -> (r: Result<FuncCall, CalcError>)
        ensures
            call_evaluates_to(expr@, MAX_DEPTH as nat, shown_call(r)),
            decided(shown_call(r), call_known(expr@, MAX_DEPTH as nat)),
    {
        Self::func_call_at::<R>(expr, MAX_DEPTH)
    }
}

impl<'expr> RecursiveScanStrategy<'expr> {
    /// The name and the arguments of a call as texts, where the expression
    /// has the form `name(arguments)`.
    pub fn call_parts(expr: Expr) -> (r: Option<(String, String)>)
        ensures
            match call_texts(expr@) {
                Some((name, params)) => r matches Some((n, p)) && n@ == name && p@ == params,
                None => r is None,
            },
    {
        let groups = capture_groups(
            "^(?<fname>[a-zA-Z]+) *\\((?<params>.*)\\)$",
            expr.as_str(),
            "fname",
            "params",
        );
        match groups {
            Some((Some(name), Some(params))) => Some((name, params)),
            _ => None,
        }
    }

    /// The call of the function `name` with the values of the arguments
    /// that stand in `params`.
    pub fn func_call_of<R: RealOps>(name: &str, params: &str, depth: u32) -> (r: Result<
        FuncCall,
        CalcError,
    >)
        requires
            depth > 0,
        ensures
            params_evaluate_to(params@, depth as nat, shown_args_of(r)),
            decided(shown_args_of(r), eval_params(params@, depth as nat)),
            r matches Ok(c) ==> c.name_text() == lowercase_of(trimmed(name@)),
        decreases depth, 1nat, 0nat,
    {
        let params_as_str = trim(params);
        let params_vec = if params_as_str.is_empty() {
            Vec::new()
        } else {
            proof {
                lemma_trimmed_idempotent(params@);
            }
            match Self::parse_params_str::<R>(Expr::new(params_as_str), depth) {
                Ok(v) => v,
                Err(e) => {
                    return Err(e);
                },
            }
        };
        proof {
            assert(views(Seq::<Value>::empty()) =~= Seq::<ValueView>::empty());
        }
        Ok(FuncCall::new(name, params_vec))
    }

    /// The call that a text of the form `name(arguments)` denotes, with
    /// its arguments evaluated.
    pub fn func_call_at<R: RealOps>(expr: Expr, depth: u32) -> (r: Result<FuncCall, CalcError>)
        requires
            depth > 0,
        ensures
            call_evaluates_to(expr@, depth as nat, shown_call(r)),
            decided(shown_call(r), call_known(expr@, depth as nat)),
    {
        match Self::call_parts(expr) {
            Some((name, params)) => Self::func_call_of::<R>(
                name.as_str(),
                params.as_str(),
                depth,
            ),
            None => Err(CalcError::evaluate("Výraz nemá tvar volání funkce: název(parametry)")),
        }
    }

    /// The arguments of a call as texts: the text cut at its separating
    /// commas.
    pub fn split_params<'a>(params_str: Expr<'a>) -> (r: Vec<Expr<'a>>)
        ensures
            r@.len() == pieces(params_str@, 0, 0).len(),
            forall|i: int|
                0 <= i < r@.len() ==> (#[trigger] r@[i])@ == trimmed(
                    pieces(params_str@, 0, 0)[i],
                ),
    {
        let text = params_str.as_str();
        let chars = chars_of(text);
        let n = chars.len();
        let mut out: Vec<Expr<'a>> = Vec::new();
        let ghost mut done: Seq<Seq<char>> = Seq::empty();
        let mut curr_depth: i128 = 0;
        let mut is_in_string = false;
        let mut start: usize = 0;
        let mut k: usize = 0;
        while k < n
            invariant
                text@ == params_str@,
                chars@ == text@,
                n == chars@.len(),
                start <= k <= n,
                curr_depth == nesting(text@, k as int),
                -k <= curr_depth <= k,
                is_in_string == in_text(text@, k as int),
                pieces(text@, 0, 0) == done + pieces(text@, start as int, k as int),
                out@.len() == done.len(),
                forall|i: int| 0 <= i < out@.len() ==> (#[trigger] out@[i])@ == trimmed(done[i]),
            decreases n - k,
        {
            let c = chars[k];
            if c == ',' && curr_depth == 0 && !is_in_string {
                let piece = Expr::new(char_range(text, start, k));
                out.push(piece);
                proof {
                    let cut = text@.subrange(start as int, k as int);
                    assert(done + (seq![cut] + pieces(text@, k + 1, k + 1)) =~= done.push(cut)
                        + pieces(text@, k + 1, k + 1));
                    done = done.push(cut);
                }
                start = k + 1;
            } else if c == '(' {
                curr_depth = curr_depth + 1;
            } else if c == ')' {
                curr_depth = curr_depth - 1;
            } else if c == '"' {
                is_in_string = !is_in_string;
            }
            k = k + 1;
        }
        let last = Expr::new(char_range(text, start, n));
        out.push(last);
        proof {
            let cut = text@.subrange(start as int, n as int);
            assert(done + seq![cut] =~= done.push(cut));
            done = done.push(cut);
        }
        out
    }

    /// The values of the arguments of a call, which stand one after the
    /// other between commas.
    pub fn parse_params_str<R: RealOps>(params_str: Expr, depth: u32) -> (r: Result<
        Vec<Value>,
        CalcError,
    >)
        requires
            depth > 0,
        ensures
            args_evaluate_to(pieces(params_str@, 0, 0), depth as nat, shown_args(r)),
            decided(shown_args(r), eval_args(pieces(params_str@, 0, 0), depth as nat)),
        decreases depth, 0nat, 0nat,
    {
        let texts = Self::split_params(params_str);
        let ghost all = pieces(params_str@, 0, 0);
        let mut params: Vec<Value> = Vec::new();
        let mut i: usize = 0;
        while i < texts.len()
            invariant
                depth > 0,
                all == pieces(params_str@, 0, 0),
                i <= texts@.len(),
                texts@.len() == all.len(),
                forall|j: int| 0 <= j < texts@.len() ==> (#[trigger] texts@[j])@ == trimmed(all[j]),
                params@.len() == i,
                args_have(all, depth as nat, views(params@)),
            decreases texts.len() - i,
        {
            let ghost before = views(params@);
            let value = match Self::evaluate_rec_simplify::<R>(texts[i], depth - 1) {
                Ok(v) => v,
                Err(e) => {
                    proof {
                        assert(before.len() == i);
                        lemma_args_are_decided(all, depth as nat, Err(e.kind_of()));
                    }
                    return Err(e);
                },
            };
            params.push(value);
            proof {
                assert(views(params@) =~= before.push(value@));
            }
            i = i + 1;
        }
        proof {
            lemma_args_are_decided(all, depth as nat, Ok(views(params@)));
        }
        Ok(params)
    }

    /// The value of an expression, simplified.
    pub fn evaluate_rec_simplify<R: RealOps>(expr: Expr, depth: u32) -> (r: Result<
        Value,
        CalcError,
    >)
        ensures
            simplifies_to(expr@, depth as nat, shown(r)),
            decided(shown(r), eval_simplified(expr@, depth as nat)),
        decreases depth, 3nat, 0nat,
    {
        let raw = Self::evaluate_rec::<R>(expr, depth);
        let ghost before = shown(raw);
        let r = match raw {
            Ok(v) => v.simplify_type_move(),
            Err(e) => Err(e),
        };
        proof {
            assert(shown(r) == shown_simplified(before));
            lemma_simplified_is_decided(expr@, depth as nat, shown(r));
        }
        r
    }

    /// The value of an expression.
    pub fn evaluate_rec<R: RealOps>(expr: Expr, depth: u32) -> (r: Result<Value, CalcError>)
        ensures
            evaluates_to(expr@, depth as nat, shown(r)),
            decided(shown(r), eval_rec(expr@, depth as nat)),
            depth > 0 ==> (lacking_operand(expr@) matches Some((symbol, offset)) ==> (r matches Err(
                e,
            ) && e.detail() == missing_operand_message(symbol, offset))),
        decreases depth, 2nat, 0nat,
    {
        if depth == 0 {
            return Err(CalcError::evaluate("Výraz je příliš hluboce vnořený"));
        }
        let inner = trim_brackets(expr);
        let r = match Self::find_oper(inner) {
            None => Self::evaluate_atom::<R>(inner, depth),
            Some((oper_symbol, oper_pos)) => Self::evaluate_cut::<R>(
                inner,
                oper_symbol,
                oper_pos,
                depth,
            ),
        };
        proof {
            lemma_evaluated_is_decided(expr@, depth as nat, shown(r));
        }
        r
    }

    /// The value of an expression that no operator cuts: the result of a
    /// call where the expression has the form of one, else the value of a
    /// literal.
    pub fn evaluate_atom<R: RealOps>(expr: Expr, depth: u32) -> (r: Result<Value, CalcError>)
        requires
            depth > 0,
        ensures
            atom_evaluates_to(expr@, depth as nat, shown(r)),
        decreases depth, 1nat, 1nat,
    {
        match Self::call_parts(expr) {
            Some((name, params)) => {
                let call = Self::func_call_of::<R>(name.as_str(), params.as_str(), depth);
                let ghost args = shown_args_of(call);
                let r = match call {
                    Ok(func_call) => {
                        let r = func_call.eval::<R>();
                        proof {
                            lemma_call_meets_outcome(func_call.name_text(), func_call.args(), r);
                        }
                        r
                    },
                    Err(_) => Self::evaluate_literal::<R>(expr),
                };
                assert(called(expr@, lowercase_of(trimmed(name@)), args, shown(r)));
                r
            },
            None => Self::evaluate_literal::<R>(expr),
        }
    }

    /// The value of a literal, simplified.
    pub fn evaluate_literal<R: RealOps>(expr: Expr) -> (r: Result<Value, CalcError>)
        ensures
            literal_evaluates_to(expr@, shown(r)),
            r matches Err(e) ==> e.detail() == "Výraz '"@ + expr@ + "' není platná hodnota."@,
    {
        match Value::parse::<R>(expr.as_str()) {
            Ok(v) => v.simplify_type_move(),
            Err(e) => Err(e),
        }
    }

    /// One of the five operators applied to two values.
    pub fn apply<R: RealOps>(oper_symbol: char, a: Value, b: Value) -> (r: Result<
        Value,
        CalcError,
    >)
        ensures
            meets(r, binary_spec(oper_symbol, a@, b@)),
    {
        if oper_symbol == '+' {
            a.add::<R>(b)
        } else if oper_symbol == '-' {
            a.sub::<R>(b)
        } else if oper_symbol == '*' {
            a.mul::<R>(b)
        } else if oper_symbol == '/' {
            a.div::<R>(b)
        } else {
            a.pow::<R>(&b)
        }
    }

    /// The value of an expression that is cut at the operator
    /// `oper_symbol`, which stands at byte offset `oper_pos`.
    pub fn evaluate_cut<R: RealOps>(
        expr: Expr,
        oper_symbol: char,
        oper_pos: usize,
        depth: u32,
    ) -> (r: Result<Value, CalcError>)
        requires
            depth > 0,
            is_found(Some((oper_symbol, oper_pos)), find_oper_spec(expr@)),
        ensures
            cut_evaluates_to(expr@, best_right(expr@, 0)->0, depth as nat, shown(r)),
            lacking_cut(expr@, best_right(expr@, 0)->0) ==> (r matches Err(e) && e.detail()
                == missing_operand_message(oper_symbol, oper_pos as int)),
        decreases depth, 1nat, 2nat,
    {
        let ghost j = best_right(expr@, 0)->0;
        proof {
            lemma_best_right_is_candidate(expr@, 0);
            lemma_operator_width(expr@[j]);
            lemma_cut_index(expr@, j);
        }
        let (left, right) = Self::halve_expr(expr, oper_pos);
        if right.is_empty() {
            return Err(Self::missing_operand(oper_symbol, oper_pos));
        }
        if left.is_empty() {
            return if oper_symbol == '+' {
                Self::evaluate_rec_simplify::<R>(right, depth - 1)
            } else if oper_symbol == '-' {
                let b = Self::evaluate_rec_simplify::<R>(right, depth - 1);
                let ghost operand = shown(b);
                let r = match b {
                    Ok(v) => v.neg::<R>(),
                    Err(e) => Err(e),
                };
                assert(negated(operand, shown(r)));
                r
            } else {
                Err(Self::missing_operand(oper_symbol, oper_pos))
            };
        }
        let a = Self::evaluate_rec_simplify::<R>(left, depth - 1);
        let ghost first = shown(a);
        let a = match a {
            Ok(v) => v,
            Err(e) => {
                assert(applied(oper_symbol, first, first, first));
                return Err(e);
            },
        };
        let b = Self::evaluate_rec_simplify::<R>(right, depth - 1);
        let ghost second = shown(b);
        let b = match b {
            Ok(v) => v,
            Err(e) => {
                assert(applied(oper_symbol, first, second, second));
                return Err(e);
            },
        };
        let r = Self::apply::<R>(oper_symbol, a, b);
        assert(applied(oper_symbol, first, second, shown(r)));
        r
    }

    /// The error of an operator that lacks an operand.
    fn missing_operand(oper_symbol: char, oper_pos: usize) -> (e: CalcError)
        requires
            priority(oper_symbol) > 0,
        ensures
            e.kind_of() == ErrorKind::Evaluate,
            e.detail() == missing_operand_message(oper_symbol, oper_pos as int),
    {
        proof {
            reveal_strlit("+");
            reveal_strlit("-");
            reveal_strlit("*");
            reveal_strlit("/");
            reveal_strlit("^");
            assert("+"@ =~= seq!['+']);
            assert("-"@ =~= seq!['-']);
            assert("*"@ =~= seq!['*']);
            assert("/"@ =~= seq!['/']);
            assert("^"@ =~= seq!['^']);
        }
        let symbol = if oper_symbol == '+' {
            "+"
        } else if oper_symbol == '-' {
            "-"
        } else if oper_symbol == '*' {
            "*"
        } else if oper_symbol == '/' {
            "/"
        } else {
            "^"
        };
        CalcError::EvaluateErr(
            join5(
                "Operátoru ",
                symbol,
                " na pozici ",
                usize_to_string(oper_pos).as_str(),
                " chybí operand",
            ),
        )
    }

    /// The two sides of an expression around the operator at byte offset
    /// `oper_pos`, each without the white space around it.
    pub fn halve_expr<'a>(expr: Expr<'a>, oper_pos: usize) -> (r: (Expr<'a>, Expr<'a>))
        requires
            cuttable(expr@, oper_pos as int),
        ensures
            r.0@ == trimmed(expr@.take(cut_index(expr@, oper_pos as int))),
            r.1@ == trimmed(expr@.skip(cut_index(expr@, oper_pos as int) + 1)),
    {
        let text = expr.as_str();
        let chars = chars_of(text);
        let n = chars.len();
        let ghost j = cut_index(text@, oper_pos as int);
        let mut i: usize = 0;
        let mut offset: usize = 0;
        proof {
            let w = choose|w: int|
                0 <= w < text@.len() && #[trigger] byte_offset(text@, w) == oper_pos
                    && utf8_width(text@[w]) == 1;
            assert(0 <= w < text@.len() && byte_offset(text@, w) == oper_pos);
            lemma_byte_offset_step(text@, 0);
        }
        while offset != oper_pos
            invariant
                chars@ == text@,
                n == chars@.len(),
                0 <= j < n,
                byte_offset(text@, j) == oper_pos,
                i <= j,
                offset == byte_offset(text@, i as int),
            decreases n - i,
        {
            proof {
                lemma_byte_offset_step(text@, i as int);
                if i == j {
                    assert(false);
                }
                lemma_byte_offset_monotonic(text@, i + 1, j);
            }
            offset = offset + char_width(chars[i]);
            i = i + 1;
        }
        proof {
            if i < j {
                lemma_byte_offset_monotonic(text@, i as int, j);
            }
            assert(text@.subrange(0, i as int) =~= text@.take(i as int));
            assert(text@.subrange(i + 1, n as int) =~= text@.skip(i + 1));
        }
        (Expr::new(char_range(text, 0, i)), Expr::new(char_range(text, i + 1, n)))
    }

    /// The operator at which an expression is cut, and the byte offset at
    /// which it stands: of the operators outside brackets and quoted texts
    /// the one of least priority, and of several such the one furthest to
    /// the right. `None` where there is no such operator.
    pub fn find_oper(expr: Expr) -> (r: Option<(char, usize)>)
        ensures
            is_found(r, find_oper_spec(expr@)),
    {
        let text = expr.as_str();
        let chars = chars_of(text);
        let n = chars.len();
        let total = text.as_bytes().len();
        proof {
            lemma_byte_len_is_encoded_len(text@);
            if n > 0 {
                lemma_byte_offset_step(text@, 0);
            } else {
                assert(text@.take(0) =~= text@);
            }
        }
        let mut is_in_string = false;
        let mut curr_depth: i128 = 0;
        let mut best_oper_priority: i32 = i32::MAX;
        let mut best: Option<(char, usize)> = None;
        let ghost mut best_index: Option<int> = None;
        let mut offset: usize = total;
        let mut k: usize = n;
        while k > 0
            invariant
                chars@ == text@,
                n == chars@.len(),
                k <= n,
                offset == byte_offset(text@, k as int),
                is_in_string == in_text_right(text@, k as int),
                curr_depth == depth_right(text@, k as int),
                -(n - k) <= curr_depth <= n - k,
                best_index == best_right(text@, k as int),
                best_index is None ==> best is None && best_oper_priority == i32::MAX,
                best_index matches Some(j) ==> k <= j < n && is_found(
                    best,
                    Some((text@[j], byte_offset(text@, j) as int)),
                ) && best_oper_priority == priority(text@[j]),
            decreases k,
        {
            k = k - 1;
            let c = chars[k];
            proof {
                lemma_byte_offset_step(text@, k as int);
            }
            offset = offset - char_width(c);
            if c == '"' {
                is_in_string = !is_in_string;
            } else if !is_in_string {
                if c == ')' {
                    curr_depth = curr_depth + 1;
                } else if c == '(' {
                    curr_depth = curr_depth - 1;
                } else {
                    let oper_priority = is_oper(c);
                    if oper_priority > 0 && curr_depth == 0 && oper_priority < best_oper_priority {
                        best_oper_priority = oper_priority;
                        best = Some((c, offset));
                        proof {
                            best_index = Some(k as int);
                        }
                    }
                }
            }
        }
        best
    }
}

/// Where the text alone decides the simplified value of an expression,
/// every evaluation shows that value.
pub proof fn lemma_simplified_is_decided(s: Seq<char>, depth: nat, r: Result<ValueView, ErrorKind>)
    requires
        simplifies_to(s, depth, r),
    ensures
        decided(r, eval_simplified(s, depth)),
    decreases depth, 4nat, 0nat,
{
    let raw = choose|raw: Result<ValueView, ErrorKind>|
        evaluates_to(s, depth, raw) && r == #[trigger] shown_simplified(raw);
    lemma_evaluated_is_decided(s, depth, raw);
}

/// Where the text alone decides the value of an expression, every
/// evaluation shows that value.
pub proof fn lemma_evaluated_is_decided(s: Seq<char>, depth: nat, r: Result<ValueView, ErrorKind>)
    requires
        evaluates_to(s, depth, r),
    ensures
        decided(r, eval_rec(s, depth)),
    decreases depth, 3nat, 0nat,
{
    if depth > 0 {
        let e = strip_brackets(s);
        match best_right(e, 0) {
            None => lemma_atom_is_decided(e, depth, r),
            Some(j) => lemma_cut_is_decided(e, j, depth, r),
        }
    }
}

/// Where the text alone decides the value of an expression that is cut at
/// an operator, every evaluation shows that value.
pub proof fn lemma_cut_is_decided(
    e: Seq<char>,
    j: int,
    depth: nat,
    r: Result<ValueView, ErrorKind>,
)
    requires
        cut_evaluates_to(e, j, depth, r),
    ensures
        decided(r, eval_cut(e, j, depth)),
    decreases depth, 2nat, 0nat,
{
    let symbol = e[j];
    let (left, right) = sides(e, j);
    let below = (depth - 1) as nat;
    if depth == 0 || right.len() == 0 {
    } else if left.len() == 0 {
        if symbol == '+' {
            lemma_simplified_is_decided(right, below, r);
        } else if symbol == '-' {
            let b = choose|b: Result<ValueView, ErrorKind>|
                simplifies_to(right, below, b) && #[trigger] negated(b, r);
            lemma_simplified_is_decided(right, below, b);
        }
    } else {
        let (a, b) = choose|a: Result<ValueView, ErrorKind>, b: Result<ValueView, ErrorKind>|
            simplifies_to(left, below, a) && (a is Ok ==> simplifies_to(right, below, b))
                && #[trigger] applied(symbol, a, b, r);
        lemma_simplified_is_decided(left, below, a);
        if a is Ok {
            lemma_simplified_is_decided(right, below, b);
        }
    }
}

/// Where the text alone decides the value of an expression that no
/// operator cuts, every evaluation shows that value.
pub proof fn lemma_atom_is_decided(e: Seq<char>, depth: nat, r: Result<ValueView, ErrorKind>)
    requires
        depth > 0,
        atom_evaluates_to(e, depth, r),
    ensures
        decided(r, eval_atom(e, depth)),
    decreases depth, 2nat, 0nat,
{
    if let Some((name, params)) = call_texts(e) {
        let function = lowercase_of(trimmed(name));
        let args = choose|args: Result<Seq<ValueView>, ErrorKind>|
            params_evaluate_to(params, depth, args) && #[trigger] called(e, function, args, r);
        lemma_params_are_decided(params, depth, args);
        if let Ok(values) = args {
            lemma_call_admits_outcome(function, values, r);
        }
    }
}

/// Where the text alone decides the values of the arguments of a call,
/// every evaluation shows those values.
pub proof fn lemma_params_are_decided(
    params: Seq<char>,
    depth: nat,
    args: Result<Seq<ValueView>, ErrorKind>,
)
    requires
        depth > 0,
        params_evaluate_to(params, depth, args),
    ensures
        decided(args, eval_params(params, depth)),
    decreases depth, 1nat, 0nat,
{
    if trimmed(params).len() > 0 {
        lemma_args_are_decided(pieces(trimmed(params), 0, 0), depth, args);
    }
}

/// Where the texts alone decide the values of a list of arguments, every
/// evaluation shows those values.
pub proof fn lemma_args_are_decided(
    texts: Seq<Seq<char>>,
    depth: nat,
    args: Result<Seq<ValueView>, ErrorKind>,
)
    requires
        depth > 0,
        args_evaluate_to(texts, depth, args),
    ensures
        decided(args, eval_args(texts, depth)),
    decreases depth, 0nat, texts.len(),
{
    let below = (depth - 1) as nat;
    let values = match args {
        Ok(values) => values,
        Err(k) => choose|values: Seq<ValueView>| #[trigger]
            values.len() < texts.len() && args_have(texts, depth, values) && simplifies_to(
                trimmed(texts[values.len() as int]),
                below,
                Err(k),
            ),
    };
    assert(args_have(texts, depth, values));
    if texts.len() == 0 {
        assert(values =~= Seq::<ValueView>::empty());
    } else if values.len() == 0 {
        lemma_simplified_is_decided(trimmed(texts[0]), below, Err(args->Err_0));
    } else {
        assert(simplifies_to(trimmed(texts[0]), below, Ok(values[0])));
        lemma_simplified_is_decided(trimmed(texts[0]), below, Ok(values[0]));
        let rest = texts.drop_first();
        let tail = values.drop_first();
        assert forall|i: int| 0 <= i < tail.len() implies simplifies_to(
            trimmed(#[trigger] rest[i]),
            below,
            Ok(tail[i]),
        ) by {
            assert(rest[i] == texts[i + 1]);
            assert(tail[i] == values[i + 1]);
        }
        assert(args_have(rest, depth, tail));
        let rest_args: Result<Seq<ValueView>, ErrorKind> = match args {
            Ok(_) => Ok(tail),
            Err(k) => Err(k),
        };
        assert(rest[tail.len() as int] == texts[values.len() as int] || args is Ok);
        assert(args_evaluate_to(rest, depth, rest_args));
        lemma_args_are_decided(rest, depth, rest_args);
        assert(seq![values[0]] + tail =~= values);
    }
}

/// The operator that the scan finds is a candidate.
pub proof fn lemma_best_right_is_candidate(s: Seq<char>, k: int)
    requires
        0 <= k,
    ensures
        best_right(s, k) matches Some(j) ==> k <= j < s.len() && candidate(s, j),
    decreases s.len() - k,
{
    if k < s.len() {
        lemma_best_right_is_candidate(s, k + 1);
    }
}

/// The operator at which a text is cut binds least among the candidates,
/// and every candidate to its right binds more: of several operators of
/// the same priority the one furthest to the right is taken, so that
/// operators of one priority associate to the left. A text without a
/// candidate is not cut.
pub proof fn lemma_cut_is_lowest_and_rightmost(s: Seq<char>, k: int)
    requires
        0 <= k,
    ensures
        match best_right(s, k) {
            Some(j) => k <= j < s.len() && candidate(s, j) && forall|i: int|
                k <= i < s.len() && #[trigger] candidate(s, i) ==> priority(s[j]) <= priority(
                    s[i],
                ) && (i > j ==> priority(s[j]) < priority(s[i])),
            None => forall|i: int| k <= i < s.len() ==> !#[trigger] candidate(s, i),
        },
    decreases s.len() - k,
{
    if k < s.len() {
        lemma_cut_is_lowest_and_rightmost(s, k + 1);
    }
}

} // verus!
