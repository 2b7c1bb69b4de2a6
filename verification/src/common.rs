//! What every way of evaluating an expression shares: the operators and
//! their priorities, and the check that brackets and quotes are balanced.

use crate::base::{CalcError, ErrorKind};
use crate::big::int_decimal;
use crate::expr::Expr;
use crate::text::{
    char_range, chars_of, join3, lemma_trimmed_end, lemma_trimmed_idempotent, lemma_trimmed_start,
    trim, trimmed, trimmed_start, usize_to_string,
};
use vstd::prelude::*;
use vstd::string::*;

verus! {

/// The priority of an operator: 1 for `+` and `-`, 2 for `*` and `/`, 3 for
/// `^`; 0 for every other character.
pub open spec fn priority(symbol: char) -> int {
    if symbol == '+' || symbol == '-' {
        1
    } else if symbol == '*' || symbol == '/' {
        2
    } else if symbol == '^' {
        3
    } else {
        0
    }
}

/// Whether the text is inside a quoted text after its first `k` characters:
/// every `"` switches.
pub open spec fn in_text(s: Seq<char>, k: int) -> bool
    decreases k,
{
    if k <= 0 {
        false
    } else {
        in_text(s, k - 1) != (s[k - 1] == '"')
    }
}

/// The number of `(` outside quoted texts among the first `k` characters.
pub open spec fn opening_count(s: Seq<char>, k: int) -> int
    decreases k,
{
    if k <= 0 {
        0
    } else if s[k - 1] == '(' && !in_text(s, k - 1) {
        opening_count(s, k - 1) + 1
    } else {
        opening_count(s, k - 1)
    }
}

/// The number of `)` outside quoted texts among the first `k` characters.
pub open spec fn closing_count(s: Seq<char>, k: int) -> int
    decreases k,
{
    if k <= 0 {
        0
    } else if s[k - 1] == ')' && !in_text(s, k - 1) {
        closing_count(s, k - 1) + 1
    } else {
        closing_count(s, k - 1)
    }
}

/// The first index from `k` on at which more brackets are closed than
/// opened, if there is one.
pub open spec fn first_overtake(s: Seq<char>, k: int) -> Option<int>
    decreases s.len() - k,
{
    if k < 0 || k >= s.len() {
        None
    } else if closing_count(s, k + 1) > opening_count(s, k + 1) {
        Some(k)
    } else {
        first_overtake(s, k + 1)
    }
}

/// What is wrong with the brackets and quotes of a text.
pub ghost enum Fault {
    /// At this index more brackets are closed than opened.
    Overtaken(int),
    /// A quoted text is not closed.
    OpenText,
    /// Fewer brackets are closed than opened.
    Unequal,
}

/// The fault of a text, if it has one. A closing bracket that overtakes
/// comes first, then an open quoted text, then brackets left open.
pub open spec fn fault(s: Seq<char>) -> Option<Fault> {
    match first_overtake(s, 0) {
        Some(p) => Some(Fault::Overtaken(p)),
        None => if in_text(s, s.len() as int) {
            Some(Fault::OpenText)
        } else if opening_count(s, s.len() as int) == closing_count(s, s.len() as int) {
            None
        } else {
            Some(Fault::Unequal)
        },
    }
}

/// Brackets and quotes are balanced: no closing bracket comes before its
/// opening bracket, every quoted text is closed, and as many brackets are
/// closed as opened. Brackets inside quoted texts do not count.
pub open spec fn balanced(s: Seq<char>) -> bool {
    fault(s) is None
}

/// No closing bracket overtakes from index `k` on exactly when, after every
/// character from there on, no more brackets are closed than opened.
pub proof fn lemma_no_overtake(s: Seq<char>, k: int)
    requires
        0 <= k,
    ensures
        first_overtake(s, k) is None <==> (forall|i: int|
            k < i <= s.len() ==> #[trigger] closing_count(s, i) <= opening_count(s, i)),
        first_overtake(s, k) matches Some(p) ==> k <= p < s.len() && closing_count(s, p + 1)
            > opening_count(s, p + 1) && (forall|i: int|
            k < i <= p ==> #[trigger] closing_count(s, i) <= opening_count(s, i)),
    decreases s.len() - k,
{
    if k < s.len() {
        lemma_no_overtake(s, k + 1);
    }
}

/// A text is balanced exactly when at no point more brackets are closed
/// than opened, no quoted text is left open, and at the end as many
/// brackets are closed as opened.
pub proof fn lemma_balanced(s: Seq<char>)
    ensures
        balanced(s) <==> ((forall|i: int|
            0 < i <= s.len() ==> #[trigger] closing_count(s, i) <= opening_count(s, i))
            && !in_text(s, s.len() as int) && opening_count(s, s.len() as int) == closing_count(
            s,
            s.len() as int,
        )),
{
    lemma_no_overtake(s, 0);
}

/// The message for a fault.
pub open spec fn fault_message(f: Fault) -> Seq<char> {
    match f {
        Fault::Overtaken(p) => "Na pozici "@ + int_decimal(p)
            + " počet pravých závorek předběhl počet levých závorek"@,
        Fault::OpenText => "Textovému výrazu chybí ukončovací uvozovka."@,
        Fault::Unequal => "Počet levých a pravých závorek musí být stejný"@,
    }
}

/// A text without the white space and the brackets around it: a pair of
/// brackets is dropped as long as what it holds is balanced by itself, and
/// so is the white space inside it. `(a)+(b)` keeps its brackets.
pub open spec fn strip_brackets(s: Seq<char>) -> Seq<char>
    decreases s.len(),
    via strip_brackets_decreases
{
    let t = trimmed(s);
    if t.len() > 2 && t[0] == '(' && t.last() == ')' && balanced(t.subrange(1, t.len() - 1)) {
        strip_brackets(t.subrange(1, t.len() - 1))
    } else {
        t
    }
}

#[via_fn]
proof fn strip_brackets_decreases(s: Seq<char>) {
    lemma_trimmed_start(s);
    lemma_trimmed_end(trimmed_start(s));
}

/// Stripping starts with trimming, so a trimmed text is stripped to the
/// same text; and what is left is trimmed.
pub proof fn lemma_strip_brackets_trims(s: Seq<char>)
    ensures
        strip_brackets(trimmed(s)) == strip_brackets(s),
        trimmed(strip_brackets(s)) == strip_brackets(s),
    decreases s.len(),
{
    lemma_trimmed_idempotent(s);
    lemma_trimmed_start(s);
    lemma_trimmed_end(trimmed_start(s));
    let t = trimmed(s);
    if t.len() > 2 && t[0] == '(' && t.last() == ')' && balanced(t.subrange(1, t.len() - 1)) {
        lemma_strip_brackets_trims(t.subrange(1, t.len() - 1));
    }
}

/// The fault that a scan found, with the index as a machine integer.
#[derive(Clone, Copy, Debug, PartialEq, Eq)]
pub enum Scan {
    Balanced,
    Overtaken(usize),
    OpenText,
    Unequal,
}

impl Scan {
    /// The fault that this scan result stands for.
    pub open spec fn fault_of(self) -> Option<Fault> {
        match self {
            Scan::Balanced => None,
            Scan::Overtaken(p) => Some(Fault::Overtaken(p as int)),
            Scan::OpenText => Some(Fault::OpenText),
            Scan::Unequal => Some(Fault::Unequal),
        }
    }
}

/// As long as no bracket has overtaken, the search for the first one goes
/// on from any later index.
proof fn lemma_first_overtake_skip(s: Seq<char>, k: int)
    requires
        0 <= k < s.len(),
        closing_count(s, k + 1) <= opening_count(s, k + 1),
    ensures
        first_overtake(s, k) == first_overtake(s, k + 1),
{
}

/// Scans a text for a fault of its brackets and quotes.
pub fn scan_balance(expr: &str) -> (r: Scan)
    ensures
        r.fault_of() == fault(expr@),
{
    let chars = chars_of(expr);
    let n = chars.len();
    let mut is_in_string = false;
    let mut le: usize = 0;
    let mut ri: usize = 0;
    let mut i: usize = 0;
    while i < n
        invariant
            chars@ == expr@,
            n == chars@.len(),
            i <= n,
            is_in_string == in_text(expr@, i as int),
            le == opening_count(expr@, i as int),
            ri == closing_count(expr@, i as int),
            ri <= le <= i,
            first_overtake(expr@, 0) == first_overtake(expr@, i as int),
        decreases n - i,
    {
        let c = chars[i];
        if c == '"' {
            is_in_string = !is_in_string;
        } else if !is_in_string {
            if c == '(' {
                le = le + 1;
            } else if c == ')' {
                ri = ri + 1;
                if ri > le {
                    return Scan::Overtaken(i);
                }
            }
        }
        proof {
            lemma_first_overtake_skip(expr@, i as int);
        }
        i = i + 1;
    }
    if is_in_string {
        Scan::OpenText
    } else if le == ri {
        Scan::Balanced
    } else {
        Scan::Unequal
    }
}

/// The priority of an operator, 0 for a character that is none.
pub fn is_oper(symbol: char) -> (r: i32)
    ensures
        r == priority(symbol),
{
    match symbol {
        '+' => 1,
        '-' => 1,
        '*' => 2,
        '/' => 2,
        '^' => 3,
        _ => 0,
    }
}

/// The expression without the brackets around it, as long as what they
/// hold is balanced by itself.
pub fn trim_brackets(expr: Expr) -> (r: Expr)
    ensures
        r@ == strip_brackets(expr@),
{
    let mut subexpr: &str = expr.as_str();
    let mut done = false;
    while !done
        invariant
            strip_brackets(subexpr@) == strip_brackets(expr@),
            subexpr@ == trimmed(subexpr@),
            done ==> strip_brackets(subexpr@) == subexpr@,
        decreases
                if done {
                    0
                } else {
                    subexpr@.len() + 1
                },
    {
        let chars = chars_of(subexpr);
        let n = chars.len();
        done = true;
        if n > 2 && chars[0] == '(' && chars[n - 1] == ')' {
            let inner = char_range(subexpr, 1, n - 1);
            if check_brackets_and_quots_simple(inner) {
                proof {
                    lemma_strip_brackets_trims(inner@);
                    lemma_trimmed_idempotent(inner@);
                    lemma_trimmed_start(inner@);
                    lemma_trimmed_end(trimmed_start(inner@));
                }
                subexpr = trim(inner);
                done = false;
            }
        }
    }
    Expr::new(subexpr)
}

/// Checks that brackets and quotes are balanced, and says what is wrong
/// where they are not.
pub fn check_brackets_and_quots(expr: &str) -> (r: Result<(), CalcError>)
    ensures
        r is Ok <==> balanced(expr@),
        r matches Err(e) ==> e.kind_of() == ErrorKind::Parse && Some(e.detail()) == match fault(
            expr@,
        ) {
            Some(f) => Some(fault_message(f)),
            None => None,
        },
{
    match scan_balance(expr) {
        Scan::Balanced => Ok(()),
        Scan::Overtaken(i) => Err(
            CalcError::ParseErr(
                join3(
                    "Na pozici ",
                    usize_to_string(i).as_str(),
                    " počet pravých závorek předběhl počet levých závorek",
                ),
            ),
        ),
        Scan::OpenText => Err(CalcError::parse("Textovému výrazu chybí ukončovací uvozovka.")),
        Scan::Unequal => Err(CalcError::parse("Počet levých a pravých závorek musí být stejný")),
    }
}

/// Whether brackets and quotes are balanced.
pub fn check_brackets_and_quots_simple(expr: &str) -> (r: bool)
    ensures
        r == balanced(expr@),
{
    match scan_balance(expr) {
        Scan::Balanced => true,
        _ => false,
    }
}

} // verus!
