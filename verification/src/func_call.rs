//! A call of a built-in function: a name and the values of the arguments.

use crate::base::{CalcError, ErrorKind};
use crate::order::{is_first_max, lemma_first_max_unique, max, max_ensures};
use crate::reals::RealOps;
use crate::std_funcs::{
    abs, abs_spec, comb, comb_spec, fact, fact_spec, ln, nck, nck_spec, real_function_spec, sin,
    sin_spec, sind, sind_spec, sinpi, sqrt, sqrt_ensures,
};
use crate::text::{join3, lowercase_of, text_eq, to_lowercase, trim, trimmed};
use crate::value::{simplified, Value, ValueView};
use crate::value_algebra::{admits, meets, shown, Outcome};
use crate::wage::{cista_mzda, cista_mzda_ensures, ratio_positive};
use vstd::prelude::*;
use vstd::string::*;

verus! {

/// The name of a function and the values it is called with. The name is
/// kept trimmed and in lower case.
#[derive(Debug, Clone)]
pub struct FuncCall {
    name: String,
    params: Vec<Value>,
}

/// The mathematical content of a list of values.
pub open spec fn views(params: Seq<Value>) -> Seq<ValueView> {
    params.map_values(|v: Value| v@)
}

/// A call fails because the function takes another number of arguments;
/// the message names the function and says what it takes.
pub open spec fn arity_failure(r: Result<Value, CalcError>, name: Seq<char>, takes: Seq<char>) -> bool {
    r matches Err(e) && e.kind_of() == ErrorKind::FuncCall && e.detail() == "Funkce '"@ + name
        + takes
}

/// What a call gives, for every function that the calculator knows. An
/// argument is simplified before the function sees it, except the third
/// argument of `comb`.
pub open spec fn call_ensures(
    name: Seq<char>,
    args: Seq<ValueView>,
    r: Result<Value, CalcError>,
) -> bool {
    if name == "ln"@ {
        if args.len() == 1 {
            meets(r, real_function_spec(simplified(args[0])))
        } else {
            arity_failure(r, name, "' vyžaduje 1 parametr"@)
        }
    } else if name == "abs"@ {
        if args.len() == 1 {
            meets(r, abs_spec(simplified(args[0])))
        } else {
            arity_failure(r, name, "' vyžaduje 1 parametr"@)
        }
    } else if name == "comb"@ {
        if args.len() == 3 {
            meets(r, comb_spec(simplified(args[0]), simplified(args[1]), args[2]))
        } else {
            arity_failure(r, name, "' vyžaduje 3 parametry (int, int, bool)"@)
        }
    } else if name == "nck"@ {
        if args.len() == 2 {
            meets(r, nck_spec(simplified(args[0]), simplified(args[1])))
        } else {
            arity_failure(r, name, "' vyžaduje 2 parametry (int, int)"@)
        }
    } else if name == "fact"@ {
        if args.len() == 1 {
            meets(r, fact_spec(simplified(args[0])))
        } else {
            arity_failure(r, name, "' vyžaduje 1 parametr"@)
        }
    } else if name == "max"@ {
        if args.len() == 0 {
            arity_failure(r, name, "' vyžaduje aspoň 1 parametr"@)
        } else {
            max_ensures(args, shown(r))
        }
    } else if name == "sqrt"@ {
        if args.len() == 1 {
            sqrt_ensures(simplified(args[0]), shown(r))
        } else {
            arity_failure(r, name, "' vyžaduje 1 parametr"@)
        }
    } else if name == "sin"@ {
        if args.len() == 1 {
            meets(r, sin_spec(simplified(args[0])))
        } else {
            arity_failure(r, name, "' vyžaduje 1 parametr"@)
        }
    } else if name == "sind"@ {
        if args.len() == 1 {
            meets(r, sind_spec(simplified(args[0])))
        } else {
            arity_failure(r, name, "' vyžaduje 1 parametr"@)
        }
    } else if name == "sinpi"@ {
        if args.len() == 1 {
            meets(r, real_function_spec(simplified(args[0])))
        } else {
            arity_failure(r, name, "' vyžaduje 1 parametr"@)
        }
    } else if name == "cista"@ {
        if args.len() == 1 {
            cista_mzda_ensures(args[0], shown(r))
        } else {
            arity_failure(r, name, "' vyžaduje 1 parametr"@)
        }
    } else {
        arity_failure(r, name, "' není definována"@)
    }
}

/// What a call gives, as far as the name and the arguments alone decide
/// it; `Open` for a square root, which the real arithmetic finds.
pub open spec fn call_outcome(name: Seq<char>, args: Seq<ValueView>) -> Outcome {
    if name == "ln"@ {
        if args.len() == 1 {
            real_function_spec(simplified(args[0]))
        } else {
            Outcome::Fails(ErrorKind::FuncCall)
        }
    } else if name == "abs"@ {
        if args.len() == 1 {
            abs_spec(simplified(args[0]))
        } else {
            Outcome::Fails(ErrorKind::FuncCall)
        }
    } else if name == "comb"@ {
        if args.len() == 3 {
            comb_spec(simplified(args[0]), simplified(args[1]), args[2])
        } else {
            Outcome::Fails(ErrorKind::FuncCall)
        }
    } else if name == "nck"@ {
        if args.len() == 2 {
            nck_spec(simplified(args[0]), simplified(args[1]))
        } else {
            Outcome::Fails(ErrorKind::FuncCall)
        }
    } else if name == "fact"@ {
        if args.len() == 1 {
            fact_spec(simplified(args[0]))
        } else {
            Outcome::Fails(ErrorKind::FuncCall)
        }
    } else if name == "max"@ {
        if args.len() == 0 || exists|i: int|
            0 <= i < args.len() && !(#[trigger] args[i]).is_number() {
            Outcome::Fails(ErrorKind::FuncCall)
        } else if exists|i: int| 0 <= i < args.len() && #[trigger] args[i] is Real {
            Outcome::Open
        } else if exists|i: int| 0 <= i < args.len() && (#[trigger] args[i]).ratio().den == 0 {
            Outcome::Fails(ErrorKind::Evaluate)
        } else {
            Outcome::Exact(args[choose|i: int| #[trigger] is_first_max(args, i)])
        }
    } else if name == "sqrt"@ {
        if args.len() == 1 && simplified(args[0]).is_number() {
            Outcome::Open
        } else {
            Outcome::Fails(ErrorKind::FuncCall)
        }
    } else if name == "sin"@ {
        if args.len() == 1 {
            sin_spec(simplified(args[0]))
        } else {
            Outcome::Fails(ErrorKind::FuncCall)
        }
    } else if name == "sind"@ {
        if args.len() == 1 {
            sind_spec(simplified(args[0]))
        } else {
            Outcome::Fails(ErrorKind::FuncCall)
        }
    } else if name == "sinpi"@ {
        if args.len() == 1 {
            real_function_spec(simplified(args[0]))
        } else {
            Outcome::Fails(ErrorKind::FuncCall)
        }
    } else if name == "cista"@ {
        if args.len() == 1 && args[0].is_exact_number() && ratio_positive(args[0].ratio()) {
            Outcome::Open
        } else {
            Outcome::Fails(ErrorKind::FuncCall)
        }
    } else {
        Outcome::Fails(ErrorKind::FuncCall)
    }
}

/// What holds of everything that a call shows: what the square root, the
/// greatest value and the net wage promise, and for every other function
/// the outcome that the name and the arguments decide.
pub open spec fn call_admits(
    name: Seq<char>,
    args: Seq<ValueView>,
    r: Result<ValueView, ErrorKind>,
) -> bool {
    if name == "sqrt"@ && args.len() == 1 {
        sqrt_ensures(simplified(args[0]), r)
    } else if name == "max"@ && args.len() > 0 {
        max_ensures(args, r)
    } else if name == "cista"@ && args.len() == 1 {
        cista_mzda_ensures(args[0], r)
    } else {
        admits(call_outcome(name, args), r)
    }
}

/// The texts of the names of the functions differ from each other.
proof fn lemma_names_differ()
    ensures
        "sqrt"@ != "max"@,
        "sqrt"@ != "cista"@,
        "max"@ != "cista"@,
        "ln"@ != "sqrt"@ && "ln"@ != "max"@ && "ln"@ != "cista"@,
        "abs"@ != "sqrt"@ && "abs"@ != "max"@ && "abs"@ != "cista"@,
        "comb"@ != "sqrt"@ && "comb"@ != "max"@ && "comb"@ != "cista"@,
        "nck"@ != "sqrt"@ && "nck"@ != "max"@ && "nck"@ != "cista"@,
        "fact"@ != "sqrt"@ && "fact"@ != "max"@ && "fact"@ != "cista"@,
        "sin"@ != "sqrt"@ && "sin"@ != "max"@ && "sin"@ != "cista"@,
        "sind"@ != "sqrt"@ && "sind"@ != "max"@ && "sind"@ != "cista"@,
        "sinpi"@ != "sqrt"@ && "sinpi"@ != "max"@ && "sinpi"@ != "cista"@,
{
    reveal_strlit("sqrt");
    reveal_strlit("max");
    reveal_strlit("cista");
    reveal_strlit("ln");
    reveal_strlit("abs");
    reveal_strlit("comb");
    reveal_strlit("nck");
    reveal_strlit("fact");
    reveal_strlit("sin");
    reveal_strlit("sind");
    reveal_strlit("sinpi");
    assert("sqrt"@.len() == 4 && "max"@.len() == 3 && "cista"@.len() == 5 && "ln"@.len() == 2
        && "abs"@.len() == 3 && "comb"@.len() == 4 && "nck"@.len() == 3 && "fact"@.len() == 4
        && "sin"@.len() == 3 && "sind"@.len() == 4 && "sinpi"@.len() == 5);
    assert("max"@[0] == 'm' && "abs"@[0] == 'a' && "nck"@[0] == 'n' && "sin"@[0] == 's');
    assert("sqrt"@[1] == 'q' && "comb"@[1] == 'o' && "fact"@[1] == 'a' && "sind"@[1] == 'i');
    assert("cista"@[0] == 'c' && "sinpi"@[0] == 's');
}

/// What a call admits meets the outcome that the name and the arguments
/// decide.
pub proof fn lemma_call_admits_outcome(
    name: Seq<char>,
    args: Seq<ValueView>,
    r: Result<ValueView, ErrorKind>,
)
    requires
        call_admits(name, args, r),
    ensures
        admits(call_outcome(name, args), r),
{
    lemma_names_differ();
    if name == "max"@ && args.len() > 0 {
        if let Outcome::Exact(_) = call_outcome(name, args) {
            let i = choose|i: int| #[trigger] is_first_max(args, i) && r->Ok_0 == args[i];
            let j = choose|j: int| #[trigger] is_first_max(args, j);
            lemma_first_max_unique(args, i, j);
        }
    }
}

/// Every result of a call shows what a call admits, and so meets the
/// outcome that the name and the arguments decide.
pub proof fn lemma_call_meets_outcome(
    name: Seq<char>,
    args: Seq<ValueView>,
    r: Result<Value, CalcError>,
)
    requires
        call_ensures(name, args, r),
    ensures
        call_admits(name, args, shown(r)),
        meets(r, call_outcome(name, args)),
{
    lemma_names_differ();
    lemma_call_admits_outcome(name, args, shown(r));
}

impl FuncCall {
    /// The name of the function, trimmed and in lower case.
    pub closed spec fn name_text(&self) -> Seq<char> {
        self.name@
    }

    /// The values of the arguments.
    pub closed spec fn args(&self) -> Seq<ValueView> {
        views(self.params@)
    }

    /// A call of the function `name` with the arguments `params`.
    pub fn new(name: &str, params: Vec<Value>) -> (r: FuncCall)
        ensures
            r.name_text() == lowercase_of(trimmed(name@)),
            r.args() == views(params@),
    {
        FuncCall { name: to_lowercase(trim(name)), params }
    }

    /// The argument with index `i`, simplified.
    fn argument(&self, i: usize) -> (v: Value)
        requires
            i < self.args().len(),
        ensures
            v@ == simplified(self.args()[i as int]),
    {
        match self.params[i].duplicate().simplify_type_move() {
            Ok(v) => v,
            Err(_) => Value::Nothing,
        }
    }

    /// The error of a call with the wrong number of arguments.
    fn wrong_arity(&self, takes: &str) -> (r: Result<Value, CalcError>)
        ensures
            arity_failure(r, self.name_text(), takes@),
    {
        Err(CalcError::FuncCallErr(join3("Funkce '", self.name.as_str(), takes)))
    }

    /// Finds the function by its name and calls it.
    pub fn eval<R: RealOps>(&self) -> (r: Result<Value, CalcError>)
        ensures
            call_ensures(self.name_text(), self.args(), r),
    {
        let name = self.name.as_str();
        let count = self.params.len();
        if text_eq(name, "ln") {
            if count == 1 {
                ln::<R>(self.argument(0))
            } else {
                self.wrong_arity("' vyžaduje 1 parametr")
            }
        } else if text_eq(name, "abs") {
            if count == 1 {
                abs::<R>(self.argument(0))
            } else {
                self.wrong_arity("' vyžaduje 1 parametr")
            }
        } else if text_eq(name, "comb") {
            if count == 3 {
                comb(self.argument(0), self.argument(1), self.params[2].duplicate())
            } else {
                self.wrong_arity("' vyžaduje 3 parametry (int, int, bool)")
            }
        } else if text_eq(name, "nck") {
            if count == 2 {
                nck(self.argument(0), self.argument(1))
            } else {
                self.wrong_arity("' vyžaduje 2 parametry (int, int)")
            }
        } else if text_eq(name, "fact") {
            if count == 1 {
                fact(self.argument(0))
            } else {
                self.wrong_arity("' vyžaduje 1 parametr")
            }
        } else if text_eq(name, "max") {
            if count == 0 {
                self.wrong_arity("' vyžaduje aspoň 1 parametr")
            } else {
                max::<R>(&self.params)
            }
        } else if text_eq(name, "sqrt") {
            if count == 1 {
                sqrt::<R>(self.argument(0))
            } else {
                self.wrong_arity("' vyžaduje 1 parametr")
            }
        } else if text_eq(name, "sin") {
            if count == 1 {
                sin::<R>(self.argument(0))
            } else {
                self.wrong_arity("' vyžaduje 1 parametr")
            }
        } else if text_eq(name, "sind") {
            if count == 1 {
                sind::<R>(self.argument(0))
            } else {
                self.wrong_arity("' vyžaduje 1 parametr")
            }
        } else if text_eq(name, "sinpi") {
            if count == 1 {
                sinpi::<R>(self.argument(0))
            } else {
                self.wrong_arity("' vyžaduje 1 parametr")
            }
        } else if text_eq(name, "cista") {
            if count == 1 {
                cista_mzda::<R>(self.params[0].duplicate())
            } else {
                self.wrong_arity("' vyžaduje 1 parametr")
            }
        } else {
            self.wrong_arity("' není definována")
        }
    }
}

} // verus!
