//! A minimal interpreter for a parenthesis-delimited scripting language.
//!
//! Source text is parsed into a tree of nested lists and atoms, the tree is
//! lowered into a method tree bound to a small fixed operator set, and the
//! method tree is evaluated to a single dynamically-typed value.  Printing is
//! the only side effect; the evaluator collects the printed values in order,
//! and a caller decides how to render them.

use vstd::prelude::*;

pub mod compile;
pub mod error;
pub mod parse;
pub mod run;
pub mod text;
pub mod value;

use crate::error::Error;
use crate::parse::Parsed;
use crate::run::EvalOutcome;
use crate::value::{value_result_view, Value};

verus! {

/// What running a script yields: the values printed in order, and the
/// final value or the first fatal error of the pipeline.
pub open spec fn run_spec(text: Seq<char>) -> EvalOutcome {
    match parse::parse_spec(text) {
        Err(e) => EvalOutcome { printed: Seq::empty(), result: Err(e) },
        Ok(p) => match compile::lower_spec(p, 0) {
            Err(e) => EvalOutcome { printed: Seq::empty(), result: Err(e) },
            Ok(c) => run::eval_compiled_spec(c),
        },
    }
}

/// Run a script: parse, compile, evaluate.  Returns the values that
/// `print` emitted, in order, and the final value — or the first fatal
/// error, with whatever was printed before it.
pub fn run(file: &str) -> (r: (Vec<Value>, Result<Value, Error>))
    ensures
        r.0.deep_view() == run_spec(file@).printed,
        value_result_view(r.1) == run_spec(file@).result,
{
    let mut out: Vec<Value> = Vec::new();
    proof {
        assert(out.deep_view() =~= Seq::<value::ValueView>::empty());
    }
    match Parsed::from(file) {
        Err(e) => (out, Err(e)),
        Ok(p) => match p.compile() {
            Err(e) => (out, Err(e)),
            Ok(c) => {
                let res = c.run(&mut out);
                proof {
                    assert(out.deep_view() =~= run_spec(file@).printed);
                }
                (out, res)
            },
        },
    }
}

} // verus!
