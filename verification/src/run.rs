//! The evaluator: a method tree walked down to a single value.
//!
//! Evaluation is a pure fold over the tree with one side channel: the
//! values that `print` emits are collected in order into a caller-supplied
//! vector, and a fatal error aborts the walk at the point of detection,
//! keeping what was printed before it.

use vstd::prelude::*;

use crate::compile::{
    compiled_views_of, lemma_compiled_view_list, lemma_method_view_many, Compiled, CompiledView,
    Method, MethodView,
};
use crate::error::{Error, ErrorView};
use crate::value::{add_spec, mul_spec, value_result_view, Value, ValueView};

verus! {

/// The outcome of one evaluation: the values printed, in order, and the
/// final value or the fatal error that aborted the walk.
pub struct EvalOutcome {
    pub printed: Seq<ValueView>,
    pub result: Result<ValueView, ErrorView>,
}

/// What evaluating one method node yields.
///
/// A literal yields its value; a block yields its last element's value;
/// `print` evaluates its operand, emits the value, and yields null; the
/// arithmetic operators evaluate their operands left to right and apply the
/// corresponding value operator.  The first error aborts the walk; what was
/// printed before it is kept.
pub open spec fn eval_method_spec(m: MethodView) -> EvalOutcome
    decreases m, 0int, 0int,
{
    match m {
        MethodView::Many(l) => eval_block_spec(l, 0),
        MethodView::Literal(v) => EvalOutcome { printed: Seq::empty(), result: Ok(v) },
        MethodView::Print(c) => {
            let o = eval_compiled_spec(*c);
            match o.result {
                Ok(v) => EvalOutcome { printed: o.printed.push(v), result: Ok(ValueView::Null) },
                Err(_) => o,
            }
        },
        MethodView::Add(a, b) => {
            let oa = eval_compiled_spec(*a);
            match oa.result {
                Err(_) => oa,
                Ok(va) => {
                    let ob = eval_compiled_spec(*b);
                    match ob.result {
                        Err(_) => EvalOutcome {
                            printed: oa.printed + ob.printed,
                            result: ob.result,
                        },
                        Ok(vb) => EvalOutcome {
                            printed: oa.printed + ob.printed,
                            result: add_spec(va, vb),
                        },
                    }
                },
            }
        },
        MethodView::Mul(a, b) => {
            let oa = eval_compiled_spec(*a);
            match oa.result {
                Err(_) => oa,
                Ok(va) => {
                    let ob = eval_compiled_spec(*b);
                    match ob.result {
                        Err(_) => EvalOutcome {
                            printed: oa.printed + ob.printed,
                            result: ob.result,
                        },
                        Ok(vb) => EvalOutcome {
                            printed: oa.printed + ob.printed,
                            result: mul_spec(va, vb),
                        },
                    }
                },
            }
        },
    }
}

/// What evaluating one compiled node yields: an item evaluates its method,
/// and a list of branches evaluates like a block.
pub open spec fn eval_compiled_spec(c: CompiledView) -> EvalOutcome
    decreases c, 1int, 0int,
{
    match c {
        CompiledView::Item(m) => eval_method_spec(*m),
        CompiledView::List(l) => eval_block_spec(l, 0),
    }
}

/// What evaluating the elements of a block from position `i` on yields:
/// every element is evaluated in order, earlier elements for their side
/// effects only, and the last element's value is the result.  An empty
/// block yields null.
pub open spec fn eval_block_spec(l: Seq<CompiledView>, i: int) -> EvalOutcome
    decreases l, 2int, l.len() - i,
{
    if i < 0 || i >= l.len() {
        EvalOutcome { printed: Seq::empty(), result: Ok(ValueView::Null) }
    } else {
        let o = eval_compiled_spec(l[i]);
        match o.result {
            Err(_) => o,
            Ok(_) => if i == l.len() - 1 {
                o
            } else {
                let rest = eval_block_spec(l, i + 1);
                EvalOutcome { printed: o.printed + rest.printed, result: rest.result }
            },
        }
    }
}

/// The printed outputs of the elements of a block from position `i` on,
/// concatenated in source order.
pub open spec fn block_printed_spec(l: Seq<CompiledView>, i: int) -> Seq<ValueView>
    decreases l.len() - i,
{
    if i < 0 || i >= l.len() {
        Seq::empty()
    } else {
        eval_compiled_spec(l[i]).printed + block_printed_spec(l, i + 1)
    }
}

/// Law: evaluation is deterministic.  The outcome of evaluating a compiled
/// tree — its value and its printed output — is a function of the tree
/// alone, so evaluating the same lowered tree twice with no intervening
/// state yields identical results and identical printed output both times.
pub proof fn lemma_eval_deterministic(c: CompiledView, first: EvalOutcome, second: EvalOutcome)
    requires
        first == eval_compiled_spec(c),
        second == eval_compiled_spec(c),
    ensures
        first.result == second.result,
        first.printed == second.printed,
{
}

/// Law: block semantics.  When every element of a block evaluates
/// successfully, the block's value is the value of its last element alone,
/// and its printed output is the concatenation of every element's printed
/// output, in source order.
pub proof fn lemma_block_semantics(l: Seq<CompiledView>)
    requires
        l.len() > 0,
        forall|i: int| 0 <= i < l.len() ==> (#[trigger] eval_compiled_spec(l[i])).result is Ok,
    ensures
        eval_block_spec(l, 0).result == eval_compiled_spec(l.last()).result,
        eval_block_spec(l, 0).printed == block_printed_spec(l, 0),
{
    lemma_block_semantics_from(l, 0);
}

proof fn lemma_block_semantics_from(l: Seq<CompiledView>, i: int)
    requires
        0 <= i < l.len(),
        forall|j: int| 0 <= j < l.len() ==> (#[trigger] eval_compiled_spec(l[j])).result is Ok,
    ensures
        eval_block_spec(l, i).result == eval_compiled_spec(l.last()).result,
        eval_block_spec(l, i).printed == block_printed_spec(l, i),
    decreases l.len() - i,
{
    if i == l.len() - 1 {
        assert(block_printed_spec(l, i + 1) == Seq::<ValueView>::empty());
        assert(eval_compiled_spec(l[i]).printed + Seq::<ValueView>::empty()
            =~= eval_compiled_spec(l[i]).printed);
    } else {
        lemma_block_semantics_from(l, i + 1);
    }
}

impl Method {
    /// Run the compiled script: printed values are appended to `out`, and
    /// the final value (or the fatal error) is returned.
    pub fn run(&self, out: &mut Vec<Value>) -> (r: Result<Value, Error>)
        ensures
            final(out).deep_view() == old(out).deep_view() + eval_method_spec(self@).printed,
            value_result_view(r) == eval_method_spec(self@).result,
        decreases self, 0int, 0int,
    {
        match self {
            Method::Many(l) => {
                proof {
                    lemma_method_view_many(*l);
                }
                run_block(l, out)
            },
            Method::Literal(v) => Ok(v.clone()),
            Method::Print(c) => {
                match c.run(out) {
                    Err(e) => {
                        proof {
                            assert(out.deep_view() =~= old(out).deep_view() + eval_method_spec(
                                self@,
                            ).printed);
                        }
                        Err(e)
                    },
                    Ok(v) => {
                        let ghost mid = out.deep_view();
                        out.push(v);
                        proof {
                            assert(out.deep_view() =~= mid.push(v@));
                            assert(out.deep_view() =~= old(out).deep_view() + eval_method_spec(
                                self@,
                            ).printed);
                        }
                        Ok(Value::Null)
                    },
                }
            },
            Method::Add(a, b) => {
                match a.run(out) {
                    Err(e) => Err(e),
                    Ok(va) => match b.run(out) {
                        Err(e) => {
                            proof {
                                assert(out.deep_view() =~= old(out).deep_view()
                                    + eval_method_spec(self@).printed);
                            }
                            Err(e)
                        },
                        Ok(vb) => {
                            proof {
                                assert(out.deep_view() =~= old(out).deep_view()
                                    + eval_method_spec(self@).printed);
                            }
                            va.add(vb)
                        },
                    },
                }
            },
            Method::Mul(a, b) => {
                match a.run(out) {
                    Err(e) => Err(e),
                    Ok(va) => match b.run(out) {
                        Err(e) => {
                            proof {
                                assert(out.deep_view() =~= old(out).deep_view()
                                    + eval_method_spec(self@).printed);
                            }
                            Err(e)
                        },
                        Ok(vb) => {
                            proof {
                                assert(out.deep_view() =~= old(out).deep_view()
                                    + eval_method_spec(self@).printed);
                            }
                            va.mul(vb)
                        },
                    },
                }
            },
        }
    }
}

impl Compiled {
    /// Run the compiled script: printed values are appended to `out`, and
    /// the final value (or the fatal error) is returned.
    pub fn run(&self, out: &mut Vec<Value>) -> (r: Result<Value, Error>)
        ensures
            final(out).deep_view() == old(out).deep_view() + eval_compiled_spec(self@).printed,
            value_result_view(r) == eval_compiled_spec(self@).result,
        decreases self, 1int, 0int,
    {
        match self {
            Compiled::Item(m) => m.run(out),
            Compiled::List(l) => {
                proof {
                    lemma_compiled_view_list(*l);
                }
                run_block(l, out)
            },
        }
    }
}

/// Run every branch of a block in order, keeping the last value.
#[verifier::loop_isolation(false)]
fn run_block(l: &Vec<Compiled>, out: &mut Vec<Value>) -> (r: Result<Value, Error>)
    ensures
        final(out).deep_view() == old(out).deep_view() + eval_block_spec(
            compiled_views_of(l@),
            0,
        ).printed,
        value_result_view(r) == eval_block_spec(compiled_views_of(l@), 0).result,
    decreases l, 2int, 0int,
{
    let ghost full = eval_block_spec(compiled_views_of(l@), 0);
    let mut last = Value::Null;
    let mut i: usize = 0;
    proof {
        if l@.len() == 0 {
            assert(out.deep_view() + full.printed =~= out.deep_view());
        }
    }
    while i < l.len()
        invariant
            i <= l@.len(),
            i < l@.len() ==> out.deep_view() + eval_block_spec(
                compiled_views_of(l@),
                i as int,
            ).printed == old(out).deep_view() + full.printed && eval_block_spec(
                compiled_views_of(l@),
                i as int,
            ).result == full.result,
            i >= l@.len() ==> out.deep_view() == old(out).deep_view() + full.printed
                && full.result == Ok::<ValueView, ErrorView>(last@),
        decreases l@.len() - i,
    {
        proof {
            assert(decreases_to!(*l => (*l)[i as int]));
        }
        let ghost pre = out.deep_view();
        let ghost o = eval_compiled_spec(compiled_views_of(l@)[i as int]);
        match l[i].run(out) {
            Err(e) => {
                return Err(e);
            },
            Ok(v) => {
                last = v;
            },
        }
        i += 1;
        proof {
            if i < l@.len() {
                let rest = eval_block_spec(compiled_views_of(l@), i as int);
                assert((pre + o.printed) + rest.printed =~= pre + (o.printed + rest.printed));
            }
        }
    }
    Ok(last)
}

} // verus!
