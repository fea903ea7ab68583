//! The compiler: lowering a syntax tree into an executable method tree.
//!
//! Each list's leading atom is bound to one of a fixed, closed operator set;
//! the remaining elements are consumed in order as operands.  A list whose
//! first element is itself a list becomes a block of independent
//! sub-expressions.

use vstd::prelude::*;

use crate::error::{Error, ErrorView, Role};
use crate::parse::{
    lemma_parsed_view_list, views_of, Parsed, ParsedView, RECURSION_LIMIT,
};
use crate::text::str_eq;
use crate::value::{parse_value_spec, Value, ValueView};

verus! {

/// Compiled function: one node of the executable method tree.
#[derive(Debug, PartialEq)]
pub enum Method {
    /// Sequence of independent sub-expressions: every one is evaluated in
    /// order, and the last one's value is the result.
    Many(Vec<Compiled>),
    /// Literal value.
    Literal(Value),
    /// Print a value, yielding null.
    Print(Box<Compiled>),
    /// Add two values, left to right as written.
    Add(Box<Compiled>, Box<Compiled>),
    /// Multiply two values, left to right as written.
    Mul(Box<Compiled>, Box<Compiled>),
}

/// Compiled script object: a method item, or a list of compiled branches.
#[derive(Debug, PartialEq)]
pub enum Compiled {
    /// Single method item.
    Item(Method),
    /// List of compiled branches, evaluated like a block.
    List(Vec<Compiled>),
}

/// Mathematical model of a method node.
pub enum MethodView {
    Many(Seq<CompiledView>),
    Literal(ValueView),
    Print(Box<CompiledView>),
    Add(Box<CompiledView>, Box<CompiledView>),
    Mul(Box<CompiledView>, Box<CompiledView>),
}

/// Mathematical model of a compiled node.
pub enum CompiledView {
    Item(Box<MethodView>),
    List(Seq<CompiledView>),
}

/// The model of one method node.
pub open spec fn method_view(m: Method) -> MethodView
    decreases m, 0int,
{
    match m {
        Method::Many(l) => MethodView::Many(
            Seq::new(
                l@.len(),
                |i: int|
                    if 0 <= i < l@.len() {
                        compiled_view(l@[i])
                    } else {
                        CompiledView::List(Seq::empty())
                    },
            ),
        ),
        Method::Literal(v) => MethodView::Literal(v@),
        Method::Print(c) => MethodView::Print(Box::new(compiled_view(*c))),
        Method::Add(a, b) => MethodView::Add(
            Box::new(compiled_view(*a)),
            Box::new(compiled_view(*b)),
        ),
        Method::Mul(a, b) => MethodView::Mul(
            Box::new(compiled_view(*a)),
            Box::new(compiled_view(*b)),
        ),
    }
}

/// The model of one compiled node.
pub open spec fn compiled_view(c: Compiled) -> CompiledView
    decreases c, 1int,
{
    match c {
        Compiled::Item(m) => CompiledView::Item(Box::new(method_view(m))),
        Compiled::List(l) => CompiledView::List(
            Seq::new(
                l@.len(),
                |i: int|
                    if 0 <= i < l@.len() {
                        compiled_view(l@[i])
                    } else {
                        CompiledView::List(Seq::empty())
                    },
            ),
        ),
    }
}

impl View for Method {
    type V = MethodView;

    open spec fn view(&self) -> MethodView {
        method_view(*self)
    }
}

impl View for Compiled {
    type V = CompiledView;

    open spec fn view(&self) -> CompiledView {
        compiled_view(*self)
    }
}

/// The models of a sequence of compiled nodes, element-wise.
pub open spec fn compiled_views_of(l: Seq<Compiled>) -> Seq<CompiledView> {
    Seq::new(l.len(), |i: int| compiled_view(l[i]))
}

pub(crate) proof fn lemma_compiled_views_of_push(l: Seq<Compiled>, c: Compiled)
    ensures
        compiled_views_of(l.push(c)) == compiled_views_of(l).push(compiled_view(c)),
{
    assert(compiled_views_of(l.push(c)) =~= compiled_views_of(l).push(compiled_view(c)));
}

pub(crate) proof fn lemma_method_view_many(l: Vec<Compiled>)
    ensures
        method_view(Method::Many(l)) == MethodView::Many(compiled_views_of(l@)),
{
    assert(method_view(Method::Many(l))->Many_0 =~= compiled_views_of(l@));
}

pub(crate) proof fn lemma_compiled_view_list(l: Vec<Compiled>)
    ensures
        compiled_view(Compiled::List(l)) == CompiledView::List(compiled_views_of(l@)),
{
    assert(compiled_view(Compiled::List(l))->List_0 =~= compiled_views_of(l@));
}

/// The head atom that selects the print operator.
pub open spec fn print_token() -> Seq<char> {
    seq!['p', 'r', 'i', 'n', 't']
}

/// The head atom that selects the add operator.
pub open spec fn add_token() -> Seq<char> {
    seq!['+']
}

/// The head atom that selects the multiply operator.
pub open spec fn mul_token() -> Seq<char> {
    seq!['*']
}

/// What lowering one syntax node at nesting depth `depth` yields.
///
/// An atom becomes a literal; an empty group is a fatal error; a group
/// headed by a group becomes a block of its elements; a group headed by an
/// atom is an operator application.  Depth at the nesting bound is a fatal
/// error.
pub open spec fn lower_spec(p: ParsedView, depth: int) -> Result<CompiledView, ErrorView>
    decreases p, 0int, 0int,
{
    if depth >= RECURSION_LIMIT as int {
        Err(ErrorView::RecursionLimit)
    } else {
        match p {
            ParsedView::Item(t) => match parse_value_spec(t) {
                Ok(v) => Ok(CompiledView::Item(Box::new(MethodView::Literal(v)))),
                Err(e) => Err(e),
            },
            ParsedView::List(l) => if l.len() == 0 {
                Err(ErrorView::EmptyGroup)
            } else {
                match l[0] {
                    ParsedView::List(_) => match lower_elems_spec(l, 0, depth + 1) {
                        Ok(items) => Ok(CompiledView::Item(Box::new(MethodView::Many(items)))),
                        Err(e) => Err(e),
                    },
                    ParsedView::Item(op) => lower_operator_spec(l, op, depth),
                }
            },
        }
    }
}

/// What lowering a group headed by the atom `op` yields: the operator that
/// the atom selects, applied to the following elements, each lowered one
/// nesting level deeper.  Too few elements is a missing-operand error naming
/// the role and the operator; a head atom outside the operator table is an
/// unknown-operator error naming it.
pub open spec fn lower_operator_spec(l: Seq<ParsedView>, op: Seq<char>, depth: int) -> Result<
    CompiledView,
    ErrorView,
>
    decreases l, 1int, 0int,
{
    if op == print_token() {
        if l.len() < 2 {
            Err(ErrorView::MissingOperand { op, role: Role::Value })
        } else {
            match lower_spec(l[1], depth + 1) {
                Ok(c) => Ok(CompiledView::Item(Box::new(MethodView::Print(Box::new(c))))),
                Err(e) => Err(e),
            }
        }
    } else if op == add_token() {
        match lower_operands_spec(l, op, depth) {
            Ok((a, b)) => Ok(
                CompiledView::Item(Box::new(MethodView::Add(Box::new(a), Box::new(b)))),
            ),
            Err(e) => Err(e),
        }
    } else if op == mul_token() {
        match lower_operands_spec(l, op, depth) {
            Ok((a, b)) => Ok(
                CompiledView::Item(Box::new(MethodView::Mul(Box::new(a), Box::new(b)))),
            ),
            Err(e) => Err(e),
        }
    } else {
        Err(ErrorView::UnknownOperator { name: op })
    }
}

/// What lowering the two operands of a binary operator yields, in order:
/// the first operand's presence is checked and it is lowered before the
/// second is looked at.
pub open spec fn lower_operands_spec(l: Seq<ParsedView>, op: Seq<char>, depth: int) -> Result<
    (CompiledView, CompiledView),
    ErrorView,
>
    decreases l, 0int, 0int,
{
    if l.len() < 2 {
        Err(ErrorView::MissingOperand { op, role: Role::Lhs })
    } else {
        match lower_spec(l[1], depth + 1) {
            Err(e) => Err(e),
            Ok(a) => if l.len() < 3 {
                Err(ErrorView::MissingOperand { op, role: Role::Rhs })
            } else {
                match lower_spec(l[2], depth + 1) {
                    Err(e) => Err(e),
                    Ok(b) => Ok((a, b)),
                }
            },
        }
    }
}

/// What lowering every element of a group yields, in order, stopping at the
/// first error.
pub open spec fn lower_elems_spec(l: Seq<ParsedView>, i: int, depth: int) -> Result<
    Seq<CompiledView>,
    ErrorView,
>
    decreases l, 2int, l.len() - i,
{
    if i < 0 || i >= l.len() {
        Ok(Seq::empty())
    } else {
        match lower_spec(l[i], depth) {
            Err(e) => Err(e),
            Ok(c) => match lower_elems_spec(l, i + 1, depth) {
                Ok(rest) => Ok(seq![c] + rest),
                Err(e) => Err(e),
            },
        }
    }
}

/// A `Result` of lowering, seen at the model level.
pub open spec fn compiled_result_view(r: Result<Compiled, Error>) -> Result<
    CompiledView,
    ErrorView,
> {
    match r {
        Ok(c) => Ok(c@),
        Err(e) => Err(e@),
    }
}

impl Compiled {
    /// Compile the script from parsed text.
    pub fn from(parsed: Parsed) -> (r: Result<Compiled, Error>)
        ensures
            compiled_result_view(r) == lower_spec(parsed@, 0),
    {
        compile_branch(&parsed, 0)
    }
}

impl Parsed {
    /// Compile the script from parsed text.
    pub fn compile(self) -> (r: Result<Compiled, Error>)
        ensures
            compiled_result_view(r) == lower_spec(self@, 0),
    {
        Compiled::from(self)
    }
}

/// Lower a single branch, recursively.
#[verifier::loop_isolation(false)]
fn compile_branch(parsed: &Parsed, recursion: usize) -> (r: Result<Compiled, Error>)
    ensures
        compiled_result_view(r) == lower_spec(parsed@, recursion as int),
    decreases parsed, 0int, 0int,
{
    proof {
        reveal_with_fuel(compiled_view, 3);
        reveal_with_fuel(method_view, 3);
    }
    if recursion >= RECURSION_LIMIT {
        return Err(Error::RecursionLimit);
    }
    match parsed {
        Parsed::Item(t) => match Value::from(t.as_str()) {
            Ok(v) => Ok(Compiled::Item(Method::Literal(v))),
            Err(e) => Err(e),
        },
        Parsed::List(l) => {
            proof {
                lemma_parsed_view_list_ref(l);
            }
            if l.len() == 0 {
                return Err(Error::EmptyGroup);
            }
            if matches!(&l[0], Parsed::List(_)) {
                let mut items: Vec<Compiled> = Vec::new();
                let mut j: usize = 0;
                proof {
                    assert(compiled_views_of(items@) =~= Seq::<CompiledView>::empty());
                }
                while j < l.len()
                    invariant
                        j <= l@.len(),
                        recursion < RECURSION_LIMIT,
                        lower_elems_spec(views_of(l@), 0, recursion + 1) == (match lower_elems_spec(
                            views_of(l@),
                            j as int,
                            recursion + 1,
                        ) {
                            Ok(rest) => Ok::<Seq<CompiledView>, ErrorView>(
                                compiled_views_of(items@) + rest,
                            ),
                            Err(e) => Err::<Seq<CompiledView>, ErrorView>(e),
                        }),
                    decreases l@.len() - j,
                {
                    let ghost items0 = compiled_views_of(items@);
                    proof {
                        assert(decreases_to!(*parsed => *l));
                        assert(decreases_to!(*l => (*l)[j as int]));
                    }
                    match compile_branch(&l[j], recursion + 1) {
                        Err(e) => {
                            return Err(e);
                        },
                        Ok(c) => {
                            proof {
                                lemma_compiled_views_of_push(items@, c);
                            }
                            items.push(c);
                        },
                    }
                    j += 1;
                    proof {
                        let v = views_of(l@);
                        let d = recursion + 1;
                        if let Ok(rest) = lower_elems_spec(v, j as int, d) {
                            assert(compiled_views_of(items@) + rest =~= items0 + (seq![
                                compiled_views_of(items@).last(),
                            ] + rest));
                        }
                    }
                }
                proof {
                    assert(lower_elems_spec(views_of(l@), l@.len() as int, recursion + 1)
                        == Ok::<Seq<CompiledView>, ErrorView>(Seq::empty()));
                    assert(compiled_views_of(items@) + Seq::<CompiledView>::empty()
                        =~= compiled_views_of(items@));
                    lemma_method_view_many(items);
                }
                Ok(Compiled::Item(Method::Many(items)))
            } else {
                let op: &String = match &l[0] {
                    Parsed::Item(t) => t,
                    Parsed::List(_) => {
                        return Err(Error::EmptyGroup);  // unreachable: the head is an atom
                    },
                };
                proof {
                    reveal_strlit("print");
                    reveal_strlit("+");
                    reveal_strlit("*");
                    assert("print"@ =~= print_token());
                    assert("+"@ =~= add_token());
                    assert("*"@ =~= mul_token());
                }
                if str_eq(op.as_str(), "print") {
                    if l.len() < 2 {
                        return Err(
                            Error::MissingOperand {
                                op: String::from_str(op.as_str()),
                                role: Role::Value,
                            },
                        );
                    }
                    match compile_branch(&l[1], recursion + 1) {
                        Err(e) => Err(e),
                        Ok(c) => Ok(Compiled::Item(Method::Print(Box::new(c)))),
                    }
                } else if str_eq(op.as_str(), "+") {
                    match compile_operands(l, op, recursion) {
                        Err(e) => Err(e),
                        Ok((a, b)) => Ok(Compiled::Item(Method::Add(Box::new(a), Box::new(b)))),
                    }
                } else if str_eq(op.as_str(), "*") {
                    match compile_operands(l, op, recursion) {
                        Err(e) => Err(e),
                        Ok((a, b)) => Ok(Compiled::Item(Method::Mul(Box::new(a), Box::new(b)))),
                    }
                } else {
                    Err(Error::UnknownOperator { name: String::from_str(op.as_str()) })
                }
            }
        },
    }
}

/// Lower the two operands of a binary operator, in order.
fn compile_operands(l: &Vec<Parsed>, op: &String, recursion: usize) -> (r: Result<
    (Compiled, Compiled),
    Error,
>)
    requires
        recursion < RECURSION_LIMIT,
    ensures
        match r {
            Ok(p) => lower_operands_spec(views_of(l@), op@, recursion as int) == Ok::<
                (CompiledView, CompiledView),
                ErrorView,
            >((p.0@, p.1@)),
            Err(e) => lower_operands_spec(views_of(l@), op@, recursion as int) == Err::<
                (CompiledView, CompiledView),
                ErrorView,
            >(e@),
        },
    decreases l, 1int, 0int,
{
    if l.len() < 2 {
        return Err(
            Error::MissingOperand { op: String::from_str(op.as_str()), role: Role::Lhs },
        );
    }
    match compile_branch(&l[1], recursion + 1) {
        Err(e) => Err(e),
        Ok(a) => {
            if l.len() < 3 {
                return Err(
                    Error::MissingOperand { op: String::from_str(op.as_str()), role: Role::Rhs },
                );
            }
            match compile_branch(&l[2], recursion + 1) {
                Err(e) => Err(e),
                Ok(b) => Ok((a, b)),
            }
        },
    }
}

/// The list form of a parsed node's model, seen through a reference.
pub(crate) proof fn lemma_parsed_view_list_ref(l: &Vec<Parsed>)
    ensures
        crate::parse::parsed_view(Parsed::List(*l)) == ParsedView::List(views_of(l@)),
{
    lemma_parsed_view_list(*l);
}

} // verus!
