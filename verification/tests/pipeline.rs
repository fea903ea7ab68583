//! Tests for the whole pipeline: parse, compile, run.

use lips::compile::{Compiled, Method};
use lips::error::{ArithOp, Error, Role};
use lips::parse::Parsed;
use lips::run;
use lips::value::{Tag, Value};

#[test]
fn run_add_ints() {
    let (printed, result) = run("(+ 1 2)");
    assert_eq!(printed, vec![]);
    assert_eq!(result, Ok(Value::Int(3)));
}

#[test]
fn run_mul_ints() {
    let (printed, result) = run("(* 2 3)");
    assert_eq!(printed, vec![]);
    assert_eq!(result, Ok(Value::Int(6)));
}

#[test]
fn run_print() {
    let (printed, result) = run("(print 'hi')");
    assert_eq!(printed, vec![Value::Str(String::from("hi"))]);
    assert_eq!(result, Ok(Value::Null));
}

#[test]
fn run_string_append() {
    let (_, result) = run("(+ 'ab' 'cd')");
    assert_eq!(result, Ok(Value::Str(String::from("abcd"))));
}

#[test]
fn run_string_repeat() {
    let (_, result) = run("(* 'ab' 3)");
    assert_eq!(result, Ok(Value::Str(String::from("ababab"))));
}

#[test]
fn run_block_yields_last_value() {
    let (printed, result) = run("((+ 1 1) (+ 2 2))");
    assert_eq!(printed, vec![]);
    assert_eq!(result, Ok(Value::Int(4)));
}

#[test]
fn run_block_side_effects_in_order() {
    let (printed, result) = run("((print 'a') (print 'b') (+ 2 2))");
    assert_eq!(
        printed,
        vec![Value::Str(String::from("a")), Value::Str(String::from("b"))]
    );
    assert_eq!(result, Ok(Value::Int(4)));
}

#[test]
fn run_type_mismatch() {
    let (_, result) = run("(+ 1 'a')");
    assert_eq!(
        result,
        Err(Error::TypeMismatch { op: ArithOp::Add, lhs: Tag::Int, rhs: Tag::Str })
    );
}

#[test]
fn run_missing_operand() {
    let (_, result) = run("(+ 1)");
    assert_eq!(
        result,
        Err(Error::MissingOperand { op: String::from("+"), role: Role::Rhs })
    );
}

#[test]
fn run_missing_both_operands() {
    let (_, result) = run("(+)");
    assert_eq!(
        result,
        Err(Error::MissingOperand { op: String::from("+"), role: Role::Lhs })
    );
}

#[test]
fn run_print_missing_operand() {
    let (_, result) = run("(print)");
    assert_eq!(
        result,
        Err(Error::MissingOperand { op: String::from("print"), role: Role::Value })
    );
}

#[test]
fn run_unknown_operator() {
    let (_, result) = run("(- 1 2)");
    assert_eq!(
        result,
        Err(Error::UnknownOperator { name: String::from("-") })
    );
}

#[test]
fn run_empty_group() {
    let (_, result) = run("()");
    assert_eq!(result, Err(Error::EmptyGroup));
}

#[test]
fn run_empty_script() {
    let (_, result) = run("");
    assert_eq!(result, Err(Error::EmptyGroup));
}

#[test]
fn run_bad_literal_inside_group() {
    let (_, result) = run("(+ 1 x)");
    assert_eq!(result, Err(Error::LiteralParse { token: String::from("x") }));
}

#[test]
fn run_nested_arithmetic() {
    let (_, result) = run("(+ (* 2 3) 4)");
    assert_eq!(result, Ok(Value::Int(10)));
}

#[test]
fn run_print_before_failure_is_kept() {
    let (printed, result) = run("(+ (print 'x') 1)");
    assert_eq!(printed, vec![Value::Str(String::from("x"))]);
    assert_eq!(
        result,
        Err(Error::TypeMismatch { op: ArithOp::Add, lhs: Tag::Null, rhs: Tag::Int })
    );
}

#[test]
fn run_unbalanced_open_is_closed_at_end_of_input() {
    // End of input implicitly closes every open list.
    let (_, result) = run("(+ 1 2");
    assert_eq!(result, Ok(Value::Int(3)));
}

#[test]
fn run_recursion_limit() {
    let deep = "(".repeat(200);
    let (_, result) = run(&deep);
    assert_eq!(result, Err(Error::RecursionLimit));
}

#[test]
fn run_twice_yields_identical_outcomes() {
    let compiled = Parsed::from("((print 'a') (+ 1 2))")
        .unwrap()
        .compile()
        .unwrap();
    let mut first_out: Vec<Value> = Vec::new();
    let first = compiled.run(&mut first_out);
    let mut second_out: Vec<Value> = Vec::new();
    let second = compiled.run(&mut second_out);
    assert_eq!(first, second);
    assert_eq!(first_out, second_out);
    assert_eq!(first, Ok(Value::Int(3)));
    assert_eq!(first_out, vec![Value::Str(String::from("a"))]);
}

#[test]
fn parse_atoms_and_groups() {
    let parsed = Parsed::from("(a b)").unwrap();
    assert_eq!(
        parsed,
        Parsed::List(vec![Parsed::List(vec![
            Parsed::Item(String::from("a")),
            Parsed::Item(String::from("b")),
        ])])
    );
}

#[test]
fn parse_newline_joins_atoms() {
    // A newline is skipped outright, even inside an atom.
    let parsed = Parsed::from("a\nb").unwrap();
    assert_eq!(parsed, Parsed::List(vec![Parsed::Item(String::from("ab"))]));
}

#[test]
fn parse_spaces_collapse() {
    let parsed = Parsed::from("  a   b  ").unwrap();
    assert_eq!(
        parsed,
        Parsed::List(vec![
            Parsed::Item(String::from("a")),
            Parsed::Item(String::from("b")),
        ])
    );
}

#[test]
fn parse_stray_close_ends_scan() {
    // A `)` with no open list ends the scan; the rest of the input is ignored.
    let parsed = Parsed::from("a) b").unwrap();
    assert_eq!(parsed, Parsed::List(vec![Parsed::Item(String::from("a"))]));
}

#[test]
fn parse_open_bracket_flushes_atom() {
    let parsed = Parsed::from("ab(cd)").unwrap();
    assert_eq!(
        parsed,
        Parsed::List(vec![
            Parsed::Item(String::from("ab")),
            Parsed::List(vec![Parsed::Item(String::from("cd"))]),
        ])
    );
}

#[test]
fn parse_jammed_atom_stays_one_atom() {
    // Operator-significant characters with no separating space are one atom.
    let parsed = Parsed::from("a+b").unwrap();
    assert_eq!(parsed, Parsed::List(vec![Parsed::Item(String::from("a+b"))]));
}

#[test]
fn parse_nested_groups() {
    let parsed = Parsed::from("(a (b c))").unwrap();
    assert_eq!(
        parsed,
        Parsed::List(vec![Parsed::List(vec![
            Parsed::Item(String::from("a")),
            Parsed::List(vec![
                Parsed::Item(String::from("b")),
                Parsed::Item(String::from("c")),
            ]),
        ])])
    );
}

#[test]
fn run_extra_operands_are_ignored() {
    // Operators consume exactly their arity; trailing elements are ignored.
    let (_, result) = run("(+ 1 2 3)");
    assert_eq!(result, Ok(Value::Int(3)));
}

#[test]
fn bare_atom_sits_in_operator_position() {
    // The implicit outermost list is a group, so its first atom is looked
    // up as an operator.
    let compiled = Parsed::from("7").unwrap().compile();
    assert_eq!(compiled, Err(Error::UnknownOperator { name: String::from("7") }));
}

#[test]
fn method_literal_runs_to_its_value() {
    let method = Method::Literal(Value::Int(5));
    let mut printed: Vec<Value> = Vec::new();
    assert_eq!(method.run(&mut printed), Ok(Value::Int(5)));
    assert!(printed.is_empty());
}

#[test]
fn empty_block_yields_null() {
    let method = Method::Many(Vec::new());
    let mut printed: Vec<Value> = Vec::new();
    assert_eq!(method.run(&mut printed), Ok(Value::Null));
    assert!(printed.is_empty());
}

#[test]
fn empty_compiled_list_yields_null() {
    let compiled = Compiled::List(Vec::new());
    let mut printed: Vec<Value> = Vec::new();
    assert_eq!(compiled.run(&mut printed), Ok(Value::Null));
    assert!(printed.is_empty());
}

#[test]
fn run_print_computed_value() {
    let (printed, result) = run("(print (+ 1 2))");
    assert_eq!(printed, vec![Value::Int(3)]);
    assert_eq!(result, Ok(Value::Null));
}
