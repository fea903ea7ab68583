//! Tests for literal parsing and value arithmetic.

use lips::error::{ArithOp, Error};
use lips::value::{Tag, Value};

#[test]
fn parse_int_zero() {
    assert_eq!(Value::from("0"), Ok(Value::Int(0)));
}

#[test]
fn parse_int_positive() {
    assert_eq!(Value::from("42"), Ok(Value::Int(42)));
    assert_eq!(Value::from("1000000"), Ok(Value::Int(1_000_000)));
}

#[test]
fn parse_int_negative() {
    assert_eq!(Value::from("-7"), Ok(Value::Int(-7)));
}

#[test]
fn parse_int_max() {
    assert_eq!(Value::from("2147483647"), Ok(Value::Int(i32::MAX)));
}

#[test]
fn parse_int_min() {
    assert_eq!(Value::from("-2147483648"), Ok(Value::Int(i32::MIN)));
}

#[test]
fn parse_int_too_large() {
    assert_eq!(
        Value::from("2147483648"),
        Err(Error::LiteralParse { token: String::from("2147483648") })
    );
}

#[test]
fn parse_int_too_small() {
    assert_eq!(
        Value::from("-2147483649"),
        Err(Error::LiteralParse { token: String::from("-2147483649") })
    );
}

#[test]
fn parse_int_leading_plus_rejected() {
    assert_eq!(
        Value::from("+5"),
        Err(Error::LiteralParse { token: String::from("+5") })
    );
}

#[test]
fn parse_bare_minus_rejected() {
    assert_eq!(
        Value::from("-"),
        Err(Error::LiteralParse { token: String::from("-") })
    );
}

#[test]
fn parse_nul() {
    assert_eq!(Value::from("NUL"), Ok(Value::Null));
}

#[test]
fn parse_single_quoted() {
    assert_eq!(Value::from("'hi'"), Ok(Value::Str(String::from("hi"))));
}

#[test]
fn parse_double_quoted() {
    assert_eq!(Value::from("\"hi\""), Ok(Value::Str(String::from("hi"))));
}

#[test]
fn parse_empty_quotes() {
    assert_eq!(Value::from("''"), Ok(Value::Str(String::new())));
}

#[test]
fn parse_quoted_digits_stay_text() {
    assert_eq!(Value::from("'5'"), Ok(Value::Str(String::from("5"))));
}

#[test]
fn parse_lone_quote_rejected() {
    assert_eq!(
        Value::from("'"),
        Err(Error::LiteralParse { token: String::from("'") })
    );
}

#[test]
fn parse_mismatched_quotes_rejected() {
    assert_eq!(
        Value::from("'a\""),
        Err(Error::LiteralParse { token: String::from("'a\"") })
    );
}

#[test]
fn parse_plain_word_rejected() {
    assert_eq!(
        Value::from("abc"),
        Err(Error::LiteralParse { token: String::from("abc") })
    );
}

#[test]
fn add_ints() {
    assert_eq!(Value::Int(1).add(Value::Int(2)), Ok(Value::Int(3)));
}

#[test]
fn add_strings() {
    let a = Value::Str(String::from("ab"));
    let b = Value::Str(String::from("cd"));
    assert_eq!(a.add(b), Ok(Value::Str(String::from("abcd"))));
}

#[test]
fn add_mismatch_names_tags() {
    assert_eq!(
        Value::Int(1).add(Value::Str(String::from("a"))),
        Err(Error::TypeMismatch { op: ArithOp::Add, lhs: Tag::Int, rhs: Tag::Str })
    );
}

#[test]
fn add_null_mismatch() {
    assert_eq!(
        Value::Null.add(Value::Int(1)),
        Err(Error::TypeMismatch { op: ArithOp::Add, lhs: Tag::Null, rhs: Tag::Int })
    );
}

#[test]
fn add_overflow() {
    assert_eq!(Value::Int(i32::MAX).add(Value::Int(1)), Err(Error::Overflow));
}

#[test]
fn mul_ints() {
    assert_eq!(Value::Int(2).mul(Value::Int(3)), Ok(Value::Int(6)));
}

#[test]
fn mul_string_repeat() {
    let s = Value::Str(String::from("ab"));
    assert_eq!(s.mul(Value::Int(3)), Ok(Value::Str(String::from("ababab"))));
}

#[test]
fn mul_string_zero_repeat() {
    let s = Value::Str(String::from("ab"));
    assert_eq!(s.mul(Value::Int(0)), Ok(Value::Str(String::new())));
}

#[test]
fn mul_string_negative_repeat_is_empty() {
    let s = Value::Str(String::from("ab"));
    assert_eq!(s.mul(Value::Int(-2)), Ok(Value::Str(String::new())));
}

#[test]
fn mul_mismatch_names_tags() {
    assert_eq!(
        Value::Int(2).mul(Value::Str(String::from("ab"))),
        Err(Error::TypeMismatch { op: ArithOp::Mul, lhs: Tag::Int, rhs: Tag::Str })
    );
}

#[test]
fn mul_overflow() {
    assert_eq!(
        Value::Int(65536).mul(Value::Int(65536)),
        Err(Error::Overflow)
    );
}

#[test]
fn value_clone_keeps_contents() {
    let v = Value::Str(String::from("abc"));
    assert_eq!(v.clone(), v);
}

#[test]
fn value_tag() {
    assert_eq!(Value::Null.tag(), Tag::Null);
    assert_eq!(Value::Int(3).tag(), Tag::Int);
    assert_eq!(Value::Str(String::new()).tag(), Tag::Str);
}
