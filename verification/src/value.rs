//! The dynamically-typed runtime value and its arithmetic.

use vstd::prelude::*;

use crate::error::{ArithOp, Error, ErrorView};

verus! {

/// Weakly-typed runtime value: null, a 32-bit signed integer, or owned text.
#[derive(Debug, PartialEq)]
pub enum Value {
    /// Null value
    Null,
    /// Integer
    Int(i32),
    /// String
    Str(String),
}

/// Mathematical model of a [`Value`]: integers are unbounded, text is a
/// sequence of characters.
pub enum ValueView {
    Null,
    Int(int),
    Str(Seq<char>),
}

impl View for Value {
    type V = ValueView;

    open spec fn view(&self) -> ValueView {
        match self {
            Value::Null => ValueView::Null,
            Value::Int(i) => ValueView::Int(*i as int),
            Value::Str(s) => ValueView::Str(s@),
        }
    }
}

impl DeepView for Value {
    type V = ValueView;

    open spec fn deep_view(&self) -> ValueView {
        self.view()
    }
}

impl Clone for Value {
    fn clone(&self) -> (r: Self)
        ensures
            r@ == self@,
    {
        match self {
            Value::Null => Value::Null,
            Value::Int(i) => Value::Int(*i),
            Value::Str(s) => Value::Str(String::from_str(s.as_str())),
        }
    }
}

/// The type tag of a value, as named in type-mismatch errors.
#[derive(Debug, PartialEq, Eq, Clone, Copy, Structural)]
pub enum Tag {
    Null,
    Int,
    Str,
}

/// The tag that classifies a value by its variant.
pub open spec fn tag_of(v: ValueView) -> Tag {
    match v {
        ValueView::Null => Tag::Null,
        ValueView::Int(_) => Tag::Int,
        ValueView::Str(_) => Tag::Str,
    }
}

impl Value {
    /// The type tag of this value.
    pub fn tag(&self) -> (t: Tag)
        ensures
            t == tag_of(self@),
    {
        match self {
            Value::Null => Tag::Null,
            Value::Int(_) => Tag::Int,
            Value::Str(_) => Tag::Str,
        }
    }
}

/// A `Result` of literal parsing or of arithmetic, seen at the model level.
pub open spec fn value_result_view(r: Result<Value, Error>) -> Result<ValueView, ErrorView> {
    match r {
        Ok(v) => Ok(v@),
        Err(e) => Err(e@),
    }
}

/// A decimal digit.
pub open spec fn is_digit_char(c: char) -> bool {
    '0' <= c && c <= '9'
}

/// The numeric value of one decimal digit.
pub open spec fn digit_value(c: char) -> int {
    c as int - '0' as int
}

/// Every character of `s` is a decimal digit.
pub open spec fn all_digits(s: Seq<char>) -> bool {
    forall|i: int| 0 <= i < s.len() ==> is_digit_char(#[trigger] s[i])
}

/// The numeric value of a run of decimal digits, most significant first.
pub open spec fn digits_value(s: Seq<char>) -> int
    decreases s.len(),
{
    if s.len() == 0 {
        0
    } else {
        digits_value(s.drop_last()) * 10 + digit_value(s.last())
    }
}

/// A base-10 signed-integer literal: an optional leading `-`, then at least
/// one decimal digit, and nothing else.
pub open spec fn is_int_literal(s: Seq<char>) -> bool {
    if s.len() > 0 && s[0] == '-' {
        s.len() >= 2 && all_digits(s.skip(1))
    } else {
        s.len() >= 1 && all_digits(s)
    }
}

/// The numeric value of an integer literal.
pub open spec fn int_literal_value(s: Seq<char>) -> int
    recommends
        is_int_literal(s),
{
    if s.len() > 0 && s[0] == '-' {
        -digits_value(s.skip(1))
    } else {
        digits_value(s)
    }
}

/// The number fits in a 32-bit signed integer.
pub open spec fn fits_i32(n: int) -> bool {
    i32::MIN <= n <= i32::MAX
}

/// A token that begins and ends with a matching quote character, length at
/// least two.
pub open spec fn is_quoted(s: Seq<char>) -> bool {
    s.len() >= 2 && ((s[0] == '\'' && s[s.len() - 1] == '\'') || (s[0] == '"' && s[s.len() - 1]
        == '"'))
}

/// The literal text that names the null value.
pub open spec fn nul_token() -> Seq<char> {
    seq!['N', 'U', 'L']
}

/// What parsing a token yields, in this fixed priority order: the literal
/// text `NUL`, then a quoted string (first and last characters stripped),
/// then a base-10 integer literal in the 32-bit signed range; any other
/// token is a literal-parse error carrying the token itself.
pub open spec fn parse_value_spec(s: Seq<char>) -> Result<ValueView, ErrorView> {
    if s == nul_token() {
        Ok(ValueView::Null)
    } else if is_quoted(s) {
        Ok(ValueView::Str(s.subrange(1, s.len() - 1)))
    } else if is_int_literal(s) && fits_i32(int_literal_value(s)) {
        Ok(ValueView::Int(int_literal_value(s)))
    } else {
        Err(ErrorView::LiteralParse { token: s })
    }
}

/// Law: literal classification.  Every token of the `NUL` shape yields the
/// null value; every quoted token yields its inner text unchanged; every
/// integer-literal token whose value fits 32 signed bits yields exactly that
/// numeric value; and a token of none of these shapes is rejected with a
/// literal-parse error carrying the token itself.
pub proof fn lemma_parse_value_classification(s: Seq<char>)
    ensures
        s == nul_token() ==> parse_value_spec(s) == Ok::<ValueView, ErrorView>(ValueView::Null),
        s != nul_token() && is_quoted(s) ==> parse_value_spec(s) == Ok::<ValueView, ErrorView>(
            ValueView::Str(s.subrange(1, s.len() - 1)),
        ),
        s != nul_token() && !is_quoted(s) && is_int_literal(s) && fits_i32(int_literal_value(s))
            ==> parse_value_spec(s) == Ok::<ValueView, ErrorView>(
            ValueView::Int(int_literal_value(s)),
        ),
        s != nul_token() && !is_quoted(s) && !(is_int_literal(s) && fits_i32(int_literal_value(s)))
            ==> parse_value_spec(s) == Err::<ValueView, ErrorView>(
            ErrorView::LiteralParse { token: s },
        ),
{
}

/// A run of digits has a non-negative value.
proof fn lemma_digits_value_nonneg(s: Seq<char>)
    requires
        all_digits(s),
    ensures
        digits_value(s) >= 0,
    decreases s.len(),
{
    if s.len() > 0 {
        assert(all_digits(s.drop_last()));
        lemma_digits_value_nonneg(s.drop_last());
    }
}

/// Extending a run of digits by one digit multiplies its value by ten and
/// adds the digit.
proof fn lemma_digits_value_step(s: Seq<char>, k: int)
    requires
        0 <= k < s.len(),
    ensures
        digits_value(s.subrange(0, k + 1)) == digits_value(s.subrange(0, k)) * 10 + digit_value(
            s[k],
        ),
{
    let t = s.subrange(0, k + 1);
    assert(t.drop_last() =~= s.subrange(0, k));
    assert(t.last() == s[k]);
}

/// A prefix of a run of digits is worth no more than the whole run.
proof fn lemma_digits_prefix_le(s: Seq<char>, k: int)
    requires
        all_digits(s),
        0 <= k <= s.len(),
    ensures
        digits_value(s.subrange(0, k)) <= digits_value(s),
    decreases s.len() - k,
{
    if k == s.len() {
        assert(s.subrange(0, k) =~= s);
    } else {
        lemma_digits_value_step(s, k);
        assert(all_digits(s.subrange(0, k)));
        lemma_digits_value_nonneg(s.subrange(0, k));
        lemma_digits_prefix_le(s, k + 1);
    }
}

/// Parses a base-10 signed-integer literal, rejecting any token that is not
/// one and any value outside the 32-bit signed range.
fn parse_int(s: &str) -> (r: Result<i32, Error>)
    ensures
        match r {
            Ok(v) => is_int_literal(s@) && fits_i32(int_literal_value(s@)) && v as int
                == int_literal_value(s@),
            Err(e) => !(is_int_literal(s@) && fits_i32(int_literal_value(s@))) && e@
                == (ErrorView::LiteralParse { token: s@ }),
        },
{
    let n = s.unicode_len();
    let neg = n > 0 && s.get_char(0) == '-';
    let start: usize = if neg {
        1
    } else {
        0
    };
    let ghost digits: Seq<char> = if neg {
        s@.skip(1)
    } else {
        s@
    };
    assert(digits.len() == n - start);
    if start >= n {
        // Empty token, or a bare `-`.
        return Err(Error::LiteralParse { token: String::from_str(s) });
    }
    let mut acc: u64 = 0;
    let mut i: usize = start;
    while i < n
        invariant
            start <= i <= n,
            start < n,
            n == s@.len(),
            neg ==> start == 1 && s@[0] == '-',
            !neg ==> start == 0 && s@[0] != '-',
            start == 1 ==> digits == s@.skip(1),
            start == 0 ==> digits == s@,
            digits.len() == n - start,
            forall|j: int| start <= j < n ==> s@[j] == digits[j - start],
            all_digits(digits.subrange(0, i - start)),
            acc as int == digits_value(digits.subrange(0, i - start)),
            acc <= 0x8000_0000,
        decreases n - i,
    {
        let c = s.get_char(i);
        if !('0' <= c && c <= '9') {
            assert(!is_int_literal(s@)) by {
                assert(digits[i - start] == c && !is_digit_char(c));
            }
            return Err(Error::LiteralParse { token: String::from_str(s) });
        }
        let d: u64 = (c as u32 as u64) - 48;
        proof {
            lemma_digits_value_step(digits, i - start);
            assert(digits.subrange(0, i - start).push(c) =~= digits.subrange(0, i + 1 - start));
        }
        acc = acc * 10 + d;
        i += 1;
        if acc > 0x8000_0000 {
            // Any further digits can only enlarge the value, so the literal
            // is out of the 32-bit range whatever its sign.
            proof {
                if is_int_literal(s@) {
                    lemma_digits_prefix_le(digits, i - start);
                }
            }
            return Err(Error::LiteralParse { token: String::from_str(s) });
        }
    }
    proof {
        assert(digits.subrange(0, n - start) =~= digits);
    }
    if neg {
        let v: i64 = -(acc as i64);
        assert(i32::MIN <= v <= i32::MAX);
        Ok(v as i32)
    } else {
        if acc > 0x7FFF_FFFF {
            return Err(Error::LiteralParse { token: String::from_str(s) });
        }
        Ok(acc as i32)
    }
}

impl Value {
    /// Parse a `Value` from a token's text, classifying it by shape: the
    /// literal text `NUL`, then a quoted string, then an integer literal;
    /// any other token is a literal-parse error.
    pub fn from(string: &str) -> (r: Result<Self, Error>)
        ensures
            value_result_view(r) == parse_value_spec(string@),
    {
        proof {
            reveal_strlit("NUL");
            assert("NUL"@ =~= nul_token());
        }
        if crate::text::str_eq(string, "NUL") {
            return Ok(Value::Null);
        }
        let n = string.unicode_len();
        if n >= 2 {
            let first = string.get_char(0);
            let last = string.get_char(n - 1);
            if (first == '\'' && last == '\'') || (first == '"' && last == '"') {
                let inner = string.substring_char(1, n - 1);
                return Ok(Value::Str(String::from_str(inner)));
            }
        }
        match parse_int(string) {
            Ok(v) => Ok(Value::Int(v)),
            Err(e) => Err(e),
        }
    }
}

/// What adding two values yields: the sum of two integers when it fits in
/// 32 bits, the concatenation of two strings, and a type-mismatch error
/// naming both tags for any other pairing.
pub open spec fn add_spec(a: ValueView, b: ValueView) -> Result<ValueView, ErrorView> {
    match (a, b) {
        (ValueView::Int(x), ValueView::Int(y)) => if fits_i32(x + y) {
            Ok(ValueView::Int(x + y))
        } else {
            Err(ErrorView::Overflow)
        },
        (ValueView::Str(x), ValueView::Str(y)) => Ok(ValueView::Str(x + y)),
        _ => Err(
            ErrorView::TypeMismatch { op: ArithOp::Add, lhs: tag_of(a), rhs: tag_of(b) },
        ),
    }
}

/// The string repeated `n` times; zero or a negative count yields the empty
/// string.
pub open spec fn repeat_spec(s: Seq<char>, n: int) -> Seq<char>
    decreases n,
{
    if n <= 0 {
        Seq::empty()
    } else {
        repeat_spec(s, n - 1) + s
    }
}

/// What multiplying two values yields: the product of two integers when it
/// fits in 32 bits, a string on the left repeated by an integer on the right
/// (a negative count repeats zero times), and a type-mismatch error naming
/// both tags for any other pairing.
pub open spec fn mul_spec(a: ValueView, b: ValueView) -> Result<ValueView, ErrorView> {
    match (a, b) {
        (ValueView::Int(x), ValueView::Int(y)) => if fits_i32(x * y) {
            Ok(ValueView::Int(x * y))
        } else {
            Err(ErrorView::Overflow)
        },
        (ValueView::Str(x), ValueView::Int(y)) => Ok(ValueView::Str(repeat_spec(x, y))),
        _ => Err(
            ErrorView::TypeMismatch { op: ArithOp::Mul, lhs: tag_of(a), rhs: tag_of(b) },
        ),
    }
}

impl Value {
    /// Add two values, consuming both.
    pub fn add(self, rhs: Self) -> (r: Result<Self, Error>)
        ensures
            value_result_view(r) == add_spec(self@, rhs@),
    {
        match (self, rhs) {
            (Value::Int(a), Value::Int(b)) => {
                let sum: i64 = a as i64 + b as i64;
                if -0x8000_0000i64 <= sum && sum <= 0x7FFF_FFFFi64 {
                    Ok(Value::Int(sum as i32))
                } else {
                    Err(Error::Overflow)
                }
            },
            (Value::Str(a), Value::Str(b)) => Ok(Value::Str(a.concat(b.as_str()))),
            (a, b) => {
                let lhs = a.tag();
                let rhs = b.tag();
                Err(Error::TypeMismatch { op: ArithOp::Add, lhs, rhs })
            },
        }
    }

    /// Multiply two values, consuming both.
    pub fn mul(self, rhs: Self) -> (r: Result<Self, Error>)
        ensures
            value_result_view(r) == mul_spec(self@, rhs@),
    {
        match (self, rhs) {
            (Value::Int(a), Value::Int(b)) => {
                proof {
                    let ai = a as int;
                    let bi = b as int;
                    assert(-0x4000_0000_0000_0000 <= ai * bi <= 0x4000_0000_0000_0000)
                        by (nonlinear_arith)
                        requires
                            -0x8000_0000 <= ai <= 0x7FFF_FFFF,
                            -0x8000_0000 <= bi <= 0x7FFF_FFFF,
                    ;
                }
                let prod: i64 = a as i64 * b as i64;
                if -0x8000_0000i64 <= prod && prod <= 0x7FFF_FFFFi64 {
                    Ok(Value::Int(prod as i32))
                } else {
                    Err(Error::Overflow)
                }
            },
            (Value::Str(a), Value::Int(b)) => {
                let mut out = String::new();
                let mut k: i32 = 0;
                if b > 0 {
                    while k < b
                        invariant
                            0 <= k <= b,
                            out@ == repeat_spec(a@, k as int),
                        decreases b - k,
                    {
                        out.append(a.as_str());
                        k += 1;
                    }
                }
                proof {
                    if b <= 0 {
                        assert(out@ =~= repeat_spec(a@, b as int));
                    }
                }
                Ok(Value::Str(out))
            },
            (a, b) => {
                let lhs = a.tag();
                let rhs = b.tag();
                Err(Error::TypeMismatch { op: ArithOp::Mul, lhs, rhs })
            },
        }
    }
}

} // verus!
