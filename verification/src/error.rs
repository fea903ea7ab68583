//! The fatal errors of the pipeline.
//!
//! Every error aborts the whole run at the point of detection: each stage
//! returns it unchanged to its caller, and nothing is caught or retried.

use vstd::prelude::*;

use crate::value::Tag;

verus! {

/// The role of an operand within an operator group, as named in
/// missing-operand errors.
#[derive(Debug, PartialEq, Eq, Clone, Copy, Structural)]
pub enum Role {
    /// The sole operand of a one-operand operator.
    Value,
    /// The first of two operands.
    Lhs,
    /// The second of two operands.
    Rhs,
}

/// The arithmetic operation that a type-mismatch or overflow error came from.
#[derive(Debug, PartialEq, Eq, Clone, Copy, Structural)]
pub enum ArithOp {
    Add,
    Mul,
}

/// A fatal interpreter error.
///
/// Integer arithmetic whose mathematical result does not fit in 32 bits, and
/// a string repetition too long to represent, are reported as [`Error::Overflow`]
/// rather than wrapping silently.
#[derive(Debug, PartialEq)]
pub enum Error {
    /// A token is not `NUL`, not a quoted string, and not an integer literal
    /// in the 32-bit signed range.  Carries the offending token.
    LiteralParse { token: String },
    /// A `(...)` group has no elements to supply an operator.
    EmptyGroup,
    /// A group's head atom is not in the fixed operator table.  Carries the
    /// unknown atom.
    UnknownOperator { name: String },
    /// An operator group ran out of elements before the operator's arity was
    /// met.  Carries the operator's atom and the missing operand's role.
    MissingOperand { op: String, role: Role },
    /// `add` or `multiply` was invoked on an operand-type pairing with no
    /// defined rule.  Carries the operation and both operand type tags.
    TypeMismatch { op: ArithOp, lhs: Tag, rhs: Tag },
    /// Parse or lowering recursion exceeded the fixed nesting bound.
    RecursionLimit,
    /// An arithmetic result does not fit its representation.
    Overflow,
}

/// Mathematical model of an [`Error`]: owned text becomes a sequence of
/// characters.
pub enum ErrorView {
    LiteralParse { token: Seq<char> },
    EmptyGroup,
    UnknownOperator { name: Seq<char> },
    MissingOperand { op: Seq<char>, role: Role },
    TypeMismatch { op: ArithOp, lhs: Tag, rhs: Tag },
    RecursionLimit,
    Overflow,
}

impl View for Error {
    type V = ErrorView;

    open spec fn view(&self) -> ErrorView {
        match self {
            Error::LiteralParse { token } => ErrorView::LiteralParse { token: token@ },
            Error::EmptyGroup => ErrorView::EmptyGroup,
            Error::UnknownOperator { name } => ErrorView::UnknownOperator { name: name@ },
            Error::MissingOperand { op, role } => ErrorView::MissingOperand {
                op: op@,
                role: *role,
            },
            Error::TypeMismatch { op, lhs, rhs } => ErrorView::TypeMismatch {
                op: *op,
                lhs: *lhs,
                rhs: *rhs,
            },
            Error::RecursionLimit => ErrorView::RecursionLimit,
            Error::Overflow => ErrorView::Overflow,
        }
    }
}

impl DeepView for Error {
    type V = ErrorView;

    open spec fn deep_view(&self) -> ErrorView {
        self.view()
    }
}

} // verus!
