//! Parse errors.

use vstd::prelude::*;
use crate::ast::token::{Kind, Span};

verus! {

/// Why a parse failed.
#[derive(Debug, Clone, Copy, PartialEq, Eq, Structural)]
pub enum ParseErrorKind {
    /// A token did not start what the grammar needed.
    UnexpectedToken,
    /// A delimiter did not match.
    UnexpectedDelimiter,
    /// The source ended where a token was needed.
    UnexpectedEndOfFile,
    /// A function argument was needed.
    ExpectedFunctionArgument,
    /// An item was needed.
    ExpectedItem,
    /// A `mut` or `const` marker was needed.
    ExpectedMutability,
    /// A path segment was needed.
    TokenMismatch,
    /// A unary operator was needed.
    ExpectedUnaryOperator,
    /// The source held a byte outside the supported range.
    UnsupportedByte,
    /// A literal was left unterminated.
    UnterminatedLiteral,
}

/// An error from parsing, at the span where it was found.
#[derive(Debug, Clone, Copy, PartialEq, Eq, Structural)]
pub struct ParseError {
    /// Where the parse failed.
    pub span: Span,
    /// Why it failed.
    pub kind: ParseErrorKind,
}

impl ParseError {
    /// A parse error of `kind` at `span`.
    pub fn new(span: Span, kind: ParseErrorKind) -> (r: Self)
        ensures
            r.span == span,
            r.kind == kind,
    {
        ParseError { span, kind }
    }
}

} // verus!
