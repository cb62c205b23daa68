//! Unary expressions.

use vstd::prelude::*;
use crate::ast::error::{ParseError, ParseErrorKind};
use crate::ast::item::Expr;
use crate::ast::token::{Kind, Token};

verus! {

/// A unary expression.
#[derive(Debug)]
pub struct ExprUnary {
    /// The token of the operator.
    pub token: Token,
    /// The expression the operation applies to.
    pub expr: Box<Expr>,
    /// The operation to apply.
    pub op: UnaryOp,
}

/// A unary operation.
#[derive(Debug, Clone, Copy, PartialEq, Eq, Structural)]
pub enum UnaryOp {
    /// Not: `!<thing>`.
    Not,
    /// Reference: `&<thing>`.
    BorrowRef,
    /// Dereference: `*<thing>`.
    Deref,
}

impl UnaryOp {
    /// Convert a unary operator from a token. Any other token is
    /// rejected with a parse error at that token.
    pub fn from_token(token: Token) -> (r: Result<Self, ParseError>)
        ensures
            match token.kind {
                Kind::Bang => r == Ok::<UnaryOp, ParseError>(UnaryOp::Not),
                Kind::Amp => r == Ok::<UnaryOp, ParseError>(UnaryOp::BorrowRef),
                Kind::Star => r == Ok::<UnaryOp, ParseError>(UnaryOp::Deref),
                _ => r is Err && r->Err_0.span == token.span,
            },
    {
        match token.kind {
            Kind::Bang => Ok(UnaryOp::Not),
            Kind::Amp => Ok(UnaryOp::BorrowRef),
            Kind::Star => Ok(UnaryOp::Deref),
            _ => Err(ParseError { span: token.span, kind: ParseErrorKind::ExpectedUnaryOperator }),
        }
    }
}

} // verus!
