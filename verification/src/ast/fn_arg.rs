//! Function arguments.

use vstd::prelude::*;
use crate::ast::attribute::Attribute;
use crate::ast::token::{Ident, Span, Token};
use crate::ast::ty::Type;

verus! {

/// A single argument in a function or closure signature.
#[derive(Debug)]
pub struct FnArg {
    /// Attributes for the function argument.
    pub attributes: Vec<Attribute>,
    /// Identifier for the function argument.
    pub ident: FnArgIdent,
    /// Optional type of the function argument.
    pub type_: Option<FnArgType>,
}

/// What a function argument binds.
#[derive(Debug, Clone)]
pub enum FnArgIdent {
    /// The `self` parameter.
    Self_(Token),
    /// Ignoring the argument with `_`.
    Ignore(Token),
    /// Binding the argument to an identifier.
    Ident(Ident),
}

/// The type of a function argument.
#[derive(Debug)]
pub struct FnArgType {
    /// The `:` token between the identifier and the type.
    pub colon: Token,
    /// The type of the argument.
    pub type_: Box<Type>,
}

impl FnArgType {
    /// The span of the whole hint, `:` included.
    pub fn span(&self) -> (r: Span)
        ensures
            r == crate::ast::token::spec_join(
                self.colon.span,
                crate::ast::spec_type_span(*self.type_),
            ),
    {
        self.colon.span.join(crate::ast::type_span(&self.type_))
    }
}

} // verus!
