//! A type hint after a `:`.

use vstd::prelude::*;
use crate::ast::token::Token;
use crate::ast::ty::Type;

verus! {

/// The type of a function argument, assignment, or expression.
#[derive(Debug)]
pub struct TypeHint {
    /// The `:` token between the name and the type.
    pub colon: Token,
    /// The type that is named.
    pub type_: Box<Type>,
}

} // verus!
