//! Raw pointer types.

use vstd::prelude::*;
use crate::ast::mutability::Mutability;
use crate::ast::token::Token;
use crate::ast::ty::Type;

verus! {

/// A raw pointer type: `*const T` or `*mut T`.
#[derive(Debug)]
pub struct TypePtr {
    /// The `*` token.
    pub star: Token,
    /// The `const` or `mut` marker, if any.
    pub mutability: Option<Mutability>,
    /// The pointed-at type.
    pub elem: Box<Type>,
}

} // verus!
