//! Return type hints.

use vstd::prelude::*;
use crate::ast::token::Token;
use crate::ast::ty::Type;

verus! {

/// The return type hint of a function.
#[derive(Debug)]
pub struct ReturnType {
    /// The `->` preceding the type.
    pub arrow: Token,
    /// The type that is returned.
    pub type_: Box<Type>,
}

} // verus!
