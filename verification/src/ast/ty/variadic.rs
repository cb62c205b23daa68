//! The variadic marker type.

use vstd::prelude::*;
use crate::ast::token::Token;

verus! {

/// The `...` type in variadic signatures.
#[derive(Debug, Clone)]
pub struct TypeVariadic {
    /// The `...` token.
    pub ellipsis: Token,
}

} // verus!
