//! The type with no value.

use vstd::prelude::*;
use crate::ast::token::Token;

verus! {

/// The `!` type.
#[derive(Debug, Clone)]
pub struct TypeNever {
    /// The `!` token.
    pub bang: Token,
}

} // verus!
