//! The inferred type.

use vstd::prelude::*;
use crate::ast::token::Token;

verus! {

/// `_` as an indication that the type should be inferred.
#[derive(Debug, Clone)]
pub struct TypeInfer {
    /// The `_` token.
    pub underscore: Token,
}

} // verus!
