//! The `mut` and `const` markers in type contexts.

use vstd::prelude::*;
use crate::ast::token::Token;

verus! {

/// Represents either `mut` or `const` in type contexts.
#[derive(Debug, Clone)]
pub enum Mutability {
    /// The `const` keyword.
    Const(Token),
    /// The `mut` keyword.
    Mut(Token),
}

impl Mutability {
    /// Return `true` if `mut`.
    pub fn is_mut(&self) -> (r: bool)
        ensures
            r == (*self is Mut),
    {
        match self {
            Mutability::Mut(_) => true,
            _ => false,
        }
    }

    /// Return `true` if `const`.
    pub fn is_const(&self) -> (r: bool)
        ensures
            r == (*self is Const),
    {
        match self {
            Mutability::Const(_) => true,
            _ => false,
        }
    }
}

} // verus!
