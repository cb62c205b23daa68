//! Paths of `::`-separated segments.

use vstd::prelude::*;
use crate::ast::token::{Ident, Token};

verus! {

/// A path, where each element is separated by a `::`.
#[derive(Debug, Clone)]
pub struct Path {
    /// The optional leading `::`.
    pub leading_colon: Option<Token>,
    /// The first component in the path.
    pub first: PathSegment,
    /// The rest of the components in the path, each after a `::`.
    pub rest: Vec<(Token, PathSegment)>,
    /// A trailing `::`, if any.
    pub trailing: Option<Token>,
}

/// Part of a `::`-separated path.
#[derive(Debug, Clone)]
pub enum PathSegment {
    /// A path segment that is an identifier.
    Ident(Ident),
    /// The `crate` keyword used as a path segment.
    Crate(Token),
    /// The `super` keyword used as a path segment.
    Super(Token),
}

impl PathSegment {
    /// Borrow as an identifier. This is only allowed if the segment is
    /// an identifier, not `crate` or `super`.
    pub fn try_as_ident(&self) -> (r: Option<&Ident>)
        ensures
            r is Some <==> *self is Ident,
    {
        match self {
            PathSegment::Ident(ident) => Some(ident),
            _ => None,
        }
    }
}

impl Path {
    /// Borrow as an identifier used for field access calls. This is
    /// only allowed if there are no other path components and the
    /// first segment is an identifier.
    pub fn try_as_ident(&self) -> (r: Option<&Ident>)
        ensures
            r is Some <==> self.rest@.len() == 0 && self.trailing is None && self.first is Ident,
    {
        if self.rest.len() == 0 && self.trailing.is_none() {
            self.first.try_as_ident()
        } else {
            None
        }
    }

    /// The components of the path, in order.
    pub fn iter(&self) -> (r: Vec<&PathSegment>)
        ensures
            r@.len() == 1 + self.rest@.len(),
    {
        let mut out: Vec<&PathSegment> = Vec::new();
        out.push(&self.first);
        let mut i: usize = 0;
        while i < self.rest.len()
            invariant
                i <= self.rest@.len(),
                out@.len() == 1 + i,
            decreases self.rest.len() - i,
        {
            out.push(&self.rest[i].1);
            i = i + 1;
        }
        out
    }
}

} // verus!
