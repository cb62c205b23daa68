//! Visibility markers as written at declaration sites.

use vstd::prelude::*;
use crate::ast::path::Path;
use crate::ast::token::{Span, Token};

verus! {

/// A visibility level restricted to some path: `pub(self)`,
/// `pub(super)`, `pub(crate)` or `pub(in some::module)`.
#[derive(Debug, Clone)]
pub struct VisRestricted {
    /// The `pub` keyword.
    pub pub_: Token,
    /// `(` to specify the start of the visibility scope.
    pub open: Token,
    /// Optional `in` keyword when specifying a path scope.
    pub in_: Option<Token>,
    /// The path in which the `pub` applies.
    pub path: Path,
    /// `)` to specify the end of the path.
    pub close: Token,
}

impl VisRestricted {
    /// The span of the marker.
    pub fn span(&self) -> (r: Span)
        ensures
            r.start == if self.pub_.span.start <= self.close.span.start {
                self.pub_.span.start
            } else {
                self.close.span.start
            },
    {
        self.pub_.span.join(self.close.span)
    }
}

/// A visibility marker.
#[derive(Debug, Clone)]
pub enum Visibility {
    /// A plain `pub`.
    Public(Token),
    /// A restricted `pub(...)`.
    Restricted(VisRestricted),
}

} // verus!
