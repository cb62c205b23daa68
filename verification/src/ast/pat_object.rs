//! Object patterns.

use vstd::prelude::*;
use crate::ast::path::Path;
use crate::ast::token::{Span, Token};

verus! {

/// The identifier opening an object literal or pattern.
#[derive(Debug, Clone)]
pub enum LitObjectIdent {
    /// An anonymous object: `#{`.
    Anonymous(Token),
    /// A named object: `Ident {`.
    Named(Path),
}

impl LitObjectIdent {
    /// The span of the identifier.
    pub fn span(&self) -> (r: Span)
    {
        match self {
            LitObjectIdent::Anonymous(t) => t.span,
            LitObjectIdent::Named(p) => crate::ast::path_span(p),
        }
    }
}

/// The key of an object pattern entry.
#[derive(Debug, Clone)]
pub enum LitObjectKey {
    /// A string key.
    LitStr(Token),
    /// A path key.
    Path(Path),
}

impl LitObjectKey {
    /// The span of the key.
    pub fn span(&self) -> (r: Span)
    {
        match self {
            LitObjectKey::LitStr(t) => t.span,
            LitObjectKey::Path(p) => crate::ast::path_span(p),
        }
    }
}

/// A pattern bound to an object key.
#[derive(Debug, Clone)]
pub enum Pat {
    /// A path pattern.
    Path(Path),
    /// A literal pattern.
    Lit(Token),
    /// The `_` pattern.
    Ignore(Token),
}

impl Pat {
    /// The span of the pattern.
    pub fn span(&self) -> (r: Span)
    {
        match self {
            Pat::Path(p) => crate::ast::path_span(p),
            Pat::Lit(t) => t.span,
            Pat::Ignore(t) => t.span,
        }
    }
}

/// An object pattern.
#[derive(Debug, Clone)]
pub struct PatObject {
    /// The identifier of the object pattern.
    pub ident: LitObjectIdent,
    /// The open object marker.
    pub open: Token,
    /// The items matched against.
    pub items: Vec<(PatObjectItem, Option<Token>)>,
    /// Indicates if the pattern is open (`..`) or not.
    pub open_pattern: Option<Token>,
    /// The close brace.
    pub close: Token,
}

impl PatObject {
    /// Get the span of the pattern.
    pub fn span(&self) -> (r: Span)
    {
        self.ident.span().join(self.close.span)
    }
}

/// An object pattern item.
#[derive(Debug, Clone)]
pub struct PatObjectItem {
    /// The key of the entry.
    pub key: LitObjectKey,
    /// The binding used for the entry.
    pub binding: Option<(Token, Pat)>,
}

impl PatObjectItem {
    /// The span of the item.
    pub fn span(&self) -> (r: Span)
    {
        match &self.binding {
            Some((_, pat)) => self.key.span().join(pat.span()),
            None => self.key.span(),
        }
    }
}

} // verus!
