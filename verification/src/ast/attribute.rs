//! Attributes such as `#[derive(Debug)]`.

use vstd::prelude::*;
use crate::ast::path::Path;
use crate::ast::token::{Delimiter, Kind, Span, Token, TokenStream};

verus! {

/// An attribute like `#[derive(Debug)]`.
#[derive(Debug, Clone)]
pub struct Attribute {
    /// The `#` character.
    pub hash: Token,
    /// Whether the attribute is inner `#` or outer `#!`.
    pub style: AttrStyle,
    /// The `[` character.
    pub open: Token,
    /// The path of the attribute.
    pub path: Path,
    /// The input to the attribute.
    pub input: TokenStream,
    /// The `]` character.
    pub close: Token,
}

impl Attribute {
    /// The span of the whole attribute.
    pub fn span(&self) -> (r: Span)
    {
        self.hash.span.join(self.close.span)
    }
}

/// Whether an attribute is an inner `#` or an outer `#!` attribute.
#[derive(Debug, Clone, Copy)]
pub enum AttrStyle {
    /// `#`.
    Inner,
    /// `#!`, carrying the `!` token.
    Outer(Token),
}

/// The input of an attribute: either a delimited token tree or a
/// literal assignment.
#[derive(Debug)]
pub enum AttrInput {
    /// A delimited token tree, as in `#[bar(baz)]`.
    DelimTokenTree(DelimTokenTree),
    /// `= LiteralExpr`, as in `#[foo = 1]`.
    AssignLit(AssignLit),
}

/// `= LiteralExpr`.
#[derive(Debug)]
pub struct AssignLit {
    /// The `=` token.
    pub equal: Token,
    /// The assigned literal.
    pub lit: crate::ast::item::Lit,
}

/// One node of a token tree: a plain token or a nested delimited tree.
#[derive(Debug)]
pub enum TokenTree {
    /// A token that is not a delimiter.
    Token(NonDelimiter),
    /// A nested delimited token tree.
    DelimTokenTree(DelimTokenTree),
}

/// A token tree between matching delimiters.
#[derive(Debug)]
pub struct DelimTokenTree {
    /// The open delimiter of the token tree.
    pub open: OpenDelim,
    /// The inner token trees.
    pub tokentree: Vec<TokenTree>,
    /// The close delimiter, which must match the open delimiter.
    pub close: CloseDelim,
}

impl DelimTokenTree {
    /// The span of the whole tree.
    pub fn span(&self) -> (r: Span)
    {
        self.open.token().span.join(self.close.token().span)
    }
}

/// A token that is not a delimiter.
#[derive(Debug, Clone, Copy)]
pub struct NonDelimiter(pub Token);

/// Any open delimiter.
#[derive(Debug, Clone, Copy)]
pub enum OpenDelim {
    /// `(`.
    Paren(Token),
    /// `[`.
    Bracket(Token),
    /// `{`.
    Brace(Token),
}

impl OpenDelim {
    /// The delimiter shape.
    pub fn kind(&self) -> (r: Delimiter)
        ensures
            r == match *self {
                OpenDelim::Paren(_) => Delimiter::Parenthesis,
                OpenDelim::Bracket(_) => Delimiter::Bracket,
                OpenDelim::Brace(_) => Delimiter::Brace,
            },
    {
        match self {
            OpenDelim::Paren(_) => Delimiter::Parenthesis,
            OpenDelim::Bracket(_) => Delimiter::Bracket,
            OpenDelim::Brace(_) => Delimiter::Brace,
        }
    }

    /// The underlying token.
    pub fn token(&self) -> (r: Token)
        ensures
            r == match *self {
                OpenDelim::Paren(t) => t,
                OpenDelim::Bracket(t) => t,
                OpenDelim::Brace(t) => t,
            },
    {
        match self {
            OpenDelim::Paren(t) => *t,
            OpenDelim::Bracket(t) => *t,
            OpenDelim::Brace(t) => *t,
        }
    }
}

/// Any close delimiter.
#[derive(Debug, Clone, Copy)]
pub enum CloseDelim {
    /// `)`.
    Paren(Token),
    /// `]`.
    Bracket(Token),
    /// `}`.
    Brace(Token),
}

impl CloseDelim {
    /// The delimiter shape.
    pub fn delim_kind(&self) -> (r: Delimiter)
        ensures
            r == match *self {
                CloseDelim::Paren(_) => Delimiter::Parenthesis,
                CloseDelim::Bracket(_) => Delimiter::Bracket,
                CloseDelim::Brace(_) => Delimiter::Brace,
            },
    {
        match self {
            CloseDelim::Paren(_) => Delimiter::Parenthesis,
            CloseDelim::Bracket(_) => Delimiter::Bracket,
            CloseDelim::Brace(_) => Delimiter::Brace,
        }
    }

    /// The underlying token.
    pub fn token(&self) -> (r: Token)
        ensures
            r == match *self {
                CloseDelim::Paren(t) => t,
                CloseDelim::Bracket(t) => t,
                CloseDelim::Brace(t) => t,
            },
    {
        match self {
            CloseDelim::Paren(t) => *t,
            CloseDelim::Bracket(t) => *t,
            CloseDelim::Brace(t) => *t,
        }
    }
}

} // verus!
