//! Tokens and source spans.

use vstd::prelude::*;

verus! {

/// A byte range in one source text.
#[derive(Copy, Clone, Debug, PartialEq, Eq, Structural)]
pub struct Span {
    pub start: usize,
    pub end: usize,
}

/// The smallest span covering both `a` and `b`.
pub open spec fn spec_join(a: Span, b: Span) -> Span {
    Span {
        start: if a.start <= b.start {
            a.start
        } else {
            b.start
        },
        end: if a.end >= b.end {
            a.end
        } else {
            b.end
        },
    }
}

impl Span {
    /// The span from `start` to `end`.
    pub fn new(start: usize, end: usize) -> (r: Span)
        ensures
            r.start == start,
            r.end == end,
    {
        Span { start, end }
    }

    /// The smallest span covering both `self` and `other`.
    pub fn join(self, other: Span) -> (r: Span)
        ensures
            r == spec_join(self, other),
    {
        Span {
            start: if self.start <= other.start {
                self.start
            } else {
                other.start
            },
            end: if self.end >= other.end {
                self.end
            } else {
                other.end
            },
        }
    }
}

/// A delimiter shape.
#[derive(Copy, Clone, Debug, PartialEq, Eq, Structural)]
pub enum Delimiter {
    /// `(` and `)`.
    Parenthesis,
    /// `[` and `]`.
    Bracket,
    /// `{` and `}`.
    Brace,
}

/// What a token is, independent of where it stands.
#[derive(Copy, Clone, Debug, PartialEq, Eq, Structural)]
pub enum Kind {
    /// `#`
    Pound,
    /// `!`
    Bang,
    /// An opening delimiter.
    Open(Delimiter),
    /// A closing delimiter.
    Close(Delimiter),
    /// `=`
    Eq,
    /// `:`
    Colon,
    /// `::`
    ColonColon,
    /// `,`
    Comma,
    /// `;`
    SemiColon,
    /// `->`
    RArrow,
    /// `*`
    Star,
    /// `&`
    Amp,
    /// `.`
    Dot,
    /// `..`
    DotDot,
    /// `...`
    Ellipsis,
    /// `#{`, opening an anonymous object.
    StartObject,
    /// An identifier.
    Ident,
    /// `_`
    Underscore,
    /// `self`
    Self_,
    /// `crate`
    Crate,
    /// `super`
    Super,
    /// `in`
    In,
    /// `pub`
    Pub,
    /// `const`
    Const,
    /// `mut`
    Mut,
    /// `use`
    Use,
    /// `enum`
    Enum,
    /// `struct`
    Struct,
    /// `impl`
    Impl,
    /// `async`
    Async,
    /// `fn`
    Fn,
    /// `mod`
    Mod,
    /// `true`
    True,
    /// `false`
    False,
    /// A number literal.
    LitNumber,
    /// A string literal.
    LitStr,
    /// A byte string literal.
    LitByteStr,
    /// A character literal.
    LitChar,
    /// A byte literal.
    LitByte,
    /// The end of the source.
    EndOfFile,
}

/// One token of the source text.
#[derive(Copy, Clone, Debug, PartialEq, Eq, Structural)]
pub struct Token {
    pub kind: Kind,
    pub span: Span,
}

/// An identifier with its resolved text.
#[derive(Debug, Clone)]
pub struct Ident {
    pub name: String,
    pub span: Span,
}

/// A contiguous run of tokens, with the span it came from.
#[derive(Debug, Clone)]
pub struct TokenStream {
    pub tokens: Vec<Token>,
    pub span: Span,
}

impl TokenStream {
    /// A stream over the given tokens.
    pub fn new(tokens: Vec<Token>, span: Span) -> (r: TokenStream)
        ensures
            r.tokens@ == tokens@,
            r.span == span,
    {
        TokenStream { tokens, span }
    }
}

} // verus!
