//! The token cursor that the grammar rules pull from.

use vstd::prelude::*;
use vstd::string::StrSliceExecFns;
use vstd::string::StringExecFnsIsAscii;
use crate::ast::error::{ParseError, ParseErrorKind};
use crate::ast::lex::{lex, tokens_bounded};
use crate::ast::token::{Kind, Span, Token};

verus! {

/// A cursor over the tokens of one source text.
pub struct Parser {
    pub tokens: Vec<Token>,
    pub pos: usize,
    pub source: String,
}

/// The parser's input is unchanged and its position has not moved
/// backwards.
pub open spec fn frame(a: Parser, b: Parser) -> bool {
    &&& b.tokens == a.tokens
    &&& b.source == a.source
    &&& b.pos >= a.pos
}

impl Parser {
    /// Well-formedness: the source is ASCII, the position is in range,
    /// and every token's span lies within the source.
    pub open spec fn wf(self) -> bool {
        &&& vstd::string::string_is_ascii(&self.source)
        &&& self.pos <= self.tokens@.len()
        &&& tokens_bounded(self.tokens@, self.source@.len() as int)
    }

    /// How many tokens are left.
    pub open spec fn remaining(self) -> int {
        self.tokens@.len() - self.pos
    }

    /// Lex `source` and place the cursor at its first token.
    pub fn new(source: &str) -> (r: Result<Parser, ParseError>)
        ensures
            r is Ok ==> r.unwrap().wf() && r.unwrap().pos == 0,
    {
        let tokens = match lex(source) {
            Ok(t) => t,
            Err(e) => {
                return Err(e);
            },
        };
        let owned = source.to_owned();
        Ok(Parser { tokens, pos: 0, source: owned })
    }

    /// The span just past the last token, for end-of-file errors.
    pub fn eof_span(&self) -> (r: Span)
    {
        if self.tokens.len() > 0 {
            let s = self.tokens[self.tokens.len() - 1].span;
            Span::new(s.end, s.end)
        } else {
            Span::new(0, 0)
        }
    }

    /// The token under the cursor, if any.
    pub fn token_peek(&self) -> (r: Option<Token>)
        requires
            self.wf(),
        ensures
            self.remaining() > 0 ==> r == Some(self.tokens@[self.pos as int]),
            self.remaining() == 0 ==> r is None,
    {
        if self.pos < self.tokens.len() {
            Some(self.tokens[self.pos])
        } else {
            None
        }
    }

    /// The token after the one under the cursor, if any.
    pub fn token_peek2(&self) -> (r: Option<Token>)
        requires
            self.wf(),
        ensures
            self.remaining() > 1 ==> r == Some(self.tokens@[self.pos + 1]),
            self.remaining() <= 1 ==> r is None,
    {
        if self.pos < self.tokens.len() && self.tokens.len() - self.pos > 1 {
            Some(self.tokens[self.pos + 1])
        } else {
            None
        }
    }

    /// The pair of tokens under the cursor, if the first exists.
    pub fn token_peek_pair(&self) -> (r: Option<(Token, Option<Token>)>)
        requires
            self.wf(),
        ensures
            self.remaining() == 0 ==> r is None,
            self.remaining() > 0 ==> r is Some && r.unwrap().0 == self.tokens@[self.pos as int],
    {
        match self.token_peek() {
            Some(t) => Some((t, self.token_peek2())),
            None => None,
        }
    }

    /// The token under the cursor, or an end-of-file error.
    pub fn token_peek_eof(&self) -> (r: Result<Token, ParseError>)
        requires
            self.wf(),
        ensures
            self.remaining() > 0 ==> r == Ok::<Token, ParseError>(self.tokens@[self.pos as int]),
            self.remaining() == 0 ==> r is Err,
    {
        match self.token_peek() {
            Some(t) => Ok(t),
            None => Err(ParseError::new(self.eof_span(), ParseErrorKind::UnexpectedEndOfFile)),
        }
    }

    /// Take the token under the cursor, or an end-of-file error.
    pub fn token_next(&mut self) -> (r: Result<Token, ParseError>)
        requires
            old(self).wf(),
        ensures
            final(self).wf(),
            frame(*old(self), *final(self)),
            old(self).remaining() > 0 ==> r == Ok::<Token, ParseError>(
                old(self).tokens@[old(self).pos as int],
            ) && final(self).pos == old(self).pos + 1,
            old(self).remaining() == 0 ==> r is Err && final(self).pos == old(self).pos,
    {
        if self.pos < self.tokens.len() {
            let t = self.tokens[self.pos];
            self.pos = self.pos + 1;
            Ok(t)
        } else {
            Err(ParseError::new(self.eof_span(), ParseErrorKind::UnexpectedEndOfFile))
        }
    }

    /// Take the token under the cursor when it has exactly kind `k`;
    /// any other token is an error and the cursor does not move.
    pub fn expect(&mut self, k: Kind) -> (r: Result<Token, ParseError>)
        requires
            old(self).wf(),
        ensures
            final(self).wf(),
            frame(*old(self), *final(self)),
            r is Ok ==> final(self).pos == old(self).pos + 1 && r.unwrap().kind == k
                && old(self).remaining() > 0 && r == Ok::<Token, ParseError>(
                old(self).tokens@[old(self).pos as int],
            ),
            r is Err ==> final(self).pos == old(self).pos,
    {
        let n = self.tokens.len();
        match self.token_peek() {
            Some(t) => {
                if t.kind == k {
                    proof {
                        assert(self.pos < n);
                    }
                    self.pos = self.pos + 1;
                    Ok(t)
                } else {
                    Err(ParseError::new(t.span, ParseErrorKind::UnexpectedToken))
                }
            },
            None => Err(ParseError::new(self.eof_span(), ParseErrorKind::UnexpectedEndOfFile)),
        }
    }

    /// True when the token under the cursor has exactly kind `k`.
    pub fn peek_is(&self, k: Kind) -> (r: bool)
        requires
            self.wf(),
        ensures
            r == (self.remaining() > 0 && self.tokens@[self.pos as int].kind == k),
    {
        match self.token_peek() {
            Some(t) => t.kind == k,
            None => false,
        }
    }

    /// The text of the source under `span`.
    pub fn resolve(&self, span: Span) -> (r: String)
        requires
            self.wf(),
            span.start <= span.end <= self.source@.len(),
        ensures
            r@ == self.source@.subrange(span.start as int, span.end as int),
    {
        self.source.as_str().substring_ascii(span.start, span.end).to_owned()
    }
}

} // verus!
