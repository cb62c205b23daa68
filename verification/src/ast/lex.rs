//! The lexer: source text to tokens.
//!
//! The lexer handles ASCII source text; a byte outside that range is
//! reported as a parse error rather than consumed.

use vstd::prelude::*;
use vstd::string::StrSliceExecFns;
use crate::ast::error::{ParseError, ParseErrorKind};
use crate::ast::token::{Delimiter, Kind, Span, Token};

verus! {

/// True when every token's span lies within a source of length `n`,
/// with its start not after its end.
pub open spec fn tokens_bounded(tokens: Seq<Token>, n: int) -> bool {
    forall|i: int|
        0 <= i < tokens.len() ==> (#[trigger] tokens[i]).span.start <= tokens[i].span.end
            && tokens[i].span.end <= n
}

/// The keyword or identifier kind of the ASCII run `s[start..end]`.
fn ident_kind(s: &str, start: usize, end: usize) -> (k: Kind)
    requires
        s.is_ascii(),
        start <= end <= s@.len(),
{
    let len = end - start;
    if len == 1 && s.get_ascii(start) == ('_' as u8) {
        return Kind::Underscore;
    }
    if len == 2 {
        let a = s.get_ascii(start);
        let b = s.get_ascii(start + 1);
        if a == ('f' as u8) && b == ('n' as u8) {
            return Kind::Fn;
        }
        if a == ('i' as u8) && b == ('n' as u8) {
            return Kind::In;
        }
    }
    if len == 3 {
        let a = s.get_ascii(start);
        let b = s.get_ascii(start + 1);
        let c = s.get_ascii(start + 2);
        if a == ('u' as u8) && b == ('s' as u8) && c == ('e' as u8) {
            return Kind::Use;
        }
        if a == ('m' as u8) && b == ('o' as u8) && c == ('d' as u8) {
            return Kind::Mod;
        }
        if a == ('p' as u8) && b == ('u' as u8) && c == ('b' as u8) {
            return Kind::Pub;
        }
        if a == ('m' as u8) && b == ('u' as u8) && c == ('t' as u8) {
            return Kind::Mut;
        }
    }
    if len == 4 {
        let a = s.get_ascii(start);
        let b = s.get_ascii(start + 1);
        let c = s.get_ascii(start + 2);
        let d = s.get_ascii(start + 3);
        if a == ('e' as u8) && b == ('n' as u8) && c == ('u' as u8) && d == ('m' as u8) {
            return Kind::Enum;
        }
        if a == ('i' as u8) && b == ('m' as u8) && c == ('p' as u8) && d == ('l' as u8) {
            return Kind::Impl;
        }
        if a == ('s' as u8) && b == ('e' as u8) && c == ('l' as u8) && d == ('f' as u8) {
            return Kind::Self_;
        }
        if a == ('t' as u8) && b == ('r' as u8) && c == ('u' as u8) && d == ('e' as u8) {
            return Kind::True;
        }
    }
    if len == 5 {
        let a = s.get_ascii(start);
        let b = s.get_ascii(start + 1);
        let c = s.get_ascii(start + 2);
        let d = s.get_ascii(start + 3);
        let e = s.get_ascii(start + 4);
        if a == ('a' as u8) && b == ('s' as u8) && c == ('y' as u8) && d == ('n' as u8) && e == ('c' as u8) {
            return Kind::Async;
        }
        if a == ('c' as u8) && b == ('r' as u8) && c == ('a' as u8) && d == ('t' as u8) && e == ('e' as u8) {
            return Kind::Crate;
        }
        if a == ('s' as u8) && b == ('u' as u8) && c == ('p' as u8) && d == ('e' as u8) && e == ('r' as u8) {
            return Kind::Super;
        }
        if a == ('c' as u8) && b == ('o' as u8) && c == ('n' as u8) && d == ('s' as u8) && e == ('t' as u8) {
            return Kind::Const;
        }
        if a == ('f' as u8) && b == ('a' as u8) && c == ('l' as u8) && d == ('s' as u8) && e == ('e' as u8) {
            return Kind::False;
        }
    }
    if len == 6 {
        let a = s.get_ascii(start);
        let b = s.get_ascii(start + 1);
        let c = s.get_ascii(start + 2);
        let d = s.get_ascii(start + 3);
        let e = s.get_ascii(start + 4);
        let f = s.get_ascii(start + 5);
        if a == ('s' as u8) && b == ('t' as u8) && c == ('r' as u8) && d == ('u' as u8) && e == ('c' as u8) && f == ('t' as u8) {
            return Kind::Struct;
        }
    }
    Kind::Ident
}

/// True for an ASCII letter or underscore.
fn is_ident_start(b: u8) -> (r: bool)
    ensures
        r == (b == 95 || (65 <= b <= 90) || (97 <= b <= 122)),
{
    b == ('_' as u8) || (('A' as u8) <= b && b <= ('Z' as u8)) || (('a' as u8) <= b && b <= ('z' as u8))
}

/// True for an ASCII letter, digit or underscore.
fn is_ident_continue(b: u8) -> (r: bool)
    ensures
        r == (b == 95 || (65 <= b <= 90) || (97 <= b <= 122) || (48 <= b <= 57)),
{
    is_ident_start(b) || (('0' as u8) <= b && b <= ('9' as u8))
}

/// True for an ASCII digit.
fn is_digit(b: u8) -> (r: bool)
    ensures
        r == (48 <= b <= 57),
{
    ('0' as u8) <= b && b <= ('9' as u8)
}

/// Scan a quoted literal starting at the opening quote `q` at `i`;
/// returns the position just after the closing quote. Backslash
/// escapes one character, including a line break.
fn scan_quoted(s: &str, i: usize, n: usize, q: u8) -> (r: Result<usize, ParseError>)
    requires
        s.is_ascii(),
        n == s@.len(),
        i < n,
    ensures
        r is Ok ==> i < r.unwrap() <= n,
    decreases n - i,
{
    let mut j = i + 1;
    while j < n
        invariant
            s.is_ascii(),
            n == s@.len(),
            i < j <= n,
        decreases n - j,
    {
        let b = s.get_ascii(j);
        if b == q {
            return Ok(j + 1);
        }
        if b == ('\\' as u8) {
            if j + 1 >= n {
                return Err(
                    ParseError::new(Span::new(i, n), ParseErrorKind::UnterminatedLiteral),
                );
            }
            j = j + 2;
        } else {
            j = j + 1;
        }
    }
    Err(ParseError::new(Span::new(i, n), ParseErrorKind::UnterminatedLiteral))
}

/// Turn ASCII source text into tokens. Whitespace and `//` comments
/// are dropped; every token's span is a byte range of `source`.
pub fn lex(source: &str) -> (r: Result<Vec<Token>, ParseError>)
    ensures
        r is Ok ==> tokens_bounded(r.unwrap()@, source@.len() as int),
        r is Ok ==> source.is_ascii(),
{
    if !source.is_ascii() {
        return Err(ParseError::new(Span::new(0, 0), ParseErrorKind::UnsupportedByte));
    }
    let n = source.unicode_len();
    let mut tokens: Vec<Token> = Vec::new();
    let mut i: usize = 0;
    while i < n
        invariant
            source.is_ascii(),
            n == source@.len(),
            i <= n,
            tokens_bounded(tokens@, n as int),
        decreases n - i,
    {
        let b = source.get_ascii(i);
        if b == (' ' as u8) || b == ('\t' as u8) || b == ('\r' as u8) || b == ('\n' as u8) {
            i = i + 1;
        } else if b == ('/' as u8) && i + 1 < n && source.get_ascii(i + 1) == ('/' as u8) {
            let mut j = i + 2;
            while j < n && source.get_ascii(j) != ('\n' as u8)
                invariant
                    source.is_ascii(),
                    n == source@.len(),
                    i + 2 <= j <= n,
                decreases n - j,
            {
                j = j + 1;
            }
            i = j;
        } else if is_ident_start(b) {
            let start = i;
            let mut j = i + 1;
            while j < n && is_ident_continue(source.get_ascii(j))
                invariant
                    source.is_ascii(),
                    n == source@.len(),
                    start < j <= n,
                decreases n - j,
            {
                j = j + 1;
            }
            // a byte-string or byte literal starts with `b` and a quote
            if j == i + 1 && b == ('b' as u8) && j < n && (source.get_ascii(j) == ('"' as u8) || source.get_ascii(
                j,
            ) == ('\'' as u8)) {
                let q = source.get_ascii(j);
                let end = match scan_quoted(source, j, n, q) {
                    Ok(e) => e,
                    Err(e) => {
                        return Err(e);
                    },
                };
                let kind = if q == ('"' as u8) {
                    Kind::LitByteStr
                } else {
                    Kind::LitByte
                };
                tokens.push(Token { kind, span: Span::new(start, end) });
                i = end;
            } else {
                let kind = ident_kind(source, start, j);
                tokens.push(Token { kind, span: Span::new(start, j) });
                i = j;
            }
        } else if is_digit(b) {
            let start = i;
            let mut j = i + 1;
            while j < n && (is_digit(source.get_ascii(j)) || source.get_ascii(j) == ('.' as u8) && j + 1
                < n && is_digit(source.get_ascii(j + 1)))
                invariant
                    source.is_ascii(),
                    n == source@.len(),
                    start < j <= n,
                decreases n - j,
            {
                j = j + 1;
            }
            tokens.push(Token { kind: Kind::LitNumber, span: Span::new(start, j) });
            i = j;
        } else if b == ('"' as u8) {
            let end = match scan_quoted(source, i, n, ('"' as u8)) {
                Ok(e) => e,
                Err(e) => {
                    return Err(e);
                },
            };
            tokens.push(Token { kind: Kind::LitStr, span: Span::new(i, end) });
            i = end;
        } else if b == ('\'' as u8) {
            let end = match scan_quoted(source, i, n, ('\'' as u8)) {
                Ok(e) => e,
                Err(e) => {
                    return Err(e);
                },
            };
            tokens.push(Token { kind: Kind::LitChar, span: Span::new(i, end) });
            i = end;
        } else if b == ('#' as u8) {
            if i + 1 < n && source.get_ascii(i + 1) == ('{' as u8) {
                tokens.push(Token { kind: Kind::StartObject, span: Span::new(i, i + 2) });
                i = i + 2;
            } else {
                tokens.push(Token { kind: Kind::Pound, span: Span::new(i, i + 1) });
                i = i + 1;
            }
        } else if b == (':' as u8) {
            if i + 1 < n && source.get_ascii(i + 1) == (':' as u8) {
                tokens.push(Token { kind: Kind::ColonColon, span: Span::new(i, i + 2) });
                i = i + 2;
            } else {
                tokens.push(Token { kind: Kind::Colon, span: Span::new(i, i + 1) });
                i = i + 1;
            }
        } else if b == ('-' as u8) && i + 1 < n && source.get_ascii(i + 1) == ('>' as u8) {
            tokens.push(Token { kind: Kind::RArrow, span: Span::new(i, i + 2) });
            i = i + 2;
        } else if b == ('.' as u8) {
            if n - i > 2 && source.get_ascii(i + 1) == ('.' as u8) && source.get_ascii(i + 2) == ('.' as u8) {
                tokens.push(Token { kind: Kind::Ellipsis, span: Span::new(i, i + 3) });
                i = i + 3;
            } else if i + 1 < n && source.get_ascii(i + 1) == ('.' as u8) {
                tokens.push(Token { kind: Kind::DotDot, span: Span::new(i, i + 2) });
                i = i + 2;
            } else {
                tokens.push(Token { kind: Kind::Dot, span: Span::new(i, i + 1) });
                i = i + 1;
            }
        } else {
            let kind = if b == ('!' as u8) {
                Kind::Bang
            } else if b == ('(' as u8) {
                Kind::Open(Delimiter::Parenthesis)
            } else if b == (')' as u8) {
                Kind::Close(Delimiter::Parenthesis)
            } else if b == ('[' as u8) {
                Kind::Open(Delimiter::Bracket)
            } else if b == (']' as u8) {
                Kind::Close(Delimiter::Bracket)
            } else if b == ('{' as u8) {
                Kind::Open(Delimiter::Brace)
            } else if b == ('}' as u8) {
                Kind::Close(Delimiter::Brace)
            } else if b == ('=' as u8) {
                Kind::Eq
            } else if b == (',' as u8) {
                Kind::Comma
            } else if b == (';' as u8) {
                Kind::SemiColon
            } else if b == ('*' as u8) {
                Kind::Star
            } else if b == ('&' as u8) {
                Kind::Amp
            } else {
                return Err(
                    ParseError::new(Span::new(i, i + 1), ParseErrorKind::UnsupportedByte),
                );
            };
            tokens.push(Token { kind, span: Span::new(i, i + 1) });
            i = i + 1;
        }
    }
    Ok(tokens)
}

} // verus!
