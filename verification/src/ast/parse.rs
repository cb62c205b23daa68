//! The grammar rules: recursive-descent parsers over the token cursor.

use vstd::prelude::*;
use crate::ast::attribute::{
    AssignLit, AttrInput, AttrStyle, Attribute, CloseDelim, DelimTokenTree, NonDelimiter,
    OpenDelim, TokenTree,
};
use crate::ast::error::{ParseError, ParseErrorKind};
use crate::ast::expr_unary::{ExprUnary, UnaryOp};
use crate::ast::fn_arg::{FnArg, FnArgIdent, FnArgType};
use crate::ast::item::{
    Block, Expr, Field, File, Item, ItemEnum, ItemImpl, ItemMod, ItemStruct, ItemUse,
    ItemUseComponent, Lit, LitObject, LitObjectEntry, LitTuple, LitVec, MacroCall,
};
use crate::ast::item_fn::{FnArgs, ItemFn};
use crate::ast::mutability::Mutability;
use crate::ast::pat_object::{LitObjectIdent, LitObjectKey, Pat, PatObject, PatObjectItem};
use crate::ast::path::{Path, PathSegment};
use crate::ast::return_type::ReturnType;
use crate::ast::token::{Delimiter, Ident, Kind, Span, Token, TokenStream};
use crate::ast::ty::{Type, TypeHint, TypeInfer, TypeNever, TypePath, TypePtr, TypeVariadic};
use crate::ast::vis_restricted::{VisRestricted, Visibility};
use crate::parser::{frame, Parser};

verus! {

/// A grammar rule that can pull one construct off the cursor.
pub trait Parse: Sized {
    /// Parse one construct, leaving the cursor after it.
    fn parse(p: &mut Parser) -> (r: Result<Self, ParseError>)
        requires
            old(p).wf(),
        ensures
            final(p).wf(),
            frame(*old(p), *final(p)),
    ;
}

/// Parse one construct from the front of `source`. What follows the
/// construct is left unread.
pub fn parse_all<T: Parse>(source: &str) -> (r: Result<T, ParseError>) {
    let mut p = match Parser::new(source) {
        Ok(p) => p,
        Err(e) => {
            return Err(e);
        },
    };
    T::parse(&mut p)
}

impl Ident {
    /// Parse an identifier and resolve its text.
    pub fn parse(p: &mut Parser) -> (r: Result<Ident, ParseError>)
        requires
            old(p).wf(),
        ensures
            final(p).wf(),
            frame(*old(p), *final(p)),
            r is Ok ==> final(p).pos > old(p).pos,
    {
        let tok = p.expect(Kind::Ident)?;
        proof {
            assert(p.tokens@[old(p).pos as int].span.end <= p.source@.len());
        }
        let name = p.resolve(tok.span);
        Ok(Ident { name, span: tok.span })
    }
}

impl PathSegment {
    /// Parse one path segment.
    pub fn parse(p: &mut Parser) -> (r: Result<PathSegment, ParseError>)
        requires
            old(p).wf(),
        ensures
            final(p).wf(),
            frame(*old(p), *final(p)),
            r is Ok ==> final(p).pos > old(p).pos,
    {
        let token = p.token_peek_eof()?;
        match token.kind {
            Kind::Ident => Ok(PathSegment::Ident(Ident::parse(p)?)),
            Kind::Crate => Ok(PathSegment::Crate(p.token_next()?)),
            Kind::Super => Ok(PathSegment::Super(p.token_next()?)),
            _ => Err(ParseError::new(token.span, ParseErrorKind::TokenMismatch)),
        }
    }

    /// True when `t1` can start a path segment.
    pub fn peek(t1: Option<Token>, _t2: Option<Token>) -> (r: bool) {
        match t1 {
            Some(t) => match t.kind {
                Kind::Ident | Kind::Crate | Kind::Super => true,
                _ => false,
            },
            None => false,
        }
    }
}

impl Path {
    /// Parse a `::`-separated path.
    pub fn parse(p: &mut Parser) -> (r: Result<Path, ParseError>)
        requires
            old(p).wf(),
        ensures
            final(p).wf(),
            frame(*old(p), *final(p)),
            r is Ok ==> final(p).pos > old(p).pos,
    {
        let leading_colon = if p.peek_is(Kind::ColonColon) {
            Some(p.token_next()?)
        } else {
            None
        };
        let first = PathSegment::parse(p)?;
        let mut rest: Vec<(Token, PathSegment)> = Vec::new();
        let mut trailing: Option<Token> = None;
        while p.peek_is(Kind::ColonColon) && trailing.is_none()
            invariant
                p.wf(),
                frame(*old(p), *p),
                p.pos > old(p).pos,
            decreases p.remaining(),
        {
            let scope = p.token_next()?;
            if PathSegment::peek(p.token_peek(), p.token_peek2()) {
                let seg = PathSegment::parse(p)?;
                rest.push((scope, seg));
            } else {
                trailing = Some(scope);
            }
        }
        Ok(Path { leading_colon, first, rest, trailing })
    }

    /// True when `t1` can start a path.
    pub fn peek(t1: Option<Token>, t2: Option<Token>) -> (r: bool) {
        match t1 {
            Some(t) => match t.kind {
                Kind::ColonColon => true,
                _ => PathSegment::peek(t1, t2),
            },
            None => false,
        }
    }
}

/// Collect tokens up to the close matching one already-consumed open
/// delimiter of shape `delim`; `#{` counts as a brace opener. Returns
/// the collected tokens and the closing token.
fn scan_balanced(p: &mut Parser, delim: Delimiter) -> (r: Result<(Vec<Token>, Token), ParseError>)
    requires
        old(p).wf(),
    ensures
        final(p).wf(),
        frame(*old(p), *final(p)),
        r is Ok ==> final(p).pos > old(p).pos,
{
    let mut tokens: Vec<Token> = Vec::new();
    let mut depth: usize = 1;
    while depth > 0
        invariant
            p.wf(),
            frame(*old(p), *p),
            1 <= depth <= 1 + p.pos - old(p).pos,
        decreases p.remaining(),
    {
        let t = p.token_next()?;
        match t.kind {
            Kind::Open(d2) => {
                if d2 == delim && depth < usize::MAX {
                    depth = depth + 1;
                }
                tokens.push(t);
            },
            Kind::StartObject => {
                if delim == Delimiter::Brace && depth < usize::MAX {
                    depth = depth + 1;
                }
                tokens.push(t);
            },
            Kind::Close(d2) => {
                if d2 == delim {
                    depth = depth - 1;
                    if depth == 0 {
                        return Ok((tokens, t));
                    }
                }
                tokens.push(t);
            },
            _ => {
                tokens.push(t);
            },
        }
    }
    Err(ParseError::new(p.eof_span(), ParseErrorKind::UnexpectedEndOfFile))
}

impl Visibility {
    /// Parse an optional visibility marker.
    pub fn parse_option(p: &mut Parser) -> (r: Result<Option<Visibility>, ParseError>)
        requires
            old(p).wf(),
        ensures
            final(p).wf(),
            frame(*old(p), *final(p)),
    {
        if !p.peek_is(Kind::Pub) {
            return Ok(None);
        }
        let pub_ = p.token_next()?;
        if p.peek_is(Kind::Open(Delimiter::Parenthesis)) {
            let open = p.token_next()?;
            let in_ = if p.peek_is(Kind::In) {
                Some(p.token_next()?)
            } else {
                None
            };
            let path = Path::parse(p)?;
            let close = p.expect(Kind::Close(Delimiter::Parenthesis))?;
            Ok(Some(Visibility::Restricted(VisRestricted { pub_, open, in_, path, close })))
        } else {
            Ok(Some(Visibility::Public(pub_)))
        }
    }
}

impl Mutability {
    /// Parse a `mut` or `const` marker.
    pub fn parse(p: &mut Parser) -> (r: Result<Mutability, ParseError>)
        requires
            old(p).wf(),
        ensures
            final(p).wf(),
            frame(*old(p), *final(p)),
            r is Ok ==> final(p).pos > old(p).pos,
    {
        let token = p.token_peek_eof()?;
        match token.kind {
            Kind::Const => Ok(Mutability::Const(p.token_next()?)),
            Kind::Mut => Ok(Mutability::Mut(p.token_next()?)),
            _ => Err(ParseError::new(token.span, ParseErrorKind::ExpectedMutability)),
        }
    }

    /// True when `t1` can start a mutability marker.
    pub fn peek(t1: Option<Token>, _t2: Option<Token>) -> (r: bool) {
        match t1 {
            Some(t) => match t.kind {
                Kind::Const | Kind::Mut => true,
                _ => false,
            },
            None => false,
        }
    }
}

impl TypeInfer {
    /// True when `t1` can start the inferred type.
    pub fn peek(t1: Option<Token>, _t2: Option<Token>) -> (r: bool) {
        match t1 {
            Some(t) => match t.kind {
                Kind::Underscore => true,
                _ => false,
            },
            None => false,
        }
    }
}

impl TypeNever {
    /// True when `t1` can start the `!` type.
    pub fn peek(t1: Option<Token>, _t2: Option<Token>) -> (r: bool) {
        match t1 {
            Some(t) => match t.kind {
                Kind::Bang => true,
                _ => false,
            },
            None => false,
        }
    }
}

impl TypeVariadic {
    /// True when `t1` can start the `...` type.
    pub fn peek(t1: Option<Token>, _t2: Option<Token>) -> (r: bool) {
        match t1 {
            Some(t) => match t.kind {
                Kind::Ellipsis => true,
                _ => false,
            },
            None => false,
        }
    }
}

impl TypePath {
    /// Parse a path type.
    pub fn parse(p: &mut Parser) -> (r: Result<TypePath, ParseError>)
        requires
            old(p).wf(),
        ensures
            final(p).wf(),
            frame(*old(p), *final(p)),
            r is Ok ==> final(p).pos > old(p).pos,
    {
        Ok(TypePath { path: Path::parse(p)? })
    }

    /// True when `t1` can start a path type.
    pub fn peek(t1: Option<Token>, t2: Option<Token>) -> (r: bool) {
        Path::peek(t1, t2)
    }
}

/// How many of the two lookahead tokens are present.
pub open spec fn lookahead_count(t1: Option<Token>, t2: Option<Token>) -> int {
    (if t1 is Some {
        1int
    } else {
        0int
    }) + (if t2 is Some {
        1int
    } else {
        0int
    })
}

impl TypePtr {
    /// True when the token pair can start a pointer type.
    pub fn peek(t1: Option<Token>, t2: Option<Token>) -> (r: bool)
        decreases lookahead_count(t1, t2), 0int,
    {
        match t1 {
            Some(t) => match t.kind {
                Kind::Star => Mutability::peek(t2, None) || Type::peek(t2, None),
                _ => false,
            },
            None => false,
        }
    }
}

impl Type {
    /// Parse a type. Only path types are supported here.
    pub fn parse(p: &mut Parser) -> (r: Result<Type, ParseError>)
        requires
            old(p).wf(),
        ensures
            final(p).wf(),
            frame(*old(p), *final(p)),
            r is Ok ==> final(p).pos > old(p).pos,
    {
        Ok(Type::Path(TypePath::parse(p)?))
    }

    /// True when the token pair can start a type.
    pub fn peek(t1: Option<Token>, t2: Option<Token>) -> (r: bool)
        decreases lookahead_count(t1, t2), 1int,
    {
        TypePath::peek(t1, t2) || TypePtr::peek(t1, t2) || TypeNever::peek(t1, t2)
            || TypeInfer::peek(t1, t2) || TypeVariadic::peek(t1, t2)
    }
}

impl TypeHint {
    /// True when the token pair can start a type hint.
    pub fn peek(t1: Option<Token>, t2: Option<Token>) -> (r: bool) {
        match t1 {
            Some(t) => match t.kind {
                Kind::Colon => Type::peek(t2, None),
                _ => false,
            },
            None => false,
        }
    }
}

impl ReturnType {
    /// Parse a return type hint.
    pub fn parse(p: &mut Parser) -> (r: Result<ReturnType, ParseError>)
        requires
            old(p).wf(),
        ensures
            final(p).wf(),
            frame(*old(p), *final(p)),
            r is Ok ==> final(p).pos > old(p).pos,
    {
        let arrow = p.expect(Kind::RArrow)?;
        let type_ = Box::new(Type::parse(p)?);
        Ok(ReturnType { arrow, type_ })
    }

    /// True when the token pair can start a return type hint.
    pub fn peek(t1: Option<Token>, t2: Option<Token>) -> (r: bool) {
        match t1 {
            Some(t) => match t.kind {
                Kind::RArrow => Type::peek(t2, None),
                _ => false,
            },
            None => false,
        }
    }
}

impl FnArgIdent {
    /// Parse what a function argument binds.
    pub fn parse(p: &mut Parser) -> (r: Result<FnArgIdent, ParseError>)
        requires
            old(p).wf(),
        ensures
            final(p).wf(),
            frame(*old(p), *final(p)),
            r is Ok ==> final(p).pos > old(p).pos,
    {
        let token = p.token_peek_eof()?;
        match token.kind {
            Kind::Self_ => Ok(FnArgIdent::Self_(p.token_next()?)),
            Kind::Underscore => Ok(FnArgIdent::Ignore(p.token_next()?)),
            Kind::Ident => Ok(FnArgIdent::Ident(Ident::parse(p)?)),
            _ => Err(ParseError::new(token.span, ParseErrorKind::ExpectedFunctionArgument)),
        }
    }
}

impl FnArgType {
    /// Parse an argument type hint.
    pub fn parse(p: &mut Parser) -> (r: Result<FnArgType, ParseError>)
        requires
            old(p).wf(),
        ensures
            final(p).wf(),
            frame(*old(p), *final(p)),
            r is Ok ==> final(p).pos > old(p).pos,
    {
        let colon = p.expect(Kind::Colon)?;
        let type_ = Box::new(Type::parse(p)?);
        Ok(FnArgType { colon, type_ })
    }

    /// True when the token pair can start an argument type hint.
    pub fn peek(t1: Option<Token>, t2: Option<Token>) -> (r: bool) {
        match t1 {
            Some(t) => match t.kind {
                Kind::Colon => Type::peek(t2, None),
                _ => false,
            },
            None => false,
        }
    }
}

impl FnArg {
    /// Parse a function argument attaching the given attributes.
    pub fn parse_with_attributes(p: &mut Parser, attributes: Vec<Attribute>) -> (r: Result<
        FnArg,
        ParseError,
    >)
        requires
            old(p).wf(),
        ensures
            final(p).wf(),
            frame(*old(p), *final(p)),
            r is Ok ==> final(p).pos > old(p).pos,
    {
        let ident = FnArgIdent::parse(p)?;
        let type_ = if FnArgType::peek(p.token_peek(), p.token_peek2()) {
            Some(FnArgType::parse(p)?)
        } else {
            None
        };
        Ok(FnArg { attributes, ident, type_ })
    }

    /// Parse a function argument, attributes included.
    pub fn parse(p: &mut Parser) -> (r: Result<FnArg, ParseError>)
        requires
            old(p).wf(),
        ensures
            final(p).wf(),
            frame(*old(p), *final(p)),
            r is Ok ==> final(p).pos > old(p).pos,
    {
        let attributes = parse_attributes(p)?;
        FnArg::parse_with_attributes(p, attributes)
    }
}

/// Parse zero or more attributes.
pub fn parse_attributes(p: &mut Parser) -> (r: Result<Vec<Attribute>, ParseError>)
    requires
        old(p).wf(),
    ensures
        final(p).wf(),
        frame(*old(p), *final(p)),
{
    let mut attributes: Vec<Attribute> = Vec::new();
    while Attribute::peek(p.token_peek(), p.token_peek2())
        invariant
            p.wf(),
            frame(*old(p), *p),
        decreases p.remaining(),
    {
        attributes.push(Attribute::parse(p)?);
    }
    Ok(attributes)
}

impl Attribute {
    /// Parse an attribute. Its input, if any, is kept as the raw
    /// tokens it covered.
    pub fn parse(p: &mut Parser) -> (r: Result<Attribute, ParseError>)
        requires
            old(p).wf(),
        ensures
            final(p).wf(),
            frame(*old(p), *final(p)),
            r is Ok ==> final(p).pos > old(p).pos,
    {
        let hash = p.expect(Kind::Pound)?;
        let style = if p.peek_is(Kind::Bang) {
            AttrStyle::Outer(p.token_next()?)
        } else {
            AttrStyle::Inner
        };
        let open = p.expect(Kind::Open(Delimiter::Bracket))?;
        let path = Path::parse(p)?;
        let input = if AttrInput::peek(p.token_peek(), p.token_peek2()) {
            let start_pos = p.pos;
            let parsed = AttrInput::parse(p)?;
            let mut covered: Vec<Token> = Vec::new();
            let mut k = start_pos;
            while k < p.pos
                invariant
                    p.wf(),
                    k <= p.pos,
                    p.pos <= p.tokens@.len(),
                decreases p.pos - k,
            {
                covered.push(p.tokens[k]);
                k = k + 1;
            }
            let span = parsed.span();
            TokenStream::new(covered, span)
        } else {
            TokenStream::new(Vec::new(), Span::new(0, 0))
        };
        let close = p.expect(Kind::Close(Delimiter::Bracket))?;
        Ok(Attribute { hash, style, open, path, input, close })
    }

    /// True when the token pair can start an attribute.
    pub fn peek(t1: Option<Token>, t2: Option<Token>) -> (r: bool) {
        match (t1, t2) {
            (Some(a), Some(b)) => match (a.kind, b.kind) {
                (Kind::Pound, Kind::Bang) => true,
                (Kind::Pound, Kind::Open(Delimiter::Bracket)) => true,
                _ => false,
            },
            _ => false,
        }
    }
}

impl AttrInput {
    /// The span the input covers.
    pub fn span(&self) -> (r: Span)
    {
        match self {
            AttrInput::DelimTokenTree(tt) => tt.span(),
            AttrInput::AssignLit(al) => al.equal.span,
        }
    }

    /// Parse an attribute input.
    pub fn parse(p: &mut Parser) -> (r: Result<AttrInput, ParseError>)
        requires
            old(p).wf(),
        ensures
            final(p).wf(),
            frame(*old(p), *final(p)),
            r is Ok ==> final(p).pos > old(p).pos,
        decreases old(p).remaining(), 3int,
    {
        let t1 = p.token_peek();
        let t2 = p.token_peek2();
        if AssignLit::peek(t1, t2) {
            Ok(AttrInput::AssignLit(AssignLit::parse(p)?))
        } else if DelimTokenTree::peek(t1, t2) {
            Ok(AttrInput::DelimTokenTree(DelimTokenTree::parse(p)?))
        } else {
            match t1 {
                Some(t) => Err(ParseError::new(t.span, ParseErrorKind::UnexpectedToken)),
                None => Err(
                    ParseError::new(p.eof_span(), ParseErrorKind::UnexpectedEndOfFile),
                ),
            }
        }
    }

    /// True when the token pair can start an attribute input.
    pub fn peek(t1: Option<Token>, t2: Option<Token>) -> (r: bool) {
        AssignLit::peek(t1, t2) || DelimTokenTree::peek(t1, t2)
    }
}

impl AssignLit {
    /// Parse a literal assignment.
    pub fn parse(p: &mut Parser) -> (r: Result<AssignLit, ParseError>)
        requires
            old(p).wf(),
        ensures
            final(p).wf(),
            frame(*old(p), *final(p)),
            r is Ok ==> final(p).pos > old(p).pos,
    {
        let equal = p.expect(Kind::Eq)?;
        let lit = Lit::parse(p)?;
        Ok(AssignLit { equal, lit })
    }

    /// True when the token pair can start a literal assignment.
    pub fn peek(t1: Option<Token>, t2: Option<Token>) -> (r: bool) {
        match t1 {
            Some(t) => match t.kind {
                Kind::Eq => t2.is_some(),
                _ => false,
            },
            None => false,
        }
    }
}

impl OpenDelim {
    /// Parse any open delimiter.
    pub fn parse(p: &mut Parser) -> (r: Result<OpenDelim, ParseError>)
        requires
            old(p).wf(),
        ensures
            final(p).wf(),
            frame(*old(p), *final(p)),
            r is Ok ==> final(p).pos > old(p).pos,
    {
        let t = p.token_peek_eof()?;
        match t.kind {
            Kind::Open(Delimiter::Parenthesis) => Ok(OpenDelim::Paren(p.token_next()?)),
            Kind::Open(Delimiter::Bracket) => Ok(OpenDelim::Bracket(p.token_next()?)),
            Kind::Open(Delimiter::Brace) => Ok(OpenDelim::Brace(p.token_next()?)),
            _ => Err(ParseError::new(t.span, ParseErrorKind::UnexpectedToken)),
        }
    }

    /// True when `t1` is an open delimiter.
    pub fn peek(t1: Option<Token>, _t2: Option<Token>) -> (r: bool) {
        match t1 {
            Some(t) => match t.kind {
                Kind::Open(_) => true,
                _ => false,
            },
            None => false,
        }
    }
}

impl CloseDelim {
    /// Parse any close delimiter.
    pub fn parse(p: &mut Parser) -> (r: Result<CloseDelim, ParseError>)
        requires
            old(p).wf(),
        ensures
            final(p).wf(),
            frame(*old(p), *final(p)),
            r is Ok ==> final(p).pos > old(p).pos,
    {
        let t = p.token_peek_eof()?;
        match t.kind {
            Kind::Close(Delimiter::Parenthesis) => Ok(CloseDelim::Paren(p.token_next()?)),
            Kind::Close(Delimiter::Bracket) => Ok(CloseDelim::Bracket(p.token_next()?)),
            Kind::Close(Delimiter::Brace) => Ok(CloseDelim::Brace(p.token_next()?)),
            _ => Err(ParseError::new(t.span, ParseErrorKind::UnexpectedDelimiter)),
        }
    }

    /// True when `t1` is a close delimiter.
    pub fn peek(t1: Option<Token>, _t2: Option<Token>) -> (r: bool) {
        match t1 {
            Some(t) => match t.kind {
                Kind::Close(_) => true,
                _ => false,
            },
            None => false,
        }
    }
}

impl NonDelimiter {
    /// Parse one token that is not a delimiter.
    pub fn parse(p: &mut Parser) -> (r: Result<NonDelimiter, ParseError>)
        requires
            old(p).wf(),
        ensures
            final(p).wf(),
            frame(*old(p), *final(p)),
            r is Ok ==> final(p).pos > old(p).pos,
    {
        let t1 = p.token_peek();
        if NonDelimiter::peek(t1, None) {
            Ok(NonDelimiter(p.token_next()?))
        } else {
            match t1 {
                Some(t) => Err(ParseError::new(t.span, ParseErrorKind::UnexpectedDelimiter)),
                None => Err(
                    ParseError::new(p.eof_span(), ParseErrorKind::UnexpectedEndOfFile),
                ),
            }
        }
    }

    /// True when `t1` is a token but not a delimiter.
    pub fn peek(t1: Option<Token>, t2: Option<Token>) -> (r: bool) {
        t1.is_some() && !(OpenDelim::peek(t1, t2) || CloseDelim::peek(t1, t2))
    }
}

impl TokenTree {
    /// Parse one token tree node.
    pub fn parse(p: &mut Parser) -> (r: Result<TokenTree, ParseError>)
        requires
            old(p).wf(),
        ensures
            final(p).wf(),
            frame(*old(p), *final(p)),
            r is Ok ==> final(p).pos > old(p).pos,
        decreases old(p).remaining(), 1int,
    {
        let t1 = p.token_peek();
        let t2 = p.token_peek2();
        if NonDelimiter::peek(t1, t2) {
            Ok(TokenTree::Token(NonDelimiter::parse(p)?))
        } else if DelimTokenTree::peek(t1, t2) {
            Ok(TokenTree::DelimTokenTree(DelimTokenTree::parse(p)?))
        } else {
            match t1 {
                Some(t) => Err(ParseError::new(t.span, ParseErrorKind::UnexpectedToken)),
                None => Err(
                    ParseError::new(p.eof_span(), ParseErrorKind::UnexpectedEndOfFile),
                ),
            }
        }
    }

    /// True when the token pair can start a token tree node.
    pub fn peek(t1: Option<Token>, t2: Option<Token>) -> (r: bool) {
        NonDelimiter::peek(t1, t2) || DelimTokenTree::peek(t1, t2)
    }
}

impl DelimTokenTree {
    /// Parse a delimited token tree; the close delimiter must match
    /// the open one.
    pub fn parse(p: &mut Parser) -> (r: Result<DelimTokenTree, ParseError>)
        requires
            old(p).wf(),
        ensures
            final(p).wf(),
            frame(*old(p), *final(p)),
            r is Ok ==> final(p).pos > old(p).pos,
        decreases old(p).remaining(), 0int,
    {
        let open = OpenDelim::parse(p)?;
        let mut tokentree: Vec<TokenTree> = Vec::new();
        while TokenTree::peek(p.token_peek(), p.token_peek2())
            invariant
                p.wf(),
                frame(*old(p), *p),
                p.pos > old(p).pos,
            decreases p.remaining(),
        {
            tokentree.push(TokenTree::parse(p)?);
        }
        let close = CloseDelim::parse(p)?;
        if open.kind() == close.delim_kind() {
            Ok(DelimTokenTree { open, tokentree, close })
        } else {
            Err(ParseError::new(close.token().span, ParseErrorKind::UnexpectedDelimiter))
        }
    }

    /// True when the token pair can start a delimited token tree.
    pub fn peek(t1: Option<Token>, t2: Option<Token>) -> (r: bool) {
        OpenDelim::peek(t1, t2) && t2.is_some()
    }
}

impl Lit {
    /// Parse a literal value.
    pub fn parse(p: &mut Parser) -> (r: Result<Lit, ParseError>)
        requires
            old(p).wf(),
        ensures
            final(p).wf(),
            frame(*old(p), *final(p)),
            r is Ok ==> final(p).pos > old(p).pos,
        decreases old(p).remaining(), 1int,
    {
        let t = p.token_peek_eof()?;
        match t.kind {
            Kind::True => Ok(Lit::True(p.token_next()?)),
            Kind::False => Ok(Lit::False(p.token_next()?)),
            Kind::LitNumber => Ok(Lit::Number(p.token_next()?)),
            Kind::LitStr => Ok(Lit::Str(p.token_next()?)),
            Kind::LitByteStr => Ok(Lit::ByteStr(p.token_next()?)),
            Kind::LitChar => Ok(Lit::Char(p.token_next()?)),
            Kind::LitByte => Ok(Lit::Byte(p.token_next()?)),
            Kind::Open(Delimiter::Bracket) => {
                let open = p.token_next()?;
                let mut items: Vec<(Lit, Option<Token>)> = Vec::new();
                while !p.peek_is(Kind::Close(Delimiter::Bracket))
                    invariant
                        p.wf(),
                        frame(*old(p), *p),
                        p.pos > old(p).pos,
                    decreases p.remaining(),
                {
                    let lit = Lit::parse(p)?;
                    let comma = if p.peek_is(Kind::Comma) {
                        Some(p.token_next()?)
                    } else {
                        None
                    };
                    let stop = comma.is_none();
                    items.push((lit, comma));
                    if stop {
                        break ;
                    }
                }
                let close = p.expect(Kind::Close(Delimiter::Bracket))?;
                Ok(Lit::Vector(LitVec { open, items, close }))
            },
            Kind::Open(Delimiter::Parenthesis) => {
                let open = p.token_next()?;
                let mut items: Vec<(Lit, Option<Token>)> = Vec::new();
                while !p.peek_is(Kind::Close(Delimiter::Parenthesis))
                    invariant
                        p.wf(),
                        frame(*old(p), *p),
                        p.pos > old(p).pos,
                    decreases p.remaining(),
                {
                    let lit = Lit::parse(p)?;
                    let comma = if p.peek_is(Kind::Comma) {
                        Some(p.token_next()?)
                    } else {
                        None
                    };
                    let stop = comma.is_none();
                    items.push((lit, comma));
                    if stop {
                        break ;
                    }
                }
                let close = p.expect(Kind::Close(Delimiter::Parenthesis))?;
                Ok(Lit::Tuple(LitTuple { open, items, close }))
            },
            Kind::StartObject => {
                let open = p.token_next()?;
                let object = parse_object_body(p, LitObjectIdent::Anonymous(open), open)?;
                Ok(Lit::Object(object))
            },
            Kind::Ident | Kind::Crate | Kind::Super | Kind::ColonColon => {
                let path = Path::parse(p)?;
                let open = p.expect(Kind::Open(Delimiter::Brace))?;
                let object = parse_object_body(p, LitObjectIdent::Named(path), open)?;
                Ok(Lit::Object(object))
            },
            _ => Err(ParseError::new(t.span, ParseErrorKind::UnexpectedToken)),
        }
    }
}

/// Parse the entries of an object literal after its opening token.
fn parse_object_body(p: &mut Parser, ident: LitObjectIdent, open: Token) -> (r: Result<
    LitObject,
    ParseError,
>)
    requires
        old(p).wf(),
    ensures
        final(p).wf(),
        frame(*old(p), *final(p)),
    decreases old(p).remaining(), 0int,
{
    let mut items: Vec<(LitObjectEntry, Option<Token>)> = Vec::new();
    while !p.peek_is(Kind::Close(Delimiter::Brace))
        invariant
            p.wf(),
            frame(*old(p), *p),
        decreases p.remaining(),
    {
        let key = if p.peek_is(Kind::LitStr) {
            LitObjectKey::LitStr(p.token_next()?)
        } else {
            LitObjectKey::Path(Path::parse(p)?)
        };
        let binding = if p.peek_is(Kind::Colon) {
            let colon = p.token_next()?;
            let value = Lit::parse(p)?;
            Some((colon, Box::new(value)))
        } else {
            None
        };
        let comma = if p.peek_is(Kind::Comma) {
            Some(p.token_next()?)
        } else {
            None
        };
        let stop = comma.is_none();
        items.push((LitObjectEntry { key, binding }, comma));
        if stop {
            break ;
        }
    }
    let close = p.expect(Kind::Close(Delimiter::Brace))?;
    Ok(LitObject { ident, open, items, close })
}

impl Block {
    /// Parse a block, keeping its contents as raw balanced tokens.
    pub fn parse(p: &mut Parser) -> (r: Result<Block, ParseError>)
        requires
            old(p).wf(),
        ensures
            final(p).wf(),
            frame(*old(p), *final(p)),
            r is Ok ==> final(p).pos > old(p).pos,
    {
        let open = p.expect(Kind::Open(Delimiter::Brace))?;
        let (tokens, close) = scan_balanced(p, Delimiter::Brace)?;
        Ok(Block { open, tokens, close })
    }
}

impl FnArgs {
    /// Parse a parenthesized argument list.
    pub fn parse(p: &mut Parser) -> (r: Result<FnArgs, ParseError>)
        requires
            old(p).wf(),
        ensures
            final(p).wf(),
            frame(*old(p), *final(p)),
            r is Ok ==> final(p).pos > old(p).pos,
    {
        let open = p.expect(Kind::Open(Delimiter::Parenthesis))?;
        let mut items: Vec<(FnArg, Option<Token>)> = Vec::new();
        while !p.peek_is(Kind::Close(Delimiter::Parenthesis))
            invariant
                p.wf(),
                frame(*old(p), *p),
                p.pos > old(p).pos,
            decreases p.remaining(),
        {
            let arg = FnArg::parse(p)?;
            let comma = if p.peek_is(Kind::Comma) {
                Some(p.token_next()?)
            } else {
                None
            };
            let stop = comma.is_none();
            items.push((arg, comma));
            if stop {
                break ;
            }
        }
        let close = p.expect(Kind::Close(Delimiter::Parenthesis))?;
        Ok(FnArgs { open, items, close })
    }
}

impl ItemFn {
    /// Parse a `fn` item with the given attributes.
    pub fn parse_with_attributes(p: &mut Parser, attributes: Vec<Attribute>) -> (r: Result<
        ItemFn,
        ParseError,
    >)
        requires
            old(p).wf(),
        ensures
            final(p).wf(),
            frame(*old(p), *final(p)),
            r is Ok ==> final(p).pos > old(p).pos,
    {
        let visibility = Visibility::parse_option(p)?;
        let async_ = if p.peek_is(Kind::Async) {
            Some(p.token_next()?)
        } else {
            None
        };
        let fn_ = p.expect(Kind::Fn)?;
        let name = Ident::parse(p)?;
        let args = FnArgs::parse(p)?;
        let output = if ReturnType::peek(p.token_peek(), p.token_peek2()) {
            Some(ReturnType::parse(p)?)
        } else {
            None
        };
        let body = Block::parse(p)?;
        Ok(ItemFn { attributes, visibility, async_, fn_, name, args, output, body })
    }

    /// Parse a `fn` item, attributes included.
    pub fn parse(p: &mut Parser) -> (r: Result<ItemFn, ParseError>)
        requires
            old(p).wf(),
        ensures
            final(p).wf(),
            frame(*old(p), *final(p)),
            r is Ok ==> final(p).pos > old(p).pos,
    {
        let attributes = parse_attributes(p)?;
        ItemFn::parse_with_attributes(p, attributes)
    }

    /// True when `t1` can start a `fn` item.
    pub fn peek(t1: Option<Token>, _t2: Option<Token>) -> (r: bool) {
        match t1 {
            Some(t) => match t.kind {
                Kind::Fn | Kind::Async => true,
                _ => false,
            },
            None => false,
        }
    }
}

impl ItemUse {
    /// Parse a `use` declaration.
    pub fn parse(p: &mut Parser) -> (r: Result<ItemUse, ParseError>)
        requires
            old(p).wf(),
        ensures
            final(p).wf(),
            frame(*old(p), *final(p)),
            r is Ok ==> final(p).pos > old(p).pos,
    {
        let visibility = Visibility::parse_option(p)?;
        let use_ = p.expect(Kind::Use)?;
        let first = PathSegment::parse(p)?;
        let mut rest: Vec<(Token, ItemUseComponent)> = Vec::new();
        while p.peek_is(Kind::ColonColon)
            invariant
                p.wf(),
                frame(*old(p), *p),
                p.pos > old(p).pos,
            decreases p.remaining(),
        {
            let scope = p.token_next()?;
            if p.peek_is(Kind::Star) {
                let star = p.token_next()?;
                rest.push((scope, ItemUseComponent::Wildcard(star)));
                break ;
            }
            let seg = PathSegment::parse(p)?;
            rest.push((scope, ItemUseComponent::PathSegment(seg)));
        }
        let semi = p.expect(Kind::SemiColon)?;
        Ok(ItemUse { visibility, use_, first, rest, semi })
    }
}

impl ItemStruct {
    /// Parse a struct declaration.
    pub fn parse(p: &mut Parser) -> (r: Result<ItemStruct, ParseError>)
        requires
            old(p).wf(),
        ensures
            final(p).wf(),
            frame(*old(p), *final(p)),
            r is Ok ==> final(p).pos > old(p).pos,
    {
        let visibility = Visibility::parse_option(p)?;
        let struct_ = p.expect(Kind::Struct)?;
        let name = Ident::parse(p)?;
        let mut fields: Vec<(Field, Option<Token>)> = Vec::new();
        if p.peek_is(Kind::SemiColon) {
            let _semi = p.token_next()?;
        } else {
            let _open = p.expect(Kind::Open(Delimiter::Brace))?;
            while !p.peek_is(Kind::Close(Delimiter::Brace))
                invariant
                    p.wf(),
                    frame(*old(p), *p),
                    p.pos > old(p).pos,
                decreases p.remaining(),
            {
                let fvis = Visibility::parse_option(p)?;
                let fname = Ident::parse(p)?;
                let comma = if p.peek_is(Kind::Comma) {
                    Some(p.token_next()?)
                } else {
                    None
                };
                let stop = comma.is_none();
                fields.push((Field { visibility: fvis, name: fname }, comma));
                if stop {
                    break ;
                }
            }
            let _close = p.expect(Kind::Close(Delimiter::Brace))?;
        }
        Ok(ItemStruct { visibility, struct_, name, fields })
    }
}

impl ItemEnum {
    /// Parse an enum declaration.
    pub fn parse(p: &mut Parser) -> (r: Result<ItemEnum, ParseError>)
        requires
            old(p).wf(),
        ensures
            final(p).wf(),
            frame(*old(p), *final(p)),
            r is Ok ==> final(p).pos > old(p).pos,
    {
        let visibility = Visibility::parse_option(p)?;
        let enum_ = p.expect(Kind::Enum)?;
        let name = Ident::parse(p)?;
        let _open = p.expect(Kind::Open(Delimiter::Brace))?;
        let mut variants: Vec<(Ident, Option<Token>)> = Vec::new();
        while !p.peek_is(Kind::Close(Delimiter::Brace))
            invariant
                p.wf(),
                frame(*old(p), *p),
                p.pos > old(p).pos,
            decreases p.remaining(),
        {
            let vname = Ident::parse(p)?;
            let comma = if p.peek_is(Kind::Comma) {
                Some(p.token_next()?)
            } else {
                None
            };
            let stop = comma.is_none();
            variants.push((vname, comma));
            if stop {
                break ;
            }
        }
        let _close = p.expect(Kind::Close(Delimiter::Brace))?;
        Ok(ItemEnum { visibility, enum_, name, variants })
    }
}

impl ItemImpl {
    /// Parse an impl block holding function declarations.
    pub fn parse(p: &mut Parser) -> (r: Result<ItemImpl, ParseError>)
        requires
            old(p).wf(),
        ensures
            final(p).wf(),
            frame(*old(p), *final(p)),
            r is Ok ==> final(p).pos > old(p).pos,
    {
        let impl_ = p.expect(Kind::Impl)?;
        let path = Path::parse(p)?;
        let _open = p.expect(Kind::Open(Delimiter::Brace))?;
        let mut functions: Vec<ItemFn> = Vec::new();
        while ItemFn::peek(p.token_peek(), p.token_peek2()) || p.peek_is(Kind::Pub)
            invariant
                p.wf(),
                frame(*old(p), *p),
                p.pos > old(p).pos,
            decreases p.remaining(),
        {
            functions.push(ItemFn::parse(p)?);
        }
        let _close = p.expect(Kind::Close(Delimiter::Brace))?;
        Ok(ItemImpl { impl_, path, functions })
    }
}

impl MacroCall {
    /// Parse a macro call, keeping its arguments as raw balanced
    /// tokens.
    pub fn parse(p: &mut Parser) -> (r: Result<MacroCall, ParseError>)
        requires
            old(p).wf(),
        ensures
            final(p).wf(),
            frame(*old(p), *final(p)),
            r is Ok ==> final(p).pos > old(p).pos,
    {
        let path = Path::parse(p)?;
        let bang = p.expect(Kind::Bang)?;
        let t = p.token_peek_eof()?;
        match t.kind {
            Kind::Open(d) => {
                let open = p.token_next()?;
                let (stream, close) = scan_balanced(p, d)?;
                Ok(MacroCall { path, bang, open, stream, close })
            },
            _ => Err(ParseError::new(t.span, ParseErrorKind::UnexpectedToken)),
        }
    }
}

impl ItemMod {
    /// Parse a module declaration with an inline body.
    pub fn parse(p: &mut Parser) -> (r: Result<ItemMod, ParseError>)
        requires
            old(p).wf(),
        ensures
            final(p).wf(),
            frame(*old(p), *final(p)),
            r is Ok ==> final(p).pos > old(p).pos,
        decreases old(p).remaining(), 0int,
    {
        let visibility = Visibility::parse_option(p)?;
        let mod_ = p.expect(Kind::Mod)?;
        let name = Ident::parse(p)?;
        let open = p.expect(Kind::Open(Delimiter::Brace))?;
        let mut items: Vec<Item> = Vec::new();
        while !p.peek_is(Kind::Close(Delimiter::Brace))
            invariant
                p.wf(),
                frame(*old(p), *p),
                p.pos > old(p).pos,
            decreases p.remaining(),
        {
            let it = Item::parse(p)?;
            let semi = it.needs_semi_colon() && p.peek_is(Kind::SemiColon);
            if semi {
                let _s = p.token_next()?;
            }
            items.push(it);
        }
        let close = p.expect(Kind::Close(Delimiter::Brace))?;
        Ok(ItemMod { visibility, mod_, name, open, items, close })
    }
}

impl Item {
    /// Parse one declaration, dispatching on its leading token.
    pub fn parse(p: &mut Parser) -> (r: Result<Item, ParseError>)
        requires
            old(p).wf(),
        ensures
            final(p).wf(),
            frame(*old(p), *final(p)),
            r is Ok ==> final(p).pos > old(p).pos,
        decreases old(p).remaining(), 1int,
    {
        let t = p.token_peek_eof()?;
        match t.kind {
            Kind::Use => Ok(Item::ItemUse(ItemUse::parse(p)?)),
            Kind::Enum => Ok(Item::ItemEnum(ItemEnum::parse(p)?)),
            Kind::Struct => Ok(Item::ItemStruct(ItemStruct::parse(p)?)),
            Kind::Impl => Ok(Item::ItemImpl(ItemImpl::parse(p)?)),
            Kind::Async | Kind::Fn => Ok(Item::ItemFn(Box::new(ItemFn::parse(p)?))),
            Kind::Mod => Ok(Item::ItemMod(ItemMod::parse(p)?)),
            Kind::Pub => {
                // a visibility marker: dispatch on what follows it
                match p.token_peek2() {
                    Some(t2) => match t2.kind {
                        Kind::Use => Ok(Item::ItemUse(ItemUse::parse(p)?)),
                        Kind::Enum => Ok(Item::ItemEnum(ItemEnum::parse(p)?)),
                        Kind::Struct => Ok(Item::ItemStruct(ItemStruct::parse(p)?)),
                        Kind::Mod => Ok(Item::ItemMod(ItemMod::parse(p)?)),
                        _ => Ok(Item::ItemFn(Box::new(ItemFn::parse(p)?))),
                    },
                    None => Err(
                        ParseError::new(t.span, ParseErrorKind::ExpectedItem),
                    ),
                }
            },
            Kind::Ident => Ok(Item::MacroCall(MacroCall::parse(p)?)),
            _ => {
                match Attribute::parse(p) {
                    Ok(a) => Ok(Item::ItemAttribute(a)),
                    Err(_) => Err(ParseError::new(t.span, ParseErrorKind::ExpectedItem)),
                }
            },
        }
    }

    /// True when the token pair can start a declaration.
    pub fn peek(t1: Option<Token>, t2: Option<Token>) -> (r: bool) {
        match t1 {
            Some(t) => match t.kind {
                Kind::Use | Kind::Enum | Kind::Struct | Kind::Impl | Kind::Async | Kind::Fn
                    | Kind::Mod | Kind::Ident => true,
                _ => Attribute::peek(t1, t2),
            },
            None => false,
        }
    }

    /// Test if a declaration is suitable inside of a block.
    pub fn peek_as_stmt(p: &Parser) -> (r: Result<bool, ParseError>)
        requires
            p.wf(),
    {
        let pair = p.token_peek_pair();
        match pair {
            None => Ok(false),
            Some((t, t2)) => match t.kind {
                Kind::Use | Kind::Enum | Kind::Struct | Kind::Impl | Kind::Async | Kind::Fn
                    | Kind::Mod => Ok(true),
                _ => Ok(Attribute::peek(Some(t), t2)),
            },
        }
    }
}

impl File {
    /// Parse a whole source file: declarations until the end.
    pub fn parse(p: &mut Parser) -> (r: Result<File, ParseError>)
        requires
            old(p).wf(),
        ensures
            final(p).wf(),
            frame(*old(p), *final(p)),
    {
        let mut items: Vec<Item> = Vec::new();
        while p.pos < p.tokens.len()
            invariant
                p.wf(),
                frame(*old(p), *p),
            decreases p.remaining(),
        {
            let it = Item::parse(p)?;
            let semi = it.needs_semi_colon() && p.peek_is(Kind::SemiColon);
            if semi {
                let _s = p.token_next()?;
            }
            items.push(it);
        }
        Ok(File { attributes: Vec::new(), items })
    }
}

impl Expr {
    /// Parse a primary expression: a literal, a path, a macro call or
    /// a unary operation.
    pub fn parse_primary(p: &mut Parser) -> (r: Result<Expr, ParseError>)
        requires
            old(p).wf(),
        ensures
            final(p).wf(),
            frame(*old(p), *final(p)),
            r is Ok ==> final(p).pos > old(p).pos,
        decreases old(p).remaining(), 1int,
    {
        let t = p.token_peek_eof()?;
        match t.kind {
            Kind::Bang | Kind::Amp | Kind::Star => Ok(
                Expr::Unary(Box::new(ExprUnary::parse(p)?)),
            ),
            Kind::Ident | Kind::Crate | Kind::Super | Kind::ColonColon => {
                let path = Path::parse(p)?;
                if p.peek_is(Kind::Bang) {
                    let bang = p.token_next()?;
                    let t2 = p.token_peek_eof()?;
                    match t2.kind {
                        Kind::Open(d) => {
                            let open = p.token_next()?;
                            let (stream, close) = scan_balanced(p, d)?;
                            Ok(
                                Expr::MacroCall(
                                    Box::new(MacroCall { path, bang, open, stream, close }),
                                ),
                            )
                        },
                        _ => Err(ParseError::new(t2.span, ParseErrorKind::UnexpectedToken)),
                    }
                } else {
                    Ok(Expr::Path(path))
                }
            },
            Kind::True | Kind::False | Kind::LitNumber | Kind::LitStr | Kind::LitByteStr
                | Kind::LitChar | Kind::LitByte | Kind::Open(Delimiter::Bracket) | Kind::Open(
                Delimiter::Parenthesis,
            ) | Kind::StartObject => Ok(Expr::Lit(Lit::parse(p)?)),
            _ => Err(ParseError::new(t.span, ParseErrorKind::UnexpectedToken)),
        }
    }
}

impl ExprUnary {
    /// Parse a unary expression.
    pub fn parse(p: &mut Parser) -> (r: Result<ExprUnary, ParseError>)
        requires
            old(p).wf(),
        ensures
            final(p).wf(),
            frame(*old(p), *final(p)),
            r is Ok ==> final(p).pos > old(p).pos,
        decreases old(p).remaining(), 0int,
    {
        let token = p.token_next()?;
        let op = UnaryOp::from_token(token)?;
        let expr = Box::new(Expr::parse_primary(p)?);
        Ok(ExprUnary { token, expr, op })
    }
}

impl Pat {
    /// Parse a pattern.
    pub fn parse(p: &mut Parser) -> (r: Result<Pat, ParseError>)
        requires
            old(p).wf(),
        ensures
            final(p).wf(),
            frame(*old(p), *final(p)),
            r is Ok ==> final(p).pos > old(p).pos,
    {
        let t = p.token_peek_eof()?;
        match t.kind {
            Kind::Underscore => Ok(Pat::Ignore(p.token_next()?)),
            Kind::True | Kind::False | Kind::LitNumber | Kind::LitStr | Kind::LitByteStr
                | Kind::LitChar | Kind::LitByte => Ok(Pat::Lit(p.token_next()?)),
            Kind::Ident | Kind::Crate | Kind::Super => Ok(Pat::Path(Path::parse(p)?)),
            _ => Err(ParseError::new(t.span, ParseErrorKind::UnexpectedToken)),
        }
    }
}

impl PatObjectItem {
    /// Parse one object pattern item.
    pub fn parse(p: &mut Parser) -> (r: Result<PatObjectItem, ParseError>)
        requires
            old(p).wf(),
        ensures
            final(p).wf(),
            frame(*old(p), *final(p)),
            r is Ok ==> final(p).pos > old(p).pos,
    {
        let key = if p.peek_is(Kind::LitStr) {
            LitObjectKey::LitStr(p.token_next()?)
        } else {
            LitObjectKey::Path(Path::parse(p)?)
        };
        let binding = if p.peek_is(Kind::Colon) {
            let colon = p.token_next()?;
            let pat = Pat::parse(p)?;
            Some((colon, pat))
        } else {
            None
        };
        Ok(PatObjectItem { key, binding })
    }
}

impl PatObject {
    /// Parse the object with an opening path already read.
    pub fn parse_with_ident(p: &mut Parser, ident: LitObjectIdent) -> (r: Result<
        PatObject,
        ParseError,
    >)
        requires
            old(p).wf(),
        ensures
            final(p).wf(),
            frame(*old(p), *final(p)),
    {
        let open = match &ident {
            LitObjectIdent::Anonymous(t) => *t,
            LitObjectIdent::Named(_) => p.expect(Kind::Open(Delimiter::Brace))?,
        };
        let mut items: Vec<(PatObjectItem, Option<Token>)> = Vec::new();
        let mut is_open = true;
        while !p.peek_is(Kind::Close(Delimiter::Brace)) && !p.peek_is(Kind::DotDot)
            invariant
                p.wf(),
                frame(*old(p), *p),
            decreases p.remaining(),
        {
            let item = PatObjectItem::parse(p)?;
            let comma = if p.peek_is(Kind::Comma) {
                Some(p.token_next()?)
            } else {
                None
            };
            is_open = comma.is_some();
            items.push((item, comma));
            if !is_open {
                break ;
            }
        }
        let open_pattern = if is_open && p.peek_is(Kind::DotDot) {
            Some(p.token_next()?)
        } else {
            None
        };
        let close = p.expect(Kind::Close(Delimiter::Brace))?;
        Ok(PatObject { ident, open, items, open_pattern, close })
    }

    /// Parse an object pattern.
    pub fn parse(p: &mut Parser) -> (r: Result<PatObject, ParseError>)
        requires
            old(p).wf(),
        ensures
            final(p).wf(),
            frame(*old(p), *final(p)),
    {
        let ident = if p.peek_is(Kind::StartObject) {
            LitObjectIdent::Anonymous(p.token_next()?)
        } else {
            LitObjectIdent::Named(Path::parse(p)?)
        };
        PatObject::parse_with_ident(p, ident)
    }
}

impl Parse for Attribute {
    fn parse(p: &mut Parser) -> (r: Result<Attribute, ParseError>) {
        Attribute::parse(p)
    }
}

impl Parse for AttrInput {
    fn parse(p: &mut Parser) -> (r: Result<AttrInput, ParseError>) {
        AttrInput::parse(p)
    }
}

impl Parse for ItemFn {
    fn parse(p: &mut Parser) -> (r: Result<ItemFn, ParseError>) {
        ItemFn::parse(p)
    }
}

impl Parse for Item {
    fn parse(p: &mut Parser) -> (r: Result<Item, ParseError>) {
        Item::parse(p)
    }
}

impl Parse for File {
    fn parse(p: &mut Parser) -> (r: Result<File, ParseError>) {
        File::parse(p)
    }
}

impl Parse for Path {
    fn parse(p: &mut Parser) -> (r: Result<Path, ParseError>) {
        Path::parse(p)
    }
}

impl Parse for FnArg {
    fn parse(p: &mut Parser) -> (r: Result<FnArg, ParseError>) {
        FnArg::parse(p)
    }
}

impl Parse for ExprUnary {
    fn parse(p: &mut Parser) -> (r: Result<ExprUnary, ParseError>) {
        ExprUnary::parse(p)
    }
}

impl Parse for PatObject {
    fn parse(p: &mut Parser) -> (r: Result<PatObject, ParseError>) {
        PatObject::parse(p)
    }
}

impl Parse for Mutability {
    fn parse(p: &mut Parser) -> (r: Result<Mutability, ParseError>) {
        Mutability::parse(p)
    }
}

} // verus!
