//! The syntax tree: tokens, declarations, and the parsers over them.

use vstd::prelude::*;

pub mod attribute;
pub mod error;
pub mod lex;
pub mod expr_unary;
pub mod fn_arg;
pub mod item;
pub mod item_fn;
pub mod mutability;
pub mod pat_object;
pub mod parse;
pub mod path;
pub mod return_type;
pub mod token;
pub mod ty;
pub mod vis_restricted;

pub use attribute::{AttrStyle, Attribute, CloseDelim, NonDelimiter, OpenDelim};
pub use error::{ParseError, ParseErrorKind};
pub use expr_unary::{ExprUnary, UnaryOp};
pub use fn_arg::{FnArg, FnArgIdent, FnArgType};
pub use item::{
    Block, Expr, File, Item, ItemEnum, ItemImpl, ItemMod, ItemStruct, ItemUse, ItemUseComponent,
    Lit, MacroCall,
};
pub use item_fn::{FnArgs, ItemFn};
pub use mutability::Mutability;
pub use pat_object::{LitObjectIdent, LitObjectKey, Pat, PatObject, PatObjectItem};
pub use path::{Path, PathSegment};
pub use return_type::ReturnType;
pub use token::{Delimiter, Ident, Kind, Span, Token, TokenStream};
pub use ty::{Type, TypeHint, TypeInfer, TypeNever, TypePath, TypePtr, TypeVariadic};
pub use vis_restricted::{VisRestricted, Visibility};

verus! {

/// The span of a path segment.
pub fn segment_span(s: &PathSegment) -> (r: Span)
    ensures
        r == spec_segment_span(*s),
{
    match s {
        PathSegment::Ident(i) => i.span,
        PathSegment::Crate(t) => t.span,
        PathSegment::Super(t) => t.span,
    }
}

/// The span of a whole path.
pub fn path_span(p: &Path) -> (r: Span)
    ensures
        r == spec_path_span(*p),
{
    let first = match &p.leading_colon {
        Some(t) => t.span,
        None => segment_span(&p.first),
    };
    let last = if p.rest.len() > 0 {
        segment_span(&p.rest[p.rest.len() - 1].1)
    } else {
        segment_span(&p.first)
    };
    first.join(last)
}

/// The span of a type, on the spec side.
pub open spec fn spec_type_span(t: Type) -> Span
    decreases t,
{
    match t {
        Type::Infer(x) => x.underscore.span,
        Type::Never(x) => x.bang.span,
        Type::Path(x) => spec_path_span(x.path),
        Type::Pointer(x) => token::spec_join(x.star.span, spec_type_span(*x.elem)),
        Type::Variadic(x) => x.ellipsis.span,
    }
}

/// The span of a path segment, on the spec side.
pub open spec fn spec_segment_span(s: PathSegment) -> Span {
    match s {
        PathSegment::Ident(i) => i.span,
        PathSegment::Crate(t) => t.span,
        PathSegment::Super(t) => t.span,
    }
}

/// The span of a whole path, on the spec side.
pub open spec fn spec_path_span(p: Path) -> Span {
    let first = match p.leading_colon {
        Some(t) => t.span,
        None => spec_segment_span(p.first),
    };
    let last = if p.rest@.len() > 0 {
        spec_segment_span(p.rest@.last().1)
    } else {
        spec_segment_span(p.first)
    };
    token::spec_join(first, last)
}

/// The span of the first argument type hint among `args`, if any.
pub open spec fn spec_first_arg_hint(args: Seq<(FnArg, Option<Token>)>) -> Option<Span>
    decreases args.len(),
{
    if args.len() == 0 {
        None
    } else {
        match args[0].0.type_ {
            Some(h) => Some(token::spec_join(h.colon.span, spec_type_span(*h.type_))),
            None => spec_first_arg_hint(args.drop_first()),
        }
    }
}

/// The span of the type hint that makes a function unsupported: the
/// first argument hint, or else the return hint.
pub open spec fn spec_hint_span(f: ItemFn) -> Option<Span> {
    match spec_first_arg_hint(f.args.items@) {
        Some(s) => Some(s),
        None => match f.output {
            Some(o) => Some(token::spec_join(o.arrow.span, spec_type_span(*o.type_))),
            None => None,
        },
    }
}

/// The span of a type.
pub fn type_span(t: &Type) -> (r: Span)
    ensures
        r == spec_type_span(*t),
    decreases *t,
{
    match t {
        Type::Infer(x) => x.underscore.span,
        Type::Never(x) => x.bang.span,
        Type::Path(x) => path_span(&x.path),
        Type::Pointer(x) => x.star.span.join(type_span(&x.elem)),
        Type::Variadic(x) => x.ellipsis.span,
    }
}

} // verus!
