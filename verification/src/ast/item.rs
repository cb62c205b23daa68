//! Declarations, literals and expressions.

use vstd::prelude::*;
use crate::ast::attribute::Attribute;
use crate::ast::expr_unary::ExprUnary;
use crate::ast::item_fn::ItemFn;
use crate::ast::pat_object::{LitObjectIdent, LitObjectKey};
use crate::ast::path::{Path, PathSegment};
use crate::ast::token::{Ident, Span, Token};
use crate::ast::vis_restricted::Visibility;

verus! {

/// A block of statements. Its contents are carried as raw tokens; the
/// indexer does not descend into them.
#[derive(Debug, Clone)]
pub struct Block {
    /// The `{` token.
    pub open: Token,
    /// The tokens between the braces.
    pub tokens: Vec<Token>,
    /// The `}` token.
    pub close: Token,
}

impl Block {
    /// The span of the whole block.
    pub fn span(&self) -> (r: Span)
        ensures
            r == crate::ast::token::spec_join(self.open.span, self.close.span),
    {
        self.open.span.join(self.close.span)
    }
}

/// One component of a `use` declaration after the first.
#[derive(Debug, Clone)]
pub enum ItemUseComponent {
    /// A path segment.
    PathSegment(PathSegment),
    /// The `*` wildcard.
    Wildcard(Token),
}

/// A `use` declaration.
#[derive(Debug, Clone)]
pub struct ItemUse {
    /// The visibility of the declaration.
    pub visibility: Option<Visibility>,
    /// The `use` token.
    pub use_: Token,
    /// The first component of the path.
    pub first: PathSegment,
    /// The remaining components, each after a `::`.
    pub rest: Vec<(Token, ItemUseComponent)>,
    /// The `;` token.
    pub semi: Token,
}

impl ItemUse {
    /// The span of the whole declaration.
    pub fn span(&self) -> (r: Span)
        ensures
            r == crate::ast::token::spec_join(self.use_.span, self.semi.span),
    {
        self.use_.span.join(self.semi.span)
    }
}

/// A module declaration with an inline body.
#[derive(Debug)]
pub struct ItemMod {
    /// The visibility of the module.
    pub visibility: Option<Visibility>,
    /// The `mod` token.
    pub mod_: Token,
    /// The name of the module.
    pub name: Ident,
    /// The `{` token.
    pub open: Token,
    /// The items declared in the module.
    pub items: Vec<Item>,
    /// The `}` token.
    pub close: Token,
}

/// One field of a struct declaration.
#[derive(Debug, Clone)]
pub struct Field {
    /// The visibility of the field.
    pub visibility: Option<Visibility>,
    /// The name of the field.
    pub name: Ident,
}

/// A struct declaration.
#[derive(Debug, Clone)]
pub struct ItemStruct {
    /// The visibility of the struct.
    pub visibility: Option<Visibility>,
    /// The `struct` token.
    pub struct_: Token,
    /// The name of the struct.
    pub name: Ident,
    /// The fields of the struct, if it has a body.
    pub fields: Vec<(Field, Option<Token>)>,
}

/// An enum declaration.
#[derive(Debug, Clone)]
pub struct ItemEnum {
    /// The visibility of the enum.
    pub visibility: Option<Visibility>,
    /// The `enum` token.
    pub enum_: Token,
    /// The name of the enum.
    pub name: Ident,
    /// The variants, by name.
    pub variants: Vec<(Ident, Option<Token>)>,
}

/// An impl block.
#[derive(Debug)]
pub struct ItemImpl {
    /// The `impl` token.
    pub impl_: Token,
    /// The path naming the implemented type.
    pub path: Path,
    /// The functions declared in the block.
    pub functions: Vec<ItemFn>,
}

/// A macro call.
#[derive(Debug, Clone)]
pub struct MacroCall {
    /// The path naming the macro.
    pub path: Path,
    /// The `!` token.
    pub bang: Token,
    /// The `(` or `{` or `[` token.
    pub open: Token,
    /// The raw argument tokens.
    pub stream: Vec<Token>,
    /// The matching close token.
    pub close: Token,
}

impl MacroCall {
    /// The span of the whole call.
    pub fn span(&self) -> (r: Span)
    {
        crate::ast::path_span(&self.path).join(self.close.span)
    }
}

/// A declaration.
#[derive(Debug)]
pub enum Item {
    /// An attribute item.
    ItemAttribute(Attribute),
    /// A use declaration.
    ItemUse(ItemUse),
    /// A function declaration.
    ItemFn(Box<ItemFn>),
    /// An enum declaration.
    ItemEnum(ItemEnum),
    /// A struct declaration.
    ItemStruct(ItemStruct),
    /// An impl declaration.
    ItemImpl(ItemImpl),
    /// A module declaration.
    ItemMod(ItemMod),
    /// A macro call expanding into an item.
    MacroCall(MacroCall),
}

impl Item {
    /// Indicates if the declaration needs a trailing semi-colon.
    pub fn needs_semi_colon(&self) -> (r: bool)
        ensures
            r == (*self is MacroCall),
    {
        match self {
            Item::MacroCall(_) => true,
            _ => false,
        }
    }
}

/// A literal value.
#[derive(Debug)]
pub enum Lit {
    /// `true`.
    True(Token),
    /// `false`.
    False(Token),
    /// A number.
    Number(Token),
    /// A string.
    Str(Token),
    /// A byte string.
    ByteStr(Token),
    /// A character.
    Char(Token),
    /// A byte.
    Byte(Token),
    /// A vector literal: `[a, b, c]`.
    Vector(LitVec),
    /// A tuple literal: `(a, b, c)`.
    Tuple(LitTuple),
    /// An object literal: `#{ .. }` or `Name { .. }`.
    Object(LitObject),
}

/// A vector literal.
#[derive(Debug)]
pub struct LitVec {
    /// The `[` token.
    pub open: Token,
    /// The elements, each with its separating comma if one follows.
    pub items: Vec<(Lit, Option<Token>)>,
    /// The `]` token.
    pub close: Token,
}

/// A tuple literal.
#[derive(Debug)]
pub struct LitTuple {
    /// The `(` token.
    pub open: Token,
    /// The elements, each with its separating comma if one follows.
    pub items: Vec<(Lit, Option<Token>)>,
    /// The `)` token.
    pub close: Token,
}

/// One entry of an object literal.
#[derive(Debug)]
pub struct LitObjectEntry {
    /// The key of the entry.
    pub key: LitObjectKey,
    /// The bound value, after a `:`, if any.
    pub binding: Option<(Token, Box<Lit>)>,
}

/// An object literal.
#[derive(Debug)]
pub struct LitObject {
    /// The `#{` marker or the named path.
    pub ident: LitObjectIdent,
    /// The `{` token.
    pub open: Token,
    /// The entries, each with its separating comma if one follows.
    pub items: Vec<(LitObjectEntry, Option<Token>)>,
    /// The `}` token.
    pub close: Token,
}

/// An expression, as far as the indexer needs to see one.
#[derive(Debug)]
pub enum Expr {
    /// A path expression.
    Path(Path),
    /// A literal expression.
    Lit(Lit),
    /// A unary expression.
    Unary(Box<ExprUnary>),
    /// A macro call expanding into an expression.
    MacroCall(Box<MacroCall>),
}

/// A parsed source file.
#[derive(Debug)]
pub struct File {
    /// The file-level attributes.
    pub attributes: Vec<Attribute>,
    /// The declarations of the file, in order.
    pub items: Vec<Item>,
}

} // verus!
