//! Function declarations.

use vstd::prelude::*;
use crate::ast::attribute::Attribute;
use crate::ast::fn_arg::{FnArg, FnArgIdent};
use crate::ast::item::Block;
use crate::ast::return_type::ReturnType;
use crate::ast::token::{Ident, Span, Token};
use crate::ast::vis_restricted::Visibility;

verus! {

/// The parenthesized argument list of a function.
#[derive(Debug)]
pub struct FnArgs {
    /// The `(` token.
    pub open: Token,
    /// The arguments, each with its separating comma if one follows.
    pub items: Vec<(FnArg, Option<Token>)>,
    /// The `)` token.
    pub close: Token,
}

impl FnArgs {
    /// The span of the whole list, parentheses included.
    pub fn span(&self) -> (r: Span)
        ensures
            r == crate::ast::token::spec_join(self.open.span, self.close.span),
    {
        self.open.span.join(self.close.span)
    }
}

/// A function declaration.
#[derive(Debug)]
pub struct ItemFn {
    /// The attributes of the function.
    pub attributes: Vec<Attribute>,
    /// The visibility of the function.
    pub visibility: Option<Visibility>,
    /// The optional `async` keyword.
    pub async_: Option<Token>,
    /// The `fn` token.
    pub fn_: Token,
    /// The name of the function.
    pub name: Ident,
    /// The arguments of the function.
    pub args: FnArgs,
    /// The return type hint, if any.
    pub output: Option<ReturnType>,
    /// The body of the function.
    pub body: Block,
}

impl ItemFn {
    /// Get the identifying span for this function: from `async` or
    /// `fn` through the argument list.
    pub fn item_span(&self) -> (r: Span)
        ensures
            r == crate::ast::token::spec_join(
                match self.async_ {
                    Some(a) => a.span,
                    None => self.fn_.span,
                },
                crate::ast::token::spec_join(self.args.open.span, self.args.close.span),
            ),
    {
        match &self.async_ {
            Some(async_) => async_.span.join(self.args.span()),
            None => self.fn_.span.join(self.args.span()),
        }
    }

    /// Test if the function is an instance function: its first
    /// argument is `self`.
    pub fn is_instance(&self) -> (r: bool)
        ensures
            r == (self.args.items@.len() > 0 && self.args.items@[0].0.ident is Self_),
    {
        if self.args.items.len() > 0 {
            match &self.args.items[0].0.ident {
                FnArgIdent::Self_(_) => true,
                _ => false,
            }
        } else {
            false
        }
    }
}

} // verus!
