//! Compilation diagnostics: accumulated, never thrown.

use vstd::prelude::*;
use crate::ast::token::Span;
use crate::component::Item;

verus! {

/// Why a compilation step failed.
#[derive(Debug)]
pub enum CompileErrorKind {
    /// An internal limitation was hit; `msg` names it.
    Internal { msg: String },
    /// The prefix of an import is wholly absent.
    MissingModule { item: Item },
    /// A source id was queued but no source carries it.
    MissingSource,
    /// The source text could not be parsed.
    Parse { error: crate::ast::error::ParseError },
    /// No macro of this name is known to the expander.
    MissingMacro { name: String },
    /// Macro expansion was nested deeper than the fixed limit allows.
    MacroDepthExceeded { depth: usize },
    /// The scope tree ran out of ids.
    Tree { tree_error: crate::path_tree::PathTreeError },
}

/// An error at a span of one source.
#[derive(Debug)]
pub struct CompileError {
    /// Where the error lies.
    pub span: Span,
    /// What went wrong.
    pub kind: CompileErrorKind,
}

impl CompileError {
    /// An error of `kind` at `span`.
    pub fn new(span: Span, kind: CompileErrorKind) -> (r: Self)
        ensures
            r.span == span,
            r.kind == kind,
    {
        CompileError { span, kind }
    }
}

/// An error attributed to one source file.
#[derive(Debug)]
pub struct LoadError {
    /// The id of the source the error belongs to.
    pub source_id: usize,
    /// The error itself.
    pub error: CompileError,
}

impl LoadError {
    /// Attribute `error` to the source `source_id`.
    pub fn new(source_id: usize, error: CompileError) -> (r: Self)
        ensures
            r.source_id == source_id,
            r.error == error,
    {
        LoadError { source_id, error }
    }
}

} // verus!
