//! A type named by a path.

use vstd::prelude::*;
use crate::ast::path::Path;

verus! {

/// A path that represents a type.
#[derive(Debug, Clone)]
pub struct TypePath {
    /// The path naming the type.
    pub path: Path,
}

} // verus!
