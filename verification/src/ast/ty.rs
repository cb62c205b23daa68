//! Types as they appear in source text.

use vstd::prelude::*;

pub mod hint;
pub mod infer;
pub mod never;
pub mod path;
pub mod ptr;
pub mod variadic;

pub use hint::TypeHint;
pub use infer::TypeInfer;
pub use never::TypeNever;
pub use path::TypePath;
pub use ptr::TypePtr;
pub use variadic::TypeVariadic;

verus! {

/// Represents a type.
#[derive(Debug)]
pub enum Type {
    /// The `_` type to be inferred by the compiler.
    Infer(TypeInfer),
    /// The `!` type.
    Never(TypeNever),
    /// A path to a type.
    Path(TypePath),
    /// A pointer type: `*const T`.
    Pointer(TypePtr),
    /// The `...` type in variadic signatures.
    Variadic(TypeVariadic),
}

} // verus!
