//! Visibility tags for declarations.

use vstd::prelude::*;

pub mod vis;

verus! {

/// How widely a declaration may be observed.
///
/// This is a multi-valued tag, not a boolean: the resolver decides per tag
/// what a source location may see.
#[derive(Copy, Clone, Debug, PartialEq, Eq, Structural)]
pub enum Visibility {
    /// Observable from anywhere.
    Public,
    /// Observable from anywhere in the compilation unit.
    CrateVisible,
    /// Observable from the defining module's parent module and its
    /// descendants.
    SuperVisible,
    /// Observable only within the same enclosing module.
    PrivateToModule,
    /// The declaration takes its visibility from its parent. This layer
    /// does not compute the inherited tag transitively: a declaration
    /// carrying this tag is treated as not observable by the resolver.
    InheritedFromParent,
    /// Never observable.
    NoAccess,
}

/// The rendering of a visibility tag, for diagnostics.
pub open spec fn visibility_label(v: Visibility) -> Seq<char> {
    match v {
        Visibility::Public => "Public"@,
        Visibility::CrateVisible => "CrateVisible"@,
        Visibility::SuperVisible => "SuperVisible"@,
        Visibility::PrivateToModule => "PrivateToModule"@,
        Visibility::InheritedFromParent => "InheritedFromParent"@,
        Visibility::NoAccess => "NoAccess"@,
    }
}

impl Visibility {
    /// The tag's name, for diagnostics.
    pub fn label(&self) -> (r: &'static str)
        ensures
            r@ == visibility_label(*self),
    {
        match self {
            Visibility::Public => "Public",
            Visibility::CrateVisible => "CrateVisible",
            Visibility::SuperVisible => "SuperVisible",
            Visibility::PrivateToModule => "PrivateToModule",
            Visibility::InheritedFromParent => "InheritedFromParent",
            Visibility::NoAccess => "NoAccess",
        }
    }
}

} // verus!
