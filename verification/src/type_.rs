//! The type id of a runtime entry.

use vstd::prelude::*;

verus! {

/// The type of an entry, identified by the hash of its name. The
/// whole id fits one machine word.
#[derive(Debug, Clone, Copy, PartialEq, Eq, Structural, Hash)]
pub struct Type {
    /// The hash identifying the type.
    pub hash: u64,
}

impl Type {
    /// The type with id `hash`.
    pub fn new(hash: u64) -> (r: Type)
        ensures
            r.hash == hash,
    {
        Type { hash }
    }

    /// The raw id.
    pub fn hash_value(&self) -> (r: u64)
        ensures
            r == self.hash,
    {
        self.hash
    }
}

} // verus!
