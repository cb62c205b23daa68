//! Name resolution and import expansion for a small scripting language.
//!
//! The crate models the front half of a compiler: a scope tree of every
//! declaration discovered while indexing source files, a per-context item
//! path builder, a visibility resolver, and a worklist-driven worker that
//! drives indexing, macro expansion and import resolution to a fixed point.

pub mod ast;
pub mod component;
pub mod errors;
pub mod items;
pub mod parser;
pub mod path_tree;
pub mod sec;
pub mod type_;
pub mod unit;
pub mod worker;

pub use component::Component;
pub use component::Item;
pub use items::Items;
pub use path_tree::PathTree;
pub use worker::QualifiedPath;
pub use worker::Worker;
