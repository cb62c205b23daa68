//! A path-based visibility check.
//!
//! This resolver decides observability from two item paths alone. The tags
//! that need the scope tree (super-visibility and path-restricted
//! visibility) are denied here; the tree-based resolver decides them.

use vstd::prelude::*;
use crate::component::{Component, ComponentModel, Item};

verus! {

/// A visibility marker as written at a declaration site.
#[derive(Copy, Clone, Debug)]
pub enum Vis<'a> {
    /// No marker: private to the enclosing module.
    Bare,
    /// `pub`: observable from anywhere.
    Pub,
    /// Observable from the parent module.
    Super,
    /// Observable from the whole compilation unit.
    Crate,
    /// Observable from the named path only.
    Path(&'a Item),
}

/// True when the two paths agree on their first component, which both
/// must have and which both must be named.
pub open spec fn same_crate(a: Seq<ComponentModel>, b: Seq<ComponentModel>) -> bool {
    ||| a.len() == 0 && b.len() == 0
    ||| a.len() > 0 && b.len() > 0 && a[0] is Str && b[0] is Str && a[0] == b[0]
}

/// True when the two paths are equal component for component.
pub fn paths_eq(source: &Item, target: &Item) -> (r: bool)
    ensures
        r == (source@ =~= target@),
{
    let a = source.components();
    let b = target.components();
    if a.len() != b.len() {
        return false;
    }
    let mut i: usize = 0;
    while i < a.len()
        invariant
            i <= a.deep_view().len() == b.deep_view().len(),
            a.deep_view() == source@,
            b.deep_view() == target@,
            a.deep_view().len() == a@.len(),
            b.deep_view().len() == b@.len(),
            forall|j: int| 0 <= j < i ==> source@[j] == target@[j],
        decreases a.len() - i,
    {
        if !(a[i] == b[i]) {
            proof {
                assert(source@[i as int] == a@[i as int]@);
                assert(target@[i as int] == b@[i as int]@);
            }
            return false;
        }
        proof {
            assert(source@[i as int] == a@[i as int]@);
            assert(target@[i as int] == b@[i as int]@);
        }
        i = i + 1;
    }
    true
}

/// True when `source` is a strict prefix of `target`.
pub fn is_ancestor(source: &Item, target: &Item) -> (r: bool)
    ensures
        r == (source@.len() < target@.len() && source@ =~= target@.subrange(
            0,
            source@.len() as int,
        )),
{
    let a = source.components();
    let b = target.components();
    if a.len() >= b.len() {
        return false;
    }
    let mut i: usize = 0;
    while i < a.len()
        invariant
            i <= a.deep_view().len() < b.deep_view().len(),
            a.deep_view() == source@,
            b.deep_view() == target@,
            a.deep_view().len() == a@.len(),
            b.deep_view().len() == b@.len(),
            forall|j: int| 0 <= j < i ==> source@[j] == target@[j],
        decreases a.len() - i,
    {
        if !(a[i] == b[i]) {
            proof {
                assert(source@[i as int] == a@[i as int]@);
                assert(target@[i as int] == b@[i as int]@);
            }
            return false;
        }
        proof {
            assert(source@[i as int] == a@[i as int]@);
            assert(target@[i as int] == b@[i as int]@);
        }
        i = i + 1;
    }
    true
}

/// True when `source` is the immediate parent path of `target`.
pub fn is_parent(source: &Item, target: &Item) -> (r: bool)
    ensures
        r == (source@.len() + 1 == target@.len() && source@ =~= target@.subrange(
            0,
            source@.len() as int,
        )),
{
    if target.len() == 0 || source.len() != target.len() - 1 {
        return false;
    }
    is_ancestor(source, target)
}

/// True when the two paths lie in the same compilation unit: their
/// leading components are the same named root.
pub fn is_same_crate(source: &Item, target: &Item) -> (r: bool)
    ensures
        r == same_crate(source@, target@),
{
    let a = source.components();
    let b = target.components();
    proof {
        if a@.len() > 0 {
            assert(source@[0] == a@[0]@);
        }
        if b@.len() > 0 {
            assert(target@[0] == b@[0]@);
        }
    }
    if a.len() == 0 && b.len() == 0 {
        return true;
    }
    if a.len() == 0 || b.len() == 0 {
        return false;
    }
    let fa = &a[0];
    let fb = &b[0];
    if !fa.is_str() || !fb.is_str() {
        return false;
    }
    fa == fb
}

/// Decide whether `target`, declared with marker `vis`, is observable
/// from `source`, judging from the two item paths alone.
pub fn is_visible_to(source: &Item, target: &Item, vis: Vis<'_>) -> (r: bool)
    ensures
        r == match vis {
            Vis::Pub => true,
            Vis::Bare => source@ == target@,
            Vis::Super => false,
            Vis::Crate => same_crate(source@, target@),
            Vis::Path(_) => false,
        },
{
    match vis {
        Vis::Pub => true,
        Vis::Bare => paths_eq(source, target),
        Vis::Super => false,
        Vis::Crate => is_same_crate(source, target),
        Vis::Path(_) => false,
    }
}

} // verus!
