//! The item path builder: a per-indexing-context stack of components
//! naming the declaration being indexed, kept in lockstep with a scope
//! tree through paired scoped acquisitions.
//!
//! Anonymous constructs (blocks, closures, async blocks, macro slots)
//! are numbered by sibling order rather than named; each stack node
//! counts the anonymous children allocated under it so far.

use vstd::prelude::*;
use crate::component::{Component, ComponentModel, Item};
use crate::path_tree::{
    decimal_string, dec_spec, pop_model, push_model, same_tree, PathKind, PathRef, PathTree,
    PathTreeError,
};
use crate::sec::Visibility;
use crate::worker::QualifiedPath;

verus! {

/// One node of the item path stack: the component it contributes and
/// the number of anonymous children allocated under it so far.
pub struct Node {
    pub children: usize,
    pub component: Component,
}

/// A scoped acquisition for one push on the item path builder. Release
/// is explicit through `Items::exit`, which pops exactly one element;
/// the macro slot push leaves the scope tree untouched, so its guard
/// carries no tree receipt.
pub struct Guard {
    pub tree_guard: Option<crate::path_tree::Guard>,
}

/// The spec-level components of the stack, in order.
pub open spec fn stack_components(path: Seq<Node>) -> Seq<ComponentModel> {
    Seq::new(path.len(), |i: int| path[i].component@)
}

/// The scope that `Items::new` opened for base component `c` at
/// position `j`: a public module for a named component, a nameless-
/// access block numbered by its index for an anonymous one; each is a
/// child of the scope before it.
pub open spec fn base_scope_opened(t: PathTree, j: int, c: ComponentModel) -> bool {
    &&& t.node(j + 1).parent == Some(crate::path_tree::PathId(j as u32))
    &&& match c {
        ComponentModel::Str(name) => t.node(j + 1).name@ == name && t.node(j + 1).kind is Mod
            && t.node(j + 1).vis == Visibility::Public,
        ComponentModel::Block(n) => t.node(j + 1).name@ == dec_spec(n as nat) && t.node(
            j + 1,
        ).kind is Block && t.node(j + 1).vis == Visibility::NoAccess,
        ComponentModel::Closure(n) => t.node(j + 1).name@ == dec_spec(n as nat) && t.node(
            j + 1,
        ).kind is Block && t.node(j + 1).vis == Visibility::NoAccess,
        ComponentModel::AsyncBlock(n) => t.node(j + 1).name@ == dec_spec(n as nat) && t.node(
            j + 1,
        ).kind is Block && t.node(j + 1).vis == Visibility::NoAccess,
        ComponentModel::Macro(n) => t.node(j + 1).name@ == dec_spec(n as nat) && t.node(
            j + 1,
        ).kind is Block && t.node(j + 1).vis == Visibility::NoAccess,
    }
}

/// The sibling index the next anonymous push will take.
pub open spec fn next_index(path: Seq<Node>) -> int {
    if path.len() == 0 {
        0
    } else {
        path.last().children as int
    }
}

/// The stack after one anonymous allocation: the top node's counter
/// advanced by one (it saturates at the machine limit).
pub open spec fn bumped(path: Seq<Node>) -> Seq<Node> {
    if path.len() == 0 {
        path
    } else {
        let last = path.last();
        path.update(
            path.len() - 1,
            Node {
                children: if last.children < usize::MAX {
                    (last.children + 1) as usize
                } else {
                    last.children
                },
                component: last.component,
            },
        )
    }
}

/// Manage item paths for one indexing context.
pub struct Items {
    pub path: Vec<Node>,
    pub tree: PathTree,
}

impl Items {
    /// Well-formedness: the scope tree is well-formed.
    pub open spec fn wf(self) -> bool {
        self.tree.wf()
    }

    /// Construct a new items manager rooted at the given base
    /// components: each named component opens a module scope, each
    /// anonymous one a block scope, and all of them stay entered.
    pub fn new(base: Vec<Component>) -> (r: Items)
        requires
            base@.len() < u32::MAX,
        ensures
            r.wf(),
            r.path@.len() == base@.len(),
            stack_components(r.path@) =~= base.deep_view(),
            forall|i: int| 0 <= i < r.path@.len() ==> (#[trigger] r.path@[i]).children == 0,
            r.tree.spec_len() == base@.len() + 1,
            r.tree.cur() == base@.len(),
            forall|j: int|
                0 <= j < base@.len() ==> base_scope_opened(r.tree, j, (#[trigger] base@[j])@),
    {
        let mut tree = PathTree::empty();
        let mut path: Vec<Node> = Vec::new();
        let mut i: usize = 0;
        while i < base.len()
            invariant
                i <= base@.len(),
                base@.len() < u32::MAX,
                tree.wf(),
                tree.spec_len() == i + 1,
                tree.cur() == i,
                path@.len() == i,
                forall|j: int|
                    0 <= j < i ==> (#[trigger] path@[j]).children == 0 && path@[j].component@
                        == base@[j]@,
                forall|j: int| 0 <= j < i ==> base_scope_opened(tree, j, (#[trigger] base@[j])@),
            decreases base.len() - i,
        {
            let component = base[i].cloned();
            let ghost pre = tree;
            let guard = match &component {
                Component::Str(n) => tree.push_scoped(
                    n.as_str(),
                    PathKind::Mod,
                    Visibility::Public,
                ),
                Component::Block(n) | Component::Closure(n) | Component::AsyncBlock(n)
                | Component::Macro(n) => {
                    let name = decimal_string(*n as u64);
                    tree.push_scoped(name.as_str(), PathKind::Block, Visibility::NoAccess)
                },
            };
            let _entered = guard.unwrap();
            path.push(Node { children: 0, component });
            proof {
                assert forall|j: int| 0 <= j < i + 1 implies base_scope_opened(
                    tree,
                    j,
                    (#[trigger] base@[j])@,
                ) by {
                    if j < i {
                        // the scopes opened earlier keep their name, kind,
                        // visibility and parent through the new push
                        assert(base_scope_opened(pre, j, base@[j]@));
                        assert(tree.node(j + 1).parent == pre.node(j + 1).parent);
                        assert(tree.node(j + 1).name@ == pre.node(j + 1).name@);
                        assert(tree.node(j + 1).kind == pre.node(j + 1).kind);
                        assert(tree.node(j + 1).vis == pre.node(j + 1).vis);
                    }
                }
            }
            i = i + 1;
        }
        Items { path, tree }
    }

    /// The name of the crate scope.
    pub fn crate_(&self) -> (r: String)
        requires
            self.tree.spec_len() >= 2,
            self.wf(),
        ensures
            r@ == self.tree.node(1).name@,
    {
        let c = self.tree.crate_();
        c.name(&self.tree)
    }

    /// The qualified path of the scope that `super` names from the
    /// current scope.
    pub fn super_(&self) -> (r: Result<QualifiedPath, PathTreeError>)
        requires
            self.wf(),
        ensures
            match crate::path_tree::spec_self_mod(self.tree, self.tree.cur()) {
                Some(m) => match crate::path_tree::spec_parent_mod(self.tree, m) {
                    Some(s) => r is Ok && r.unwrap()@ == crate::path_tree::path_names(
                        self.tree,
                        s,
                    ),
                    None => r is Err && r->Err_0 is UnresolvablePath
                        && r->Err_0->UnresolvablePath_msg@
                        == "there are too many leading `super` keywords"@,
                },
                None => r is Err && r->Err_0 is UnresolvablePath
                    && r->Err_0->UnresolvablePath_msg@
                    == "there are too many leading `super` keywords"@,
            },
    {
        proof {
            crate::path_tree::lemma_parent_mod_bounds(self.tree, self.tree.cur());
            if crate::path_tree::spec_self_mod(self.tree, self.tree.cur()) is Some {
                crate::path_tree::lemma_parent_mod_bounds(
                    self.tree,
                    crate::path_tree::spec_self_mod(self.tree, self.tree.cur()).unwrap(),
                );
            }
        }
        match self.tree.super_() {
            Ok(supe) => Ok(supe.qualified_path(&self.tree)),
            Err(e) => Err(e),
        }
    }

    /// The qualified path of the scope that `self` names from the
    /// current scope.
    pub fn self_(&self) -> (r: Result<QualifiedPath, PathTreeError>)
        requires
            self.wf(),
        ensures
            match crate::path_tree::spec_self_mod(self.tree, self.tree.cur()) {
                Some(m) => r is Ok && r.unwrap()@ == crate::path_tree::path_names(self.tree, m),
                None => r is Err && r->Err_0 is UnresolvablePath
                    && r->Err_0->UnresolvablePath_msg@
                    == "could not determine context for `self`"@,
            },
    {
        proof {
            crate::path_tree::lemma_parent_mod_bounds(self.tree, self.tree.cur());
        }
        match self.tree.self_() {
            Ok(me) => Ok(me.qualified_path(&self.tree)),
            Err(e) => Err(e),
        }
    }

    /// Take a snapshot of the existing items: an independent deep copy
    /// of both the stack and the tree, so that deferred macro re-entry
    /// can restore the exact declaration context later, whatever the
    /// live context does meanwhile.
    pub fn snapshot(&self) -> (r: Items)
        ensures
            r.path@.len() == self.path@.len(),
            forall|i: int|
                0 <= i < r.path@.len() ==> (#[trigger] r.path@[i]).children
                    == self.path@[i].children && r.path@[i].component@
                    == self.path@[i].component@,
            same_tree(r.tree, self.tree),
            self.wf() ==> r.wf(),
    {
        let mut path: Vec<Node> = Vec::new();
        let mut i: usize = 0;
        while i < self.path.len()
            invariant
                i <= self.path@.len(),
                path@.len() == i,
                forall|j: int|
                    0 <= j < i ==> (#[trigger] path@[j]).children == self.path@[j].children
                        && path@[j].component@ == self.path@[j].component@,
            decreases self.path.len() - i,
        {
            path.push(
                Node {
                    children: self.path[i].children,
                    component: self.path[i].component.cloned(),
                },
            );
            i = i + 1;
        }
        Items { path, tree: PathTree::cloned(&self.tree) }
    }

    /// Resolve a qualified path in the scope tree.
    pub fn find(&self, qualpath: &QualifiedPath) -> (r: Result<PathRef, PathTreeError>)
        requires
            self.wf(),
        ensures
            match r {
                Ok(p) => crate::worker::nonempty(qualpath@).len() > 0
                    && crate::path_tree::find_from(
                    self.tree,
                    0,
                    crate::worker::nonempty(qualpath@),
                    0,
                ) == Some(p.idx as int) && p.idx < self.tree.spec_len(),
                Err(e) => {
                    let cs = crate::worker::nonempty(qualpath@);
                    &&& e is UnresolvablePath
                    &&& cs.len() == 0 || crate::path_tree::find_from(self.tree, 0, cs, 0) is None
                    &&& (cs.len() == 0 ==> e->UnresolvablePath_msg@ == "could not find path"@)
                    &&& (cs.len() > 0 && crate::path_tree::find_from(self.tree, 0, cs, 0) is None
                        ==> e->UnresolvablePath_msg@ == "failed to resolve path at "@ + cs[
                        crate::path_tree::first_missing(self.tree, 0, cs, 0)])
                },
            },
    {
        self.tree.find(qualpath)
    }

    /// The current scope.
    pub fn current(&self) -> (r: PathRef)
        ensures
            r.idx == self.tree.cur(),
    {
        self.tree.current()
    }

    /// The scope at `idx`, if it exists.
    pub fn get(&self, idx: usize) -> (r: Option<PathRef>)
        ensures
            r == if idx < self.tree.spec_len() {
                Some(PathRef { idx })
            } else {
                None::<PathRef>
            },
    {
        self.tree.get(idx)
    }

    /// Check if the current path is empty.
    pub fn is_empty(&self) -> (r: bool)
        ensures
            r == (self.path@.len() == 0),
    {
        self.path.len() == 0
    }

    /// Allocate the next sibling index under the current stack top.
    fn next_child(&mut self) -> (r: usize)
        ensures
            r == next_index(old(self).path@),
            final(self).path@ == bumped(old(self).path@),
            final(self).tree == old(self).tree,
    {
        let n = self.path.len();
        if n > 0 {
            let c = self.path[n - 1].children;
            if c < usize::MAX {
                self.path[n - 1].children = c + 1;
            }
            proof {
                assert(final(self).path@ =~= bumped(old(self).path@));
            }
            c
        } else {
            0
        }
    }

    /// Push an anonymous block component and enter a matching block
    /// scope; returns the guard for both.
    pub fn push_block(&mut self) -> (r: Guard)
        requires
            old(self).wf(),
            old(self).tree.spec_len() <= u32::MAX,
        ensures
            final(self).wf(),
            r.tree_guard is Some && r.tree_guard.unwrap().path_ref.idx == old(
                self,
            ).tree.spec_len(),
            final(self).path@ =~= bumped(old(self).path@).push(
                Node {
                    children: 0,
                    component: Component::Block(next_index(old(self).path@) as usize),
                },
            ),
            final(self).tree@ =~~= push_model(
                old(self).tree@,
                dec_spec(next_index(old(self).path@) as nat),
                PathKind::Block,
                Visibility::NoAccess,
            ),
            entered_scope(
                old(self).tree,
                final(self).tree,
                dec_spec(next_index(old(self).path@) as nat),
                PathKind::Block,
                Visibility::NoAccess,
            ),
    {
        let index = self.next_child();
        self.path.push(Node { children: 0, component: Component::Block(index) });
        let name = decimal_string(index as u64);
        let guard = self.tree.push_scoped(name.as_str(), PathKind::Block, Visibility::NoAccess);
        Guard { tree_guard: Some(guard.unwrap()) }
    }

    /// Push an anonymous closure component and enter a matching closure
    /// scope; returns the guard for both.
    pub fn push_closure(&mut self) -> (r: Guard)
        requires
            old(self).wf(),
            old(self).tree.spec_len() <= u32::MAX,
        ensures
            final(self).wf(),
            r.tree_guard is Some && r.tree_guard.unwrap().path_ref.idx == old(
                self,
            ).tree.spec_len(),
            final(self).path@ =~= bumped(old(self).path@).push(
                Node {
                    children: 0,
                    component: Component::Closure(next_index(old(self).path@) as usize),
                },
            ),
            final(self).tree@ =~~= push_model(
                old(self).tree@,
                dec_spec(next_index(old(self).path@) as nat),
                PathKind::Closure,
                Visibility::NoAccess,
            ),
            entered_scope(
                old(self).tree,
                final(self).tree,
                dec_spec(next_index(old(self).path@) as nat),
                PathKind::Closure,
                Visibility::NoAccess,
            ),
    {
        let index = self.next_child();
        self.path.push(Node { children: 0, component: Component::Closure(index) });
        let name = decimal_string(index as u64);
        let guard = self.tree.push_scoped(name.as_str(), PathKind::Closure, Visibility::NoAccess);
        Guard { tree_guard: Some(guard.unwrap()) }
    }

    /// Push an anonymous async block component and enter a matching
    /// block scope; returns the guard for both.
    pub fn push_async_block(&mut self) -> (r: Guard)
        requires
            old(self).wf(),
            old(self).tree.spec_len() <= u32::MAX,
        ensures
            final(self).wf(),
            r.tree_guard is Some && r.tree_guard.unwrap().path_ref.idx == old(
                self,
            ).tree.spec_len(),
            final(self).path@ =~= bumped(old(self).path@).push(
                Node {
                    children: 0,
                    component: Component::AsyncBlock(next_index(old(self).path@) as usize),
                },
            ),
            final(self).tree@ =~~= push_model(
                old(self).tree@,
                dec_spec(next_index(old(self).path@) as nat),
                PathKind::Block,
                Visibility::NoAccess,
            ),
            entered_scope(
                old(self).tree,
                final(self).tree,
                dec_spec(next_index(old(self).path@) as nat),
                PathKind::Block,
                Visibility::NoAccess,
            ),
    {
        let index = self.next_child();
        self.path.push(Node { children: 0, component: Component::AsyncBlock(index) });
        let name = decimal_string(index as u64);
        let guard = self.tree.push_scoped(name.as_str(), PathKind::Block, Visibility::NoAccess);
        Guard { tree_guard: Some(guard.unwrap()) }
    }

    /// Push the anonymous slot of a macro call. Only the stack moves:
    /// the scope tree is left untouched, so that an item expansion can
    /// later occupy the slot's position.
    pub fn push_macro(&mut self) -> (r: Guard)
        ensures
            r.tree_guard is None,
            final(self).path@ =~= bumped(old(self).path@).push(
                Node {
                    children: 0,
                    component: Component::Macro(next_index(old(self).path@) as usize),
                },
            ),
            final(self).tree == old(self).tree,
    {
        let index = self.next_child();
        self.path.push(Node { children: 0, component: Component::Macro(index) });
        Guard { tree_guard: None }
    }

    /// The item path for the current state of the stack.
    pub fn item(&self) -> (r: Item)
        ensures
            r@ =~= stack_components(self.path@),
    {
        let mut components: Vec<Component> = Vec::new();
        let mut i: usize = 0;
        while i < self.path.len()
            invariant
                i <= self.path@.len(),
                components@.len() == i,
                forall|j: int|
                    0 <= j < i ==> (#[trigger] components@[j])@ == self.path@[j].component@,
            decreases self.path.len() - i,
        {
            components.push(self.path[i].component.cloned());
            i = i + 1;
        }
        proof {
            assert forall|j: int| 0 <= j < components@.len() implies components.deep_view()[j]
                == stack_components(self.path@)[j] by {
                assert(components.deep_view()[j] == components@[j].deep_view());
            }
            assert(components.deep_view() =~= stack_components(self.path@));
        }
        Item::of(components)
    }

    /// Pop the last stack component, if any. The tree is not touched:
    /// its own release goes through `exit`.
    pub fn pop(&mut self) -> (r: Option<Component>)
        ensures
            final(self).tree == old(self).tree,
            old(self).path@.len() == 0 ==> r is None && final(self).path@ == old(self).path@,
            old(self).path@.len() > 0 ==> r is Some && r.unwrap()@ == old(
                self,
            ).path@.last().component@ && final(self).path@ == old(self).path@.drop_last(),
    {
        match self.path.pop() {
            Some(node) => Some(node.component),
            None => None,
        }
    }

    /// Push a module declaration.
    pub fn push_mod(&mut self, name: &str, vis: Visibility) -> (r: Guard)
        requires
            old(self).wf(),
            old(self).tree.spec_len() <= u32::MAX,
        ensures
            final(self).wf(),
            r.tree_guard is Some && r.tree_guard.unwrap().path_ref.idx == old(
                self,
            ).tree.spec_len(),
            pushed_named(old(self).path@, final(self).path@, name@),
            final(self).tree@ =~~= push_model(old(self).tree@, name@, PathKind::Mod, vis),
            entered_scope(old(self).tree, final(self).tree, name@, PathKind::Mod, vis),
    {
        self.push_named_kind(name, PathKind::Mod, vis)
    }

    /// Push a function declaration.
    pub fn push_fn(&mut self, name: &str, vis: Visibility) -> (r: Guard)
        requires
            old(self).wf(),
            old(self).tree.spec_len() <= u32::MAX,
        ensures
            final(self).wf(),
            r.tree_guard is Some && r.tree_guard.unwrap().path_ref.idx == old(
                self,
            ).tree.spec_len(),
            pushed_named(old(self).path@, final(self).path@, name@),
            final(self).tree@ =~~= push_model(old(self).tree@, name@, PathKind::Fn, vis),
            entered_scope(old(self).tree, final(self).tree, name@, PathKind::Fn, vis),
    {
        self.push_named_kind(name, PathKind::Fn, vis)
    }

    /// Push a const declaration.
    pub fn push_const(&mut self, name: &str, vis: Visibility) -> (r: Guard)
        requires
            old(self).wf(),
            old(self).tree.spec_len() <= u32::MAX,
        ensures
            final(self).wf(),
            r.tree_guard is Some && r.tree_guard.unwrap().path_ref.idx == old(
                self,
            ).tree.spec_len(),
            pushed_named(old(self).path@, final(self).path@, name@),
            final(self).tree@ =~~= push_model(old(self).tree@, name@, PathKind::Const, vis),
            entered_scope(old(self).tree, final(self).tree, name@, PathKind::Const, vis),
    {
        self.push_named_kind(name, PathKind::Const, vis)
    }

    /// Push a struct declaration.
    pub fn push_struct(&mut self, name: &str, vis: Visibility) -> (r: Guard)
        requires
            old(self).wf(),
            old(self).tree.spec_len() <= u32::MAX,
        ensures
            final(self).wf(),
            r.tree_guard is Some && r.tree_guard.unwrap().path_ref.idx == old(
                self,
            ).tree.spec_len(),
            pushed_named(old(self).path@, final(self).path@, name@),
            final(self).tree@ =~~= push_model(old(self).tree@, name@, PathKind::Struct, vis),
            entered_scope(old(self).tree, final(self).tree, name@, PathKind::Struct, vis),
    {
        self.push_named_kind(name, PathKind::Struct, vis)
    }

    /// Push an enum declaration.
    pub fn push_enum(&mut self, name: &str, vis: Visibility) -> (r: Guard)
        requires
            old(self).wf(),
            old(self).tree.spec_len() <= u32::MAX,
        ensures
            final(self).wf(),
            r.tree_guard is Some && r.tree_guard.unwrap().path_ref.idx == old(
                self,
            ).tree.spec_len(),
            pushed_named(old(self).path@, final(self).path@, name@),
            final(self).tree@ =~~= push_model(old(self).tree@, name@, PathKind::Enum, vis),
            entered_scope(old(self).tree, final(self).tree, name@, PathKind::Enum, vis),
    {
        self.push_named_kind(name, PathKind::Enum, vis)
    }

    /// Push a struct field.
    pub fn push_field(&mut self, name: &str, vis: Visibility) -> (r: Guard)
        requires
            old(self).wf(),
            old(self).tree.spec_len() <= u32::MAX,
        ensures
            final(self).wf(),
            r.tree_guard is Some && r.tree_guard.unwrap().path_ref.idx == old(
                self,
            ).tree.spec_len(),
            pushed_named(old(self).path@, final(self).path@, name@),
            final(self).tree@ =~~= push_model(old(self).tree@, name@, PathKind::Field, vis),
            entered_scope(old(self).tree, final(self).tree, name@, PathKind::Field, vis),
    {
        self.push_named_kind(name, PathKind::Field, vis)
    }

    /// Push an impl block.
    pub fn push_impl(&mut self, name: &str, vis: Visibility) -> (r: Guard)
        requires
            old(self).wf(),
            old(self).tree.spec_len() <= u32::MAX,
        ensures
            final(self).wf(),
            r.tree_guard is Some && r.tree_guard.unwrap().path_ref.idx == old(
                self,
            ).tree.spec_len(),
            pushed_named(old(self).path@, final(self).path@, name@),
            final(self).tree@ =~~= push_model(old(self).tree@, name@, PathKind::Impl, vis),
            entered_scope(old(self).tree, final(self).tree, name@, PathKind::Impl, vis),
    {
        self.push_named_kind(name, PathKind::Impl, vis)
    }

    /// Push an enum variant.
    pub fn push_variant(&mut self, name: &str, vis: Visibility) -> (r: Guard)
        requires
            old(self).wf(),
            old(self).tree.spec_len() <= u32::MAX,
        ensures
            final(self).wf(),
            r.tree_guard is Some && r.tree_guard.unwrap().path_ref.idx == old(
                self,
            ).tree.spec_len(),
            pushed_named(old(self).path@, final(self).path@, name@),
            final(self).tree@ =~~= push_model(old(self).tree@, name@, PathKind::Variant, vis),
            entered_scope(old(self).tree, final(self).tree, name@, PathKind::Variant, vis),
    {
        self.push_named_kind(name, PathKind::Variant, vis)
    }

    /// Push a named declaration of the given kind: the stack gains the
    /// name, the tree gains a matching scope, and both are entered.
    pub fn push_named_kind(&mut self, name: &str, kind: PathKind, vis: Visibility) -> (r: Guard)
        requires
            old(self).wf(),
            old(self).tree.spec_len() <= u32::MAX,
            !(kind is Use),
        ensures
            final(self).wf(),
            r.tree_guard is Some && r.tree_guard.unwrap().path_ref.idx == old(
                self,
            ).tree.spec_len(),
            pushed_named(old(self).path@, final(self).path@, name@),
            final(self).tree@ =~~= push_model(old(self).tree@, name@, kind, vis),
            entered_scope(old(self).tree, final(self).tree, name@, kind, vis),
    {
        self.path.push(Node { children: 0, component: Component::Str(name.to_owned()) });
        let guard = self.tree.push_scoped(name, kind, vis);
        Guard { tree_guard: Some(guard.unwrap()) }
    }

    /// Release one push: pop the stack, and, when the push entered a
    /// tree scope, leave it too. The caller releases strictly in
    /// reverse order of acquisition; handing back a guard whose scope
    /// is not the current one is an internal-consistency failure that
    /// this interface rules out.
    pub fn exit(&mut self, guard: Guard)
        requires
            old(self).wf(),
            old(self).path@.len() > 0,
            guard.tree_guard is Some ==> {
                &&& old(self).tree.cur() == guard.tree_guard.unwrap().path_ref.idx
                &&& old(self).tree.node(old(self).tree.cur()).parent is Some
            },
        ensures
            final(self).wf(),
            final(self).path@ == old(self).path@.drop_last(),
            guard.tree_guard is Some ==> final(self).tree@ =~~= pop_model(old(self).tree@),
            guard.tree_guard is Some ==> {
                &&& final(self).tree.spec_len() == old(self).tree.spec_len()
                &&& final(self).tree.cur() == old(self).tree.node(
                    old(self).tree.cur(),
                ).parent.unwrap().0 as int
                &&& forall|i: int|
                    0 <= i < old(self).tree.spec_len() ==> #[trigger] final(self).tree.node(i)
                        == old(self).tree.node(i)
            },
            guard.tree_guard is None ==> final(self).tree == old(self).tree,
    {
        let popped = self.path.pop();
        match guard.tree_guard {
            Some(_tg) => {
                let _left = self.tree.pop();
            },
            None => {},
        }
    }
}


/// The tree after entering one fresh scope under the old current node:
/// one node added and made current, every earlier node keeping its
/// parent, name, kind and visibility.
pub open spec fn entered_scope(
    t0: PathTree,
    t1: PathTree,
    name: Seq<char>,
    kind: PathKind,
    vis: Visibility,
) -> bool {
    &&& t1.spec_len() == t0.spec_len() + 1
    &&& t1.cur() == t0.spec_len()
    &&& t1.node(t1.cur()).parent == Some(crate::path_tree::PathId(t0.cur() as u32))
    &&& t1.node(t1.cur()).name@ == name
    &&& t1.node(t1.cur()).kind == kind
    &&& t1.node(t1.cur()).vis == vis
    &&& forall|i: int|
        0 <= i < t0.spec_len() ==> (#[trigger] t1.node(i)).parent == t0.node(i).parent && t1.node(
            i,
        ).name@ == t0.node(i).name@ && t1.node(i).kind == t0.node(i).kind && t1.node(i).vis
            == t0.node(i).vis
}

/// True when `new_path` is `old_path` with one named component pushed.
pub open spec fn pushed_named(old_path: Seq<Node>, new_path: Seq<Node>, name: Seq<char>) -> bool {
    &&& new_path.len() == old_path.len() + 1
    &&& new_path.drop_last() =~= old_path
    &&& new_path.last().component@ == ComponentModel::Str(name)
    &&& new_path.last().children == 0
}

} // verus!
