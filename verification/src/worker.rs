//! The worker used by the compiler front end, and the qualified paths it
//! resolves.
//!
//! The worker drains a strictly sequential FIFO queue of tasks, run to
//! exhaustion and never reordered. Loading a file parses it and queues
//! an indexing task; indexing walks declarations, allocates scope-tree
//! and item-path entries, and queues an import task per `use` and an
//! expansion task per macro call; imports resolve against the scope
//! tree and the symbol table; expansions re-enter the snapshot context
//! and queue indexing of the expansion. Since macro and import tasks
//! are created only after the spawning declaration is discovered, and
//! the queue is first-in first-out, resolution at dispatch time sees
//! exactly what was queued strictly before it; forward references are
//! carried by deferred aliases instead of blocking.

use vstd::prelude::*;
use crate::ast;
use crate::ast::token::Span;
use crate::component::{Component, ComponentModel, Item};
use crate::errors::{CompileError, CompileErrorKind, LoadError};
use crate::items::Items;
use crate::parser::Parser;
use crate::path_tree::{PathId, PathKind, PathTree, PathTreeError};
use crate::sec::Visibility;
use crate::unit::{continues, UnitBuilder};

verus! {

/// The deepest nesting of macro expansions the worker will follow: a
/// macro whose expansion keeps producing macro calls is reported as an
/// error at this depth rather than run until resource exhaustion.
pub const MAX_EXPANSION_DEPTH: usize = 64;

/// The kind of a loaded file.
#[derive(Debug)]
pub enum LoadFileKind {
    /// A root file.
    Root,
    /// A loaded module, which inherits its root from the file it was
    /// loaded from.
    Module { root: Option<String> },
}

/// What an indexing task walks.
#[derive(Debug)]
pub enum IndexAst {
    /// The root of a file.
    File(ast::File),
    /// A single item.
    Item(ast::Item),
    /// An expression.
    Expr(ast::Expr),
}

/// Whether a macro stands in item or in expression position.
#[derive(Debug, Clone, Copy, PartialEq, Eq, Structural)]
pub enum MacroKind {
    /// Expression position.
    Expr,
    /// Item position.
    Item,
}

/// An indexing task.
#[derive(Debug)]
pub struct Index {
    /// The item being built.
    pub item: Item,
    /// The indexing context the task works in.
    pub ctx: usize,
    /// The source the fragment came from.
    pub source_id: usize,
    /// The fragment to walk.
    pub ast: IndexAst,
    /// How many macro expansions lie above this fragment.
    pub depth: usize,
}

/// An import task. It carries exactly what resolution reads off the
/// `use` declaration: its span, its declared visibility, and whether
/// it ends in a wildcard.
#[derive(Debug)]
pub struct Import {
    /// The item path the `use` was declared at.
    pub item: Item,
    /// The span of the declaration.
    pub span: Span,
    /// The visibility the declaration carries.
    pub visibility: Visibility,
    /// True when the declaration ends in `::*`.
    pub wildcard: bool,
    /// The source the declaration came from.
    pub source_id: usize,
    /// The qualified path the declaration names.
    pub qualified_path: QualifiedPath,
    /// The indexing context the declaration was found in.
    pub ctx: usize,
    /// The scope-tree node the declaration was found under.
    pub path_ref_id: usize,
}

/// A macro expansion task.
#[derive(Debug)]
pub struct Macro {
    /// The kind of the macro.
    pub kind: MacroKind,
    /// The snapshot context the expansion re-enters.
    pub ctx: usize,
    /// The call causing the expansion.
    pub ast: ast::MacroCall,
    /// The source the call came from.
    pub source_id: usize,
    /// How many expansions lie above this call.
    pub depth: usize,
}

/// A single task that can be fed to the worker. A task is consumed
/// exactly once; its queue slot is retired, never reused.
#[derive(Debug)]
pub enum Task {
    /// Load a file: parse it and queue its indexing.
    LoadFile {
        /// The kind of loaded file.
        kind: LoadFileKind,
        /// The item of the file to load.
        item: Item,
        /// The source id of the file being loaded.
        source_id: usize,
    },
    /// An indexing task, which will index the specified fragment.
    Index(Index),
    /// A task to process an import.
    Import(Import),
    /// A task to expand a macro; it may queue further indexing tasks.
    ExpandMacro(Macro),
    /// A slot whose task was already dispatched.
    Done,
}

/// One source text under a name.
#[derive(Debug)]
pub struct Source {
    /// The name of the source, for diagnostics.
    pub name: String,
    /// The text itself.
    pub text: String,
}

/// The loaded sources, addressed by insertion order.
#[derive(Debug)]
pub struct Sources {
    pub sources: Vec<Source>,
}

impl Sources {
    /// No sources.
    pub fn new() -> (r: Sources)
        ensures
            r.sources@.len() == 0,
    {
        Sources { sources: Vec::new() }
    }

    /// Add a source and return its id.
    pub fn insert(&mut self, source: Source) -> (r: usize)
        ensures
            final(self).sources@ == old(self).sources@.push(source),
            r == old(self).sources@.len(),
    {
        let id = self.sources.len();
        self.sources.push(source);
        id
    }

    /// The source with id `id`, if any.
    pub fn get(&self, id: usize) -> (r: Option<&Source>)
        ensures
            id < self.sources@.len() ==> r is Some,
            id >= self.sources@.len() ==> r is None,
    {
        if id < self.sources.len() {
            Some(&self.sources[id])
        } else {
            None
        }
    }
}

/// One macro known to the expander: expanding a call of `name` yields
/// the given source text, parsed at the call's position. The macro
/// evaluator itself is an external collaborator; its definitions are
/// handed to the worker as data.
#[derive(Debug)]
pub struct MacroDef {
    /// The macro's name.
    pub name: String,
    /// Whether the expansion is an item or an expression.
    pub kind: MacroKind,
    /// The source text of the expansion.
    pub expansion: String,
}

/// The visibility tag that a declaration-site marker denotes: none is
/// private; a plain `pub` is public; `pub(crate)` is crate-visible;
/// `pub(super)` is super-visible; any other restriction stays private.
pub open spec fn spec_sec_visibility(v: Option<ast::Visibility>) -> Visibility {
    match v {
        None => Visibility::PrivateToModule,
        Some(ast::Visibility::Public(_)) => Visibility::Public,
        Some(ast::Visibility::Restricted(r)) => match r.path.first {
            ast::PathSegment::Crate(_) => Visibility::CrateVisible,
            ast::PathSegment::Super(_) => Visibility::SuperVisible,
            _ => Visibility::PrivateToModule,
        },
    }
}

/// Read the visibility tag off a declaration-site marker.
pub fn sec_visibility(v: &Option<ast::Visibility>) -> (r: Visibility)
    ensures
        r == spec_sec_visibility(*v),
{
    match v {
        None => Visibility::PrivateToModule,
        Some(ast::Visibility::Public(_)) => Visibility::Public,
        Some(ast::Visibility::Restricted(rst)) => match &rst.path.first {
            ast::PathSegment::Crate(_) => Visibility::CrateVisible,
            ast::PathSegment::Super(_) => Visibility::SuperVisible,
            _ => Visibility::PrivateToModule,
        },
    }
}

/// True when `a` is a (not necessarily strict) prefix of `b`.
pub open spec fn prefix_of(a: Seq<Seq<char>>, b: Seq<Seq<char>>) -> bool {
    a.len() <= b.len() && forall|i: int| 0 <= i < a.len() ==> a[i] == b[i]
}

/// The components of `p` that are not empty, in order.
pub open spec fn nonempty(p: Seq<Seq<char>>) -> Seq<Seq<char>>
    decreases p.len(),
{
    if p.len() == 0 {
        Seq::empty()
    } else if p.last().len() == 0 {
        nonempty(p.drop_last())
    } else {
        nonempty(p.drop_last()).push(p.last())
    }
}

/// The longest common prefix of the two paths.
pub open spec fn lcp(a: Seq<Seq<char>>, b: Seq<Seq<char>>) -> Seq<Seq<char>>
    decreases a.len(),
{
    if a.len() == 0 || b.len() == 0 || a[0] != b[0] {
        Seq::empty()
    } else {
        seq![a[0]] + lcp(a.drop_first(), b.drop_first())
    }
}

/// A common prefix that cannot be extended is the longest common
/// prefix.
pub proof fn lemma_lcp_from_props(a: Seq<Seq<char>>, b: Seq<Seq<char>>, n: int)
    requires
        0 <= n <= a.len(),
        n <= b.len(),
        forall|j: int| 0 <= j < n ==> a[j] == b[j],
        n < a.len() && n < b.len() ==> a[n] != b[n],
    ensures
        lcp(a, b) =~= a.subrange(0, n),
    decreases n,
{
    if n == 0 {
        if a.len() > 0 && b.len() > 0 && a[0] == b[0] {
            assert(false);
        }
    } else {
        assert(a[0] == b[0]);
        let a1 = a.drop_first();
        let b1 = b.drop_first();
        assert forall|j: int| 0 <= j < n - 1 implies a1[j] == b1[j] by {
            assert(a1[j] == a[j + 1]);
            assert(b1[j] == b[j + 1]);
        }
        lemma_lcp_from_props(a1, b1, n - 1);
        assert(seq![a[0]] + a1.subrange(0, n - 1) =~= a.subrange(0, n));
    }
}

/// The name an item component renders to on a qualified path: a named
/// component keeps its name; an anonymous component is named by the
/// decimal rendering of its sibling index.
pub open spec fn component_name(c: ComponentModel) -> Seq<char> {
    match c {
        ComponentModel::Str(s) => s,
        ComponentModel::Block(n) => crate::path_tree::dec_spec(n as nat),
        ComponentModel::Closure(n) => crate::path_tree::dec_spec(n as nat),
        ComponentModel::AsyncBlock(n) => crate::path_tree::dec_spec(n as nat),
        ComponentModel::Macro(n) => crate::path_tree::dec_spec(n as nat),
    }
}

/// An ordered sequence of name components identifying a declaration.
///
/// Components are compared component-wise; "ancestor of" is the strict
/// prefix relation.
#[derive(Debug)]
pub struct QualifiedPath {
    components: Vec<String>,
}

impl View for QualifiedPath {
    type V = Seq<Seq<char>>;

    closed spec fn view(&self) -> Seq<Seq<char>> {
        self.components.deep_view()
    }
}

impl QualifiedPath {
    /// A path holding the single component `root`.
    pub fn new(root: &str) -> (r: Self)
        ensures
            r@ == seq![root@],
    {
        let components: Vec<String> = vec![root.to_owned()];
        assert(components.deep_view() =~= seq![root@]);
        QualifiedPath { components }
    }

    /// The empty path.
    pub fn empty() -> (r: Self)
        ensures
            r@ == Seq::<Seq<char>>::empty(),
    {
        let components: Vec<String> = Vec::new();
        assert(components.deep_view() =~= Seq::<Seq<char>>::empty());
        QualifiedPath { components }
    }

    /// Wrap a vector of components.
    pub fn from_vec(components: Vec<String>) -> (r: Self)
        ensures
            r@ == components.deep_view(),
    {
        QualifiedPath { components }
    }

    /// Append one component at the end.
    pub fn push(&mut self, s: String)
        ensures
            final(self)@ == old(self)@.push(s@),
    {
        self.components.push(s);
        assert(self.components.deep_view() =~= old(self)@.push(s@));
    }

    /// Remove and return the last component, if any.
    pub fn pop(&mut self) -> (r: Option<String>)
        ensures
            old(self)@.len() == 0 ==> r is None && final(self)@ == old(self)@,
            old(self)@.len() > 0 ==> r is Some && r.unwrap()@ == old(self)@.last()
                && final(self)@ == old(self)@.drop_last(),
    {
        let r = self.components.pop();
        proof {
            if old(self)@.len() > 0 {
                assert(self.components.deep_view() =~= old(self)@.drop_last());
            } else {
                assert(self.components.deep_view() =~= old(self)@);
            }
        }
        r
    }

    /// The components, in order.
    pub fn iter(&self) -> (r: &Vec<String>)
        ensures
            r.deep_view() == self@,
    {
        &self.components
    }

    /// The last component, if any.
    pub fn last(&self) -> (r: Option<&String>)
        ensures
            self@.len() == 0 ==> r is None,
            self@.len() > 0 ==> r is Some && r.unwrap()@ == self@.last(),
    {
        if self.components.len() > 0 {
            Some(&self.components[self.components.len() - 1])
        } else {
            None
        }
    }

    /// The first component, if any.
    pub fn first(&self) -> (r: Option<&String>)
        ensures
            self@.len() == 0 ==> r is None,
            self@.len() > 0 ==> r is Some && r.unwrap()@ == self@.first(),
    {
        if self.components.len() > 0 {
            Some(&self.components[0])
        } else {
            None
        }
    }

    /// The number of components.
    pub fn len(&self) -> (r: usize)
        ensures
            r == self@.len(),
    {
        self.components.len()
    }

    /// True when the path has no components.
    pub fn is_empty(&self) -> (r: bool)
        ensures
            r == (self@.len() == 0),
    {
        self.components.len() == 0
    }

    /// An exact copy of the path.
    pub fn cloned(&self) -> (r: Self)
        ensures
            r@ == self@,
    {
        let mut components: Vec<String> = Vec::new();
        let mut i: usize = 0;
        while i < self.components.len()
            invariant
                i <= self.components.len(),
                components@.len() == i,
                forall|j: int| 0 <= j < i ==> components@[j]@ == self.components@[j]@,
            decreases self.components.len() - i,
        {
            components.push(self.components[i].clone());
            i = i + 1;
        }
        proof {
            assert forall|j: int| 0 <= j < components@.len() implies components.deep_view()[j]
                == self@[j] by {
                assert(components.deep_view()[j] == components@[j].deep_view());
                assert(self@[j] == self.components@[j].deep_view());
            }
            assert(components.deep_view() =~= self@);
        }
        QualifiedPath { components }
    }

    /// True when `self` is a strict prefix of `other`.
    pub fn is_ancestor_of(&self, other: &QualifiedPath) -> (r: bool)
        ensures
            r == (self@.len() < other@.len() && prefix_of(self@, other@)),
    {
        self.components.len() < other.components.len() && self.matches_prefix(other)
    }

    /// True when `other` is exactly one component below `self`.
    pub fn is_super_of(&self, other: &QualifiedPath) -> (r: bool)
        ensures
            r == (self@.len() + 1 == other@.len() && prefix_of(self@, other@)),
    {
        other.components.len() > 0 && self.components.len() == other.components.len() - 1
            && self.matches_prefix(other)
    }

    /// True when every component of `self` equals the corresponding
    /// component of `other` (and `self` is no longer than `other`).
    pub(crate) fn matches_prefix(&self, other: &QualifiedPath) -> (r: bool)
        ensures
            r == prefix_of(self@, other@),
    {
        if self.components.len() > other.components.len() {
            return false;
        }
        let mut i: usize = 0;
        while i < self.components.len()
            invariant
                i <= self@.len() <= other@.len(),
                forall|j: int| 0 <= j < i ==> self@[j] == other@[j],
            decreases self.components.len() - i,
        {
            if !(self.components[i] == other.components[i]) {
                assert(self@[i as int] != other@[i as int]);
                return false;
            }
            i = i + 1;
        }
        true
    }

    /// The longest shared component prefix of the two paths.
    pub fn common_ancestor(&self, other: &QualifiedPath) -> (r: QualifiedPath)
        ensures
            r@ == lcp(self@, other@),
            prefix_of(r@, self@),
            prefix_of(r@, other@),
            r@.len() < self@.len() && r@.len() < other@.len() ==> self@[r@.len() as int]
                != other@[r@.len() as int],
    {
        let mut components: Vec<String> = Vec::new();
        let mut i: usize = 0;
        while i < self.components.len() && i < other.components.len() && self.components[i]
            == other.components[i]
            invariant
                i <= self@.len(),
                i <= other@.len(),
                components@.len() == i,
                forall|j: int| 0 <= j < i ==> components@[j]@ == self.components@[j]@,
                forall|j: int| 0 <= j < i ==> self@[j] == other@[j],
            decreases self.components.len() - i,
        {
            components.push(self.components[i].clone());
            i = i + 1;
        }
        proof {
            assert forall|j: int| 0 <= j < components@.len() implies components.deep_view()[j]
                == self@[j] by {
                assert(components.deep_view()[j] == components@[j].deep_view());
                assert(self@[j] == self.components@[j].deep_view());
            }
            lemma_lcp_from_props(self@, other@, i as int);
        }
        QualifiedPath { components }
    }

    /// The qualified path an item path renders to: a named component
    /// keeps its name, and an anonymous component is named by the
    /// decimal rendering of its sibling index.
    pub fn of_item(item: &Item) -> (r: QualifiedPath)
        ensures
            r@ == item@.map_values(|c: ComponentModel| component_name(c)),
    {
        let comps = item.components();
        let mut out: Vec<String> = Vec::new();
        let mut i: usize = 0;
        while i < comps.len()
            invariant
                i <= comps@.len(),
                comps.deep_view() == item@,
                comps@.len() == item@.len(),
                out@.len() == i,
                forall|j: int| 0 <= j < i ==> (#[trigger] out@[j])@ == component_name(item@[j]),
            decreases comps@.len() - i,
        {
            proof {
                assert(comps@[i as int]@ == item@[i as int]);
            }
            let s = match &comps[i] {
                Component::Str(s) => s.clone(),
                Component::Block(n) => crate::path_tree::decimal_string(*n as u64),
                Component::Closure(n) => crate::path_tree::decimal_string(*n as u64),
                Component::AsyncBlock(n) => crate::path_tree::decimal_string(*n as u64),
                Component::Macro(n) => crate::path_tree::decimal_string(*n as u64),
            };
            out.push(s);
            i = i + 1;
        }
        proof {
            let m = item@.map_values(|c: ComponentModel| component_name(c));
            assert forall|j: int| 0 <= j < out@.len() implies out.deep_view()[j] == m[j] by {
                assert(out.deep_view()[j] == out@[j].deep_view());
            }
            assert(out.deep_view() =~= m);
        }
        QualifiedPath { components: out }
    }

    /// The path without its empty components.
    pub fn filtered(&self) -> (r: QualifiedPath)
        ensures
            r@ == nonempty(self@),
    {
        let mut components: Vec<String> = Vec::new();
        let mut i: usize = 0;
        while i < self.components.len()
            invariant
                i <= self.components@.len(),
                components.deep_view() =~= nonempty(self@.subrange(0, i as int)),
            decreases self.components.len() - i,
        {
            proof {
                assert(self@[i as int] == self.components@[i as int]@);
            }
            let ghost pre = components.deep_view();
            if !self.components[i].as_str().is_empty() {
                components.push(self.components[i].clone());
                assert(components.deep_view() =~= pre.push(self@[i as int]));
            }
            proof {
                assert(self@.subrange(0, i as int + 1).drop_last() =~= self@.subrange(0, i as int));
                assert(self@.subrange(0, i as int + 1).last() == self@[i as int]);
            }
            i = i + 1;
        }
        proof {
            assert(self@.subrange(0, self@.len() as int) =~= self@);
        }
        QualifiedPath { components }
    }
}


/// The facts every indexing step preserves about its context: the
/// tree only grows, no existing node changes parent, and the current
/// node and the stack depth are restored on every exit path.
pub open spec fn ctx_preserved(t0: Items, t1: Items) -> bool {
    &&& t1.tree.spec_len() >= t0.tree.spec_len()
    &&& t1.tree.cur() == t0.tree.cur()
    &&& forall|i: int|
        0 <= i < t0.tree.spec_len() ==> (#[trigger] t1.tree.node(i)).parent == t0.tree.node(
            i,
        ).parent
    &&& t1.path@.len() == t0.path@.len()
}

/// The queue has only grown: every slot that was already queued is
/// unchanged.
pub open spec fn queue_extended(a: Worker, b: Worker) -> bool {
    &&& a.queue@.len() <= b.queue@.len()
    &&& forall|i: int| 0 <= i < a.queue@.len() ==> #[trigger] b.queue@[i] == a.queue@[i]
}

/// Diagnostics only accumulate: every error already recorded stays,
/// at its index. A failed declaration never suppresses the reports of
/// its siblings.
pub open spec fn errors_extended(a: Worker, b: Worker) -> bool {
    &&& a.errors@.len() <= b.errors@.len()
    &&& forall|i: int| 0 <= i < a.errors@.len() ==> #[trigger] b.errors@[i] == a.errors@[i]
}

/// True when the `use` declaration ends in a wildcard.
pub open spec fn is_wildcard_use(u: ast::ItemUse) -> bool {
    u.rest@.len() > 0 && u.rest@.last().1 is Wildcard
}

/// The path components `fp`, each as a named item component.
pub open spec fn str_items(fp: Seq<Seq<char>>) -> Seq<ComponentModel> {
    Seq::new(fp.len(), |i: int| ComponentModel::Str(fp[i]))
}

/// The visibility a wildcard import reads for the candidate `c` under
/// the prefix path `qp`: the found node's tag, or public while the
/// tree does not hold the candidate yet.
pub open spec fn wildcard_vis(t: PathTree, qp: Seq<Seq<char>>, c: Seq<char>) -> Visibility {
    match crate::path_tree::find_from(t, 0, nonempty(qp.push(c)), 0) {
        Some(n) => t.node(n).vis,
        None => Visibility::Public,
    }
}

/// The alias kind a `use` of `qp` records: an alias of the resolved
/// node, or the deferred alias when the target is still absent.
pub open spec fn spec_use_kind(t: PathTree, qp: Seq<Seq<char>>) -> PathKind {
    match crate::path_tree::find_from(t, 0, nonempty(qp), 0) {
        Some(n) => PathKind::Use(PathId(n as u32)),
        None => PathKind::Use(PathId(0)),
    }
}

/// True when `t` is the indexing task queued for a freshly loaded
/// file: it walks the whole file at depth zero, in the context that
/// was appended for it.
pub open spec fn loaded_file_task(t: Index, w: Worker, item: Item, source_id: usize) -> bool {
    &&& t.ctx == w.contexts@.len()
    &&& t.source_id == source_id
    &&& t.depth == 0
    &&& t.ast is File
    &&& t.item == item
}

/// True when `c` is a fresh item path builder rooted at `item`.
pub open spec fn fresh_file_context(c: Items, item: Item) -> bool {
    &&& c.path@.len() == item@.len()
    &&& crate::items::stack_components(c.path@) == item@
    &&& c.tree.spec_len() == item@.len() + 1
    &&& c.tree.cur() == item@.len()
}

/// True when the import task `t` carries the data of the declaration
/// `u` found at the current scope of context `ctx`.
pub open spec fn queued_use_task(
    t: Import,
    w: Worker,
    ctx: usize,
    source_id: usize,
    u: ast::ItemUse,
) -> bool {
    &&& t.ctx == ctx
    &&& t.source_id == source_id
    &&& t.span == crate::ast::token::spec_join(u.use_.span, u.semi.span)
    &&& t.visibility == spec_sec_visibility(u.visibility)
    &&& t.wildcard == is_wildcard_use(u)
    &&& t.path_ref_id == w.contexts@[ctx as int].tree.cur()
    &&& t.item@ == crate::items::stack_components(w.contexts@[ctx as int].path@)
}

/// True when the prefix of a wildcard import exists in the scope tree
/// or in the symbol table.
pub open spec fn wildcard_prefix_present(
    t: PathTree,
    unit: UnitBuilder,
    qp: Seq<Seq<char>>,
) -> bool {
    ||| crate::path_tree::find_from(t, 0, nonempty(qp), 0) is Some
    ||| exists|i: int|
        0 <= i < unit.names@.len() && crate::unit::item_prefix_of(
            str_items(nonempty(qp)),
            (#[trigger] unit.names@[i])@,
        )
}

/// What dispatching a file-loading task for `item` out of `source_id`
/// did. Either the file was refused with one diagnostic against that
/// source (the source id is unknown, the text does not parse, or the
/// root path does not fit the id space) and nothing was queued; or no
/// diagnostic was added and exactly one indexing task was queued over
/// the parsed file, in a fresh context rooted at `item`. The head, the
/// already-queued slots and the symbol table are untouched either way.
pub open spec fn load_file_dispatched(
    pre: Worker,
    post: Worker,
    item: Item,
    source_id: usize,
) -> bool {
    &&& post.head == pre.head
    &&& queue_extended(pre, post)
    &&& post.unit == pre.unit
    &&& ({
        ||| (post.queue == pre.queue
            && post.contexts == pre.contexts
            && post.errors@.len() == pre.errors@.len() + 1
            && post.errors@.drop_last() == pre.errors@
            && post.errors@.last().source_id == source_id)
        ||| (post.errors@ == pre.errors@
            && post.queue@.len() == pre.queue@.len() + 1
            && post.queue@.last() is Index
            && loaded_file_task(post.queue@.last()->Index_0, pre, item, source_id)
            && post.contexts@.len() == pre.contexts@.len() + 1
            && fresh_file_context(post.contexts@.last(), item))
    })
}

/// The diagnostic a hinted function declaration gets: type hints are
/// not supported by this front end, so the declaration is dropped with
/// one internal error at the first hint's span -- the first argument
/// hint, or else the return hint -- and nothing else happens.
pub open spec fn hint_refused(pre: Worker, post: Worker, source_id: usize, f: ast::ItemFn) -> bool {
    &&& post.errors@.len() == pre.errors@.len() + 1
    &&& post.errors@.drop_last() == pre.errors@
    &&& post.errors@.last().source_id == source_id
    &&& post.errors@.last().error.kind is Internal
    &&& post.errors@.last().error.span == crate::ast::spec_hint_span(f).unwrap()
    &&& post.queue == pre.queue
    &&& post.contexts == pre.contexts
    &&& post.unit == pre.unit
}

/// What dispatching the indexing task `ix` did: the head and the
/// already-queued slots are untouched, diagnostics only accumulate, an
/// expression fragment is recorded as the expansion of its item, a
/// lone hinted function declaration is refused at the hint's span, and
/// every hinted function declaration at the top level of a file
/// fragment is reported at its own hint's span.
pub open spec fn index_dispatched(pre: Worker, post: Worker, ix: Index) -> bool {
    &&& post.head == pre.head
    &&& queue_extended(pre, post)
    &&& errors_extended(pre, post)
    &&& ix.ctx < pre.contexts@.len() && ix.ast is Expr ==> {
        &&& post.expanded@.len() == pre.expanded@.len() + 1
        &&& post.expanded@.last().0 == ix.item
    }
    &&& ix.ctx < pre.contexts@.len() && ix.ast is Item && ix.ast->Item_0 is ItemFn
        && crate::ast::spec_hint_span(*ix.ast->Item_0->ItemFn_0) is Some ==> hint_refused(
        pre,
        post,
        ix.source_id,
        *ix.ast->Item_0->ItemFn_0,
    )
    &&& ix.ctx < pre.contexts@.len() && ix.ast is File ==> forall|j: int|
        0 <= j < ix.ast->File_0.items@.len() && (#[trigger] ix.ast->File_0.items@[j]) is ItemFn
            && crate::ast::spec_hint_span(*ix.ast->File_0.items@[j]->ItemFn_0) is Some
            ==> exists|e: int|
            pre.errors@.len() <= e < post.errors@.len() && (#[trigger] post.errors@[e]).source_id
                == ix.source_id && post.errors@[e].error.kind is Internal
                && post.errors@[e].error.span == crate::ast::spec_hint_span(
                *ix.ast->File_0.items@[j]->ItemFn_0,
            ).unwrap()
}

/// The inputs on which import processing succeeds: the declared path
/// has a non-empty component, the importing scope exists, and a
/// wildcard's prefix is present in the scope tree or the symbol table.
pub open spec fn import_accepted(im: Import, it: Items, u: UnitBuilder) -> bool {
    &&& nonempty(im.qualified_path@).len() > 0
    &&& im.path_ref_id < it.tree.spec_len()
    &&& (im.wildcard ==> wildcard_prefix_present(it.tree, u, im.qualified_path@))
}

/// What a successfully processed import registered, by its kind.
pub open spec fn import_ok(
    im: Import,
    it0: Items,
    it1: Items,
    u0: UnitBuilder,
    u1: UnitBuilder,
) -> bool {
    if im.wildcard {
        wildcard_registered(im, it0, it1, u0, u1)
    } else {
        plain_use_registered(im, it0, it1, u0, u1)
    }
}

/// What dispatching the import task `im` did. The queue, the head, the
/// registered names and every other indexing context are untouched.
/// With a missing context the task is refused with one internal
/// diagnostic. Otherwise the import either succeeds -- exactly when
/// `import_accepted` holds of the state at dispatch -- and registers
/// its aliases and import entries with no diagnostic, or fails with
/// one diagnostic at the declaration's span, leaving the context and
/// the symbol table untouched.
pub open spec fn import_dispatched(pre: Worker, post: Worker, im: Import) -> bool {
    &&& post.queue == pre.queue
    &&& post.head == pre.head
    &&& post.expanded == pre.expanded
    &&& post.unit.names@ == pre.unit.names@
    &&& if im.ctx >= pre.contexts@.len() {
        &&& post.contexts == pre.contexts
        &&& post.unit == pre.unit
        &&& post.errors@.len() == pre.errors@.len() + 1
        &&& post.errors@.drop_last() == pre.errors@
        &&& post.errors@.last().source_id == im.source_id
        &&& post.errors@.last().error.kind is Internal
    } else {
        &&& post.contexts@.len() == pre.contexts@.len()
        &&& forall|c: int|
            0 <= c < pre.contexts@.len() && c != im.ctx ==> #[trigger] post.contexts@[c]
                == pre.contexts@[c]
        &&& ({
            ||| (post.errors@ == pre.errors@
                && import_accepted(im, pre.contexts@[im.ctx as int], pre.unit)
                && import_ok(
                im,
                pre.contexts@[im.ctx as int],
                post.contexts@[im.ctx as int],
                pre.unit,
                post.unit,
            ))
            ||| (post.contexts@ == pre.contexts@
                && post.unit == pre.unit
                && !import_accepted(im, pre.contexts@[im.ctx as int], pre.unit)
                && post.errors@.len() == pre.errors@.len() + 1
                && post.errors@.drop_last() == pre.errors@
                && post.errors@.last().source_id == im.source_id
                && post.errors@.last().error.span == im.span)
        })
    }
}

/// What dispatching the macro expansion task `m` did. Either the call
/// is reported with one diagnostic and no further work is queued, or
/// no diagnostic is added and indexing of the expansion is queued one
/// level deeper in the snapshot context; and whenever an item-position
/// expansion queues work, the macro's anonymous path slot was there
/// and was popped first, so the expansion occupies the call's position
/// and its paths carry no trace of the call.
pub open spec fn expand_dispatched(pre: Worker, post: Worker, m: Macro) -> bool {
    &&& post.head == pre.head
    &&& queue_extended(pre, post)
    &&& post.expanded == pre.expanded
    &&& ({
        ||| (post.queue == pre.queue
            && post.errors@.len() == pre.errors@.len() + 1
            && post.errors@.drop_last() == pre.errors@
            && post.errors@.last().source_id == m.source_id)
        ||| (post.errors@ == pre.errors@
            && post.queue@.len() == pre.queue@.len() + 1
            && post.queue@.last() is Index
            && post.queue@.last()->Index_0.ctx == m.ctx
            && post.queue@.last()->Index_0.source_id == m.source_id
            && post.queue@.last()->Index_0.depth == if m.depth < MAX_EXPANSION_DEPTH {
                (m.depth + 1) as usize
            } else {
                m.depth
            })
    })
    &&& m.kind is Item && post.queue@.len() > pre.queue@.len() ==> {
        &&& m.ctx < pre.contexts@.len()
        &&& pre.contexts@[m.ctx as int].path@.len() > 0
        &&& pre.contexts@[m.ctx as int].path@.last().component@ is Macro
        &&& post.contexts@[m.ctx as int].path@ == pre.contexts@[m.ctx as int].path@.drop_last()
    }
}

/// What dispatching the task `t` in state `pre` guarantees of the
/// resulting state `post`: the contract of the handler its kind is
/// given to. A retired slot dispatches to nothing.
pub open spec fn dispatched(pre: Worker, post: Worker, t: Task) -> bool {
    &&& post.wf()
    &&& match t {
        Task::LoadFile { kind: _, item, source_id } => load_file_dispatched(
            pre,
            post,
            item,
            source_id,
        ),
        Task::Index(ix) => index_dispatched(pre, post, ix),
        Task::Import(im) => import_dispatched(pre, post, im),
        Task::ExpandMacro(m) => expand_dispatched(pre, post, m),
        Task::Done => post == pre,
    }
}

/// The worker state right after the slot at `pre.head` is taken for
/// dispatch: the slot is retired, the head moved past it, and nothing
/// else has changed yet.
pub open spec fn retired_from(pre: Worker, mid: Worker) -> bool {
    &&& pre.head < pre.queue@.len()
    &&& mid.queue@ == pre.queue@.update(pre.head as int, Task::Done)
    &&& mid.head == pre.head + 1
    &&& mid.sources == pre.sources
    &&& mid.macros == pre.macros
    &&& mid.contexts == pre.contexts
    &&& mid.unit == pre.unit
    &&& mid.errors == pre.errors
    &&& mid.expanded == pre.expanded
}

/// One dispatch step of the worker: the task at the head is consumed
/// -- its slot retired exactly once, never reused -- and handled, so
/// it observes exactly the state the steps before it produced.
pub open spec fn step(pre: Worker, post: Worker) -> bool {
    exists|mid: Worker|
        #[trigger] retired_from(pre, mid) && dispatched(
            mid,
            post,
            pre.queue@[pre.head as int],
        )
}

/// The worker state `post` is reached from `pre` by `n` dispatch
/// steps, strictly in queue order.
pub open spec fn runs_to(pre: Worker, post: Worker, n: nat) -> bool
    decreases n,
{
    if n == 0 {
        post == pre
    } else {
        exists|mid: Worker| runs_to(pre, mid, (n - 1) as nat) && #[trigger] step(mid, post)
    }
}

/// A run of `n` steps followed by one more step is a run of `n + 1`
/// steps.
pub proof fn lemma_runs_to_snoc(pre: Worker, mid: Worker, post: Worker, n: nat)
    requires
        runs_to(pre, mid, n),
        step(mid, post),
    ensures
        runs_to(pre, post, n + 1),
{
    let m: nat = n + 1;
    reveal_with_fuel(runs_to, 2);
    assert(runs_to(pre, mid, (m - 1) as nat));
    assert(runs_to(pre, post, m));
}

/// The worker: a FIFO task queue and the shared compilation state the
/// tasks mutate.
pub struct Worker {
    /// The task queue; slots before `head` are retired.
    pub queue: Vec<Task>,
    /// The position of the next task to dispatch.
    pub head: usize,
    /// The loaded sources.
    pub sources: Sources,
    /// The known macro definitions.
    pub macros: Vec<MacroDef>,
    /// The indexing contexts, one per loaded file plus one per macro
    /// snapshot.
    pub contexts: Vec<Items>,
    /// The symbol table being populated.
    pub unit: UnitBuilder,
    /// The diagnostics collected so far; they accumulate, one failed
    /// declaration never suppresses the others.
    pub errors: Vec<LoadError>,
    /// The expression expansions produced by macros, by item path.
    pub expanded: Vec<(Item, ast::Expr)>,
}

impl Worker {
    /// Well-formedness: the head is within the queue, every slot
    /// before it is retired (its task was consumed exactly once), and
    /// every indexing context is well-formed.
    pub open spec fn wf(self) -> bool {
        &&& self.head <= self.queue@.len()
        &&& forall|i: int| 0 <= i < self.head ==> (#[trigger] self.queue@[i]) is Done
        &&& forall|c: int| 0 <= c < self.contexts@.len() ==> (#[trigger] self.contexts@[c]).wf()
    }

    /// Construct a new worker over the given initial tasks, sources
    /// and macro definitions.
    pub fn new(queue: Vec<Task>, sources: Sources, macros: Vec<MacroDef>) -> (r: Worker)
        ensures
            r.wf(),
            r.queue@ == queue@,
            r.head == 0,
            r.sources == sources,
            r.macros@ == macros@,
            r.contexts@.len() == 0,
            r.errors@.len() == 0,
            r.expanded@.len() == 0,
            r.unit.names@.len() == 0,
            r.unit.imports@.len() == 0,
    {
        Worker {
            queue,
            head: 0,
            sources,
            macros,
            contexts: Vec::new(),
            unit: UnitBuilder::new(),
            errors: Vec::new(),
            expanded: Vec::new(),
        }
    }

    /// Run the worker until the task queue is empty. Tasks are
    /// dispatched strictly in queue order, each consumed exactly once
    /// and its slot retired, never mutated and re-queued; a dispatched
    /// task may queue new tasks behind the existing ones, so a task
    /// observes at dispatch exactly the state produced by the tasks
    /// queued strictly before it. The final state is reached by one
    /// `step` per slot, each step handing its task to the contract of
    /// its handler (`dispatched`). The step counter that bounds the
    /// loop can never run out before the queue drains, because the
    /// queue itself cannot outgrow the machine limit.
    #[verifier::spinoff_prover]
    pub fn run(&mut self)
        requires
            old(self).wf(),
        ensures
            final(self).wf(),
            final(self).head >= old(self).head,
            // drained: every slot was dispatched, in order, exactly
            // once; the retired prefix covers the whole queue
            final(self).head == final(self).queue@.len(),
            runs_to(*old(self), *final(self), (final(self).head - old(self).head) as nat),
    {
        let mut budget: usize = usize::MAX;
        while self.head < self.queue.len() && budget > 0
            invariant
                self.wf(),
                self.head >= old(self).head,
                self.head == old(self).head + (usize::MAX - budget),
                runs_to(*old(self), *self, (self.head - old(self).head) as nat),
            decreases budget,
        {
            budget = budget - 1;
            let ghost pre_it = *self;
            let h = self.head;
            let mut task = Task::Done;
            core::mem::swap(&mut task, &mut self.queue[h]);
            self.head = h + 1;
            let ghost mid_st = *self;
            let ghost gtask = pre_it.queue@[h as int];
            proof {
                assert(task == gtask);
                assert(mid_st.queue@ =~= pre_it.queue@.update(h as int, Task::Done));
                assert(retired_from(pre_it, mid_st));
            }
            match task {
                Task::LoadFile { kind, item, source_id } => {
                    let ghost gitem = item;
                    self.handle_load_file(kind, item, source_id);
                    proof {
                        assert(load_file_dispatched(mid_st, *self, gitem, source_id));
                        assert(dispatched(mid_st, *self, gtask));
                    }
                },
                Task::Index(ix) => {
                    let ghost gix = ix;
                    self.handle_index(ix);
                    proof {
                        assert(index_dispatched(mid_st, *self, gix));
                        assert(dispatched(mid_st, *self, gtask));
                    }
                },
                Task::Import(im) => {
                    let ghost gim = im;
                    self.handle_import(im);
                    proof {
                        assert(import_dispatched(mid_st, *self, gim));
                        assert(dispatched(mid_st, *self, gtask));
                    }
                },
                Task::ExpandMacro(m) => {
                    let ghost gm = m;
                    self.handle_expand(m);
                    proof {
                        assert(expand_dispatched(mid_st, *self, gm));
                        assert(dispatched(mid_st, *self, gtask));
                    }
                },
                Task::Done => {
                    proof {
                        assert(dispatched(mid_st, *self, gtask));
                    }
                },
            }
            proof {
                assert(step(pre_it, *self)) by {
                    assert(retired_from(pre_it, mid_st) && dispatched(
                        mid_st,
                        *self,
                        pre_it.queue@[pre_it.head as int],
                    ));
                }
                let n0 = (pre_it.head - old(self).head) as nat;
                lemma_runs_to_snoc(*old(self), pre_it, *self, n0);
                assert((self.head - old(self).head) as nat == n0 + 1);
            }
        }
    }

    /// Record a diagnostic against one source.
    fn push_error(&mut self, source_id: usize, span: Span, kind: CompileErrorKind)
        ensures
            final(self).errors@.len() == old(self).errors@.len() + 1,
            final(self).errors@.last().source_id == source_id,
            final(self).errors@.last().error.span == span,
            final(self).errors@.last().error.kind == kind,
            final(self).errors@.drop_last() == old(self).errors@,
            errors_extended(*old(self), *final(self)),
            final(self).queue == old(self).queue,
            final(self).head == old(self).head,
            final(self).contexts == old(self).contexts,
            final(self).unit == old(self).unit,
            final(self).sources == old(self).sources,
            final(self).macros == old(self).macros,
            final(self).expanded == old(self).expanded,
    {
        self.errors.push(LoadError::new(source_id, CompileError::new(span, kind)));
        proof {
            assert(self.errors@.drop_last() =~= old(self).errors@);
            assert forall|i: int| 0 <= i < old(self).errors@.len() implies #[trigger] self.errors@[i]
                == old(self).errors@[i] by {
                assert(self.errors@.drop_last()[i] == self.errors@[i]);
            }
        }
    }

    /// Dispatch one file-loading task. Either the file is refused
    /// with one diagnostic (the source id is unknown, the text does
    /// not parse, or the root path does not fit the id space) and
    /// nothing is queued; or exactly one indexing task is queued over
    /// the parsed file, in a fresh context rooted at `item`.
    #[verifier::spinoff_prover]
    fn handle_load_file(&mut self, _kind: LoadFileKind, item: Item, source_id: usize)
        requires
            old(self).wf(),
        ensures
            final(self).wf(),
            load_file_dispatched(*old(self), *final(self), item, source_id),
    {
        let parsed = match self.sources.get(source_id) {
            Some(src) => Parser::new(src.text.as_str()),
            None => {
                self.push_error(source_id, Span::new(0, 0), CompileErrorKind::MissingSource);
                return ;
            },
        };
        let mut p = match parsed {
            Ok(p) => p,
            Err(e) => {
                self.push_error(source_id, e.span, CompileErrorKind::Parse { error: e });
                return ;
            },
        };
        let file = match ast::File::parse(&mut p) {
            Ok(f) => f,
            Err(e) => {
                self.push_error(source_id, e.span, CompileErrorKind::Parse { error: e });
                return ;
            },
        };
        if item.len() >= u32::MAX as usize {
            self.push_error(
                source_id,
                Span::new(0, 0),
                CompileErrorKind::Tree { tree_error: PathTreeError::too_many_paths() },
            );
            return ;
        }
        let base = item.cloned().into_vec();
        let items = Items::new(base);
        proof {
            assert(crate::items::stack_components(items.path@) =~= item@);
        }
        let ctx = self.contexts.len();
        self.contexts.push(items);
        self.queue.push(
            Task::Index(Index { item, ctx, source_id, ast: IndexAst::File(file), depth: 0 }),
        );
    }

    /// Dispatch one indexing task: walk the fragment, allocating scope
    /// and path entries for each declaration and queueing the import
    /// and expansion tasks it spawns. Errors accumulate; a failed
    /// declaration does not unwind its siblings.
    #[verifier::spinoff_prover]
    fn handle_index(&mut self, ix: Index)
        requires
            old(self).wf(),
        ensures
            final(self).wf(),
            index_dispatched(*old(self), *final(self), ix),
    {
        let Index { item, ctx, source_id, ast: fragment, depth } = ix;
        if ctx >= self.contexts.len() {
            self.push_error(
                source_id,
                Span::new(0, 0),
                CompileErrorKind::Internal { msg: "missing indexing context".to_owned() },
            );
            return ;
        }
        match fragment {
            IndexAst::File(f) => {
                let mut i: usize = 0;
                while i < f.items.len()
                    invariant
                        self.wf(),
                        ctx < self.contexts@.len(),
                        self.head == old(self).head,
                        queue_extended(*old(self), *self),
                        errors_extended(*old(self), *self),
                        ix.ast is File && f == ix.ast->File_0,
                        forall|j: int|
                            0 <= j < i && (#[trigger] f.items@[j]) is ItemFn
                                && crate::ast::spec_hint_span(*f.items@[j]->ItemFn_0) is Some
                                ==> exists|e: int|
                                old(self).errors@.len() <= e < self.errors@.len() && (
                                #[trigger] self.errors@[e]).source_id == source_id
                                    && self.errors@[e].error.kind is Internal
                                    && self.errors@[e].error.span == crate::ast::spec_hint_span(
                                    *f.items@[j]->ItemFn_0,
                                ).unwrap(),
                    decreases f.items@.len() - i,
                {
                    let ghost before = *self;
                    self.index_item(ctx, source_id, &f.items[i], depth);
                    proof {
                        assert forall|j: int|
                            0 <= j < i + 1 && (#[trigger] f.items@[j]) is ItemFn
                                && crate::ast::spec_hint_span(
                                *f.items@[j]->ItemFn_0,
                            ) is Some implies exists|e: int|
                            old(self).errors@.len() <= e < self.errors@.len() && (
                            #[trigger] self.errors@[e]).source_id == source_id
                                && self.errors@[e].error.kind is Internal
                                && self.errors@[e].error.span == crate::ast::spec_hint_span(
                                *f.items@[j]->ItemFn_0,
                            ).unwrap() by {
                            if j == i {
                                let e0 = before.errors@.len() as int;
                                assert(self.errors@[e0] == self.errors@.last());
                            } else {
                                let e0 = choose|e0: int|
                                    old(self).errors@.len() <= e0 < before.errors@.len() && (
                                    #[trigger] before.errors@[e0]).source_id == source_id
                                        && before.errors@[e0].error.kind is Internal
                                        && before.errors@[e0].error.span
                                        == crate::ast::spec_hint_span(
                                        *f.items@[j]->ItemFn_0,
                                    ).unwrap();
                                assert(self.errors@[e0] == before.errors@[e0]);
                            }
                        }
                    }
                    i = i + 1;
                }
            },
            IndexAst::Item(it) => {
                self.index_item(ctx, source_id, &it, depth);
            },
            IndexAst::Expr(e) => {
                self.index_expr(ctx, source_id, &e, depth);
                self.expanded.push((item, e));
            },
        }
    }

    /// Walk one expression, queueing an expansion task for each macro
    /// call found in it.
    fn index_expr(&mut self, ctx: usize, source_id: usize, e: &ast::Expr, depth: usize)
        requires
            old(self).wf(),
            ctx < old(self).contexts@.len(),
        ensures
            final(self).wf(),
            final(self).head == old(self).head,
            queue_extended(*old(self), *final(self)),
            errors_extended(*old(self), *final(self)),
            final(self).contexts@.len() >= old(self).contexts@.len(),
            ctx_preserved(old(self).contexts@[ctx as int], final(self).contexts@[ctx as int]),
            final(self).expanded == old(self).expanded,
        decreases *e,
    {
        match e {
            ast::Expr::MacroCall(mc) => {
                self.queue_expansion(ctx, source_id, MacroKind::Expr, (**mc).clone(), depth);
            },
            ast::Expr::Unary(u) => {
                proof {
                    assert(decreases_to!(*e => e->Unary_0));
                }
                self.index_expr(ctx, source_id, &u.expr, depth);
            },
            ast::Expr::Path(_) => {},
            ast::Expr::Lit(_) => {},
        }
    }

    /// Queue the expansion of one macro call: allocate its anonymous
    /// path slot, snapshot the declaration context for the deferred
    /// re-entry, and queue the task. Beyond the expansion depth limit
    /// the call is reported instead.
    fn queue_expansion(
        &mut self,
        ctx: usize,
        source_id: usize,
        kind: MacroKind,
        mc: ast::MacroCall,
        depth: usize,
    )
        requires
            old(self).wf(),
            ctx < old(self).contexts@.len(),
        ensures
            final(self).wf(),
            final(self).head == old(self).head,
            queue_extended(*old(self), *final(self)),
            errors_extended(*old(self), *final(self)),
            final(self).contexts@.len() >= old(self).contexts@.len(),
            ctx_preserved(old(self).contexts@[ctx as int], final(self).contexts@[ctx as int]),
            final(self).expanded == old(self).expanded,
    {
        if depth >= MAX_EXPANSION_DEPTH {
            let span = mc.span();
            self.push_error(source_id, span, CompileErrorKind::MacroDepthExceeded { depth });
            return ;
        }
        let guard = self.contexts[ctx].push_macro();
        let snap = self.contexts[ctx].snapshot();
        let ctx2 = self.contexts.len();
        self.contexts.push(snap);
        self.queue.push(
            Task::ExpandMacro(Macro { kind, ctx: ctx2, ast: mc, source_id, depth }),
        );
        self.contexts[ctx].exit(guard);
    }

    /// Index one declaration: allocate its scope-tree and item-path
    /// entries, register its name, recurse into nested declarations,
    /// and queue the tasks it spawns.
    #[verifier::spinoff_prover]
    fn index_item(&mut self, ctx: usize, source_id: usize, it: &ast::Item, depth: usize)
        requires
            old(self).wf(),
            ctx < old(self).contexts@.len(),
        ensures
            final(self).wf(),
            final(self).head == old(self).head,
            queue_extended(*old(self), *final(self)),
            errors_extended(*old(self), *final(self)),
            final(self).contexts@.len() >= old(self).contexts@.len(),
            ctx_preserved(old(self).contexts@[ctx as int], final(self).contexts@[ctx as int]),
            *it is ItemFn && crate::ast::spec_hint_span(*it->ItemFn_0) is Some ==> hint_refused(
                *old(self),
                *final(self),
                source_id,
                *it->ItemFn_0,
            ),
        decreases *it,
    {
        match it {
            ast::Item::ItemAttribute(_) => {},
            ast::Item::ItemUse(u) => {
                self.index_use(ctx, source_id, u);
            },
            ast::Item::ItemFn(f) => {
                self.index_fn(ctx, source_id, f);
            },
            ast::Item::ItemMod(m) => {
                if self.contexts[ctx].tree.len() > u32::MAX as usize {
                    self.push_error(
                        source_id,
                        m.name.span,
                        CompileErrorKind::Tree { tree_error: PathTreeError::too_many_paths() },
                    );
                    return ;
                }
                let vis = sec_visibility(&m.visibility);
                let name = m.name.name.clone();
                let guard = self.contexts[ctx].push_mod(name.as_str(), vis);
                let full = self.contexts[ctx].item();
                self.unit.insert_name(full);
                let ghost mid = self.contexts@[ctx as int];
                let mut i: usize = 0;
                while i < m.items.len()
                    invariant
                        self.wf(),
                        ctx < self.contexts@.len(),
                        self.head == old(self).head,
                        queue_extended(*old(self), *self),
                        errors_extended(*old(self), *self),
                        self.contexts@.len() >= old(self).contexts@.len(),
                        ctx_preserved(mid, self.contexts@[ctx as int]),
                        *it is ItemMod,
                        *m == it->ItemMod_0,
                    decreases m.items@.len() - i,
                {
                    proof {
                        assert(decreases_to!(*it => it->ItemMod_0));
                        assert(decreases_to!(it->ItemMod_0 => it->ItemMod_0.items));
                        assert(decreases_to!(it->ItemMod_0.items => it->ItemMod_0.items@));
                        assert(decreases_to!(it->ItemMod_0.items@ => it->ItemMod_0.items@[i as int]));
                    }
                    self.index_item(ctx, source_id, &m.items[i], depth);
                    i = i + 1;
                }
                self.contexts[ctx].exit(guard);
            },
            ast::Item::ItemStruct(st) => {
                if self.contexts[ctx].tree.len() > u32::MAX as usize {
                    self.push_error(
                        source_id,
                        st.name.span,
                        CompileErrorKind::Tree { tree_error: PathTreeError::too_many_paths() },
                    );
                    return ;
                }
                let vis = sec_visibility(&st.visibility);
                let name = st.name.name.clone();
                let guard = self.contexts[ctx].push_struct(name.as_str(), vis);
                let full = self.contexts[ctx].item();
                self.unit.insert_name(full);
                let ghost mid = self.contexts@[ctx as int];
                let mut i: usize = 0;
                while i < st.fields.len()
                    invariant
                        self.wf(),
                        ctx < self.contexts@.len(),
                        self.head == old(self).head,
                        queue_extended(*old(self), *self),
                        errors_extended(*old(self), *self),
                        self.contexts@.len() >= old(self).contexts@.len(),
                        ctx_preserved(mid, self.contexts@[ctx as int]),
                    decreases st.fields@.len() - i,
                {
                    if self.contexts[ctx].tree.len() > u32::MAX as usize {
                        self.push_error(
                            source_id,
                            st.name.span,
                            CompileErrorKind::Tree { tree_error: PathTreeError::too_many_paths() },
                        );
                        break ;
                    }
                    let fvis = sec_visibility(&st.fields[i].0.visibility);
                    let fname = st.fields[i].0.name.name.clone();
                    let fguard = self.contexts[ctx].push_field(fname.as_str(), fvis);
                    let ffull = self.contexts[ctx].item();
                    self.unit.insert_name(ffull);
                    self.contexts[ctx].exit(fguard);
                    i = i + 1;
                }
                self.contexts[ctx].exit(guard);
            },
            ast::Item::ItemEnum(en) => {
                if self.contexts[ctx].tree.len() > u32::MAX as usize {
                    self.push_error(
                        source_id,
                        en.name.span,
                        CompileErrorKind::Tree { tree_error: PathTreeError::too_many_paths() },
                    );
                    return ;
                }
                let vis = sec_visibility(&en.visibility);
                let name = en.name.name.clone();
                let guard = self.contexts[ctx].push_enum(name.as_str(), vis);
                let full = self.contexts[ctx].item();
                self.unit.insert_name(full);
                let ghost mid = self.contexts@[ctx as int];
                let mut i: usize = 0;
                while i < en.variants.len()
                    invariant
                        self.wf(),
                        ctx < self.contexts@.len(),
                        self.head == old(self).head,
                        queue_extended(*old(self), *self),
                        errors_extended(*old(self), *self),
                        self.contexts@.len() >= old(self).contexts@.len(),
                        ctx_preserved(mid, self.contexts@[ctx as int]),
                    decreases en.variants@.len() - i,
                {
                    if self.contexts[ctx].tree.len() > u32::MAX as usize {
                        self.push_error(
                            source_id,
                            en.name.span,
                            CompileErrorKind::Tree { tree_error: PathTreeError::too_many_paths() },
                        );
                        break ;
                    }
                    let vname = en.variants[i].0.name.clone();
                    let vguard = self.contexts[ctx].push_variant(
                        vname.as_str(),
                        Visibility::Public,
                    );
                    let vfull = self.contexts[ctx].item();
                    self.unit.insert_name(vfull);
                    self.contexts[ctx].exit(vguard);
                    i = i + 1;
                }
                self.contexts[ctx].exit(guard);
            },
            ast::Item::ItemImpl(im) => {
                if self.contexts[ctx].tree.len() > u32::MAX as usize {
                    self.push_error(
                        source_id,
                        im.impl_.span,
                        CompileErrorKind::Tree { tree_error: PathTreeError::too_many_paths() },
                    );
                    return ;
                }
                let name = match &im.path.first {
                    ast::PathSegment::Ident(id) => id.name.clone(),
                    ast::PathSegment::Crate(_) => "crate".to_owned(),
                    ast::PathSegment::Super(_) => "super".to_owned(),
                };
                let guard = self.contexts[ctx].push_impl(
                    name.as_str(),
                    Visibility::PrivateToModule,
                );
                let ghost mid = self.contexts@[ctx as int];
                let mut i: usize = 0;
                while i < im.functions.len()
                    invariant
                        self.wf(),
                        ctx < self.contexts@.len(),
                        self.head == old(self).head,
                        queue_extended(*old(self), *self),
                        errors_extended(*old(self), *self),
                        self.contexts@.len() >= old(self).contexts@.len(),
                        ctx_preserved(mid, self.contexts@[ctx as int]),
                    decreases im.functions@.len() - i,
                {
                    self.index_fn(ctx, source_id, &im.functions[i]);
                    i = i + 1;
                }
                self.contexts[ctx].exit(guard);
            },
            ast::Item::MacroCall(mc) => {
                self.queue_expansion(ctx, source_id, MacroKind::Item, mc.clone(), depth);
            },
        }
    }

    /// Index one function declaration. Type hints are not supported by
    /// this front end: an argument or return type hint is reported as
    /// an internal error at the hint's span, and the declaration is
    /// dropped while its siblings continue.
    fn index_fn(&mut self, ctx: usize, source_id: usize, f: &ast::ItemFn)
        requires
            old(self).wf(),
            ctx < old(self).contexts@.len(),
        ensures
            final(self).wf(),
            final(self).head == old(self).head,
            queue_extended(*old(self), *final(self)),
            errors_extended(*old(self), *final(self)),
            final(self).contexts@.len() >= old(self).contexts@.len(),
            ctx_preserved(old(self).contexts@[ctx as int], final(self).contexts@[ctx as int]),
            // a type hint is refused with one diagnostic at the hint's
            // span -- the first argument hint, or else the return hint
            // -- and nothing else happens
            crate::ast::spec_hint_span(*f) is Some ==> {
                &&& final(self).errors@.len() == old(self).errors@.len() + 1
                &&& final(self).errors@.drop_last() == old(self).errors@
                &&& final(self).errors@.last().source_id == source_id
                &&& final(self).errors@.last().error.kind is Internal
                &&& final(self).errors@.last().error.span == crate::ast::spec_hint_span(
                    *f,
                ).unwrap()
                &&& final(self).queue == old(self).queue
                &&& final(self).contexts == old(self).contexts
                &&& final(self).unit == old(self).unit
            },
            // no hint: the function's scope is entered, its item path
            // registered, and the scope left again
            crate::ast::spec_hint_span(*f) is None && old(self).contexts@[
                ctx as int].tree.spec_len() <= u32::MAX ==> {
                &&& final(self).errors@ == old(self).errors@
                &&& final(self).queue == old(self).queue
                &&& final(self).unit.imports@ == old(self).unit.imports@
                &&& final(self).unit.names@.len() == old(self).unit.names@.len() + 1
                &&& final(self).unit.names@.last()@ =~= crate::items::stack_components(
                    old(self).contexts@[ctx as int].path@,
                ).push(ComponentModel::Str(f.name.name@))
                &&& final(self).contexts@[ctx as int].tree.spec_len() == old(self).contexts@[
                    ctx as int].tree.spec_len() + 1
                &&& final(self).contexts@[ctx as int].tree.node(
                    old(self).contexts@[ctx as int].tree.spec_len(),
                ).name@ == f.name.name@
                &&& final(self).contexts@[ctx as int].tree.node(
                    old(self).contexts@[ctx as int].tree.spec_len(),
                ).kind is Fn
                &&& final(self).contexts@[ctx as int].tree.node(
                    old(self).contexts@[ctx as int].tree.spec_len(),
                ).vis == spec_sec_visibility(f.visibility)
            },
    {
        let ghost full_hint = crate::ast::spec_first_arg_hint(f.args.items@);
        proof {
            assert(f.args.items@.skip(0) =~= f.args.items@);
        }
        let mut i: usize = 0;
        while i < f.args.items.len()
            invariant
                *self == *old(self),
                old(self).wf(),
                ctx < old(self).contexts@.len(),
                i <= f.args.items@.len(),
                full_hint == crate::ast::spec_first_arg_hint(f.args.items@),
                full_hint == crate::ast::spec_first_arg_hint(f.args.items@.skip(i as int)),
            decreases f.args.items@.len() - i,
        {
            match &f.args.items[i].0.type_ {
                Some(hint) => {
                    let span = hint.span();
                    proof {
                        assert(f.args.items@.skip(i as int)[0] == f.args.items@[i as int]);
                        assert(full_hint == Some(span));
                    }
                    self.push_error(
                        source_id,
                        span,
                        CompileErrorKind::Internal {
                            msg: "function argument types are not supported".to_owned(),
                        },
                    );
                    return ;
                },
                None => {},
            }
            proof {
                assert(f.args.items@.skip(i as int)[0] == f.args.items@[i as int]);
                assert(f.args.items@.skip(i as int).drop_first() =~= f.args.items@.skip(
                    i as int + 1,
                ));
            }
            i = i + 1;
        }
        proof {
            assert(f.args.items@.skip(f.args.items@.len() as int).len() == 0);
            assert(full_hint is None);
        }
        match &f.output {
            Some(output) => {
                let span = output.arrow.span.join(crate::ast::type_span(&output.type_));
                self.push_error(
                    source_id,
                    span,
                    CompileErrorKind::Internal {
                        msg: "function return types are not supported".to_owned(),
                    },
                );
                return ;
            },
            None => {},
        }
        if self.contexts[ctx].tree.len() > u32::MAX as usize {
            self.push_error(
                source_id,
                f.name.span,
                CompileErrorKind::Tree { tree_error: PathTreeError::too_many_paths() },
            );
            return ;
        }
        let ghost stack0 = self.contexts@[ctx as int].path@;
        let vis = sec_visibility(&f.visibility);
        let name = f.name.name.clone();
        let guard = self.contexts[ctx].push_fn(name.as_str(), vis);
        let full = self.contexts[ctx].item();
        proof {
            assert forall|j: int| 0 <= j < full@.len() implies full@[j]
                == crate::items::stack_components(stack0).push(
                ComponentModel::Str(f.name.name@),
            )[j] by {
                if j < stack0.len() {
                    assert(self.contexts@[ctx as int].path@[j] == stack0[j]);
                }
            }
            assert(full@ =~= crate::items::stack_components(stack0).push(
                ComponentModel::Str(f.name.name@),
            ));
        }
        self.unit.insert_name(full);
        self.contexts[ctx].exit(guard);
    }

    /// Index one `use` declaration: compute the qualified path it
    /// names and queue an import task carrying the current scope.
    /// Either the declaration is reported with one diagnostic, or
    /// exactly one import task is queued, carrying the declaration's
    /// span, visibility and wildcard flag, the current scope and the
    /// current item path.
    fn index_use(&mut self, ctx: usize, source_id: usize, u: &ast::ItemUse)
        requires
            old(self).wf(),
            ctx < old(self).contexts@.len(),
        ensures
            final(self).wf(),
            final(self).head == old(self).head,
            queue_extended(*old(self), *final(self)),
            errors_extended(*old(self), *final(self)),
            final(self).contexts@.len() >= old(self).contexts@.len(),
            ctx_preserved(old(self).contexts@[ctx as int], final(self).contexts@[ctx as int]),
            ({
                ||| (final(self).queue == old(self).queue
                    && final(self).errors@.len() == old(self).errors@.len() + 1)
                ||| (final(self).errors@ == old(self).errors@
                    && final(self).queue@.len() == old(self).queue@.len() + 1
                    && final(self).queue@.last() is Import
                    && queued_use_task(
                        final(self).queue@.last()->Import_0,
                        *old(self),
                        ctx,
                        source_id,
                        *u,
                    ))
            }),
    {
        let span = u.span();
        let mut comps: Vec<String> = Vec::new();
        match &u.first {
            ast::PathSegment::Ident(id) => {
                comps.push(id.name.clone());
            },
            ast::PathSegment::Crate(_) => {
                if self.contexts[ctx].tree.len() >= 2 {
                    proof {
                        assert(self.contexts@[ctx as int].wf());
                    }
                    let cname = self.contexts[ctx].crate_();
                    comps.push(cname);
                } else {
                    self.push_error(
                        source_id,
                        span,
                        CompileErrorKind::Internal {
                            msg: "no crate scope for a leading `crate`".to_owned(),
                        },
                    );
                    return ;
                }
            },
            ast::PathSegment::Super(_) => {
                proof {
                    assert(self.contexts@[ctx as int].wf());
                }
                let supe = self.contexts[ctx].super_();
                match supe {
                    Ok(q) => {
                        let filtered = q.filtered();
                        let parts = filtered.iter();
                        let mut k: usize = 0;
                        while k < parts.len()
                            invariant
                                k <= parts@.len(),
                            decreases parts@.len() - k,
                        {
                            comps.push(parts[k].clone());
                            k = k + 1;
                        }
                    },
                    Err(e) => {
                        self.push_error(source_id, span, CompileErrorKind::Tree { tree_error: e });
                        return ;
                    },
                }
            },
        }
        let mut j: usize = 0;
        while j < u.rest.len()
            invariant
                j <= u.rest@.len(),
                self.wf(),
                ctx < self.contexts@.len(),
                self.head == old(self).head,
                self.queue == old(self).queue,
                self.errors@ == old(self).errors@,
                self.contexts == old(self).contexts,
            decreases u.rest@.len() - j,
        {
            match &u.rest[j].1 {
                ast::ItemUseComponent::PathSegment(seg) => {
                    match seg {
                        ast::PathSegment::Ident(id) => {
                            comps.push(id.name.clone());
                        },
                        _ => {
                            self.push_error(
                                source_id,
                                span,
                                CompileErrorKind::Internal {
                                    msg: "`crate` and `super` may only lead a `use` path"
                                        .to_owned(),
                                },
                            );
                            return ;
                        },
                    }
                },
                ast::ItemUseComponent::Wildcard(_) => {},
            }
            j = j + 1;
        }
        let qualified_path = QualifiedPath::from_vec(comps);
        let item = self.contexts[ctx].item();
        let path_ref_id = self.contexts[ctx].current().idx;
        let visibility = sec_visibility(&u.visibility);
        let n_rest = u.rest.len();
        let wildcard = if n_rest > 0 {
            match &u.rest[n_rest - 1].1 {
                ast::ItemUseComponent::Wildcard(_) => true,
                _ => false,
            }
        } else {
            false
        };
        self.queue.push(
            Task::Import(
                Import {
                    item,
                    span,
                    visibility,
                    wildcard,
                    source_id,
                    qualified_path,
                    ctx,
                    path_ref_id,
                },
            ),
        );
    }

    /// Dispatch one import task: hand it to `Import::process` in its
    /// context, and record its failure, if any, as one diagnostic.
    #[verifier::spinoff_prover]
    fn handle_import(&mut self, im: Import)
        requires
            old(self).wf(),
        ensures
            final(self).wf(),
            import_dispatched(*old(self), *final(self), im),
    {
        let source_id = im.source_id;
        let span = im.span;
        let ctx = im.ctx;
        if ctx >= self.contexts.len() {
            self.push_error(
                source_id,
                Span::new(0, 0),
                CompileErrorKind::Internal { msg: "missing indexing context".to_owned() },
            );
            return ;
        }
        proof {
            assert(self.contexts@[ctx as int].wf());
        }
        let r = Import::process(im, &mut self.contexts[ctx], &mut self.unit);
        match r {
            Ok(()) => {},
            Err(e) => {
                proof {
                    assert(self.contexts@ =~= old(self).contexts@);
                }
                self.errors.push(LoadError::new(source_id, e));
                proof {
                    assert(self.errors@.drop_last() =~= old(self).errors@);
                }
            },
        }
    }

    /// Dispatch one macro expansion task: restore the snapshot context
    /// (for an item macro, pop the macro's anonymous slot first, so
    /// the expansion occupies its position and the final paths carry
    /// no trace of the call), expand, and queue indexing of the
    /// expansion one level deeper. Expansion failure is reported
    /// against the call's span and queues no further work.
    #[verifier::spinoff_prover]
    fn handle_expand(&mut self, m: Macro)
        requires
            old(self).wf(),
        ensures
            final(self).wf(),
            expand_dispatched(*old(self), *final(self), m),
    {
        let Macro { kind, ctx, ast: call, source_id, depth } = m;
        let span = call.span();
        if ctx >= self.contexts.len() {
            self.push_error(
                source_id,
                Span::new(0, 0),
                CompileErrorKind::Internal { msg: "missing expansion context".to_owned() },
            );
            return ;
        }
        match kind {
            MacroKind::Expr => {},
            MacroKind::Item => {
                let popped = self.contexts[ctx].pop();
                match popped {
                    Some(Component::Macro(_)) => {},
                    _ => {
                        self.push_error(
                            source_id,
                            span,
                            CompileErrorKind::Internal {
                                msg: "expected macro item as last component of macro expansion"
                                    .to_owned(),
                            },
                        );
                        return ;
                    },
                }
            },
        }
        let name = match &call.path.first {
            ast::PathSegment::Ident(id) => id.name.clone(),
            _ => {
                self.push_error(
                    source_id,
                    span,
                    CompileErrorKind::Internal { msg: "macro names are plain".to_owned() },
                );
                return ;
            },
        };
        let mut found: Option<usize> = None;
        let mut k: usize = 0;
        while k < self.macros.len()
            invariant
                found is Some ==> found.unwrap() < self.macros@.len(),
            decreases self.macros@.len() - k,
        {
            if found.is_none() && self.macros[k].name == name {
                found = Some(k);
            }
            k = k + 1;
        }
        let d = match found {
            Some(d) => d,
            None => {
                self.push_error(source_id, span, CompileErrorKind::MissingMacro { name });
                return ;
            },
        };
        let expansion_kind = self.macros[d].kind;
        let mut p = match Parser::new(self.macros[d].expansion.as_str()) {
            Ok(p) => p,
            Err(e) => {
                self.push_error(source_id, span, CompileErrorKind::Parse { error: e });
                return ;
            },
        };
        let fragment = match expansion_kind {
            MacroKind::Item => {
                match ast::Item::parse(&mut p) {
                    Ok(it) => IndexAst::Item(it),
                    Err(e) => {
                        self.push_error(source_id, span, CompileErrorKind::Parse { error: e });
                        return ;
                    },
                }
            },
            MacroKind::Expr => {
                match ast::Expr::parse_primary(&mut p) {
                    Ok(e) => IndexAst::Expr(e),
                    Err(e) => {
                        self.push_error(source_id, span, CompileErrorKind::Parse { error: e });
                        return ;
                    },
                }
            },
        };
        let item = self.contexts[ctx].item();
        let next_depth = if depth < MAX_EXPANSION_DEPTH {
            depth + 1
        } else {
            depth
        };
        self.queue.push(
            Task::Index(Index { item, ctx, source_id, ast: fragment, depth: next_depth }),
        );
    }
}

/// Read one wildcard candidate off the scope tree: its effective
/// visibility, and the alias kind its import would record.
fn read_wildcard_candidate(items: &Items, qualified_path: &QualifiedPath, n: &String) -> (r: (
    Visibility,
    PathKind,
))
    requires
        items.wf(),
        nonempty(qualified_path@).len() > 0,
    ensures
        r.0 == wildcard_vis(items.tree, qualified_path@, n@),
        r.1 == spec_use_kind(items.tree, qualified_path@.push(n@)),
        r.1 is Use,
        r.1->Use_0.0 <= items.tree.spec_len(),
{
    let mut qualpath = qualified_path.cloned();
    qualpath.push(n.clone());
    proof {
        assert(qualpath@.drop_last() =~= qualified_path@);
        assert(qualpath@.last() == n@);
        assert(nonempty(qualpath@) == nonempty(qualified_path@.push(n@)));
        if n@.len() == 0 {
            assert(nonempty(qualpath@) == nonempty(qualified_path@));
        } else {
            assert(nonempty(qualpath@) == nonempty(qualified_path@).push(n@));
        }
        assert(nonempty(qualpath@).len() > 0);
    }
    match items.find(&qualpath) {
        Ok(p) => {
            let vis = p.visibility(&items.tree);
            let kind_id = p.id(&items.tree);
            proof {
                assert(crate::path_tree::find_from(items.tree, 0, nonempty(qualpath@), 0)
                    == Some(p.idx as int));
                assert(kind_id == PathId(p.idx as u32));
            }
            (vis, PathKind::Use(kind_id))
        },
        Err(_) => {
            proof {
                assert(crate::path_tree::find_from(items.tree, 0, nonempty(qualpath@), 0)
                    is None);
            }
            (Visibility::Public, PathKind::Use(PathId::new(0)))
        },
    }
}

impl Import {
    /// Process the import, populating the scope tree and the symbol
    /// table.
    ///
    /// A non-wildcard import resolves its path in the scope tree,
    /// falling back to a deferred unresolved alias when the target is
    /// absent (forward references are legal), and registers exactly
    /// one alias and one import entry. A wildcard import requires its
    /// prefix to exist in the tree or the symbol table, and registers
    /// one alias and one import entry per candidate of the symbol
    /// table, private candidates filtered out, no extras and no
    /// repeats; a wholly absent prefix is `MissingModule`. Failure
    /// leaves both the tree and the symbol table untouched.
    #[verifier::rlimit(50)]
    #[verifier::spinoff_prover]
    pub fn process(self, items: &mut Items, unit: &mut UnitBuilder) -> (r: Result<
        (),
        CompileError,
    >)
        requires
            old(items).wf(),
        ensures
            final(items).wf(),
            final(items).tree.spec_len() >= old(items).tree.spec_len(),
            final(items).tree.cur() == old(items).tree.cur(),
            final(items).path@ == old(items).path@,
            forall|i: int|
                0 <= i < old(items).tree.spec_len() ==> (#[trigger] final(items).tree.node(
                    i,
                )).parent == old(items).tree.node(i).parent,
            final(unit).names@ == old(unit).names@,
            r is Err ==> *final(items) == *old(items) && *final(unit) == *old(unit)
                && r->Err_0.span == self.span,
            !self.wildcard ==> (r is Ok <==> nonempty(self.qualified_path@).len() > 0
                && self.path_ref_id < old(items).tree.spec_len()),
            self.wildcard ==> (r is Ok <==> nonempty(self.qualified_path@).len() > 0
                && self.path_ref_id < old(items).tree.spec_len() && wildcard_prefix_present(
                old(items).tree,
                *old(unit),
                self.qualified_path@,
            )),
            !self.wildcard && r is Ok ==> plain_use_registered(
                self,
                *old(items),
                *final(items),
                *old(unit),
                *final(unit),
            ),
            self.wildcard && r is Ok ==> wildcard_registered(
                self,
                *old(items),
                *final(items),
                *old(unit),
                *final(unit),
            ),
    {
        let Import {
            item,
            span,
            visibility: use_vis,
            wildcard,
            source_id,
            qualified_path,
            ctx: _,
            path_ref_id,
        } = self;

        let filtered = qualified_path.filtered();
        if filtered.is_empty() {
            return Err(
                CompileError::new(
                    span,
                    CompileErrorKind::Internal { msg: "empty import path".to_owned() },
                ),
            );
        }
        let ghost fp = nonempty(qualified_path@);
        let ghost pm = str_items(fp);

        let mut name_comps: Vec<Component> = Vec::new();
        let parts = filtered.iter();
        let mut k: usize = 0;
        while k < parts.len()
            invariant
                k <= parts@.len(),
                parts.deep_view() == fp,
                parts@.len() == fp.len(),
                pm == str_items(fp),
                name_comps@.len() == k,
                forall|j: int| 0 <= j < k ==> (#[trigger] name_comps@[j])@ == pm[j],
            decreases parts@.len() - k,
        {
            proof {
                assert(parts@[k as int]@ == fp[k as int]);
            }
            name_comps.push(Component::Str(parts[k].clone()));
            k = k + 1;
        }
        let name = Item::of(name_comps);
        proof {
            assert forall|j: int| 0 <= j < name@.len() implies name@[j] == pm[j] by {
                assert(name@[j] == name_comps@[j].deep_view());
            }
            assert(name@ =~= pm);
        }

        let item_ref = match items.get(path_ref_id) {
            Some(r) => r,
            None => {
                return Err(
                    CompileError::new(
                        span,
                        CompileErrorKind::Internal {
                            msg: "the importing scope is gone".to_owned(),
                        },
                    ),
                );
            },
        };

        if wildcard {
            let in_tree = match items.find(&qualified_path) {
                Ok(_) => true,
                Err(_) => false,
            };
            if !in_tree && !unit.contains_prefix(&name) {
                return Err(
                    CompileError::new(span, CompileErrorKind::MissingModule { item: name }),
                );
            }
            let candidates = unit.iter_components(&name);

            // first pass: read each candidate's visibility and target
            // off the still-unchanged scope tree
            let mut survivors: Vec<(String, PathKind)> = Vec::new();
            proof {
                reveal(survivors_sound);
                reveal(survivors_complete);
            }
            let mut c: usize = 0;
            while c < candidates.len()
                invariant
                    *items == *old(items),
                    *unit == *old(unit),
                    old(items).wf(),
                    c <= candidates@.len(),
                    pm == str_items(nonempty(qualified_path@)),
                    nonempty(qualified_path@).len() > 0,
                    forall|j: int, j2: int|
                        0 <= j < j2 < candidates@.len() ==> (#[trigger] candidates@[j])@ != (
                        #[trigger] candidates@[j2])@,
                    survivors_sound(
                        candidates@,
                        old(items).tree,
                        qualified_path@,
                        survivors@,
                        c as int,
                    ),
                    survivors_complete(
                        candidates@,
                        old(items).tree,
                        qualified_path@,
                        survivors@,
                        c as int,
                    ),
                    forall|j: int, j2: int|
                        0 <= j < j2 < survivors@.len() ==> (#[trigger] survivors@[j]).0@ != (
                        #[trigger] survivors@[j2]).0@,
                decreases candidates@.len() - c,
            {
                let ghost pre = survivors@;
                match &candidates[c] {
                    Component::Str(n) => {
                        let (vis, kind) = read_wildcard_candidate(items, &qualified_path, n);
                        let private = match vis {
                            Visibility::PrivateToModule => true,
                            _ => false,
                        };
                        if !private {
                            survivors.push((n.clone(), kind));
                            proof {
                                lemma_survivors_push(
                                    candidates@,
                                    old(items).tree,
                                    qualified_path@,
                                    pre,
                                    survivors@,
                                    c as int,
                                    n@,
                                    kind,
                                );
                            }
                        } else {
                            proof {
                                lemma_survivors_skip(
                                    candidates@,
                                    old(items).tree,
                                    qualified_path@,
                                    survivors@,
                                    c as int,
                                );
                            }
                        }
                    },
                    _ => {
                        proof {
                            lemma_survivors_skip(
                                candidates@,
                                old(items).tree,
                                qualified_path@,
                                survivors@,
                                c as int,
                            );
                        }
                    },
                }
                c = c + 1;
            }

            // second pass: append one alias per survivor under the
            // importing scope
            proof {
                reveal(survivors_sound);
                assert forall|j: int| 0 <= j < survivors@.len() implies (
                #[trigger] survivors@[j]).1 is Use && survivors@[j].1->Use_0.0
                    <= items.tree.spec_len() && survivors@[j].1 == spec_use_kind(
                    items.tree,
                    qualified_path@.push(survivors@[j].0@),
                ) by {}
            }
            let ghost t0 = items.tree;
            let mut k2: usize = 0;
            while k2 < survivors.len()
                invariant
                    items.wf(),
                    t0 == old(items).tree,
                    old(items).wf(),
                    items.tree.spec_len() >= t0.spec_len(),
                    items.tree.cur() == t0.cur(),
                    items.path@ == old(items).path@,
                    item_ref.idx == path_ref_id < t0.spec_len(),
                    forall|i: int|
                        0 <= i < t0.spec_len() ==> (#[trigger] items.tree.node(i)).parent
                            == t0.node(i).parent,
                    forall|i: int|
                        t0.spec_len() <= i < items.tree.spec_len() ==> (
                        #[trigger] items.tree.node(i)).kind is Use && items.tree.node(i).vis
                            == use_vis && items.tree.node(i).parent == Some(
                            PathId(path_ref_id as u32),
                        ),
                    k2 <= survivors@.len(),
                    forall|j: int|
                        0 <= j < survivors@.len() ==> (#[trigger] survivors@[j]).1 is Use
                            && survivors@[j].1->Use_0.0 <= t0.spec_len() && survivors@[j].1
                            == spec_use_kind(t0, qualified_path@.push(survivors@[j].0@)),
                    t0.spec_len() + k2 <= u32::MAX + 1 ==> {
                        &&& items.tree.spec_len() == t0.spec_len() + k2
                        &&& forall|j: int|
                            0 <= j < k2 ==> {
                                &&& (#[trigger] items.tree.node(t0.spec_len() + j)).name@
                                    == survivors@[j].0@
                                &&& items.tree.node(t0.spec_len() + j).kind == survivors@[j].1
                                &&& items.tree.node(t0.spec_len() + j).children@.len() == 0
                            }
                        &&& items.tree.node(path_ref_id as int).children@ == t0.node(
                            path_ref_id as int,
                        ).children@ + Seq::new(
                            k2 as nat,
                            |j: int| PathId((t0.spec_len() + j) as u32),
                        )
                        &&& forall|i: int|
                            0 <= i < t0.spec_len() && i != path_ref_id
                                ==> items.tree.node(i) == t0.node(i)
                    },
                decreases survivors@.len() - k2,
            {
                if items.tree.len() <= u32::MAX as usize {
                    let ghost tpre = items.tree;
                    let appended = item_ref.append_child(
                        &mut items.tree,
                        survivors[k2].0.as_str(),
                        survivors[k2].1,
                        use_vis,
                    );
                    match appended {
                        Ok(_) => {},
                        Err(_) => {
                            proof {
                                assert(false);
                            }
                        },
                    }
                    proof {
                        if t0.spec_len() + k2 + 1 <= u32::MAX + 1 {
                            assert(items.tree.node(path_ref_id as int).children@ =~= t0.node(
                                path_ref_id as int,
                            ).children@ + Seq::new(
                                (k2 + 1) as nat,
                                |j: int| PathId((t0.spec_len() + j) as u32),
                            ));
                        }
                    }
                }
                k2 = k2 + 1;
            }

            // third pass: register one import entry per survivor
            let ghost n0 = unit.imports@.len() as int;
            let mut w: usize = 0;
            while w < survivors.len()
                invariant
                    *unit == *old(unit) || true,
                    unit.names@ == old(unit).names@,
                    w <= survivors@.len(),
                    n0 == old(unit).imports@.len(),
                    unit.imports@.len() == n0 + w,
                    name@ == pm,
                    span == self.span,
                    source_id == self.source_id,
                    item@ == self.item@,
                    forall|j: int|
                        0 <= j < n0 ==> #[trigger] unit.imports@[j] == old(unit).imports@[j],
                    forall|j: int|
                        0 <= j < w ==> (#[trigger] unit.imports@[n0 + j]).from@ == self.item@
                            && unit.imports@[n0 + j].span == self.span && unit.imports@[n0
                            + j].source_id == self.source_id && unit.imports@[n0 + j].to@
                            == pm.push(ComponentModel::Str(survivors@[j].0@)),
                decreases survivors@.len() - w,
            {
                let mut imported = name.cloned();
                imported.push(Component::Str(survivors[w].0.clone()));
                unit.new_import(item.cloned(), imported, span, source_id);
                proof {
                    assert forall|j: int|
                        0 <= j < n0 implies #[trigger] unit.imports@[j] == old(unit).imports@[
                    j] by {
                        assert(unit.imports@.drop_last()[j] == unit.imports@[j]);
                    }
                    assert forall|j: int|
                        0 <= j < w + 1 implies (#[trigger] unit.imports@[n0 + j]).from@
                            == self.item@ && unit.imports@[n0 + j].span == self.span
                            && unit.imports@[n0 + j].source_id == self.source_id
                            && unit.imports@[n0 + j].to@ == pm.push(
                            ComponentModel::Str(survivors@[j].0@),
                        ) by {
                        if j < w {
                            assert(unit.imports@.drop_last()[n0 + j] == unit.imports@[n0 + j]);
                        }
                    }
                }
                w = w + 1;
            }

            proof {
                lemma_wildcard_entries_sound(
                    self,
                    old(items).tree,
                    old(unit).names@,
                    unit.imports@,
                    n0,
                    candidates@,
                    survivors@,
                );
                lemma_wildcard_entries_complete(
                    self,
                    old(items).tree,
                    old(unit).names@,
                    unit.imports@,
                    n0,
                    candidates@,
                    survivors@,
                );
                lemma_wildcard_entries_distinct(self, unit.imports@, n0, survivors@);
                let cnt = unit.imports@.len() - n0;
                assert(cnt == survivors@.len());
                if t0.spec_len() + cnt <= u32::MAX + 1 {
                    assert forall|j: int| 0 <= j < cnt implies {
                        let nd = items.tree.node(t0.spec_len() + j);
                        &&& (#[trigger] unit.imports@[n0 + j]).to@ == pm.push(
                            ComponentModel::Str(nd.name@),
                        )
                        &&& nd.kind == spec_use_kind(t0, self.qualified_path@.push(nd.name@))
                        &&& nd.children@.len() == 0
                    } by {
                        assert(items.tree.node(t0.spec_len() + j).name@ == survivors@[j].0@);
                        assert(unit.imports@[n0 + j].to@ == pm.push(
                            ComponentModel::Str(survivors@[j].0@),
                        ));
                        assert(survivors@[j].1 == spec_use_kind(
                            t0,
                            qualified_path@.push(survivors@[j].0@),
                        ));
                    }
                    assert(items.tree.node(path_ref_id as int).children@ =~= t0.node(
                        path_ref_id as int,
                    ).children@ + Seq::new(
                        cnt as nat,
                        |j: int| PathId((t0.spec_len() + j) as u32),
                    ));
                }
            }
            Ok(())
        } else {
            let kind = match items.find(&qualified_path) {
                Ok(p) => PathKind::Use(p.id(&items.tree)),
                Err(_) => PathKind::Use(PathId::new(0)),
            };
            proof {
                assert(kind == spec_use_kind(old(items).tree, qualified_path@));
            }
            let last = match filtered.last() {
                Some(l) => l.clone(),
                None => {
                    return Err(
                        CompileError::new(
                            span,
                            CompileErrorKind::Internal { msg: "empty import path".to_owned() },
                        ),
                    );
                },
            };
            if items.tree.len() <= u32::MAX as usize {
                let appended = item_ref.append_child(
                    &mut items.tree,
                    last.as_str(),
                    kind,
                    use_vis,
                );
                match appended {
                    Ok(_) => {},
                    Err(_) => {
                        proof {
                            assert(false);
                        }
                    },
                }
            }
            unit.new_import(item, name, span, source_id);
            Ok(())
        }
    }
}

/// The footprint of a successfully processed plain (non-wildcard)
/// import `im`: exactly one import entry was registered, carrying the
/// declaring item, the filtered path, the declaration's span and
/// source; and, as long as the id space allowed it, exactly one alias
/// node was appended under the importing scope, named by the path's
/// last component, of alias kind for the resolved target (deferred
/// when absent), with the declared visibility.
pub open spec fn plain_use_registered(
    im: Import,
    items0: Items,
    items1: Items,
    unit0: UnitBuilder,
    unit1: UnitBuilder,
) -> bool {
    let fp = nonempty(im.qualified_path@);
    &&& unit1.imports@.len() == unit0.imports@.len() + 1
    &&& unit1.imports@.drop_last() == unit0.imports@
    &&& unit1.imports@.last().from == im.item
    &&& unit1.imports@.last().to@ == str_items(fp)
    &&& unit1.imports@.last().span == im.span
    &&& unit1.imports@.last().source_id == im.source_id
    &&& items0.tree.spec_len() <= u32::MAX ==> {
        &&& items1.tree.spec_len() == items0.tree.spec_len() + 1
        &&& items1.tree.node(items0.tree.spec_len()).name@ == fp.last()
        &&& items1.tree.node(items0.tree.spec_len()).kind == spec_use_kind(
            items0.tree,
            im.qualified_path@,
        )
        &&& items1.tree.node(items0.tree.spec_len()).vis == im.visibility
        &&& items1.tree.node(items0.tree.spec_len()).parent == Some(
            PathId(im.path_ref_id as u32),
        )
        &&& items1.tree.node(im.path_ref_id as int).children@ == items0.tree.node(
            im.path_ref_id as int,
        ).children@.push(PathId(items0.tree.spec_len() as u32))
        &&& forall|i: int|
            0 <= i < items0.tree.spec_len() && i != im.path_ref_id ==> items1.tree.node(i)
                == items0.tree.node(i)
    }
    &&& items0.tree.spec_len() > u32::MAX ==> items1.tree == items0.tree
}

/// The footprint of a successfully processed wildcard import `im`:
/// one import entry was registered for every candidate of the symbol
/// table that continues the prefix and is not private in the scope
/// tree -- no extras, no repeats -- each carrying the declaring item,
/// the prefix extended by the candidate, the declaration's span and
/// source. Every node the tree gained is an alias under the importing
/// scope with the declared visibility; and, as long as the id space
/// allowed it, the tree gained exactly one alias per import entry, in
/// the same order, each named by its entry's candidate and aliasing
/// the target that the prefix extended by that name resolved to
/// (deferred when absent), all appended to the importing scope's child
/// list, while every other node is untouched.
pub open spec fn wildcard_registered(
    im: Import,
    items0: Items,
    items1: Items,
    unit0: UnitBuilder,
    unit1: UnitBuilder,
) -> bool {
    let pm = str_items(nonempty(im.qualified_path@));
    let n0 = unit0.imports@.len() as int;
    &&& unit1.imports@.len() >= n0
    &&& items0.tree.spec_len() + (unit1.imports@.len() - n0) <= u32::MAX + 1 ==> {
        let cnt = unit1.imports@.len() - n0;
        &&& items1.tree.spec_len() == items0.tree.spec_len() + cnt
        &&& forall|j: int|
            0 <= j < cnt ==> {
                let nd = items1.tree.node(items0.tree.spec_len() + j);
                &&& (#[trigger] unit1.imports@[n0 + j]).to@ == pm.push(
                    ComponentModel::Str(nd.name@),
                )
                &&& nd.kind == spec_use_kind(items0.tree, im.qualified_path@.push(nd.name@))
                &&& nd.children@.len() == 0
            }
        &&& items1.tree.node(im.path_ref_id as int).children@ == items0.tree.node(
            im.path_ref_id as int,
        ).children@ + Seq::new(
            cnt as nat,
            |j: int| PathId((items0.tree.spec_len() + j) as u32),
        )
        &&& forall|i: int|
            0 <= i < items0.tree.spec_len() && i != im.path_ref_id ==> items1.tree.node(i)
                == items0.tree.node(i)
    }
    &&& forall|j: int| 0 <= j < n0 ==> #[trigger] unit1.imports@[j] == unit0.imports@[j]
    &&& forall|j: int|
        n0 <= j < unit1.imports@.len() ==> {
            let e = #[trigger] unit1.imports@[j];
            &&& e.from@ == im.item@
            &&& e.span == im.span
            &&& e.source_id == im.source_id
            &&& exists|c: Seq<char>|
                e.to@ == pm.push(ComponentModel::Str(c)) && #[trigger] continues(
                    unit0.names@,
                    pm,
                    ComponentModel::Str(c),
                ) && !(wildcard_vis(items0.tree, im.qualified_path@, c) is PrivateToModule)
        }
    &&& forall|c: Seq<char>|
        #[trigger] continues(unit0.names@, pm, ComponentModel::Str(c)) && !(wildcard_vis(
            items0.tree,
            im.qualified_path@,
            c,
        ) is PrivateToModule) ==> exists|j: int|
            n0 <= j < unit1.imports@.len() && (#[trigger] unit1.imports@[j]).to@ == pm.push(
                ComponentModel::Str(c),
            )
    &&& forall|j1: int, j2: int|
        n0 <= j1 < j2 < unit1.imports@.len() ==> (#[trigger] unit1.imports@[j1]).to@ != (
        #[trigger] unit1.imports@[j2]).to@
    &&& forall|i: int|
        items0.tree.spec_len() <= i < items1.tree.spec_len() ==> (
        #[trigger] items1.tree.node(i)).kind is Use && items1.tree.node(i).vis == im.visibility
            && items1.tree.node(i).parent == Some(PathId(im.path_ref_id as u32))
}

/// The sound side of the first wildcard pass: every survivor so far is
/// a named, non-private candidate whose alias kind is the resolved
/// (or deferred) target of the prefix extended by its name.
#[verifier::opaque]
pub open spec fn survivors_sound(
    cands: Seq<Component>,
    t: PathTree,
    qp: Seq<Seq<char>>,
    sv: Seq<(String, PathKind)>,
    c: int,
) -> bool {
    forall|j: int|
        0 <= j < sv.len() ==> {
            &&& exists|q: int|
                0 <= q < c && (#[trigger] cands[q])@ == ComponentModel::Str((#[trigger] sv[j]).0@)
            &&& !(wildcard_vis(t, qp, sv[j].0@) is PrivateToModule)
            &&& sv[j].1 == spec_use_kind(t, qp.push(sv[j].0@))
            &&& sv[j].1 is Use
            &&& sv[j].1->Use_0.0 <= t.spec_len()
        }
}

/// The complete side of the first wildcard pass: every named,
/// non-private candidate seen so far has a survivor.
#[verifier::opaque]
pub open spec fn survivors_complete(
    cands: Seq<Component>,
    t: PathTree,
    qp: Seq<Seq<char>>,
    sv: Seq<(String, PathKind)>,
    c: int,
) -> bool {
    forall|q: int|
        0 <= q < c && (#[trigger] cands[q])@ is Str && !(wildcard_vis(
            t,
            qp,
            cands[q]@->Str_0,
        ) is PrivateToModule) ==> exists|j: int|
            0 <= j < sv.len() && (#[trigger] sv[j]).0@ == cands[q]@->Str_0
}

/// The survivor facts are kept when the candidate at `c` is skipped:
/// it is unnamed, or private in the tree.
#[verifier::spinoff_prover]
proof fn lemma_survivors_skip(
    cands: Seq<Component>,
    t: PathTree,
    qp: Seq<Seq<char>>,
    sv: Seq<(String, PathKind)>,
    c: int,
)
    requires
        0 <= c < cands.len(),
        survivors_sound(cands, t, qp, sv, c),
        survivors_complete(cands, t, qp, sv, c),
        cands[c]@ is Str ==> wildcard_vis(t, qp, cands[c]@->Str_0) is PrivateToModule,
    ensures
        survivors_sound(cands, t, qp, sv, c + 1),
        survivors_complete(cands, t, qp, sv, c + 1),
{
    reveal(survivors_sound);
    reveal(survivors_complete);
}

/// The survivor facts are kept when the named, non-private candidate
/// at `c` is appended to the survivors.
#[verifier::spinoff_prover]
proof fn lemma_survivors_push(
    cands: Seq<Component>,
    t: PathTree,
    qp: Seq<Seq<char>>,
    pre: Seq<(String, PathKind)>,
    cur: Seq<(String, PathKind)>,
    c: int,
    n: Seq<char>,
    kind: PathKind,
)
    requires
        0 <= c < cands.len(),
        survivors_sound(cands, t, qp, pre, c),
        survivors_complete(cands, t, qp, pre, c),
        cands[c]@ == ComponentModel::Str(n),
        !(wildcard_vis(t, qp, n) is PrivateToModule),
        kind == spec_use_kind(t, qp.push(n)),
        kind is Use,
        kind->Use_0.0 <= t.spec_len(),
        cur.len() == pre.len() + 1,
        forall|j: int| 0 <= j < pre.len() ==> #[trigger] cur[j] == pre[j],
        cur.last().0@ == n,
        cur.last().1 == kind,
        forall|q: int, q2: int|
            0 <= q < q2 < cands.len() ==> (#[trigger] cands[q])@ != (#[trigger] cands[q2])@,
        forall|j1: int, j2: int|
            0 <= j1 < j2 < pre.len() ==> (#[trigger] pre[j1]).0@ != (#[trigger] pre[j2]).0@,
    ensures
        survivors_sound(cands, t, qp, cur, c + 1),
        survivors_complete(cands, t, qp, cur, c + 1),
        forall|j1: int, j2: int|
            0 <= j1 < j2 < cur.len() ==> (#[trigger] cur[j1]).0@ != (#[trigger] cur[j2]).0@,
{
    reveal(survivors_sound);
    reveal(survivors_complete);
    let m = pre.len() as int;
    assert forall|j1: int, j2: int|
        0 <= j1 < j2 < cur.len() implies (#[trigger] cur[j1]).0@ != (#[trigger] cur[j2]).0@ by {
        if j2 == m {
            assert(cur[j1] == pre[j1]);
            if pre[j1].0@ == n {
                let q1 = choose|q1: int|
                    0 <= q1 < c && (#[trigger] cands[q1])@ == ComponentModel::Str(pre[j1].0@);
                assert(cands[q1]@ == cands[c]@);
                assert(false);
            }
        } else {
            assert(cur[j1] == pre[j1] && cur[j2] == pre[j2]);
        }
    }
    assert forall|j: int| 0 <= j < cur.len() implies {
        &&& exists|q: int|
            0 <= q < c + 1 && (#[trigger] cands[q])@ == ComponentModel::Str((#[trigger] cur[j]).0@)
        &&& !(wildcard_vis(t, qp, cur[j].0@) is PrivateToModule)
        &&& cur[j].1 == spec_use_kind(t, qp.push(cur[j].0@))
        &&& cur[j].1 is Use
        &&& cur[j].1->Use_0.0 <= t.spec_len()
    } by {
        if j == m {
            assert(0 <= c < c + 1 && cands[c]@ == ComponentModel::Str(cur[j].0@));
        } else {
            assert(cur[j] == pre[j]);
            let q0 = choose|q0: int|
                0 <= q0 < c && (#[trigger] cands[q0])@ == ComponentModel::Str(pre[j].0@);
            assert(0 <= q0 < c + 1 && cands[q0]@ == ComponentModel::Str(cur[j].0@));
        }
    }
    assert forall|q: int|
        0 <= q < c + 1 && (#[trigger] cands[q])@ is Str && !(wildcard_vis(
            t,
            qp,
            cands[q]@->Str_0,
        ) is PrivateToModule) implies exists|j: int|
        0 <= j < cur.len() && (#[trigger] cur[j]).0@ == cands[q]@->Str_0 by {
        if q == c {
            assert(0 <= m < cur.len() && cur[m].0@ == cands[q]@->Str_0);
        } else {
            let j0 = choose|j0: int|
                0 <= j0 < pre.len() && (#[trigger] pre[j0]).0@ == cands[q]@->Str_0;
            assert(cur[j0] == pre[j0]);
            assert(0 <= j0 < cur.len() && cur[j0].0@ == cands[q]@->Str_0);
        }
    }
}

/// The added entries of a wildcard import are sound: each one is the
/// prefix extended by a named, non-private continuation.
#[verifier::spinoff_prover]
proof fn lemma_wildcard_entries_sound(
    im: Import,
    t0: PathTree,
    names0: Seq<Item>,
    entries: Seq<crate::unit::ImportEntry>,
    n0: int,
    cands: Seq<Component>,
    sv: Seq<(String, PathKind)>,
)
    requires
        0 <= n0,
        entries.len() == n0 + sv.len(),
        forall|j: int|
            0 <= j < cands.len() ==> continues(
                names0,
                str_items(nonempty(im.qualified_path@)),
                (#[trigger] cands[j])@,
            ),
        survivors_sound(cands, t0, im.qualified_path@, sv, cands.len() as int),
        forall|j: int|
            0 <= j < sv.len() ==> (#[trigger] entries[n0 + j]).from@ == im.item@ && entries[n0
                + j].span == im.span && entries[n0 + j].source_id == im.source_id && entries[n0
                + j].to@ == str_items(nonempty(im.qualified_path@)).push(
                ComponentModel::Str(sv[j].0@),
            ),
    ensures
        forall|j: int|
            n0 <= j < entries.len() ==> {
                let e = #[trigger] entries[j];
                &&& e.from@ == im.item@
                &&& e.span == im.span
                &&& e.source_id == im.source_id
                &&& exists|c: Seq<char>|
                    e.to@ == str_items(nonempty(im.qualified_path@)).push(
                        ComponentModel::Str(c),
                    ) && #[trigger] continues(
                        names0,
                        str_items(nonempty(im.qualified_path@)),
                        ComponentModel::Str(c),
                    ) && !(wildcard_vis(t0, im.qualified_path@, c) is PrivateToModule)
            },
{
    reveal(survivors_sound);
    let pm = str_items(nonempty(im.qualified_path@));
    assert forall|j: int| n0 <= j < entries.len() implies {
        let e = #[trigger] entries[j];
        &&& e.from@ == im.item@
        &&& e.span == im.span
        &&& e.source_id == im.source_id
        &&& exists|c: Seq<char>|
            e.to@ == pm.push(ComponentModel::Str(c)) && #[trigger] continues(
                names0,
                pm,
                ComponentModel::Str(c),
            ) && !(wildcard_vis(t0, im.qualified_path@, c) is PrivateToModule)
    } by {
        let sj = j - n0;
        assert(entries[n0 + sj].to@ == pm.push(ComponentModel::Str(sv[sj].0@)));
        let q0 = choose|q0: int|
            0 <= q0 < cands.len() as int && (#[trigger] cands[q0])@ == ComponentModel::Str(
                sv[sj].0@,
            );
        assert(continues(names0, pm, cands[q0]@));
        assert(entries[j].to@ == pm.push(ComponentModel::Str(sv[sj].0@)) && continues(
            names0,
            pm,
            ComponentModel::Str(sv[sj].0@),
        ) && !(wildcard_vis(t0, im.qualified_path@, sv[sj].0@) is PrivateToModule));
    }
}

/// The added entries of a wildcard import are complete: every named,
/// non-private continuation of the prefix got an entry.
#[verifier::spinoff_prover]
proof fn lemma_wildcard_entries_complete(
    im: Import,
    t0: PathTree,
    names0: Seq<Item>,
    entries: Seq<crate::unit::ImportEntry>,
    n0: int,
    cands: Seq<Component>,
    sv: Seq<(String, PathKind)>,
)
    requires
        0 <= n0,
        entries.len() == n0 + sv.len(),
        forall|c: ComponentModel|
            #[trigger] continues(names0, str_items(nonempty(im.qualified_path@)), c)
                ==> exists|j: int| 0 <= j < cands.len() && (#[trigger] cands[j])@ == c,
        survivors_complete(cands, t0, im.qualified_path@, sv, cands.len() as int),
        forall|j: int|
            0 <= j < sv.len() ==> (#[trigger] entries[n0 + j]).to@ == str_items(
                nonempty(im.qualified_path@),
            ).push(ComponentModel::Str(sv[j].0@)),
    ensures
        forall|c: Seq<char>|
            #[trigger] continues(names0, str_items(nonempty(im.qualified_path@)),
                ComponentModel::Str(c)) && !(wildcard_vis(t0, im.qualified_path@, c)
                is PrivateToModule) ==> exists|j: int|
                n0 <= j < entries.len() && (#[trigger] entries[j]).to@ == str_items(
                    nonempty(im.qualified_path@),
                ).push(ComponentModel::Str(c)),
{
    reveal(survivors_complete);
    let pm = str_items(nonempty(im.qualified_path@));
    assert forall|c: Seq<char>|
        #[trigger] continues(names0, pm, ComponentModel::Str(c)) && !(wildcard_vis(
            t0,
            im.qualified_path@,
            c,
        ) is PrivateToModule) implies exists|j: int|
        n0 <= j < entries.len() && (#[trigger] entries[j]).to@ == pm.push(
            ComponentModel::Str(c),
        ) by {
        let q0 = choose|q0: int|
            0 <= q0 < cands.len() && (#[trigger] cands[q0])@ == ComponentModel::Str(c);
        assert(cands[q0]@ is Str && cands[q0]@->Str_0 == c);
        let j0 = choose|j0: int| 0 <= j0 < sv.len() && (#[trigger] sv[j0]).0@ == c;
        assert(entries[n0 + j0].to@ == pm.push(ComponentModel::Str(c)));
        assert(n0 <= n0 + j0 < entries.len());
    }
}

/// The added entries of a wildcard import name distinct targets.
#[verifier::spinoff_prover]
proof fn lemma_wildcard_entries_distinct(
    im: Import,
    entries: Seq<crate::unit::ImportEntry>,
    n0: int,
    sv: Seq<(String, PathKind)>,
)
    requires
        0 <= n0,
        entries.len() == n0 + sv.len(),
        forall|j1: int, j2: int|
            0 <= j1 < j2 < sv.len() ==> (#[trigger] sv[j1]).0@ != (#[trigger] sv[j2]).0@,
        forall|j: int|
            0 <= j < sv.len() ==> (#[trigger] entries[n0 + j]).to@ == str_items(
                nonempty(im.qualified_path@),
            ).push(ComponentModel::Str(sv[j].0@)),
    ensures
        forall|j1: int, j2: int|
            n0 <= j1 < j2 < entries.len() ==> (#[trigger] entries[j1]).to@ != (
            #[trigger] entries[j2]).to@,
{
    let pm = str_items(nonempty(im.qualified_path@));
    assert forall|j1: int, j2: int|
        n0 <= j1 < j2 < entries.len() implies (#[trigger] entries[j1]).to@ != (
    #[trigger] entries[j2]).to@ by {
        let s1 = j1 - n0;
        let s2 = j2 - n0;
        assert(sv[s1].0@ != sv[s2].0@);
        assert(entries[n0 + s1].to@ == pm.push(ComponentModel::Str(sv[s1].0@)));
        assert(entries[n0 + s2].to@ == pm.push(ComponentModel::Str(sv[s2].0@)));
        if entries[j1].to@ == entries[j2].to@ {
            assert(entries[j1].to@.last() == entries[j2].to@.last());
            assert(false);
        }
    }
}

} // verus!
