//! The scope tree: an arena of every declaration discovered while indexing.
//!
//! Nodes are addressed by small integer ids. A node is created when a
//! declaration is discovered and lives for the whole compilation; ids are
//! never reused and nodes are never deleted, so ids stay stable for
//! diagnostics. The "current" node follows a stack discipline through
//! `push_scoped` and `pop`.

use vstd::prelude::*;
use crate::sec::Visibility;
use crate::worker::{lcp, nonempty, prefix_of, QualifiedPath};

verus! {

/// Error when using the path tree.
#[derive(Debug)]
pub enum PathTreeError {
    /// Could not resolve a path; `msg` says where.
    UnresolvablePath { msg: String },
    /// The number of nodes would exceed `limit`.
    TooManyPaths { limit: u32 },
}

impl PathTreeError {
    /// The error raised when the id space is exhausted.
    pub fn too_many_paths() -> (r: Self)
        ensures
            r == (PathTreeError::TooManyPaths { limit: u32::MAX }),
    {
        PathTreeError::TooManyPaths { limit: u32::MAX }
    }

    /// The error raised when a path component cannot be resolved.
    pub fn unresolvable_path(msg: String) -> (r: Self)
        ensures
            r is UnresolvablePath && r->UnresolvablePath_msg@ == msg@,
    {
        PathTreeError::UnresolvablePath { msg }
    }
}

/// The kind of scope a node stands for.
#[derive(Copy, Clone, Debug)]
pub enum PathKind {
    /// The root scope `::`.
    Package,
    /// The crate scope.
    Crate,
    /// A file.
    File,
    /// A module scope.
    Mod,
    /// An alias created by a `use` declaration, pointing at the node it
    /// stands for. The id 0 marks a deferred, not yet resolved alias.
    Use(PathId),
    /// A struct body.
    Struct,
    /// An enum body.
    Enum,
    /// `type X = Y;`
    TypeAlias,
    /// An impl block scope.
    Impl,
    /// A function.
    Fn,
    /// A const expression.
    Const,
    /// A struct field.
    Field,
    /// An enum variant.
    Variant,
    /// A macro.
    Macro,
    /// A closure.
    Closure,
    /// An anonymous block.
    Block,
}

impl PathKind {
    /// True for the crate scope.
    pub fn is_crate(&self) -> (r: bool)
        ensures
            r == (*self is Crate),
    {
        match self {
            PathKind::Crate => true,
            _ => false,
        }
    }

    /// True for a struct or enum body.
    pub fn is_struct_or_enum(&self) -> (r: bool)
        ensures
            r == (*self is Struct || *self is Enum),
    {
        match self {
            PathKind::Struct | PathKind::Enum => true,
            _ => false,
        }
    }

    /// True for a file scope.
    pub fn is_file(&self) -> (r: bool)
        ensures
            r == (*self is File),
    {
        match self {
            PathKind::File => true,
            _ => false,
        }
    }

    /// True for a closure scope.
    pub fn is_closure(&self) -> (r: bool)
        ensures
            r == (*self is Closure),
    {
        match self {
            PathKind::Closure => true,
            _ => false,
        }
    }

    /// True for an anonymous block scope.
    pub fn is_block(&self) -> (r: bool)
        ensures
            r == (*self is Block),
    {
        match self {
            PathKind::Block => true,
            _ => false,
        }
    }

    /// True for a function scope.
    pub fn is_function(&self) -> (r: bool)
        ensures
            r == (*self is Fn),
    {
        match self {
            PathKind::Fn => true,
            _ => false,
        }
    }

    /// True for a module or crate scope.
    pub fn is_module(&self) -> (r: bool)
        ensures
            r == is_module_kind(*self),
    {
        match self {
            PathKind::Mod | PathKind::Crate => true,
            _ => false,
        }
    }
}

/// The rendering of a scope kind, for diagnostics.
pub open spec fn kind_label(k: PathKind) -> Seq<char> {
    match k {
        PathKind::Package => "Package"@,
        PathKind::Crate => "Crate"@,
        PathKind::File => "File"@,
        PathKind::Mod => "Mod"@,
        PathKind::Use(_) => "Use"@,
        PathKind::Struct => "Struct"@,
        PathKind::Enum => "Enum"@,
        PathKind::TypeAlias => "TypeAlias"@,
        PathKind::Impl => "Impl"@,
        PathKind::Fn => "Fn"@,
        PathKind::Const => "Const"@,
        PathKind::Field => "Field"@,
        PathKind::Variant => "Variant"@,
        PathKind::Macro => "Macro"@,
        PathKind::Closure => "Closure"@,
        PathKind::Block => "Block"@,
    }
}

impl PathKind {
    /// The kind's name, for diagnostics.
    pub fn label(&self) -> (r: &'static str)
        ensures
            r@ == kind_label(*self),
    {
        match self {
            PathKind::Package => "Package",
            PathKind::Crate => "Crate",
            PathKind::File => "File",
            PathKind::Mod => "Mod",
            PathKind::Use(_) => "Use",
            PathKind::Struct => "Struct",
            PathKind::Enum => "Enum",
            PathKind::TypeAlias => "TypeAlias",
            PathKind::Impl => "Impl",
            PathKind::Fn => "Fn",
            PathKind::Const => "Const",
            PathKind::Field => "Field",
            PathKind::Variant => "Variant",
            PathKind::Macro => "Macro",
            PathKind::Closure => "Closure",
            PathKind::Block => "Block",
        }
    }
}

/// The decimal digit character for `d`.
pub open spec fn digit_char(d: int) -> char {
    if d == 0 {
        '0'
    } else if d == 1 {
        '1'
    } else if d == 2 {
        '2'
    } else if d == 3 {
        '3'
    } else if d == 4 {
        '4'
    } else if d == 5 {
        '5'
    } else if d == 6 {
        '6'
    } else if d == 7 {
        '7'
    } else if d == 8 {
        '8'
    } else {
        '9'
    }
}

/// The decimal rendering of `n`.
pub open spec fn dec_spec(n: nat) -> Seq<char>
    decreases n,
{
    if n < 10 {
        seq![digit_char(n as int)]
    } else {
        dec_spec(n / 10).push(digit_char((n % 10) as int))
    }
}

/// Append the decimal rendering of `n` to `acc`.
fn push_decimal(acc: &mut String, n: u64)
    ensures
        final(acc)@ == old(acc)@ + dec_spec(n as nat),
    decreases n,
{
    if n >= 10 {
        push_decimal(acc, n / 10);
    }
    match n % 10 {
        0 => acc.append("0"),
        1 => acc.append("1"),
        2 => acc.append("2"),
        3 => acc.append("3"),
        4 => acc.append("4"),
        5 => acc.append("5"),
        6 => acc.append("6"),
        7 => acc.append("7"),
        8 => acc.append("8"),
        _ => acc.append("9"),
    }
    proof {
        vstd::prelude::reveal_strlit("0");
        vstd::prelude::reveal_strlit("1");
        vstd::prelude::reveal_strlit("2");
        vstd::prelude::reveal_strlit("3");
        vstd::prelude::reveal_strlit("4");
        vstd::prelude::reveal_strlit("5");
        vstd::prelude::reveal_strlit("6");
        vstd::prelude::reveal_strlit("7");
        vstd::prelude::reveal_strlit("8");
        vstd::prelude::reveal_strlit("9");
        assert(acc@ =~= old(acc)@ + dec_spec(n as nat));
    }
}

/// The decimal rendering of `n`, as an owned string.
pub(crate) fn decimal_string(n: u64) -> (r: String)
    ensures
        r@ == dec_spec(n as nat),
{
    let mut acc = String::new();
    push_decimal(&mut acc, n);
    proof {
        assert(acc@ =~= dec_spec(n as nat));
    }
    acc
}

/// A value that renders a scope tree for diagnostics.
pub struct TreeFormatter<'a>(pub &'a PathTree);

impl<'a> TreeFormatter<'a> {
    /// Render the tree, one line per node.
    pub fn render(&self) -> (r: String)
        requires
            self.0.wf(),
    {
        self.0.fmt_list()
    }
}

/// True for the kinds that count as modules when walking for
/// `self`/`super`.
pub open spec fn is_module_kind(k: PathKind) -> bool {
    k is Mod || k is Crate
}

/// The stable id of a node in the tree: its index in the arena.
#[derive(Copy, Clone, Debug, Hash, PartialEq, Eq, Structural)]
pub struct PathId(pub u32);

impl PathId {
    /// Wrap a raw id.
    pub fn new(n: u32) -> (r: Self)
        ensures
            r.0 == n,
    {
        PathId(n)
    }

    /// The id as an index.
    pub fn to_usize(self) -> (r: usize)
        ensures
            r == self.0 as usize,
    {
        self.0 as usize
    }
}

/// One node of the scope tree.
#[derive(Debug)]
pub struct PathPart {
    pub id: PathId,
    pub vis: Visibility,
    pub parent: Option<PathId>,
    pub name: String,
    pub kind: PathKind,
    pub children: Vec<PathId>,
}

impl PathPart {
    /// The node's visibility tag.
    pub fn visibility(&self) -> (r: Visibility)
        ensures
            r == self.vis,
    {
        self.vis
    }

    /// The node's name. Anonymous scopes carry their sibling index
    /// rendered as a name.
    pub fn name(&self) -> (r: &String)
        ensures
            r@ == self.name@,
    {
        &self.name
    }

    /// The node's kind.
    pub fn kind(&self) -> (r: PathKind)
        ensures
            r == self.kind,
    {
        self.kind
    }

    /// The node's parent id, `None` only for the root.
    pub fn parent(&self) -> (r: Option<PathId>)
        ensures
            r == self.parent,
    {
        self.parent
    }

    /// The node's own id.
    pub fn id(&self) -> (r: PathId)
        ensures
            r == self.id,
    {
        self.id
    }

    /// Record `id` as a child of this node.
    pub fn append_child(&mut self, id: PathId)
        ensures
            final(self).children@ == old(self).children@.push(id),
            final(self).id == old(self).id,
            final(self).vis == old(self).vis,
            final(self).parent == old(self).parent,
            final(self).name == old(self).name,
            final(self).kind == old(self).kind,
    {
        self.children.push(id)
    }

    /// An exact copy of the node.
    pub fn cloned(&self) -> (r: Self)
        ensures
            same_part(r, *self),
    {
        let mut children: Vec<PathId> = Vec::new();
        let mut i: usize = 0;
        while i < self.children.len()
            invariant
                i <= self.children@.len(),
                children@ =~= self.children@.subrange(0, i as int),
            decreases self.children.len() - i,
        {
            children.push(self.children[i]);
            assert(children@ =~= self.children@.subrange(0, i as int + 1));
            i = i + 1;
        }
        assert(children@ =~= self.children@);
        PathPart {
            id: self.id,
            vis: self.vis,
            parent: self.parent,
            name: self.name.clone(),
            kind: self.kind,
            children,
        }
    }
}

/// A scoped acquisition: the receipt of one `push_scoped`, naming the
/// node that the matching `pop` must leave. Release is explicit: the
/// holder calls `pop` (or `Items::exit`) on every exit path and checks
/// the popped node against this receipt.
pub struct Guard {
    pub path_ref: PathRef,
}

/// The spec-level value of one scope-tree node. Its id is its index in
/// the model; ids are left implicit.
#[verifier::ext_equal]
pub struct PartModel {
    pub vis: Visibility,
    pub parent: Option<int>,
    pub name: Seq<char>,
    pub kind: PathKind,
    pub children: Seq<int>,
}

/// The spec-level value of a whole scope tree.
#[verifier::ext_equal]
pub struct TreeModel {
    pub nodes: Seq<PartModel>,
    pub current: int,
}

/// The spec-level value of one node.
pub open spec fn part_model(p: PathPart) -> PartModel {
    PartModel {
        vis: p.vis,
        parent: match p.parent {
            Some(q) => Some(q.0 as int),
            None => None,
        },
        name: p.name@,
        kind: p.kind,
        children: Seq::new(p.children@.len(), |j: int| p.children@[j].0 as int),
    }
}

/// Entering a fresh scope, seen on the model: append a node under the
/// current one, record it as a child, and make it current.
pub open spec fn push_model(m: TreeModel, name: Seq<char>, kind: PathKind, vis: Visibility)
    -> TreeModel
    recommends
        0 <= m.current < m.nodes.len(),
{
    let n = m.nodes.len() as int;
    let parent = m.nodes[m.current];
    TreeModel {
        nodes: m.nodes.update(
            m.current,
            PartModel { children: parent.children.push(n), ..parent },
        ).push(PartModel { vis, parent: Some(m.current), name, kind, children: Seq::empty() }),
        current: n,
    }
}

/// Releasing the current scope, seen on the model: the parent of the
/// current node becomes current; nothing else changes.
pub open spec fn pop_model(m: TreeModel) -> TreeModel
    recommends
        0 <= m.current < m.nodes.len(),
        m.nodes[m.current].parent is Some,
{
    TreeModel { nodes: m.nodes, current: m.nodes[m.current].parent.unwrap() }
}

impl View for PathTree {
    type V = TreeModel;

    open spec fn view(&self) -> TreeModel {
        TreeModel {
            nodes: Seq::new(self.spec_len() as nat, |i: int| part_model(self.node(i))),
            current: self.cur(),
        }
    }
}

/// One scope in a strictly nested sequence of scope-stack operations:
/// an entry, the operations nested inside it, and the matching release.
pub struct NestItem {
    pub name: Seq<char>,
    pub kind: PathKind,
    pub vis: Visibility,
    pub children: NestList,
}

/// A sequence of strictly nested scopes.
pub enum NestList {
    Nil,
    Cons(Box<NestItem>, Box<NestList>),
}

/// Run a strictly nested sequence of scope-stack operations on the
/// model: each item is an entry, its nested items, and the release.
pub open spec fn apply_nest(m: TreeModel, l: NestList) -> TreeModel
    decreases l,
{
    match l {
        NestList::Nil => m,
        NestList::Cons(item, rest) => {
            let m1 = push_model(m, item.name, item.kind, item.vis);
            let m2 = apply_nest(m1, item.children);
            let m3 = pop_model(m2);
            apply_nest(m3, *rest)
        },
    }
}

/// Round-trip law: any strictly nested sequence of scope entries and
/// releases restores the original current pointer. Entries add nodes
/// but never change the parent of a node that already existed, so each
/// release returns exactly to the node that was current at its entry.
pub proof fn lemma_scope_round_trip(m: TreeModel, l: NestList)
    requires
        0 <= m.current < m.nodes.len(),
    ensures
        apply_nest(m, l).current == m.current,
        apply_nest(m, l).nodes.len() >= m.nodes.len(),
        forall|i: int|
            0 <= i < m.nodes.len() ==> (#[trigger] apply_nest(m, l).nodes[i]).parent
                == m.nodes[i].parent,
    decreases l,
{
    match l {
        NestList::Nil => {},
        NestList::Cons(item, rest) => {
            let m1 = push_model(m, item.name, item.kind, item.vis);
            assert(m1.nodes.len() == m.nodes.len() + 1);
            assert(m1.nodes[m1.current].parent == Some(m.current));
            lemma_scope_round_trip(m1, item.children);
            let m2 = apply_nest(m1, item.children);
            let m3 = pop_model(m2);
            assert(m2.nodes[m2.current].parent == Some(m.current));
            assert(m3.current == m.current);
            lemma_scope_round_trip(m3, *rest);
            assert forall|i: int|
                0 <= i < m.nodes.len() implies (#[trigger] apply_nest(m, l).nodes[i]).parent
                == m.nodes[i].parent by {
                assert(m1.nodes[i].parent == m.nodes[i].parent);
                assert(m2.nodes[i].parent == m.nodes[i].parent);
                assert(apply_nest(m3, *rest).nodes[i].parent == m3.nodes[i].parent);
            }
        },
    }
}

/// True when the two trees hold the same nodes and current pointer,
/// compared by content.
pub open spec fn same_tree(a: PathTree, b: PathTree) -> bool {
    &&& a.spec_len() == b.spec_len()
    &&& a.cur() == b.cur()
    &&& forall|i: int| 0 <= i < a.spec_len() ==> same_part(#[trigger] a.node(i), b.node(i))
}

/// True when the two nodes hold the same data, compared by content.
pub open spec fn same_part(a: PathPart, b: PathPart) -> bool {
    &&& a.id == b.id
    &&& a.vis == b.vis
    &&& a.parent == b.parent
    &&& a.name@ == b.name@
    &&& a.kind == b.kind
    &&& a.children@ == b.children@
}

/// The arena itself: the node storage and the current node.
#[derive(Debug)]
pub struct Inner {
    pub storage: Vec<PathPart>,
    pub current: usize,
}

impl Inner {
    /// A tree holding the package root and, under it, a crate scope
    /// named `name`; the crate scope is current.
    pub fn with_crate_name(name: &str) -> (r: Self)
        ensures
            r.storage@.len() == 2,
            r.storage@[0].name@.len() == 0,
            r.storage@[0].kind is Package,
            r.storage@[0].parent is None,
            r.storage@[0].id.0 == 0,
            r.storage@[0].vis == Visibility::Public,
            r.storage@[0].children@ == seq![PathId(1)],
            r.storage@[1].name@ == name@,
            r.storage@[1].kind is Crate,
            r.storage@[1].parent == Some(PathId(0)),
            r.storage@[1].id.0 == 1,
            r.storage@[1].vis == Visibility::CrateVisible,
            r.storage@[1].children@.len() == 0,
            r.current == 1,
    {
        let mut root_children: Vec<PathId> = Vec::new();
        root_children.push(PathId::new(1));
        let mut storage: Vec<PathPart> = Vec::new();
        storage.push(PathPart {
            parent: None,
            id: PathId::new(0),
            name: String::new(),
            kind: PathKind::Package,
            children: root_children,
            vis: Visibility::Public,
        });
        storage.push(PathPart {
            parent: Some(PathId::new(0)),
            id: PathId::new(1),
            name: name.to_owned(),
            kind: PathKind::Crate,
            children: Vec::new(),
            vis: Visibility::CrateVisible,
        });
        Inner { storage, current: 1 }
    }

    /// A tree holding only the package root, which is current.
    pub fn empty() -> (r: Self)
        ensures
            r.storage@.len() == 1,
            r.storage@[0].name@.len() == 0,
            r.storage@[0].kind is Package,
            r.storage@[0].parent is None,
            r.storage@[0].id.0 == 0,
            r.storage@[0].vis == Visibility::Public,
            r.storage@[0].children@.len() == 0,
            r.current == 0,
    {
        let mut storage: Vec<PathPart> = Vec::new();
        storage.push(PathPart {
            parent: None,
            id: PathId::new(0),
            name: String::new(),
            kind: PathKind::Package,
            children: Vec::new(),
            vis: Visibility::Public,
        });
        Inner { storage, current: 0 }
    }
}

/// A reference to one node of a tree: its index in the arena.
///
/// All references into the tree are small integer ids; the tree itself is
/// handed to each operation.
#[derive(Copy, Clone, Debug, PartialEq, Eq, Structural)]
pub struct PathRef {
    pub idx: usize,
}

/// The scope tree, owned by one compilation context.
#[derive(Debug)]
pub struct PathTree {
    pub inner: Inner,
}

impl PathTree {
    /// The number of nodes.
    pub open spec fn spec_len(self) -> int {
        self.inner.storage@.len() as int
    }

    /// The node at index `i`.
    pub open spec fn node(self, i: int) -> PathPart {
        self.inner.storage@[i]
    }

    /// The index of the current node.
    pub open spec fn cur(self) -> int {
        self.inner.current as int
    }

    /// Well-formedness of the arena.
    ///
    /// Every node's id is its index; every non-root node has exactly one
    /// parent, appended earlier than itself; a parent's child list points
    /// only at later nodes that name it as parent; alias targets are
    /// in bounds; the root is the nameless package scope.
    pub open spec fn wf(self) -> bool {
        &&& 1 <= self.spec_len() <= u32::MAX as int + 1
        &&& 0 <= self.cur() < self.spec_len()
        &&& self.node(0).parent is None
        &&& self.node(0).name@.len() == 0
        &&& forall|i: int| 0 <= i < self.spec_len() ==> (#[trigger] self.node(i)).id.0 == i
        &&& forall|i: int|
            1 <= i < self.spec_len() ==> (#[trigger] self.node(i)).parent is Some && self.node(
                i,
            ).parent.unwrap().0 < i
        &&& forall|i: int, j: int|
            0 <= i < self.spec_len() && 0 <= j < (#[trigger] self.node(i)).children@.len() ==> {
                &&& i < #[trigger] self.node(i).children@[j].0 < self.spec_len()
                &&& self.node(self.node(i).children@[j].0 as int).parent == Some(
                    PathId(i as u32),
                )
            }
        &&& forall|i: int|
            0 <= i < self.spec_len() && (#[trigger] self.node(i)).kind is Use ==> self.node(
                i,
            ).kind->Use_0.0 < self.spec_len()
    }

    /// Construct a tree with a root crate scope named `name`.
    pub fn with_crate_name(name: &str) -> (r: Self)
        ensures
            r.wf(),
            r.spec_len() == 2,
            r.node(1).name@ == name@,
            r.node(1).kind is Crate,
            r.node(1).vis == Visibility::CrateVisible,
            r.node(1).parent == Some(PathId(0)),
            r.node(1).children@.len() == 0,
            r.node(0).kind is Package,
            r.node(0).vis == Visibility::Public,
            r.node(0).name@.len() == 0,
            r.node(0).parent is None,
            r.node(0).children@ == seq![PathId(1)],
            r.cur() == 1,
    {
        let tree = PathTree { inner: Inner::with_crate_name(name) };
        proof {
            assert forall|i: int, j: int|
                0 <= i < tree.spec_len() && 0 <= j < (#[trigger] tree.node(
                    i,
                )).children@.len() implies {
                &&& i < #[trigger] tree.node(i).children@[j].0 < tree.spec_len()
                &&& tree.node(tree.node(i).children@[j].0 as int).parent == Some(PathId(i as u32))
            } by {
                assert(i == 0 && j == 0);
            }
        }
        tree
    }

    /// Construct a tree holding only the package root.
    pub fn empty() -> (r: Self)
        ensures
            r.wf(),
            r.spec_len() == 1,
            r.node(0).kind is Package,
            r.node(0).vis == Visibility::Public,
            r.node(0).name@.len() == 0,
            r.node(0).parent is None,
            r.node(0).children@.len() == 0,
            r.cur() == 0,
    {
        PathTree { inner: Inner::empty() }
    }

    /// The node at `idx`, if it exists.
    pub fn get(&self, idx: usize) -> (r: Option<PathRef>)
        ensures
            r == if idx < self.spec_len() {
                Some(PathRef { idx })
            } else {
                None::<PathRef>
            },
    {
        if idx < self.inner.storage.len() {
            Some(PathRef { idx })
        } else {
            None
        }
    }

    /// The scope corresponding to `crate`.
    pub fn crate_(&self) -> (r: PathRef)
        requires
            self.spec_len() >= 2,
        ensures
            r.idx == 1,
    {
        PathRef { idx: 1 }
    }

    /// The number of nodes.
    pub fn len(&self) -> (r: usize)
        ensures
            r == self.spec_len(),
    {
        self.inner.storage.len()
    }

    /// The current node.
    pub fn current(&self) -> (r: PathRef)
        ensures
            r.idx == self.cur(),
    {
        PathRef { idx: self.inner.current }
    }

    /// The scope corresponding to `self`: the nearest enclosing module
    /// of the current node.
    pub fn self_(&self) -> (r: Result<PathRef, PathTreeError>)
        requires
            self.wf(),
        ensures
            match spec_self_mod(*self, self.cur()) {
                Some(m) => r == Ok::<PathRef, PathTreeError>(PathRef { idx: m as usize }) && 0 <= m
                    < self.spec_len(),
                None => r is Err && r->Err_0 is UnresolvablePath
                    && r->Err_0->UnresolvablePath_msg@
                    == "could not determine context for `self`"@,
            },
    {
        let cur = self.current();
        proof {
            lemma_parent_mod_bounds(*self, self.cur());
        }
        match cur.self_mod(self) {
            Some(m) => Ok(m),
            None => Err(
                PathTreeError::unresolvable_path(
                    "could not determine context for `self`".to_owned(),
                ),
            ),
        }
    }

    /// The scope corresponding to `super`: the parent module of the
    /// nearest enclosing module of the current node.
    pub fn super_(&self) -> (r: Result<PathRef, PathTreeError>)
        requires
            self.wf(),
        ensures
            match spec_self_mod(*self, self.cur()) {
                Some(m) => match spec_parent_mod(*self, m) {
                    Some(s) => r == Ok::<PathRef, PathTreeError>(PathRef { idx: s as usize }) && 0
                        <= s < self.spec_len(),
                    None => r is Err && r->Err_0 is UnresolvablePath
                        && r->Err_0->UnresolvablePath_msg@
                        == "there are too many leading `super` keywords"@,
                },
                None => r is Err && r->Err_0 is UnresolvablePath
                    && r->Err_0->UnresolvablePath_msg@
                    == "there are too many leading `super` keywords"@,
            },
    {
        proof {
            lemma_parent_mod_bounds(*self, self.cur());
            if spec_self_mod(*self, self.cur()) is Some {
                lemma_parent_mod_bounds(*self, spec_self_mod(*self, self.cur()).unwrap());
            }
        }
        let me = match self.self_() {
            Ok(m) => m,
            Err(_) => {
                return Err(
                    PathTreeError::unresolvable_path(
                        "there are too many leading `super` keywords".to_owned(),
                    ),
                );
            },
        };
        match me.parent_mod(self) {
            Some(s) => Ok(s),
            None => Err(
                PathTreeError::unresolvable_path(
                    "there are too many leading `super` keywords".to_owned(),
                ),
            ),
        }
    }

    /// The scope corresponding to `Self`: the nearest enclosing struct
    /// or enum body of the current node.
    pub fn self_type(&self) -> (r: Result<PathRef, PathTreeError>)
        requires
            self.wf(),
        ensures
            match spec_nearest_type(*self, self.cur()) {
                Some(m) => r == Ok::<PathRef, PathTreeError>(PathRef { idx: m as usize }) && 0 <= m
                    < self.spec_len(),
                None => r is Err && r->Err_0 is UnresolvablePath
                    && r->Err_0->UnresolvablePath_msg@ == "unresolved import `Self`"@,
            },
    {
        let mut idx = self.inner.current;
        loop
            invariant
                self.wf(),
                idx < self.spec_len(),
                spec_nearest_type(*self, self.cur()) == spec_nearest_type(*self, idx as int),
            decreases idx,
        {
            if self.inner.storage[idx].kind.is_struct_or_enum() {
                return Ok(PathRef { idx });
            }
            match self.inner.storage[idx].parent {
                Some(p) => {
                    proof {
                        if idx == 0 {
                            assert(self.node(0).parent is None);
                        }
                    }
                    idx = p.to_usize();
                },
                None => {
                    return Err(
                        PathTreeError::unresolvable_path("unresolved import `Self`".to_owned()),
                    );
                },
            }
        }
    }

    /// Append a node under `parent_idx` without touching the current
    /// pointer or the parent's child list. Fails with `TooManyPaths`
    /// when the id space is exhausted.
    pub fn push(&mut self, parent_idx: usize, name: &str, kind: PathKind, vis: Visibility) -> (r:
        Result<PathRef, PathTreeError>)
        requires
            old(self).wf(),
            parent_idx < old(self).spec_len(),
            kind is Use ==> kind->Use_0.0 <= old(self).spec_len(),
        ensures
            final(self).wf(),
            old(self).spec_len() <= u32::MAX ==> {
                &&& r == Ok::<PathRef, PathTreeError>(PathRef { idx: old(self).spec_len() as usize })
                &&& final(self).spec_len() == old(self).spec_len() + 1
                &&& final(self).node(old(self).spec_len()).name@ == name@
                &&& final(self).node(old(self).spec_len()).kind == kind
                &&& final(self).node(old(self).spec_len()).vis == vis
                &&& final(self).node(old(self).spec_len()).parent == Some(
                    PathId(parent_idx as u32),
                )
                &&& final(self).node(old(self).spec_len()).id.0 == old(self).spec_len()
                &&& final(self).node(old(self).spec_len()).children@.len() == 0
                &&& forall|i: int|
                    0 <= i < old(self).spec_len() ==> final(self).node(i) == old(self).node(i)
                &&& final(self).cur() == old(self).cur()
            },
            old(self).spec_len() > u32::MAX ==> {
                &&& r == Err::<PathRef, PathTreeError>(
                    PathTreeError::TooManyPaths { limit: u32::MAX },
                )
                &&& *final(self) == *old(self)
            },
    {
        let idx = self.inner.storage.len();
        if idx > u32::MAX as usize {
            return Err(PathTreeError::too_many_paths());
        }
        self.inner.storage.push(PathPart {
            parent: Some(PathId::new(parent_idx as u32)),
            id: PathId::new(idx as u32),
            name: name.to_owned(),
            kind,
            children: Vec::new(),
            vis,
        });
        proof {
            assert forall|i: int| 0 <= i < old(self).spec_len() implies #[trigger] self.node(i)
                == old(self).node(i) by {}
            assert(self.wf());
        }
        Ok(PathRef { idx })
    }

    /// Resolve a qualified path, walking children left to right from the
    /// root. Empty components are skipped. On failure the error names
    /// the first component that matches no child; a path with no
    /// non-empty component cannot be found.
    pub fn find(&self, qualpath: &QualifiedPath) -> (r: Result<PathRef, PathTreeError>)
        requires
            self.wf(),
        ensures
            ({
                let cs = nonempty(qualpath@);
                match r {
                    Ok(p) => cs.len() > 0 && find_from(*self, 0, cs, 0) == Some(p.idx as int)
                        && p.idx < self.spec_len(),
                    Err(e) => {
                        &&& e is UnresolvablePath
                        &&& cs.len() == 0 || find_from(*self, 0, cs, 0) is None
                        &&& (cs.len() == 0 ==> e->UnresolvablePath_msg@ == "could not find path"@)
                        &&& (cs.len() > 0 && find_from(*self, 0, cs, 0) is None ==> 0
                            <= first_missing(*self, 0, cs, 0) < cs.len()
                            && e->UnresolvablePath_msg@ == "failed to resolve path at "@ + cs[
                            first_missing(*self, 0, cs, 0)])
                    },
                }
            }),
    {
        let comps = qualpath.iter();
        let mut cs: Vec<String> = Vec::new();
        let mut ci: usize = 0;
        while ci < comps.len()
            invariant
                ci <= comps.deep_view().len(),
                comps.deep_view() == qualpath@,
                comps@.len() == qualpath@.len(),
                cs.deep_view() =~= nonempty(qualpath@.subrange(0, ci as int)),
            decreases comps.len() - ci,
        {
            proof {
                assert(comps@[ci as int]@ == qualpath@[ci as int]);
            }
            let ghost pre = cs.deep_view();
            if !comps[ci].as_str().is_empty() {
                cs.push(comps[ci].clone());
                assert(cs.deep_view() =~= pre.push(qualpath@[ci as int]));
            }
            proof {
                assert(qualpath@.subrange(0, ci as int + 1).drop_last() =~= qualpath@.subrange(
                    0,
                    ci as int,
                ));
                assert(qualpath@.subrange(0, ci as int + 1).last() == qualpath@[ci as int]);
            }
            ci = ci + 1;
        }
        proof {
            assert(qualpath@.subrange(0, qualpath@.len() as int) =~= qualpath@);
        }
        let ghost csv = nonempty(qualpath@);
        assert(cs.deep_view() == csv);

        if cs.len() == 0 {
            return Err(PathTreeError::unresolvable_path("could not find path".to_owned()));
        }
        let mut cur: usize = 0;
        let mut k: usize = 0;
        while k < cs.len()
            invariant
                self.wf(),
                csv == nonempty(qualpath@),
                cur < self.spec_len(),
                k <= cs.len(),
                cs.deep_view() == csv,
                cs@.len() == csv.len(),
                find_from(*self, 0, csv, 0) == find_from(*self, cur as int, csv, k as int),
                first_missing(*self, 0, csv, 0) == first_missing(*self, cur as int, csv, k as int),
            decreases cs.len() - k,
        {
            proof {
                assert(csv[k as int] == cs@[k as int]@);
            }
            let n_children = self.inner.storage[cur].children.len();
            let mut j: usize = 0;
            let mut found: Option<usize> = None;
            while j < n_children && found.is_none()
                invariant
                    self.wf(),
                    cur < self.spec_len(),
                    k < cs.len(),
                    cs@.len() == csv.len(),
                    csv[k as int] == cs@[k as int]@,
                    n_children == self.node(cur as int).children@.len(),
                    j <= n_children,
                    found is None ==> first_child_named(*self, cur as int, csv[k as int])
                        == first_child_named_from(*self, cur as int, csv[k as int], j as int),
                    found is Some ==> {
                        &&& first_child_named(*self, cur as int, csv[k as int]) == Some(
                            found.unwrap() as int,
                        )
                        &&& found.unwrap() < self.spec_len()
                    },
                decreases n_children - j,
            {
                let cid = self.inner.storage[cur].children[j].to_usize();
                proof {
                    assert(self.node(cur as int).children@[j as int].0 < self.spec_len());
                }
                if self.inner.storage[cid].name == cs[k] {
                    found = Some(cid);
                }
                j = j + 1;
            }
            match found {
                Some(c) => {
                    cur = c;
                    k = k + 1;
                },
                None => {
                    proof {
                        assert(first_child_named(*self, cur as int, csv[k as int]) is None);
                        assert(find_from(*self, cur as int, csv, k as int) is None);
                        assert(first_missing(*self, cur as int, csv, k as int) == k as int);
                    }
                    let mut msg: String = "failed to resolve path at ".to_owned();
                    msg.append(cs[k].as_str());
                    return Err(PathTreeError::unresolvable_path(msg));
                },
            }
        }
        Ok(PathRef { idx: cur })
    }

    /// Decide whether the declaration at `target` is observable from the
    /// location `source`, by the target's visibility tag. Both paths are
    /// resolved in the tree, following aliases. Fails when either path
    /// cannot be resolved, or a super-visible target has no enclosing
    /// module with a parent module.
    pub fn is_visible_to(&self, source: &QualifiedPath, target: &QualifiedPath) -> (r: Result<
        bool,
        PathTreeError,
    >)
        requires
            self.wf(),
        ensures
            match r {
                Ok(b) => spec_is_visible(*self, source@, target@) == Some(b),
                Err(e) => spec_is_visible(*self, source@, target@) is None && e
                    is UnresolvablePath,
            },
    {
        let target_found = match self.find(target) {
            Ok(p) => p,
            Err(e) => {
                return Err(e);
            },
        };
        let target_node = match target_found.resolve(self) {
            Ok(p) => p,
            Err(e) => {
                return Err(e);
            },
        };
        let source_found = match self.find(source) {
            Ok(p) => p,
            Err(e) => {
                return Err(e);
            },
        };
        let source_node = match source_found.resolve(self) {
            Ok(p) => p,
            Err(e) => {
                return Err(e);
            },
        };
        let is_visible = match self.inner.storage[target_node.idx].vis {
            Visibility::NoAccess => false,
            Visibility::CrateVisible => true,
            Visibility::SuperVisible => {
                proof {
                    lemma_parent_mod_bounds(*self, target_node.idx as int);
                }
                let encl = match target_node.parent_mod(self) {
                    Some(m) => m,
                    None => {
                        return Err(
                            PathTreeError::unresolvable_path(
                                "could not resolve `super` of the target".to_owned(),
                            ),
                        );
                    },
                };
                proof {
                    lemma_parent_mod_bounds(*self, encl.idx as int);
                }
                let sup = match encl.parent_mod(self) {
                    Some(m) => m,
                    None => {
                        return Err(
                            PathTreeError::unresolvable_path(
                                "could not resolve `super` of the target".to_owned(),
                            ),
                        );
                    },
                };
                let supq = sup.qualified_path(self).filtered();
                let sf = source.filtered();
                let tf = target.filtered();
                let ca = sf.common_ancestor(&tf);
                let same = supq.len() == ca.len() && supq.matches_prefix(&ca);
                let result = same || supq.is_ancestor_of(&ca);
                proof {
                    assert(spec_parent_mod(*self, target_node.idx as int) == Some(
                        encl.idx as int,
                    ));
                    assert(spec_parent_mod(*self, encl.idx as int) == Some(sup.idx as int));
                    assert(supq@ == nonempty(path_names(*self, sup.idx as int)));
                    assert(ca@ == lcp(nonempty(source@), nonempty(target@)));
                    if same {
                        assert(supq@ =~= ca@);
                    }
                    if supq@ == ca@ {
                        assert(same);
                    }
                    assert(result == (supq@ == ca@ || (supq@.len() < ca@.len() && prefix_of(
                        supq@,
                        ca@,
                    ))));
                }
                result
            },
            Visibility::Public => true,
            Visibility::PrivateToModule => {
                proof {
                    lemma_parent_mod_bounds(*self, target_node.idx as int);
                    lemma_parent_mod_bounds(*self, source_node.idx as int);
                }
                let target_self = target_node.self_mod(self);
                let source_self = source_node.self_mod(self);
                match (source_self, target_self) {
                    (Some(s), Some(t)) => s.idx == t.idx,
                    _ => false,
                }
            },
            Visibility::InheritedFromParent => false,
        };
        proof {
            let tn = target_node.idx as int;
            let sn = source_node.idx as int;
            assert(resolved_node(*self, target@) == Some(tn));
            assert(resolved_node(*self, source@) == Some(sn));
            assert(spec_is_visible(*self, source@, target@) == spec_vis_decide(
                *self,
                sn,
                tn,
                source@,
                target@,
            ));
            assert(spec_vis_decide(*self, sn, tn, source@, target@) == Some(is_visible));
        }
        Ok(is_visible)
    }

    /// Every node of the tree, in id order.
    pub fn iter_refs(&self) -> (r: Vec<PathRef>)
        ensures
            r@.len() == self.spec_len(),
            forall|i: int| 0 <= i < r@.len() ==> (#[trigger] r@[i]).idx == i,
    {
        let mut out: Vec<PathRef> = Vec::new();
        let mut i: usize = 0;
        while i < self.inner.storage.len()
            invariant
                i <= self.spec_len(),
                out@.len() == i,
                forall|k: int| 0 <= k < i ==> (#[trigger] out@[k]).idx == k,
            decreases self.inner.storage.len() - i,
        {
            out.push(PathRef { idx: i });
            i = i + 1;
        }
        out
    }

    /// A diagnostic rendering of the whole tree, one line per node: the
    /// node's id, visibility, kind and full name.
    pub fn fmt_list(&self) -> (r: String)
        requires
            self.wf(),
    {
        let refs = self.iter_refs();
        let mut out = String::new();
        let mut i: usize = 0;
        while i < refs.len()
            invariant
                self.wf(),
                refs@.len() == self.spec_len(),
                forall|k: int| 0 <= k < refs@.len() ==> (#[trigger] refs@[k]).idx == k,
                i <= refs@.len(),
            decreases refs.len() - i,
        {
            let node = refs[i];
            push_decimal(&mut out, node.idx as u64);
            out.append(" ");
            out.append(self.inner.storage[node.idx].vis.label());
            out.append(" ");
            out.append(self.inner.storage[node.idx].kind.label());
            out.append(" -> ");
            let qn = node.qualified_name(self);
            out.append(qn.as_str());
            out.append("\n");
            i = i + 1;
        }
        out
    }

    /// A value that renders the tree, for diagnostics.
    pub fn tree_formatter<'a>(&'a self) -> (r: TreeFormatter<'a>)
        requires
            self.wf(),
    {
        TreeFormatter(self)
    }

    /// Enter a fresh child scope of the current node: append it and make
    /// it current. The returned guard records the node that a matching
    /// `pop` must leave.
    pub fn push_scoped(&mut self, name: &str, kind: PathKind, vis: Visibility) -> (r: Result<
        Guard,
        PathTreeError,
    >)
        requires
            old(self).wf(),
            kind is Use ==> kind->Use_0.0 <= old(self).spec_len(),
        ensures
            final(self).wf(),
            old(self).spec_len() > u32::MAX ==> r is Err && *final(self) == *old(self),
            old(self).spec_len() <= u32::MAX ==> {
                &&& r is Ok
                &&& r.unwrap().path_ref.idx == old(self).spec_len()
                &&& final(self)@ =~~= push_model(old(self)@, name@, kind, vis)
                &&& final(self).spec_len() == old(self).spec_len() + 1
                &&& final(self).cur() == old(self).spec_len()
                &&& final(self).node(final(self).cur()).parent == Some(
                    PathId(old(self).cur() as u32),
                )
                &&& final(self).node(old(self).spec_len()).name@ == name@
                &&& final(self).node(old(self).spec_len()).kind == kind
                &&& final(self).node(old(self).spec_len()).vis == vis
                &&& forall|i: int|
                    0 <= i < old(self).spec_len() ==> {
                        &&& (#[trigger] final(self).node(i)).parent == old(self).node(i).parent
                        &&& final(self).node(i).name@ == old(self).node(i).name@
                        &&& final(self).node(i).kind == old(self).node(i).kind
                        &&& final(self).node(i).vis == old(self).node(i).vis
                    }
            },
    {
        let current_idx = self.inner.current;
        let pr = PathRef { idx: current_idx };
        let child = match pr.append_child(self, name, kind, vis) {
            Ok(c) => c,
            Err(e) => {
                return Err(e);
            },
        };
        let ghost mid = *self;
        self.inner.current = child.idx;
        proof {
            lemma_wf_current_moved(mid, *self);
            assert(self@.nodes =~~= push_model(old(self)@, name@, kind, vis).nodes);
            assert(self@ =~~= push_model(old(self)@, name@, kind, vis));
        }
        Ok(Guard { path_ref: child })
    }

    /// Make `current` the parent of the current node and return the node
    /// that was left, or `None` at the root.
    pub fn pop(&mut self) -> (r: Option<PathRef>)
        requires
            old(self).wf(),
        ensures
            final(self).wf(),
            old(self).node(old(self).cur()).parent is None ==> r is None && *final(self) == *old(
                self,
            ),
            old(self).node(old(self).cur()).parent is Some ==> {
                &&& r == Some(PathRef { idx: old(self).cur() as usize })
                &&& final(self).cur() == old(self).node(old(self).cur()).parent.unwrap().0 as int
                &&& final(self).inner.storage == old(self).inner.storage
                &&& final(self)@ =~~= pop_model(old(self)@)
                &&& final(self).spec_len() == old(self).spec_len()
                &&& forall|i: int|
                    0 <= i < old(self).spec_len() ==> #[trigger] final(self).node(i) == old(
                        self,
                    ).node(i)
            },
    {
        let idx = self.inner.current;
        match self.inner.storage[idx].parent {
            Some(parent_id) => {
                proof {
                    if old(self).cur() == 0 {
                        assert(old(self).node(0).parent is None);
                    }
                    assert(parent_id.0 < old(self).cur());
                }
                self.inner.current = parent_id.to_usize();
                proof {
                    lemma_wf_current_moved(*old(self), *self);
                }
                Some(PathRef { idx })
            },
            None => None,
        }
    }

    /// An independent deep copy of `other`: later mutation of either tree
    /// is not observable through the other.
    pub fn cloned(other: &Self) -> (r: Self)
        ensures
            same_tree(r, *other),
            other.wf() ==> r.wf(),
    {
        let mut storage: Vec<PathPart> = Vec::new();
        let mut i: usize = 0;
        while i < other.inner.storage.len()
            invariant
                i <= other.inner.storage@.len(),
                storage@.len() == i,
                forall|j: int|
                    0 <= j < i ==> same_part(#[trigger] storage@[j], other.inner.storage@[j]),
            decreases other.inner.storage.len() - i,
        {
            storage.push(other.inner.storage[i].cloned());
            i = i + 1;
        }
        let r = PathTree { inner: Inner { storage, current: other.inner.current } };
        proof {
            assert(same_tree(r, *other));
            if other.wf() {
                lemma_same_tree_wf(*other, r);
            }
        }
        r
    }
}

impl PathRef {
    /// Append a child scope under this node, recording it in the child
    /// list. Fails with `TooManyPaths` when the id space is exhausted.
    pub fn append_child(&self, tree: &mut PathTree, name: &str, kind: PathKind, vis: Visibility)
        -> (r: Result<PathRef, PathTreeError>)
        requires
            old(tree).wf(),
            self.idx < old(tree).spec_len(),
            kind is Use ==> kind->Use_0.0 <= old(tree).spec_len(),
        ensures
            final(tree).wf(),
            old(tree).spec_len() > u32::MAX ==> r is Err && *final(tree) == *old(tree),
            old(tree).spec_len() <= u32::MAX ==> {
                &&& r == Ok::<PathRef, PathTreeError>(
                    PathRef { idx: old(tree).spec_len() as usize },
                )
                &&& final(tree).spec_len() == old(tree).spec_len() + 1
                &&& final(tree).node(old(tree).spec_len()).name@ == name@
                &&& final(tree).node(old(tree).spec_len()).kind == kind
                &&& final(tree).node(old(tree).spec_len()).vis == vis
                &&& final(tree).node(old(tree).spec_len()).parent == Some(PathId(self.idx as u32))
                &&& final(tree).node(old(tree).spec_len()).children@.len() == 0
                &&& final(tree).node(self.idx as int).children@ == old(tree).node(
                    self.idx as int,
                ).children@.push(PathId(old(tree).spec_len() as u32))
                &&& final(tree).node(self.idx as int).name@ == old(tree).node(
                    self.idx as int,
                ).name@
                &&& final(tree).node(self.idx as int).kind == old(tree).node(self.idx as int).kind
                &&& final(tree).node(self.idx as int).vis == old(tree).node(self.idx as int).vis
                &&& final(tree).node(self.idx as int).parent == old(tree).node(
                    self.idx as int,
                ).parent
                &&& forall|i: int|
                    0 <= i < old(tree).spec_len() && i != self.idx ==> final(tree).node(i) == old(
                        tree,
                    ).node(i)
                &&& final(tree).cur() == old(tree).cur()
            },
    {
        let child = match tree.push(self.idx, name, kind, vis) {
            Ok(c) => c,
            Err(e) => {
                return Err(e);
            },
        };
        let ghost mid = *tree;
        let id = PathId::new(child.idx as u32);
        tree.inner.storage[self.idx].append_child(id);
        proof {
            assert(tree.inner.storage@ == mid.inner.storage@.update(
                self.idx as int,
                tree.inner.storage@[self.idx as int],
            ));
            assert forall|i: int|
                0 <= i < tree.spec_len() && i != self.idx implies #[trigger] tree.node(i)
                == mid.node(i) by {}
            assert(same_part_but_children(tree.node(self.idx as int), mid.node(self.idx as int)));
            assert(tree.wf());
        }
        Ok(child)
    }

    /// Append a sibling scope beside this node, under the same parent
    /// (or under the root when this node is the root). The sibling is
    /// recorded in that parent's child list and gets no access.
    pub fn append_sibling(&self, tree: &mut PathTree, name: &str, kind: PathKind) -> (r: Result<
        PathRef,
        PathTreeError,
    >)
        requires
            old(tree).wf(),
            self.idx < old(tree).spec_len(),
            kind is Use ==> kind->Use_0.0 <= old(tree).spec_len(),
        ensures
            final(tree).wf(),
            old(tree).spec_len() > u32::MAX ==> r is Err && *final(tree) == *old(tree),
            old(tree).spec_len() <= u32::MAX ==> {
                let p = sibling_parent(*old(tree), self.idx as int);
                &&& r == Ok::<PathRef, PathTreeError>(
                    PathRef { idx: old(tree).spec_len() as usize },
                )
                &&& final(tree).spec_len() == old(tree).spec_len() + 1
                &&& final(tree).node(old(tree).spec_len()).name@ == name@
                &&& final(tree).node(old(tree).spec_len()).kind == kind
                &&& final(tree).node(old(tree).spec_len()).vis == Visibility::NoAccess
                &&& final(tree).node(old(tree).spec_len()).parent == Some(PathId(p as u32))
                &&& final(tree).node(old(tree).spec_len()).children@.len() == 0
                &&& final(tree).node(p).children@ == old(tree).node(p).children@.push(
                    PathId(old(tree).spec_len() as u32),
                )
                &&& final(tree).node(p).name@ == old(tree).node(p).name@
                &&& final(tree).node(p).kind == old(tree).node(p).kind
                &&& final(tree).node(p).vis == old(tree).node(p).vis
                &&& final(tree).node(p).parent == old(tree).node(p).parent
                &&& forall|i: int|
                    0 <= i < old(tree).spec_len() && i != p ==> final(tree).node(i) == old(
                        tree,
                    ).node(i)
                &&& final(tree).cur() == old(tree).cur()
            },
    {
        let parent_idx = match tree.inner.storage[self.idx].parent {
            Some(p) => p.to_usize(),
            None => 0,
        };
        proof {
            if self.idx > 0 {
                assert(old(tree).node(self.idx as int).parent.unwrap().0 < self.idx);
            }
        }
        let parent = PathRef { idx: parent_idx };
        parent.append_child(tree, name, kind, Visibility::NoAccess)
    }

    /// The parent of this node, `None` at the root.
    pub fn parent(&self, tree: &PathTree) -> (r: Option<PathRef>)
        requires
            tree.wf(),
            self.idx < tree.spec_len(),
        ensures
            r == match parent_of(*tree, self.idx as int) {
                Some(p) => Some(PathRef { idx: p as usize }),
                None => None::<PathRef>,
            },
            r is Some ==> r.unwrap().idx < self.idx,
    {
        match tree.inner.storage[self.idx].parent {
            Some(p) => {
                proof {
                    if self.idx == 0 {
                        assert(tree.node(0).parent is None);
                    }
                }
                Some(PathRef { idx: p.to_usize() })
            },
            None => None,
        }
    }

    /// The nearest module strictly above this node, if any.
    pub fn parent_mod(&self, tree: &PathTree) -> (r: Option<PathRef>)
        requires
            tree.wf(),
            self.idx < tree.spec_len(),
        ensures
            r == match spec_parent_mod(*tree, self.idx as int) {
                Some(p) => Some(PathRef { idx: p as usize }),
                None => None::<PathRef>,
            },
            r is Some ==> r.unwrap().idx < tree.spec_len(),
        decreases self.idx,
    {
        match self.parent(tree) {
            None => None,
            Some(parent) => {
                if tree.inner.storage[parent.idx].kind.is_module() {
                    Some(parent)
                } else {
                    parent.parent_mod(tree)
                }
            },
        }
    }

    /// The scope that `super` names from this node: the nearest module
    /// strictly above it.
    pub fn super_(&self, tree: &PathTree) -> (r: Option<PathRef>)
        requires
            tree.wf(),
            self.idx < tree.spec_len(),
        ensures
            r == match spec_parent_mod(*tree, self.idx as int) {
                Some(p) => Some(PathRef { idx: p as usize }),
                None => None::<PathRef>,
            },
    {
        self.parent_mod(tree)
    }

    /// The nearest module at or above this node, if any.
    pub fn self_mod(&self, tree: &PathTree) -> (r: Option<PathRef>)
        requires
            tree.wf(),
            self.idx < tree.spec_len(),
        ensures
            r == match spec_self_mod(*tree, self.idx as int) {
                Some(p) => Some(PathRef { idx: p as usize }),
                None => None::<PathRef>,
            },
            r is Some ==> r.unwrap().idx < tree.spec_len(),
    {
        if tree.inner.storage[self.idx].kind.is_module() {
            Some(*self)
        } else {
            self.parent_mod(tree)
        }
    }

    /// The names along this node's ancestor chain, root first.
    pub fn qualified_path(&self, tree: &PathTree) -> (r: QualifiedPath)
        requires
            tree.wf(),
            self.idx < tree.spec_len(),
        ensures
            r@ == path_names(*tree, self.idx as int),
    {
        QualifiedPath::from_vec(names_from_root(tree, self.idx))
    }

    /// The node's full name: its ancestor-chain names joined by `::`.
    pub fn qualified_name(&self, tree: &PathTree) -> (r: String)
        requires
            tree.wf(),
            self.idx < tree.spec_len(),
        ensures
            r@ == join_names(path_names(*tree, self.idx as int)),
    {
        let parts = names_from_root(tree, self.idx);
        let ghost pv = path_names(*tree, self.idx as int);
        proof {
            lemma_path_names_len(*tree, self.idx as int);
        }
        let mut acc: String = parts[0].clone();
        assert(acc@ == pv.subrange(0, 1)[0]);
        assert(acc@ == join_names(pv.subrange(0, 1)));
        let mut i: usize = 1;
        while i < parts.len()
            invariant
                1 <= i <= parts.len(),
                parts.deep_view() == pv,
                parts@.len() == pv.len(),
                acc@ == join_names(pv.subrange(0, i as int)),
            decreases parts.len() - i,
        {
            acc.append("::");
            acc.append(parts[i].as_str());
            proof {
                assert(parts@[i as int]@ == pv[i as int]);
                assert(pv.subrange(0, i as int + 1).drop_last() =~= pv.subrange(0, i as int));
                assert(pv.subrange(0, i as int + 1).last() == pv[i as int]);
            }
            i = i + 1;
        }
        assert(pv.subrange(0, pv.len() as int) =~= pv);
        acc
    }

    /// The node's own name.
    pub fn name(&self, tree: &PathTree) -> (r: String)
        requires
            tree.wf(),
            self.idx < tree.spec_len(),
        ensures
            r@ == tree.node(self.idx as int).name@,
    {
        tree.inner.storage[self.idx].name.clone()
    }

    /// The node's kind.
    pub fn kind(&self, tree: &PathTree) -> (r: PathKind)
        requires
            tree.wf(),
            self.idx < tree.spec_len(),
        ensures
            r == tree.node(self.idx as int).kind,
    {
        tree.inner.storage[self.idx].kind
    }

    /// The node's visibility tag.
    pub fn visibility(&self, tree: &PathTree) -> (r: Visibility)
        requires
            tree.wf(),
            self.idx < tree.spec_len(),
        ensures
            r == tree.node(self.idx as int).vis,
    {
        tree.inner.storage[self.idx].vis
    }

    /// The node's id.
    pub fn id(&self, tree: &PathTree) -> (r: PathId)
        requires
            tree.wf(),
            self.idx < tree.spec_len(),
        ensures
            r.0 == self.idx,
    {
        proof {
            assert(tree.node(self.idx as int).id.0 == self.idx as int);
        }
        tree.inner.storage[self.idx].id
    }

    /// Follow alias indirection until a non-alias node (or a deferred
    /// alias) is reached. A chain longer than the tree is a cycle: the
    /// tree is corrupt, and the walk fails rather than looping.
    pub fn resolve(&self, tree: &PathTree) -> (r: Result<PathRef, PathTreeError>)
        requires
            tree.wf(),
            self.idx < tree.spec_len(),
        ensures
            match r {
                Ok(p) => chase(*tree, self.idx as int, tree.spec_len() as nat) == Some(
                    p.idx as int,
                ) && p.idx < tree.spec_len(),
                Err(e) => chase(*tree, self.idx as int, tree.spec_len() as nat) is None && e
                    is UnresolvablePath,
            },
    {
        let n = tree.len();
        let mut cur = self.idx;
        let mut steps: usize = 0;
        loop
            invariant
                tree.wf(),
                n == tree.spec_len(),
                cur < n,
                steps <= n,
                chase(*tree, self.idx as int, tree.spec_len() as nat) == chase(
                    *tree,
                    cur as int,
                    (n - steps) as nat,
                ),
            decreases n - steps,
        {
            match tree.inner.storage[cur].kind {
                PathKind::Use(target) => {
                    if target.0 == 0 {
                        return Ok(PathRef { idx: cur });
                    }
                    if steps == n {
                        return Err(
                            PathTreeError::unresolvable_path(
                                "alias indirection does not terminate".to_owned(),
                            ),
                        );
                    }
                    cur = target.to_usize();
                    steps = steps + 1;
                },
                _ => {
                    return Ok(PathRef { idx: cur });
                },
            }
        }
    }

    /// The node's children, in discovery order.
    pub fn iter_children(&self, tree: &PathTree) -> (r: Vec<PathRef>)
        requires
            tree.wf(),
            self.idx < tree.spec_len(),
        ensures
            r@.len() == tree.node(self.idx as int).children@.len(),
            forall|j: int|
                0 <= j < r@.len() ==> (#[trigger] r@[j]).idx == tree.node(
                    self.idx as int,
                ).children@[j].0 && r@[j].idx < tree.spec_len(),
    {
        let part = &tree.inner.storage[self.idx];
        let mut out: Vec<PathRef> = Vec::new();
        let mut j: usize = 0;
        while j < part.children.len()
            invariant
                tree.wf(),
                self.idx < tree.spec_len(),
                part == &tree.inner.storage@[self.idx as int],
                j <= part.children@.len(),
                out@.len() == j,
                forall|k: int|
                    0 <= k < j ==> (#[trigger] out@[k]).idx == tree.node(
                        self.idx as int,
                    ).children@[k].0 && out@[k].idx < tree.spec_len(),
            decreases part.children.len() - j,
        {
            out.push(PathRef { idx: part.children[j].to_usize() });
            j = j + 1;
        }
        out
    }
}

/// The names along the ancestor chain of node `idx`, root first, as
/// owned strings.
fn names_from_root(tree: &PathTree, idx: usize) -> (r: Vec<String>)
    requires
        tree.wf(),
        idx < tree.spec_len(),
    ensures
        r.deep_view() == path_names(*tree, idx as int),
    decreases idx,
{
    match tree.inner.storage[idx].parent {
        None => {
            let mut v: Vec<String> = Vec::new();
            v.push(tree.inner.storage[idx].name.clone());
            assert(v.deep_view() =~= path_names(*tree, idx as int));
            v
        },
        Some(p) => {
            proof {
                assert(tree.node(idx as int).parent == Some(p));
                if idx == 0 {
                    assert(tree.node(0).parent is None);
                }
                assert(p.0 < idx);
            }
            let mut v = names_from_root(tree, p.to_usize());
            v.push(tree.inner.storage[idx].name.clone());
            assert(v.deep_view() =~= path_names(*tree, idx as int));
            v
        },
    }
}

/// The nearest module strictly above a node, when there is one, lies
/// strictly between the root and the node.
pub proof fn lemma_parent_mod_bounds(t: PathTree, i: int)
    requires
        t.wf(),
        0 <= i < t.spec_len(),
    ensures
        spec_parent_mod(t, i) is Some ==> 0 <= spec_parent_mod(t, i).unwrap() < i,
        spec_self_mod(t, i) is Some ==> 0 <= spec_self_mod(t, i).unwrap() <= i,
        spec_nearest_type(t, i) is Some ==> 0 <= spec_nearest_type(t, i).unwrap() <= i,
    decreases i,
{
    match t.node(i).parent {
        None => {},
        Some(p) => {
            if i == 0 {
                assert(t.node(0).parent is None);
            }
            lemma_parent_mod_bounds(t, p.0 as int);
        },
    }
}

/// The length of an ancestor chain is positive.
pub proof fn lemma_path_names_len(t: PathTree, i: int)
    requires
        t.wf(),
        0 <= i < t.spec_len(),
    ensures
        path_names(t, i).len() >= 1,
    decreases i,
{
    match t.node(i).parent {
        None => {},
        Some(p) => {
            if i == 0 {
                assert(t.node(0).parent is None);
            }
            lemma_path_names_len(t, p.0 as int);
        },
    }
}

/// The ancestor-chain names joined by `::`.
pub open spec fn join_names(parts: Seq<Seq<char>>) -> Seq<char>
    decreases parts.len(),
{
    if parts.len() == 0 {
        Seq::empty()
    } else if parts.len() == 1 {
        parts[0]
    } else {
        join_names(parts.drop_last()) + "::"@ + parts.last()
    }
}

/// True when the two nodes hold the same data apart from their child
/// lists.
pub open spec fn same_part_but_children(a: PathPart, b: PathPart) -> bool {
    &&& a.id == b.id
    &&& a.vis == b.vis
    &&& a.parent == b.parent
    &&& a.name@ == b.name@
    &&& a.kind == b.kind
}

/// The parent index of node `i`, if any.
pub open spec fn parent_of(t: PathTree, i: int) -> Option<int> {
    match t.node(i).parent {
        Some(p) => Some(p.0 as int),
        None => None,
    }
}

/// The nearest module strictly above node `i`, if any.
pub open spec fn spec_parent_mod(t: PathTree, i: int) -> Option<int>
    decreases i,
    when t.wf() && 0 <= i < t.spec_len()
{
    match t.node(i).parent {
        None => None,
        Some(p) => if is_module_kind(t.node(p.0 as int).kind) {
            Some(p.0 as int)
        } else {
            spec_parent_mod(t, p.0 as int)
        },
    }
}

/// The node a sibling of `i` is recorded under: `i`'s parent, or the
/// root when `i` is the root.
pub open spec fn sibling_parent(t: PathTree, i: int) -> int {
    match parent_of(t, i) {
        Some(p) => p,
        None => 0,
    }
}

/// The nearest struct or enum body at or above node `i`, if any.
pub open spec fn spec_nearest_type(t: PathTree, i: int) -> Option<int>
    decreases i,
    when t.wf() && 0 <= i < t.spec_len()
{
    if t.node(i).kind is Struct || t.node(i).kind is Enum {
        Some(i)
    } else {
        match t.node(i).parent {
            None => None,
            Some(p) => spec_nearest_type(t, p.0 as int),
        }
    }
}

/// The nearest module at or above node `i`, if any.
pub open spec fn spec_self_mod(t: PathTree, i: int) -> Option<int> {
    if is_module_kind(t.node(i).kind) {
        Some(i)
    } else {
        spec_parent_mod(t, i)
    }
}

/// The names along the ancestor chain of node `i`, root first.
pub open spec fn path_names(t: PathTree, i: int) -> Seq<Seq<char>>
    decreases i,
    when t.wf() && 0 <= i < t.spec_len()
{
    match t.node(i).parent {
        None => seq![t.node(i).name@],
        Some(p) => path_names(t, p.0 as int).push(t.node(i).name@),
    }
}

/// The node that the alias at `i` points at, when `i` is a resolved
/// alias.
pub open spec fn alias_target(t: PathTree, i: int) -> Option<int> {
    if t.node(i).kind is Use && t.node(i).kind->Use_0.0 != 0 {
        Some(t.node(i).kind->Use_0.0 as int)
    } else {
        None
    }
}

/// Follow alias indirection from node `i` for at most `fuel` steps;
/// `None` when no non-alias node is reached within the budget.
pub open spec fn chase(t: PathTree, i: int, fuel: nat) -> Option<int>
    decreases fuel,
{
    match alias_target(t, i) {
        None => Some(i),
        Some(n) => if fuel == 0 {
            None
        } else {
            chase(t, n, (fuel - 1) as nat)
        },
    }
}

/// The first child of node `i` named `name`, searching the child list
/// from position `j` on.
pub open spec fn first_child_named_from(t: PathTree, i: int, name: Seq<char>, j: int) -> Option<
    int,
>
    decreases t.node(i).children@.len() - j,
    when 0 <= j <= t.node(i).children@.len()
{
    if j == t.node(i).children@.len() {
        None
    } else {
        let c = t.node(i).children@[j].0 as int;
        if t.node(c).name@ == name {
            Some(c)
        } else {
            first_child_named_from(t, i, name, j + 1)
        }
    }
}

/// The first child of node `i` named `name`, if any.
pub open spec fn first_child_named(t: PathTree, i: int, name: Seq<char>) -> Option<int> {
    first_child_named_from(t, i, name, 0)
}

/// Walk the components `comps[k..]` down from node `i`, child by child:
/// the node reached when every component matches, `None` otherwise.
pub open spec fn find_from(t: PathTree, i: int, comps: Seq<Seq<char>>, k: int) -> Option<int>
    decreases comps.len() - k,
    when 0 <= k <= comps.len()
{
    if k == comps.len() {
        Some(i)
    } else {
        match first_child_named(t, i, comps[k]) {
            None => None,
            Some(c) => find_from(t, c, comps, k + 1),
        }
    }
}

/// The position of the first component of `comps[k..]` that matches no
/// child during the walk from node `i` (the length of `comps` when every
/// component matches).
pub open spec fn first_missing(t: PathTree, i: int, comps: Seq<Seq<char>>, k: int) -> int
    decreases comps.len() - k,
    when 0 <= k <= comps.len()
{
    if k == comps.len() {
        k
    } else {
        match first_child_named(t, i, comps[k]) {
            None => k,
            Some(c) => first_missing(t, c, comps, k + 1),
        }
    }
}

/// The node that a qualified path denotes, after alias indirection:
/// the result of walking the path's non-empty components from the root
/// and then chasing aliases. `None` when the walk fails, the path has
/// no non-empty component, or the alias chain does not terminate.
pub open spec fn resolved_node(t: PathTree, p: Seq<Seq<char>>) -> Option<int> {
    if nonempty(p).len() == 0 {
        None
    } else {
        match find_from(t, 0, nonempty(p), 0) {
            None => None,
            Some(n) => chase(t, n, t.spec_len() as nat),
        }
    }
}

/// The visibility decision for resolved source and target nodes, given
/// the original source and target paths. `None` when the walk for
/// `super` fails.
///
/// Public and crate-visible targets are visible unconditionally. A
/// private target is visible only from inside its own module. A
/// super-visible target is visible where the parent module of its
/// enclosing module equals, or lies above, the common ancestor of
/// source and target. A target that inherits its visibility, or has
/// none, is not visible here.
pub open spec fn spec_vis_decide(
    t: PathTree,
    sn: int,
    tn: int,
    source: Seq<Seq<char>>,
    target: Seq<Seq<char>>,
) -> Option<bool> {
    match t.node(tn).vis {
        Visibility::Public => Some(true),
        Visibility::CrateVisible => Some(true),
        Visibility::PrivateToModule => Some(
            spec_self_mod(t, tn) is Some && spec_self_mod(t, tn) == spec_self_mod(t, sn),
        ),
        Visibility::SuperVisible => match spec_parent_mod(t, tn) {
            None => None,
            Some(encl) => match spec_parent_mod(t, encl) {
                None => None,
                Some(sup) => {
                    let supq = nonempty(path_names(t, sup));
                    let ca = lcp(nonempty(source), nonempty(target));
                    Some(supq == ca || (supq.len() < ca.len() && prefix_of(supq, ca)))
                },
            },
        },
        Visibility::InheritedFromParent => Some(false),
        Visibility::NoAccess => Some(false),
    }
}

/// Whether the target named by `target` is observable from the location
/// named by `source`: resolve both paths through the tree and aliases,
/// then decide by the target's visibility tag. `None` when resolution
/// fails.
pub open spec fn spec_is_visible(
    t: PathTree,
    source: Seq<Seq<char>>,
    target: Seq<Seq<char>>,
) -> Option<bool> {
    match resolved_node(t, target) {
        None => None,
        Some(tn) => match resolved_node(t, source) {
            None => None,
            Some(sn) => spec_vis_decide(t, sn, tn, source, target),
        },
    }
}

/// Visibility monotonicity: when a super-visible target is observable
/// from a source location, it is observable from every location —
/// in particular every descendant of the source — that keeps the same
/// common ancestor with the target, because the decision for a
/// super-visible target reads only the target's side and that common
/// ancestor.
pub proof fn lemma_visibility_monotonic(
    t: PathTree,
    s1: Seq<Seq<char>>,
    s2: Seq<Seq<char>>,
    target: Seq<Seq<char>>,
)
    requires
        t.wf(),
        spec_is_visible(t, s1, target) == Some(true),
        resolved_node(t, target) is Some,
        t.node(resolved_node(t, target).unwrap()).vis is SuperVisible,
        resolved_node(t, s2) is Some,
        prefix_of(nonempty(s1), nonempty(s2)),
        lcp(nonempty(s2), nonempty(target)) == lcp(nonempty(s1), nonempty(target)),
    ensures
        spec_is_visible(t, s2, target) == Some(true),
{
}

/// The names a wildcard import of node `p` would bring in, scanning the
/// child list from position `j` on: every child that is not private.
pub open spec fn wildcard_names_from(t: PathTree, p: int, j: int) -> Seq<Seq<char>>
    decreases t.node(p).children@.len() - j,
    when 0 <= j <= t.node(p).children@.len()
{
    if j == t.node(p).children@.len() {
        Seq::empty()
    } else {
        let c = t.node(p).children@[j].0 as int;
        let rest = wildcard_names_from(t, p, j + 1);
        if t.node(c).vis is PrivateToModule {
            rest
        } else {
            seq![t.node(c).name@] + rest
        }
    }
}

/// The names a wildcard import of node `p` brings in: every direct
/// child that is not private, in discovery order.
pub open spec fn wildcard_names(t: PathTree, p: int) -> Seq<Seq<char>> {
    wildcard_names_from(t, p, 0)
}

/// Wildcard-import idempotence: as long as the prefix node keeps its
/// child list and every existing node keeps its name and visibility —
/// in particular after the aliases of a first expansion were appended
/// under the importer — re-expanding the same prefix yields the same
/// name sequence.
pub proof fn lemma_wildcard_idempotent(t1: PathTree, t2: PathTree, p: int)
    requires
        t1.wf(),
        0 <= p < t1.spec_len(),
        t1.spec_len() <= t2.spec_len(),
        forall|i: int|
            0 <= i < t1.spec_len() ==> same_part_but_children(#[trigger] t2.node(i), t1.node(i)),
        t2.node(p).children@ == t1.node(p).children@,
    ensures
        wildcard_names(t2, p) == wildcard_names(t1, p),
{
    lemma_wildcard_names_from(t1, t2, p, 0);
}

proof fn lemma_wildcard_names_from(t1: PathTree, t2: PathTree, p: int, j: int)
    requires
        t1.wf(),
        0 <= p < t1.spec_len(),
        t1.spec_len() <= t2.spec_len(),
        forall|i: int|
            0 <= i < t1.spec_len() ==> same_part_but_children(#[trigger] t2.node(i), t1.node(i)),
        t2.node(p).children@ == t1.node(p).children@,
        0 <= j <= t1.node(p).children@.len(),
    ensures
        wildcard_names_from(t2, p, j) == wildcard_names_from(t1, p, j),
    decreases t1.node(p).children@.len() - j,
{
    if j < t1.node(p).children@.len() {
        let c = t1.node(p).children@[j].0 as int;
        assert(same_part_but_children(t2.node(c), t1.node(c)));
        lemma_wildcard_names_from(t1, t2, p, j + 1);
    }
}

/// A child found by name is a real child: later in the arena, named as
/// asked, and pointing back at its parent.
pub proof fn lemma_first_child_named(t: PathTree, i: int, name: Seq<char>, j: int)
    requires
        t.wf(),
        0 <= i < t.spec_len(),
        0 <= j <= t.node(i).children@.len(),
    ensures
        first_child_named_from(t, i, name, j) is Some ==> {
            let c = first_child_named_from(t, i, name, j).unwrap();
            &&& i < c < t.spec_len()
            &&& t.node(c).parent == Some(PathId(i as u32))
            &&& t.node(c).name@ == name
        },
    decreases t.node(i).children@.len() - j,
{
    if j < t.node(i).children@.len() {
        let c = t.node(i).children@[j].0 as int;
        if t.node(c).name@ == name {
        } else {
            lemma_first_child_named(t, i, name, j + 1);
        }
    }
}

/// The node that a successful walk reaches carries the walked components
/// as the tail of its ancestor-chain names.
pub proof fn lemma_find_from_chain(t: PathTree, i: int, comps: Seq<Seq<char>>, k: int)
    requires
        t.wf(),
        0 <= i < t.spec_len(),
        0 <= k <= comps.len(),
        find_from(t, i, comps, k) is Some,
    ensures
        ({
            let n = find_from(t, i, comps, k).unwrap();
            &&& 0 <= n < t.spec_len()
            &&& path_names(t, n) =~= path_names(t, i) + comps.subrange(k, comps.len() as int)
        }),
    decreases comps.len() - k,
{
    if k == comps.len() {
        assert(path_names(t, i) + comps.subrange(k, comps.len() as int) =~= path_names(t, i));
    } else {
        lemma_first_child_named(t, i, comps[k], 0);
        let c = first_child_named(t, i, comps[k]).unwrap();
        lemma_find_from_chain(t, c, comps, k + 1);
        assert(path_names(t, c) == path_names(t, i).push(comps[k]));
        assert(path_names(t, i) + comps.subrange(k, comps.len() as int) =~= path_names(t, i).push(
            comps[k],
        ) + comps.subrange(k + 1, comps.len() as int));
    }
}

/// For every qualified path present in the tree, the walk from the root
/// reaches a node whose ancestor-chain names are exactly the root's
/// empty name followed by the path's components.
pub proof fn lemma_find_sound(t: PathTree, cs: Seq<Seq<char>>)
    requires
        t.wf(),
        find_from(t, 0, cs, 0) is Some,
    ensures
        ({
            let n = find_from(t, 0, cs, 0).unwrap();
            &&& 0 <= n < t.spec_len()
            &&& path_names(t, n) =~~= seq![Seq::<char>::empty()] + cs
        }),
{
    lemma_find_from_chain(t, 0, cs, 0);
    assert(t.node(0).name@ =~= Seq::<char>::empty());
    assert(path_names(t, 0) =~~= seq![Seq::<char>::empty()]);
    assert(cs.subrange(0, cs.len() as int) =~= cs);
}

/// True when every non-root node is recorded in its parent's child
/// list. Scoped pushes keep the tree fully linked; only detached
/// siblings fall outside.
#[verifier::opaque]
pub open spec fn fully_linked(t: PathTree) -> bool {
    forall|i: int|
        1 <= i < t.spec_len() ==> exists|j: int|
            0 <= j < t.node((#[trigger] t.node(i)).parent.unwrap().0 as int).children@.len()
                && t.node(t.node(i).parent.unwrap().0 as int).children@[j].0 == i
}

/// True when no two children of one node share a name.
#[verifier::opaque]
pub open spec fn distinct_sibling_names(t: PathTree) -> bool {
    forall|i: int, j1: int, j2: int|
        0 <= i < t.spec_len() && 0 <= j1 < (#[trigger] t.node(i)).children@.len() && 0 <= j2
            < t.node(i).children@.len() && j1 != j2 ==> t.node(
            #[trigger] t.node(i).children@[j1].0 as int,
        ).name@ != t.node(#[trigger] t.node(i).children@[j2].0 as int).name@
}

/// A child recorded under `p` with name `x` from position `jj` on is
/// what the scan from any earlier position `j` finds, when no two
/// siblings share a name.
proof fn lemma_first_child_named_finds(t: PathTree, p: int, x: Seq<char>, j: int, n: int)
    requires
        t.wf(),
        distinct_sibling_names(t),
        0 <= p < t.spec_len(),
        0 <= j <= t.node(p).children@.len(),
        exists|jj: int|
            j <= jj < t.node(p).children@.len() && (#[trigger] t.node(p).children@[jj]).0 == n,
        0 <= n < t.spec_len(),
        t.node(n).name@ == x,
    ensures
        first_child_named_from(t, p, x, j) == Some(n),
    decreases t.node(p).children@.len() - j,
{
    reveal(distinct_sibling_names);
    let jj = choose|jj: int|
        j <= jj < t.node(p).children@.len() && (#[trigger] t.node(p).children@[jj]).0 == n;
    let c = t.node(p).children@[j].0 as int;
    if c == n {
    } else {
        // the child at `j` is a different node, so its name differs
        assert(t.node(p).children@[jj].0 == n);
        assert(jj != j);
        assert(t.node(c).name@ != t.node(n).name@);
        lemma_first_child_named_finds(t, p, x, j + 1, n);
    }
}

/// The walk over the components `cs` followed by one more component
/// `x` is the walk over `cs` continued by one child lookup.
proof fn lemma_find_from_snoc(t: PathTree, i: int, cs: Seq<Seq<char>>, x: Seq<char>, k: int)
    requires
        t.wf(),
        0 <= i < t.spec_len(),
        0 <= k <= cs.len(),
    ensures
        find_from(t, i, cs.push(x), k) == match find_from(t, i, cs, k) {
            None => None::<int>,
            Some(p) => first_child_named(t, p, x),
        },
    decreases cs.len() - k,
{
    if k == cs.len() {
        assert(cs.push(x)[k] == x);
        assert(find_from(t, i, cs, k) == Some(i));
        match first_child_named(t, i, x) {
            None => {
                assert(find_from(t, i, cs.push(x), k) is None);
            },
            Some(c) => {
                assert(find_from(t, c, cs.push(x), k + 1) == Some(c));
            },
        }
    } else {
        assert(cs.push(x)[k] == cs[k]);
        match first_child_named(t, i, cs[k]) {
            None => {},
            Some(c) => {
                lemma_first_child_named(t, i, cs[k], 0);
                lemma_find_from_snoc(t, c, cs, x, k + 1);
            },
        }
    }
}

/// Uniqueness: in a fully linked tree without repeated sibling names,
/// the node whose ancestor-chain names are the root's empty name
/// followed by `cs` is exactly what the walk from the root finds.
/// Together with `lemma_find_sound` this pins `find` down: a present
/// path is found, at its unique node; an absent one is refused.
#[verifier::spinoff_prover]
#[verifier::rlimit(30)]
pub proof fn lemma_find_complete(t: PathTree, cs: Seq<Seq<char>>, n: int)
    requires
        t.wf(),
        fully_linked(t),
        distinct_sibling_names(t),
        0 <= n < t.spec_len(),
        path_names(t, n) == seq![Seq::<char>::empty()] + cs,
    ensures
        find_from(t, 0, cs, 0) == Some(n),
    decreases cs.len(),
{
    lemma_path_names_len(t, n);
    assert(path_names(t, n).len() == cs.len() + 1);
    if cs.len() == 0 {
        if n != 0 {
            let p = t.node(n).parent.unwrap().0 as int;
            assert(path_names(t, n) == path_names(t, p).push(t.node(n).name@));
            lemma_path_names_len(t, p);
            assert(false);
        }
        assert(find_from(t, 0, cs, 0) == Some(0int));
    } else {
        if n == 0 {
            assert(path_names(t, 0) == seq![t.node(0).name@]);
            assert(false);
        }
        let p = t.node(n).parent.unwrap().0 as int;
        assert(0 <= p < t.spec_len());
        assert(path_names(t, n) == path_names(t, p).push(t.node(n).name@));
        let cs0 = cs.drop_last();
        assert(path_names(t, p) =~= (seq![Seq::<char>::empty()] + cs).drop_last());
        assert((seq![Seq::<char>::empty()] + cs).drop_last() =~= seq![Seq::<char>::empty()] + cs0);
        assert(path_names(t, p) == seq![Seq::<char>::empty()] + cs0);
        assert(path_names(t, n).last() == t.node(n).name@);
        assert((seq![Seq::<char>::empty()] + cs).last() == cs.last());
        assert(t.node(n).name@ == cs.last());
        lemma_find_complete(t, cs0, p);
        lemma_find_from_snoc(t, 0, cs0, cs.last(), 0);
        assert(cs0.push(cs.last()) =~= cs);
        assert(exists|j: int|
            0 <= j < t.node(p).children@.len() && (#[trigger] t.node(p).children@[j]).0 == n) by {
            reveal(fully_linked);
        }
        lemma_first_child_named_finds(t, p, cs.last(), 0, n);
        assert(first_child_named(t, p, cs.last()) == Some(n));
        assert(find_from(t, 0, cs, 0) == Some(n));
    }
}

/// Trees with equal storage have equal nodes, whatever their current
/// pointers; if the second tree's current pointer is in bounds, it is
/// well-formed whenever the first is.
pub proof fn lemma_wf_current_moved(a: PathTree, b: PathTree)
    requires
        a.wf(),
        b.inner.storage == a.inner.storage,
        0 <= b.cur() < b.spec_len(),
    ensures
        b.wf(),
        forall|i: int| 0 <= i < b.spec_len() ==> #[trigger] b.node(i) == a.node(i),
{
    assert forall|i: int| 0 <= i < b.spec_len() implies #[trigger] b.node(i) == a.node(i) by {}
}

/// Well-formedness carries over to any tree with the same content.
pub proof fn lemma_same_tree_wf(a: PathTree, b: PathTree)
    requires
        a.wf(),
        same_tree(a, b),
    ensures
        b.wf(),
{
    assert(same_part(a.node(0), b.node(0)));
    assert forall|i: int| 0 <= i < b.spec_len() implies (#[trigger] b.node(i)).id.0 == i by {
        assert(same_part(a.node(i), b.node(i)));
    }
    assert forall|i: int|
        1 <= i < b.spec_len() implies (#[trigger] b.node(i)).parent is Some && b.node(
        i,
    ).parent.unwrap().0 < i by {
        assert(same_part(a.node(i), b.node(i)));
    }
    assert forall|i: int, j: int|
        0 <= i < b.spec_len() && 0 <= j < (#[trigger] b.node(i)).children@.len() implies {
        &&& i < #[trigger] b.node(i).children@[j].0 < b.spec_len()
        &&& b.node(b.node(i).children@[j].0 as int).parent == Some(PathId(i as u32))
    } by {
        assert(same_part(a.node(i), b.node(i)));
        let c = b.node(i).children@[j].0 as int;
        assert(same_part(a.node(c), b.node(c)));
    }
    assert forall|i: int|
        0 <= i < b.spec_len() && (#[trigger] b.node(i)).kind is Use implies b.node(
        i,
    ).kind->Use_0.0 < b.spec_len() by {
        assert(same_part(a.node(i), b.node(i)));
    }
}

} // verus!
