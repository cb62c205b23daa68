//! The symbol table builder: the qualified names and imports that the
//! front end hands to bytecode emission.

use vstd::prelude::*;
use crate::ast::token::Span;
use crate::component::{Component, ComponentModel, Item};

verus! {

/// True when `a` is a (not necessarily strict) prefix of `b`.
pub open spec fn item_prefix_of(a: Seq<ComponentModel>, b: Seq<ComponentModel>) -> bool {
    a.len() <= b.len() && forall|i: int| 0 <= i < a.len() ==> a[i] == b[i]
}

/// One recorded import: `from` now also names `to`.
#[derive(Debug)]
pub struct ImportEntry {
    /// The item path the import was declared at.
    pub from: Item,
    /// The qualified name imported.
    pub to: Item,
    /// The span of the `use` declaration.
    pub span: Span,
    /// The source the declaration came from.
    pub source_id: usize,
}

/// The symbol table builder: the registered item names, and the
/// imports among them.
#[derive(Debug)]
pub struct UnitBuilder {
    /// Every registered declaration, by its full item path.
    pub names: Vec<Item>,
    /// Every registered import.
    pub imports: Vec<ImportEntry>,
}

impl UnitBuilder {
    /// An empty builder.
    pub fn new() -> (r: UnitBuilder)
        ensures
            r.names@.len() == 0,
            r.imports@.len() == 0,
    {
        UnitBuilder { names: Vec::new(), imports: Vec::new() }
    }

    /// Register a declaration under its full item path.
    pub fn insert_name(&mut self, item: Item)
        ensures
            final(self).names@ == old(self).names@.push(item),
            final(self).imports@ == old(self).imports@,
    {
        self.names.push(item);
    }

    /// Register one import entry.
    pub fn new_import(&mut self, from: Item, to: Item, span: Span, source_id: usize)
        ensures
            final(self).imports@.len() == old(self).imports@.len() + 1,
            final(self).imports@.last().from == from,
            final(self).imports@.last().to == to,
            final(self).imports@.last().span == span,
            final(self).imports@.last().source_id == source_id,
            final(self).imports@.drop_last() == old(self).imports@,
            final(self).names@ == old(self).names@,
    {
        self.imports.push(ImportEntry { from, to, span, source_id });
        proof {
            assert(self.imports@.drop_last() =~= old(self).imports@);
        }
    }

    /// True when `a` is a component-wise prefix of `b`.
    pub fn is_item_prefix(a: &Item, b: &Item) -> (r: bool)
        ensures
            r == item_prefix_of(a@, b@),
    {
        let ac = a.components();
        let bc = b.components();
        if ac.len() > bc.len() {
            return false;
        }
        let mut i: usize = 0;
        while i < ac.len()
            invariant
                i <= ac.deep_view().len() <= bc.deep_view().len(),
                ac.deep_view() == a@,
                bc.deep_view() == b@,
                ac.deep_view().len() == ac@.len(),
                bc.deep_view().len() == bc@.len(),
                forall|j: int| 0 <= j < i ==> a@[j] == b@[j],
            decreases ac.len() - i,
        {
            if !(ac[i] == bc[i]) {
                proof {
                    assert(a@[i as int] == ac@[i as int]@);
                    assert(b@[i as int] == bc@[i as int]@);
                }
                return false;
            }
            proof {
                assert(a@[i as int] == ac@[i as int]@);
                assert(b@[i as int] == bc@[i as int]@);
            }
            i = i + 1;
        }
        true
    }

    /// True when some registered name lies at or under `prefix`.
    pub fn contains_prefix(&self, prefix: &Item) -> (r: bool)
        ensures
            r == exists|i: int|
                0 <= i < self.names@.len() && item_prefix_of(prefix@, (#[trigger] self.names@[i])@),
    {
        let mut i: usize = 0;
        while i < self.names.len()
            invariant
                i <= self.names@.len(),
                forall|j: int|
                    0 <= j < i ==> !item_prefix_of(prefix@, (#[trigger] self.names@[j])@),
            decreases self.names.len() - i,
        {
            if UnitBuilder::is_item_prefix(prefix, &self.names[i]) {
                return true;
            }
            i = i + 1;
        }
        false
    }

    /// The distinct components that continue `prefix` among the
    /// registered names, in first-seen order.
    pub fn iter_components(&self, prefix: &Item) -> (r: Vec<Component>)
        ensures
            forall|j: int, k: int|
                0 <= j < k < r@.len() ==> (#[trigger] r@[j])@ != (#[trigger] r@[k])@,
            forall|j: int|
                0 <= j < r@.len() ==> continues(self.names@, prefix@, (#[trigger] r@[j])@),
            forall|c: ComponentModel|
                #[trigger] continues(self.names@, prefix@, c) ==> exists|j: int|
                    0 <= j < r@.len() && (#[trigger] r@[j])@ == c,
    {
        let mut out: Vec<Component> = Vec::new();
        let plen = prefix.len();
        let mut i: usize = 0;
        while i < self.names.len()
            invariant
                i <= self.names@.len(),
                plen == prefix@.len(),
                forall|j: int, k: int|
                    0 <= j < k < out@.len() ==> (#[trigger] out@[j])@ != (#[trigger] out@[k])@,
                forall|j: int|
                    0 <= j < out@.len() ==> continues(self.names@, prefix@, (#[trigger] out@[j])@),
                covered(self.names@, prefix@, out@, i as int),
            decreases self.names.len() - i,
        {
            let name = &self.names[i];
            let ghost pre = out@;
            if name.len() > plen && UnitBuilder::is_item_prefix(prefix, name) {
                let nc = name.components();
                proof {
                    assert(nc.deep_view() == name@);
                    assert(nc@.len() == name@.len());
                }
                let c = nc[plen].cloned();
                proof {
                    assert(c@ == nc@[plen as int]@);
                    assert(c@ == name@[plen as int]);
                    assert(0 <= i < self.names@.len() && (self.names@[i as int])@.len()
                        > prefix@.len() && item_prefix_of(prefix@, self.names@[i as int]@) && c@
                        == self.names@[i as int]@[prefix@.len() as int]);
                    assert(continues(self.names@, prefix@, c@));
                }
                let mut seen = false;
                let mut j: usize = 0;
                while j < out.len()
                    invariant
                        j <= out@.len(),
                        seen == exists|k: int| 0 <= k < j && (#[trigger] out@[k])@ == c@,
                    decreases out.len() - j,
                {
                    if out[j] == c {
                        seen = true;
                    }
                    j = j + 1;
                }
                if !seen {
                    out.push(c);
                    proof {
                        lemma_covered_push(self.names@, prefix@, pre, out@, i as int, c@);
                        let m = pre.len() as int;
                        assert forall|j2: int, k: int|
                            0 <= j2 < k < out@.len() implies (#[trigger] out@[j2])@ != (
                        #[trigger] out@[k])@ by {
                            if k == m {
                                assert(out@[j2] == pre[j2]);
                            } else {
                                assert(out@[j2] == pre[j2] && out@[k] == pre[k]);
                            }
                        }
                        assert forall|j2: int|
                            0 <= j2 < out@.len() implies continues(
                            self.names@,
                            prefix@,
                            (#[trigger] out@[j2])@,
                        ) by {
                            if j2 < m {
                                assert(out@[j2] == pre[j2]);
                            } else {
                                assert(out@[j2]@ == c@);
                            }
                        }
                    }
                } else {
                    proof {
                        lemma_covered_seen(self.names@, prefix@, out@, i as int, c@);
                    }
                }
            } else {
                proof {
                    assert(!(self.names@[i as int]@.len() > prefix@.len() && item_prefix_of(
                        prefix@,
                        self.names@[i as int]@,
                    )));
                    lemma_covered_skip(self.names@, prefix@, out@, i as int);
                }
            }
            i = i + 1;
        }
        proof {
            assert forall|c: ComponentModel| #[trigger] continues(
                self.names@,
                prefix@,
                c,
            ) implies exists|j: int| 0 <= j < out@.len() && (#[trigger] out@[j])@ == c by {
                let n0 = choose|n0: int|
                    0 <= n0 < self.names@.len() && (#[trigger] self.names@[n0])@.len()
                        > prefix@.len() && item_prefix_of(prefix@, self.names@[n0]@) && c
                        == self.names@[n0]@[prefix@.len() as int];
                assert(0 <= n0 < self.names@.len() && self.names@[n0]@.len() > prefix@.len()
                    && item_prefix_of(prefix@, self.names@[n0]@));
            }
        }
        out
    }
}

/// True when `c` is the component right after `prefix` on some
/// registered name that lies strictly under `prefix`.
pub open spec fn continues(names: Seq<Item>, prefix: Seq<ComponentModel>, c: ComponentModel) -> bool {
    exists|n: int|
        0 <= n < names.len() && (#[trigger] names[n])@.len() > prefix.len() && item_prefix_of(
            prefix,
            names[n]@,
        ) && c == names[n]@[prefix.len() as int]
}

/// Every name seen so far whose path continues the prefix has its
/// continuation among the accumulated components.
pub open spec fn covered(
    names: Seq<Item>,
    prefix: Seq<ComponentModel>,
    out: Seq<Component>,
    n: int,
) -> bool {
    forall|k: int|
        0 <= k < n && (#[trigger] names[k])@.len() > prefix.len() && item_prefix_of(
            prefix,
            names[k]@,
        ) ==> exists|j: int| 0 <= j < out.len() && (#[trigger] out[j])@ == names[k]@[
        prefix.len() as int]
}

/// Coverage is kept when the name at `n` does not continue the prefix.
#[verifier::spinoff_prover]
proof fn lemma_covered_skip(
    names: Seq<Item>,
    prefix: Seq<ComponentModel>,
    out: Seq<Component>,
    n: int,
)
    requires
        0 <= n < names.len(),
        covered(names, prefix, out, n),
        !(names[n]@.len() > prefix.len() && item_prefix_of(prefix, names[n]@)),
    ensures
        covered(names, prefix, out, n + 1),
{
}

/// Coverage is kept when the continuation of the name at `n` is
/// already among the accumulated components.
#[verifier::spinoff_prover]
proof fn lemma_covered_seen(
    names: Seq<Item>,
    prefix: Seq<ComponentModel>,
    out: Seq<Component>,
    n: int,
    c: ComponentModel,
)
    requires
        0 <= n < names.len(),
        covered(names, prefix, out, n),
        c == names[n]@[prefix.len() as int],
        exists|k: int| 0 <= k < out.len() && (#[trigger] out[k])@ == c,
    ensures
        covered(names, prefix, out, n + 1),
{
    assert forall|k: int|
        0 <= k < n + 1 && (#[trigger] names[k])@.len() > prefix.len() && item_prefix_of(
            prefix,
            names[k]@,
        ) implies exists|j: int| 0 <= j < out.len() && (#[trigger] out[j])@ == names[k]@[
    prefix.len() as int] by {
        if k == n {
            let k0 = choose|k0: int| 0 <= k0 < out.len() && (#[trigger] out[k0])@ == c;
            assert(0 <= k0 < out.len() && out[k0]@ == names[k]@[prefix.len() as int]);
        }
    }
}

/// Coverage is kept when the continuation of the name at `n` is
/// appended to the accumulated components.
#[verifier::spinoff_prover]
proof fn lemma_covered_push(
    names: Seq<Item>,
    prefix: Seq<ComponentModel>,
    pre: Seq<Component>,
    cur: Seq<Component>,
    n: int,
    c: ComponentModel,
)
    requires
        0 <= n < names.len(),
        covered(names, prefix, pre, n),
        c == names[n]@[prefix.len() as int],
        cur.len() == pre.len() + 1,
        forall|k: int| 0 <= k < pre.len() ==> #[trigger] cur[k] == pre[k],
        cur.last()@ == c,
    ensures
        covered(names, prefix, cur, n + 1),
{
    let m = pre.len() as int;
    assert forall|k: int|
        0 <= k < n + 1 && (#[trigger] names[k])@.len() > prefix.len() && item_prefix_of(
            prefix,
            names[k]@,
        ) implies exists|j: int| 0 <= j < cur.len() && (#[trigger] cur[j])@ == names[k]@[
    prefix.len() as int] by {
        if k == n {
            assert(0 <= m < cur.len() && cur[m]@ == names[k]@[prefix.len() as int]);
        } else {
            let j0 = choose|j0: int|
                0 <= j0 < pre.len() && (#[trigger] pre[j0])@ == names[k]@[prefix.len() as int];
            assert(cur[j0] == pre[j0]);
            assert(0 <= j0 < cur.len() && cur[j0]@ == names[k]@[prefix.len() as int]);
        }
    }
}

} // verus!
