//! Tests of the scope tree: storage, lookup, the scope stack and the
//! visibility resolver.

use rune::path_tree::{PathKind, PathTree, PathTreeError};
use rune::sec::Visibility;
use rune::worker::QualifiedPath;

fn qp(parts: &[&str]) -> QualifiedPath {
    let mut q = QualifiedPath::empty();
    for p in parts {
        q.push((*p).to_string());
    }
    q
}

#[test]
fn test_storage() {
    let mut tree = PathTree::with_crate_name("foo");
    let bar = tree
        .crate_()
        .append_child(&mut tree, "bar", PathKind::Mod, Visibility::SuperVisible)
        .unwrap();
    for (i, ch) in "ABCDEFGHI".chars().enumerate() {
        let kind = if i % 2 == 0 { PathKind::Struct } else { PathKind::Enum };
        bar.append_child(&mut tree, &ch.to_string(), kind, Visibility::Public)
            .unwrap();
    }
    let bar = bar
        .append_child(&mut tree, "baz", PathKind::Mod, Visibility::CrateVisible)
        .unwrap();
    for (vis, name) in [
        (Visibility::PrivateToModule, "Alpha"),
        (Visibility::PrivateToModule, "Beta"),
        (Visibility::Public, "Delta"),
        (Visibility::Public, "Gamma"),
    ] {
        bar.append_child(&mut tree, name, PathKind::Struct, vis).unwrap();
    }
    println!("{:?}", tree);
    println!("{}", tree.tree_formatter().render());
}

#[test]
fn find_returns_the_node_with_that_ancestor_chain() {
    let mut tree = PathTree::with_crate_name("k");
    let a = tree
        .crate_()
        .append_child(&mut tree, "a", PathKind::Mod, Visibility::Public)
        .unwrap();
    let b = a
        .append_child(&mut tree, "b", PathKind::Mod, Visibility::Public)
        .unwrap();
    let t = b
        .append_child(&mut tree, "t", PathKind::Fn, Visibility::Public)
        .unwrap();

    let found = tree.find(&qp(&["k", "a", "b", "t"])).unwrap();
    assert_eq!(found.idx, t.idx);
    // the ancestor-chain names of the found node are the path itself
    let names = found.qualified_path(&tree);
    let parts = names.iter();
    let rendered: Vec<&str> = parts.iter().map(|s| s.as_str()).collect();
    assert_eq!(rendered, vec!["", "k", "a", "b", "t"]);

    let found_mid = tree.find(&qp(&["k", "a"])).unwrap();
    assert_eq!(found_mid.idx, a.idx);
}

#[test]
fn find_on_an_absent_path_names_the_first_missing_component() {
    let mut tree = PathTree::with_crate_name("k");
    let a = tree
        .crate_()
        .append_child(&mut tree, "a", PathKind::Mod, Visibility::Public)
        .unwrap();
    let _ = a;
    match tree.find(&qp(&["k", "nope", "deeper"])) {
        Err(PathTreeError::UnresolvablePath { msg }) => {
            assert_eq!(msg, "failed to resolve path at nope");
        }
        other => panic!("expected an unresolvable path, got {:?}", other),
    }
}

#[test]
fn scope_stack_round_trip_restores_the_current_pointer() {
    let mut tree = PathTree::with_crate_name("k");
    let start = tree.current().idx;
    let g1 = tree
        .push_scoped("outer", PathKind::Mod, Visibility::Public)
        .unwrap();
    let g2 = tree
        .push_scoped("inner", PathKind::Fn, Visibility::Public)
        .unwrap();
    assert_eq!(tree.current().idx, g2.path_ref.idx);
    let left_inner = tree.pop().unwrap();
    assert_eq!(left_inner.idx, g2.path_ref.idx);
    assert_eq!(tree.current().idx, g1.path_ref.idx);
    let left_outer = tree.pop().unwrap();
    assert_eq!(left_outer.idx, g1.path_ref.idx);
    assert_eq!(tree.current().idx, start);
}

fn super_visible_tree() -> (PathTree, usize) {
    let mut tree = PathTree::with_crate_name("k");
    let a = tree
        .crate_()
        .append_child(&mut tree, "a", PathKind::Mod, Visibility::Public)
        .unwrap();
    let b = a
        .append_child(&mut tree, "b", PathKind::Mod, Visibility::Public)
        .unwrap();
    let t = b
        .append_child(&mut tree, "t", PathKind::Fn, Visibility::SuperVisible)
        .unwrap();
    a.append_child(&mut tree, "c", PathKind::Mod, Visibility::Public)
        .unwrap();
    tree.crate_()
        .append_child(&mut tree, "z", PathKind::Mod, Visibility::Public)
        .unwrap();
    (tree, t.idx)
}

#[test]
fn super_visible_item_is_seen_from_the_parent_module_and_its_descendants() {
    let (tree, _) = super_visible_tree();
    let target = qp(&["k", "a", "b", "t"]);
    assert_eq!(tree.is_visible_to(&qp(&["k", "a"]), &target).unwrap(), true);
    assert_eq!(tree.is_visible_to(&qp(&["k", "a", "c"]), &target).unwrap(), true);
    assert_eq!(tree.is_visible_to(&qp(&["k", "z"]), &target).unwrap(), false);
}

#[test]
fn super_visibility_is_kept_by_descendants_with_the_same_ancestor() {
    let (tree, _) = super_visible_tree();
    let target = qp(&["k", "a", "b", "t"]);
    // visible from the source, and from a descendant of the source
    // that keeps the same common ancestor with the target
    assert_eq!(tree.is_visible_to(&qp(&["k", "a"]), &target).unwrap(), true);
    assert_eq!(tree.is_visible_to(&qp(&["k", "a", "c"]), &target).unwrap(), true);
    assert_eq!(tree.is_visible_to(&qp(&["k", "a", "b"]), &target).unwrap(), true);
}

#[test]
fn private_item_is_seen_only_inside_its_module() {
    let mut tree = PathTree::with_crate_name("k");
    let a = tree
        .crate_()
        .append_child(&mut tree, "a", PathKind::Mod, Visibility::Public)
        .unwrap();
    a.append_child(&mut tree, "y", PathKind::Fn, Visibility::PrivateToModule)
        .unwrap();
    let peer = a
        .append_child(&mut tree, "p", PathKind::Fn, Visibility::PrivateToModule)
        .unwrap();
    let _ = peer;
    tree.crate_()
        .append_child(&mut tree, "b", PathKind::Mod, Visibility::Public)
        .unwrap();
    let target = qp(&["k", "a", "y"]);
    assert_eq!(tree.is_visible_to(&qp(&["k", "a", "p"]), &target).unwrap(), true);
    assert_eq!(tree.is_visible_to(&qp(&["k", "b"]), &target).unwrap(), false);
}

#[test]
fn aliases_are_followed_to_their_target() {
    let mut tree = PathTree::with_crate_name("k");
    let a = tree
        .crate_()
        .append_child(&mut tree, "a", PathKind::Mod, Visibility::Public)
        .unwrap();
    let x = a
        .append_child(&mut tree, "x", PathKind::Fn, Visibility::Public)
        .unwrap();
    let b = tree
        .crate_()
        .append_child(&mut tree, "b", PathKind::Mod, Visibility::Public)
        .unwrap();
    let x_id = x.id(&tree);
    let alias = b
        .append_child(&mut tree, "x", PathKind::Use(x_id), Visibility::PrivateToModule)
        .unwrap();
    let resolved = alias.resolve(&tree).unwrap();
    assert_eq!(resolved.idx, x.idx);
    // the aliased public item is seen straight through the alias
    assert_eq!(
        tree.is_visible_to(&qp(&["k", "a"]), &qp(&["k", "b", "x"])).unwrap(),
        true
    );
}

#[test]
fn common_ancestor_is_the_longest_shared_prefix() {
    let left = qp(&["k", "a", "b", "t"]);
    let right = qp(&["k", "a", "c"]);
    let ca = left.common_ancestor(&right);
    let parts: Vec<&str> = ca.iter().iter().map(|s| s.as_str()).collect();
    assert_eq!(parts, vec!["k", "a"]);
    assert!(ca.is_ancestor_of(&left));
    assert!(ca.is_ancestor_of(&right));
    assert!(!left.is_ancestor_of(&right));
    assert!(qp(&["k", "a"]).is_super_of(&qp(&["k", "a", "c"])));
    assert!(!qp(&["k"]).is_super_of(&qp(&["k", "a", "c"])));
}

#[test]
fn qualified_names_join_the_chain_with_double_colons() {
    let mut tree = PathTree::with_crate_name("k");
    let a = tree
        .crate_()
        .append_child(&mut tree, "a", PathKind::Mod, Visibility::Public)
        .unwrap();
    let b = a
        .append_child(&mut tree, "b", PathKind::Fn, Visibility::Public)
        .unwrap();
    assert_eq!(b.qualified_name(&tree), "::k::a::b");
    assert_eq!(tree.crate_().qualified_name(&tree), "::k");
}

#[test]
fn an_appended_sibling_is_recorded_beside_its_node() {
    let mut tree = PathTree::with_crate_name("k");
    let a = tree
        .crate_()
        .append_child(&mut tree, "a", PathKind::Mod, Visibility::Public)
        .unwrap();
    let sib = a.append_sibling(&mut tree, "s", PathKind::Mod).unwrap();
    // the sibling hangs beside `a`, under the crate scope, and the
    // parent's child list records it: `find` can reach it
    assert_eq!(
        sib.parent(&tree).unwrap().idx,
        a.parent(&tree).unwrap().idx
    );
    let found = tree.find(&qp(&["k", "s"])).unwrap();
    assert_eq!(found.idx, sib.idx);
    assert!(matches!(sib.visibility(&tree), Visibility::NoAccess));
}
