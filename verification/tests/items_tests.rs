//! Tests of the item path builder.

use rune::component::{Component, Item};
use rune::items::Items;
use rune::sec::Visibility;
use rune::worker::QualifiedPath;

fn parts(item: &Item) -> Vec<String> {
    let mut out = Vec::new();
    for c in item.components() {
        match c {
            Component::Str(s) => out.push(s.clone()),
            Component::Block(n) => out.push(format!("block-{}", n)),
            Component::Closure(n) => out.push(format!("closure-{}", n)),
            Component::AsyncBlock(n) => out.push(format!("async-{}", n)),
            Component::Macro(n) => out.push(format!("macro-{}", n)),
        }
    }
    out
}

#[test]
fn named_pushes_build_the_item_path() {
    let mut items = Items::new(vec![Component::Str("krate".to_string())]);
    let g1 = items.push_mod("a", Visibility::Public);
    let g2 = items.push_fn("f", Visibility::PrivateToModule);
    assert_eq!(parts(&items.item()), vec!["krate", "a", "f"]);
    items.exit(g2);
    items.exit(g1);
    assert_eq!(parts(&items.item()), vec!["krate"]);
    assert!(!items.is_empty());
}

#[test]
fn anonymous_pushes_are_numbered_by_sibling_order() {
    let mut items = Items::new(vec![Component::Str("krate".to_string())]);
    let g = items.push_fn("f", Visibility::Public);
    let b1 = items.push_block();
    items.exit(b1);
    let b2 = items.push_block();
    assert_eq!(parts(&items.item()), vec!["krate", "f", "block-1"]);
    items.exit(b2);
    let c = items.push_closure();
    assert_eq!(parts(&items.item()), vec!["krate", "f", "closure-2"]);
    items.exit(c);
    items.exit(g);
}

#[test]
fn the_macro_slot_touches_only_the_stack() {
    let mut items = Items::new(vec![Component::Str("krate".to_string())]);
    let before = items.tree.len();
    let g = items.push_macro();
    assert_eq!(items.tree.len(), before);
    assert_eq!(parts(&items.item()), vec!["krate", "macro-0"]);
    // an item expansion pops the slot to take its position
    match items.pop() {
        Some(Component::Macro(0)) => {}
        other => panic!("expected the macro slot, got {:?}", other),
    }
    drop(g);
}

#[test]
fn a_snapshot_is_an_independent_copy() {
    let mut items = Items::new(vec![Component::Str("krate".to_string())]);
    let g = items.push_mod("a", Visibility::Public);
    let snap = items.snapshot();
    items.exit(g);
    let _g2 = items.push_mod("b", Visibility::Public);
    // the snapshot still sees the context it was taken in
    assert_eq!(parts(&snap.item()), vec!["krate", "a"]);
    assert!(snap.find(&path(&["krate", "a"])).is_ok());
    assert!(snap.find(&path(&["krate", "b"])).is_err());
}

fn path(parts: &[&str]) -> QualifiedPath {
    let mut q = QualifiedPath::empty();
    for p in parts {
        q.push((*p).to_string());
    }
    q
}

#[test]
fn super_and_self_walk_the_modules() {
    let mut items = Items::new(vec![
        Component::Str("krate".to_string()),
        Component::Str("a".to_string()),
    ]);
    let g = items.push_fn("f", Visibility::Public);
    let me = items.self_().unwrap();
    let sup = items.super_().unwrap();
    let me_parts: Vec<String> = me.iter().clone();
    let sup_parts: Vec<String> = sup.iter().clone();
    assert_eq!(me_parts, vec!["".to_string(), "krate".to_string(), "a".to_string()]);
    assert_eq!(sup_parts, vec!["".to_string(), "krate".to_string()]);
    items.exit(g);
}

#[test]
fn the_crate_scope_carries_its_name() {
    let items = Items::new(vec![Component::Str("krate".to_string())]);
    assert_eq!(items.crate_(), "krate");
}

#[test]
fn anonymous_scopes_take_their_index_as_tree_name() {
    let mut items = Items::new(vec![Component::Str("krate".to_string())]);
    let g = items.push_fn("f", Visibility::Public);
    let b1 = items.push_block();
    items.exit(b1);
    let b2 = items.push_block();
    items.exit(b2);
    items.exit(g);
    assert!(items.find(&path(&["krate", "f", "0"])).is_ok());
    assert!(items.find(&path(&["krate", "f", "1"])).is_ok());
    assert!(items.find(&path(&["krate", "f", "2"])).is_err());
}
