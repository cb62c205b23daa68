//! Tests of qualified paths.

use rune::component::{Component, Item};
use rune::worker::QualifiedPath;

fn qp(parts: &[&str]) -> QualifiedPath {
    let mut q = QualifiedPath::empty();
    for p in parts {
        q.push((*p).to_string());
    }
    q
}

#[test]
fn push_and_pop_are_inverses() {
    let mut q = QualifiedPath::new("root");
    q.push("a".to_string());
    assert_eq!(q.len(), 2);
    assert_eq!(q.last().unwrap().as_str(), "a");
    assert_eq!(q.first().unwrap().as_str(), "root");
    assert_eq!(q.pop().unwrap().as_str(), "a");
    assert_eq!(q.len(), 1);
    assert!(!q.is_empty());
    assert_eq!(q.pop().unwrap().as_str(), "root");
    assert!(q.is_empty());
    assert!(q.pop().is_none());
}

#[test]
fn ancestor_is_the_strict_prefix_relation() {
    assert!(qp(&["a"]).is_ancestor_of(&qp(&["a", "b"])));
    assert!(!qp(&["a", "b"]).is_ancestor_of(&qp(&["a", "b"])));
    assert!(!qp(&["a", "x"]).is_ancestor_of(&qp(&["a", "b", "c"])));
    assert!(qp(&[]).is_ancestor_of(&qp(&["a"])));
}

#[test]
fn common_ancestor_of_disjoint_paths_is_empty() {
    let ca = qp(&["x", "y"]).common_ancestor(&qp(&["z"]));
    assert!(ca.is_empty());
    let ca2 = qp(&["x", "y"]).common_ancestor(&qp(&["x", "y"]));
    assert_eq!(ca2.len(), 2);
}

#[test]
fn item_renders_anonymous_components_as_decimal_indices() {
    let item = Item::of(vec![
        Component::Str("krate".to_string()),
        Component::Block(0),
        Component::Closure(12),
        Component::Macro(305),
        Component::Str("x".to_string()),
    ]);
    let q = QualifiedPath::of_item(&item);
    let parts: Vec<&str> = q.iter().iter().map(|s| s.as_str()).collect();
    assert_eq!(parts, vec!["krate", "0", "12", "305", "x"]);
}

#[test]
fn filtered_drops_empty_components() {
    let q = qp(&["", "k", "", "a"]);
    let f = q.filtered();
    assert_eq!(f.len(), 2);
    assert_eq!(f.first().unwrap().as_str(), "k");
    assert_eq!(f.last().unwrap().as_str(), "a");
}
