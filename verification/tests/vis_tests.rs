//! Tests of the path-based visibility check.

use rune::component::{Component, Item};
use rune::sec::vis::{is_ancestor, is_parent, is_visible_to, paths_eq, Vis};

fn item(parts: Vec<&'static str>) -> Item {
    let mut item = Item::new();
    for p in parts {
        item.push(Component::Str(p.to_string()));
    }
    item
}

fn not(b: bool) -> bool {
    !b
}

#[test]
fn test_vis_pub() {
    assert!(is_visible_to(&item(vec![]), &item(vec![]), Vis::Pub));
    assert!(is_visible_to(&item(vec!["a"]), &item(vec!["a"]), Vis::Pub));
    assert!(is_visible_to(
        &item(vec!["a", "b", "c"]),
        &item(vec!["a", "b", "c"]),
        Vis::Pub,
    ));

    assert!(is_visible_to(
        &item(vec!["a", "b", "c"]),
        &item(vec!["a", "b"]),
        Vis::Pub,
    ));
}

#[test]
fn test_vis_none() {
    assert!(is_visible_to(&item(vec![]), &item(vec![]), Vis::Bare));
    assert!(is_visible_to(&item(vec!["a"]), &item(vec!["a"]), Vis::Bare));
    assert!(is_visible_to(
        &item(vec!["a", "b", "c"]),
        &item(vec!["a", "b", "c"]),
        Vis::Bare,
    ));

    assert!(not(is_visible_to(
        &item(vec!["a", "b", "c"]),
        &item(vec!["a", "b"]),
        Vis::Bare,
    )));
}

#[test]
fn crate_visibility_compares_the_leading_component() {
    assert!(is_visible_to(
        &item(vec!["k", "a"]),
        &item(vec!["k", "b"]),
        Vis::Crate,
    ));
    assert!(not(is_visible_to(
        &item(vec!["k", "a"]),
        &item(vec!["other", "b"]),
        Vis::Crate,
    )));
}

#[test]
fn path_prefix_relations() {
    let a = item(vec!["k", "a"]);
    let ab = item(vec!["k", "a", "b"]);
    let abc = item(vec!["k", "a", "b", "c"]);
    assert!(paths_eq(&a, &item(vec!["k", "a"])));
    assert!(!paths_eq(&a, &ab));
    assert!(is_ancestor(&a, &ab));
    assert!(is_ancestor(&a, &abc));
    assert!(!is_ancestor(&ab, &a));
    assert!(is_parent(&a, &ab));
    assert!(!is_parent(&a, &abc));
}
