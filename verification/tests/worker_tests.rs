//! Tests of the worker: loading, indexing, imports and macro
//! expansion driven to a fixed point.

use rune::ast::token::Span;
use rune::component::{Component, Item};
use rune::errors::CompileErrorKind;
use rune::worker::{
    LoadFileKind, MacroDef, MacroKind, Source, Sources, Task, Worker,
    MAX_EXPANSION_DEPTH,
};
use rune::worker::QualifiedPath;

fn qp(parts: &[&str]) -> QualifiedPath {
    let mut q = QualifiedPath::empty();
    for p in parts {
        q.push((*p).to_string());
    }
    q
}

fn run_worker(text: &str, macros: Vec<MacroDef>) -> Worker {
    let mut sources = Sources::new();
    let id = sources.insert(Source { name: "entry".to_string(), text: text.to_string() });
    let queue = vec![Task::LoadFile { kind: LoadFileKind::Root, item: Item::new(), source_id: id }];
    let mut worker = Worker::new(queue, sources, macros);
    worker.run();
    worker
}

fn item_parts(item: &Item) -> Vec<String> {
    let mut out = Vec::new();
    for c in item.components() {
        match c {
            Component::Str(s) => out.push(s.clone()),
            Component::Block(n) => out.push(format!("{}", n)),
            Component::Closure(n) => out.push(format!("{}", n)),
            Component::AsyncBlock(n) => out.push(format!("{}", n)),
            Component::Macro(n) => out.push(format!("macro-{}", n)),
        }
    }
    out
}

#[test]
fn test_function_argument_types_not_supported() {
    let worker = run_worker("fn main(argv, argc: usize) { 0 }", vec![]);
    let error = &worker.errors[0].error;
    assert!(matches!(error.kind, CompileErrorKind::Internal { .. }));
    assert_eq!(error.span, Span::new(18, 25));
}

#[test]
fn test_function_return_types_not_supported() {
    let worker = run_worker("fn main() -> i32 { 0 }", vec![]);
    let error = &worker.errors[0].error;
    assert!(matches!(error.kind, CompileErrorKind::Internal { .. }));
    assert_eq!(error.span, Span::new(10, 16));
}

#[test]
fn use_of_a_public_item_registers_a_resolving_alias() {
    let worker = run_worker("mod a { pub fn x() {} } mod b { use a::x; }", vec![]);
    assert!(worker.errors.is_empty());
    let items = &worker.contexts[0];
    let ax = items.find(&qp(&["a", "x"])).unwrap();
    let bx = items.find(&qp(&["b", "x"])).unwrap();
    let resolved = bx.resolve(&items.tree).unwrap();
    assert_eq!(resolved.idx, ax.idx);
    // the alias leads to a public declaration: visible from anywhere
    assert_eq!(
        items.tree.is_visible_to(&qp(&["a"]), &qp(&["b", "x"])).unwrap(),
        true
    );
    assert_eq!(
        items.tree.is_visible_to(&qp(&["b"]), &qp(&["b", "x"])).unwrap(),
        true
    );
    // one import entry was recorded
    assert_eq!(worker.unit.imports.len(), 1);
    assert_eq!(item_parts(&worker.unit.imports[0].to), vec!["a".to_string(), "x".to_string()]);
}

#[test]
fn use_of_a_private_item_is_not_visible_to_the_sibling() {
    let worker = run_worker("mod a { fn y() {} } mod b { use a::y; }", vec![]);
    let items = &worker.contexts[0];
    // the declaration resolves, but visibility denies it to the sibling
    assert_eq!(
        items.tree.is_visible_to(&qp(&["b"]), &qp(&["a", "y"])).unwrap(),
        false
    );
    assert_eq!(
        items
            .tree
            .is_visible_to(&qp(&["b"]), &qp(&["b", "y"]))
            .unwrap(),
        false
    );
}

#[test]
fn wildcard_import_takes_only_the_public_item() {
    let worker = run_worker("mod b { pub fn x() {} fn y() {} } use b::*;", vec![]);
    assert!(worker.errors.is_empty());
    let items = &worker.contexts[0];
    // the public item was aliased into the importer's scope
    let x = items.find(&qp(&["x"])).unwrap();
    let bx = items.find(&qp(&["b", "x"])).unwrap();
    assert_eq!(x.resolve(&items.tree).unwrap().idx, bx.idx);
    // the appended alias carries the candidate's own name
    assert_eq!(x.name(&items.tree), "x");
    // the private one was not
    assert!(items.find(&qp(&["y"])).is_err());
    assert_eq!(worker.unit.imports.len(), 1);
    assert_eq!(item_parts(&worker.unit.imports[0].to), vec!["b".to_string(), "x".to_string()]);
}

#[test]
fn re_expanding_an_unchanged_prefix_yields_the_same_name_set() {
    let worker = run_worker(
        "mod b { pub fn x() {} pub fn z() {} } use b::*; use b::*;",
        vec![],
    );
    assert!(worker.errors.is_empty());
    // both expansions brought in the same two names
    assert_eq!(worker.unit.imports.len(), 4);
    let mut first: Vec<Vec<String>> = worker.unit.imports[0..2]
        .iter()
        .map(|e| item_parts(&e.to))
        .collect();
    let mut second: Vec<Vec<String>> = worker.unit.imports[2..4]
        .iter()
        .map(|e| item_parts(&e.to))
        .collect();
    first.sort();
    second.sort();
    assert_eq!(first, second);
}

#[test]
fn wildcard_of_an_absent_prefix_is_a_missing_module() {
    let worker = run_worker("use nowhere::*;", vec![]);
    assert_eq!(worker.errors.len(), 1);
    assert!(matches!(
        worker.errors[0].error.kind,
        CompileErrorKind::MissingModule { .. }
    ));
}

#[test]
fn an_item_macro_expansion_occupies_the_call_position() {
    let macros = vec![MacroDef {
        name: "make_fn".to_string(),
        kind: MacroKind::Item,
        expansion: "fn generated() {}".to_string(),
    }];
    let worker = run_worker("mod m { make_fn!() }", macros);
    assert!(worker.errors.is_empty());
    // the expanded function was registered under the macro's position,
    // with no macro-call component in its qualified path
    let found = worker
        .unit
        .names
        .iter()
        .any(|n| item_parts(n) == vec!["m".to_string(), "generated".to_string()]);
    assert!(found);
}

#[test]
fn an_unknown_macro_is_reported_at_the_call() {
    let worker = run_worker("mod m { mystery!() }", vec![]);
    assert_eq!(worker.errors.len(), 1);
    assert!(matches!(
        worker.errors[0].error.kind,
        CompileErrorKind::MissingMacro { .. }
    ));
}

#[test]
fn a_macro_that_keeps_expanding_hits_the_depth_limit() {
    let macros = vec![MacroDef {
        name: "again".to_string(),
        kind: MacroKind::Item,
        expansion: "again!()".to_string(),
    }];
    let worker = run_worker("again!();", macros);
    let hit = worker.errors.iter().any(|e| {
        matches!(
            e.error.kind,
            CompileErrorKind::MacroDepthExceeded { depth } if depth == MAX_EXPANSION_DEPTH
        )
    });
    assert!(hit);
}

#[test]
fn a_missing_source_id_is_reported() {
    let sources = Sources::new();
    let queue = vec![Task::LoadFile { kind: LoadFileKind::Root, item: Item::new(), source_id: 7 }];
    let mut worker = Worker::new(queue, sources, vec![]);
    worker.run();
    assert_eq!(worker.errors.len(), 1);
    assert!(matches!(
        worker.errors[0].error.kind,
        CompileErrorKind::MissingSource
    ));
}

#[test]
fn unparsable_source_text_is_reported() {
    let worker = run_worker("fn", vec![]);
    assert_eq!(worker.errors.len(), 1);
    assert!(matches!(
        worker.errors[0].error.kind,
        CompileErrorKind::Parse { .. }
    ));
}

#[test]
fn forward_references_resolve_through_the_deferred_alias() {
    // the `use` is indexed before `a::x` exists in the symbol table;
    // the import task still runs after indexing discovered it
    let worker = run_worker("mod b { use a::x; } mod a { pub fn x() {} }", vec![]);
    assert!(worker.errors.is_empty());
    let items = &worker.contexts[0];
    let bx = items.find(&qp(&["b", "x"])).unwrap();
    let ax = items.find(&qp(&["a", "x"])).unwrap();
    assert_eq!(bx.resolve(&items.tree).unwrap().idx, ax.idx);
    assert_eq!(worker.unit.imports.len(), 1);
}

#[test]
fn structs_enums_and_impls_are_indexed_with_their_members() {
    let worker = run_worker(
        "mod m { pub struct S { a, b } enum E { A, B } impl W { fn f() {} } }",
        vec![],
    );
    assert!(worker.errors.is_empty());
    let names: Vec<Vec<String>> = worker.unit.names.iter().map(item_parts).collect();
    assert!(names.contains(&vec!["m".to_string(), "S".to_string()]));
    assert!(names.contains(&vec!["m".to_string(), "S".to_string(), "a".to_string()]));
    assert!(names.contains(&vec!["m".to_string(), "E".to_string(), "B".to_string()]));
    let items = &worker.contexts[0];
    let f = items.find(&qp(&["m", "W", "f"])).unwrap();
    assert!(matches!(
        f.kind(&items.tree),
        rune::path_tree::PathKind::Fn
    ));
}

#[test]
fn import_process_registers_one_entry_for_a_plain_use() {
    // drive one import task by hand against a prepared context
    let mut sources = Sources::new();
    let id = sources.insert(Source {
        name: "entry".to_string(),
        text: "mod a { pub fn x() {} } mod b { use a::x; }".to_string(),
    });
    let queue = vec![Task::LoadFile { kind: LoadFileKind::Root, item: Item::new(), source_id: id }];
    let mut worker = Worker::new(queue, sources, vec![]);
    worker.run();
    assert_eq!(worker.unit.imports.len(), 1);
    assert_eq!(item_parts(&worker.unit.imports[0].from), vec!["b".to_string()]);
}

#[test]
fn an_empty_source_indexes_to_nothing() {
    let worker = run_worker("", vec![]);
    assert!(worker.errors.is_empty());
    assert!(worker.unit.names.is_empty());
    assert!(worker.unit.imports.is_empty());
}

#[test]
fn a_leading_super_names_the_parent_module() {
    let worker = run_worker("mod a { fn x() {} mod b { use super::x; } }", vec![]);
    assert!(worker.errors.is_empty());
    let items = &worker.contexts[0];
    let alias = items.find(&qp(&["a", "b", "x"])).unwrap();
    let target = items.find(&qp(&["a", "x"])).unwrap();
    assert_eq!(alias.resolve(&items.tree).unwrap().idx, target.idx);
}
