use nexa::ast::{Attr, Event, Expr};
use nexa::import_map::{resolved, script_tag, used_by_page};
use nexa::ir::{Classification, IrNode, IrNodeKind};
use nexa::layout::{splice_slot, validate};
use nexa::lockfile::{LockedPackage, Lockfile};
use nexa::manifest::Manifest;
use nexa::strmap::{StrMap, StrSet};

fn package(name: &str, version: &str) -> LockedPackage {
    LockedPackage {
        name: name.to_string(),
        version: version.to_string(),
        stability: "stable".to_string(),
        source: "builtin".to_string(),
        content_hash: "fnv1a:0".to_string(),
    }
}

fn handlers(pairs: &[(&str, &str)]) -> StrMap<String> {
    let mut m = StrMap::new();
    for (k, v) in pairs {
        m.insert(k.to_string(), v.to_string());
    }
    m
}

fn element(classification: Classification, tag: &str, attrs: Vec<Attr>, events: Vec<Event>, children: Vec<IrNode>) -> IrNode {
    IrNode { id: 0, classification, kind: IrNodeKind::Element { tag: tag.into(), attrs, events, island: None, children } }
}

fn slot() -> Attr {
    Attr { name: "data-nexa-slot".into(), value: None }
}

#[test]
fn load_returns_an_empty_lockfile_when_the_file_is_missing() {
    let lock = Lockfile::default();
    assert_eq!(lock.version, 1);
    assert!(lock.packages.is_empty());
}

#[test]
fn upsert_adds_a_new_package() {
    let mut lock = Lockfile::default();
    lock.upsert(package("ui", "0.1.0"));
    assert_eq!(lock.packages.len(), 1);
    assert_eq!(lock.packages[0].name, "ui");
}

#[test]
fn upsert_replaces_an_existing_package_instead_of_duplicating_it() {
    let mut lock = Lockfile::default();
    lock.upsert(package("ui", "0.1.0"));
    lock.upsert(package("ui", "0.2.0"));
    assert_eq!(lock.packages.len(), 1);
    assert_eq!(lock.packages[0].version, "0.2.0");
}

#[test]
fn upsert_keeps_packages_in_name_order() {
    let mut lock = Lockfile::default();
    lock.upsert(package("ui", "0.1.0"));
    lock.upsert(package("forms", "0.1.0"));
    lock.upsert(package("pwa", "0.1.0"));
    lock.upsert(package("forms", "0.3.0"));
    let names: Vec<&str> = lock.packages.iter().map(|p| p.name.as_str()).collect();
    assert_eq!(names, vec!["forms", "pwa", "ui"]);
    assert_eq!(lock.packages[0].version, "0.3.0");
}

#[test]
fn resolved_always_includes_the_builtin_platform_entry() {
    let map = resolved(&Manifest::default());
    assert_eq!(map.get("platform").map(String::as_str), Some("/assets/nexa-platform.js"));
}

#[test]
fn resolved_merges_project_declared_imports() {
    let mut manifest = Manifest::default();
    manifest.imports.insert("stripe".to_string(), "https://cdn.example.com/stripe.js".to_string());

    let map = resolved(&manifest);
    assert_eq!(map.get("stripe").map(String::as_str), Some("https://cdn.example.com/stripe.js"));
    assert!(map.contains_key("platform"));
}

#[test]
fn a_project_may_point_platform_elsewhere() {
    let mut manifest = Manifest::default();
    manifest.imports.insert("platform".to_string(), "/vendor/platform.js".to_string());
    let map = resolved(&manifest);
    assert_eq!(map.get("platform").map(String::as_str), Some("/vendor/platform.js"));
}

#[test]
fn used_by_page_only_keeps_names_a_handler_actually_references() {
    let mut m = Manifest::default();
    m.imports.insert("stripe".to_string(), "https://cdn.example.com/stripe.js".to_string());
    let all = resolved(&m);

    let used = used_by_page(&all, &handlers(&[("pay", "function pay() { stripe.load(); }")]), &StrSet::new());

    assert_eq!(used.len(), 1);
    assert!(used.contains_key("stripe"));
    assert!(!used.contains_key("platform"));
}

#[test]
fn used_by_page_is_empty_when_no_handler_uses_anything_importable() {
    let all = resolved(&Manifest::default());
    let used = used_by_page(&all, &handlers(&[("buy", "function buy() { cart.add(id); }")]), &StrSet::new());
    assert!(used.is_empty());
}

#[test]
fn used_by_page_also_keeps_names_an_island_declares_as_its_specifier() {
    let mut m = Manifest::default();
    m.imports.insert("dashboardIsland".to_string(), "/vendor/dashboard-island.js".to_string());
    let all = resolved(&m);

    let mut islands = StrSet::new();
    islands.insert("dashboardIsland".to_string());
    let used = used_by_page(&all, &StrMap::new(), &islands);

    assert_eq!(used.len(), 1);
    assert!(used.contains_key("dashboardIsland"));
}

#[test]
fn script_tag_is_none_for_an_empty_map() {
    assert_eq!(script_tag(&StrMap::new()), None);
}

#[test]
fn script_tag_contains_a_valid_import_map() {
    let mut used = StrMap::new();
    used.insert("stripe".to_string(), "https://cdn.example.com/stripe.js".to_string());

    let tag = script_tag(&used).expect("expected a script tag");
    assert!(tag.starts_with("<script type=\"importmap\">"));
    assert!(tag.contains("\"stripe\":\"https://cdn.example.com/stripe.js\""));
    assert_eq!(tag, "<script type=\"importmap\">{\"imports\":{\"stripe\":\"https://cdn.example.com/stripe.js\"}}</script>");
}

#[test]
fn splice_slot_inserts_the_body_inside_the_marked_element() {
    let layout = r#"<html><body><header>Nav</header><div data-nexa-slot></div><footer>Pie</footer></body></html>"#;
    let out = splice_slot(layout, "<p>hola</p>").unwrap();
    assert!(out.contains("<div data-nexa-slot><p>hola</p></div>"));
}

#[test]
fn splice_slot_fails_with_a_clear_message_when_there_is_no_slot() {
    let layout = "<html><body><header>Nav</header></body></html>";
    let err = splice_slot(layout, "<p>hola</p>").unwrap_err();
    assert!(err.contains("data-nexa-slot"));
}

#[test]
fn splice_slot_fails_when_the_slot_tag_never_closes() {
    let err = splice_slot("<div data-nexa-slot", "x").unwrap_err();
    assert_eq!(err, "no se pudo encontrar el cierre de la etiqueta con `data-nexa-slot`");
}

#[test]
fn a_layout_needs_exactly_one_empty_slot_and_nothing_interactive() {
    let good = element(Classification::Static, "main", vec![], vec![], vec![element(Classification::Static, "div", vec![slot()], vec![], vec![])]);
    assert!(validate(&good).is_ok());

    let none = element(Classification::Static, "main", vec![], vec![], vec![]);
    assert!(validate(&none).unwrap_err().contains("(tiene 0)"));

    let two = element(
        Classification::Static,
        "main",
        vec![],
        vec![],
        vec![element(Classification::Static, "div", vec![slot()], vec![], vec![]), element(Classification::Static, "div", vec![slot()], vec![], vec![])],
    );
    assert!(validate(&two).unwrap_err().contains("(tiene 2)"));

    let filled = element(
        Classification::Static,
        "main",
        vec![],
        vec![],
        vec![element(Classification::Static, "div", vec![slot()], vec![], vec![element(Classification::Static, "p", vec![], vec![], vec![])])],
    );
    assert!(validate(&filled).unwrap_err().contains("debe estar vacío"));

    let click = Event { name: "click".into(), handler: Expr::Identifier("go".into()), strategy: None };
    let active = element(Classification::Interactive, "main", vec![], vec![click], vec![element(Classification::Static, "div", vec![slot()], vec![], vec![])]);
    assert!(validate(&active).unwrap_err().contains("evento interactivo o una isla"));
}

#[test]
fn names_stay_distinct_over_repeated_upserts() {
    let mut lock = Lockfile::default();
    for (n, v) in [("ui", "1"), ("a", "1"), ("ui", "2"), ("b", "1"), ("a", "2"), ("ui", "3")] {
        lock.upsert(package(n, v));
    }
    let names: Vec<&str> = lock.packages.iter().map(|p| p.name.as_str()).collect();
    assert_eq!(names, vec!["a", "b", "ui"]);
    let versions: Vec<&str> = lock.packages.iter().map(|p| p.version.as_str()).collect();
    assert_eq!(versions, vec!["2", "1", "3"]);
}
