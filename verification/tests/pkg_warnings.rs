use nexa::manifest::Manifest;
use nexa::pkg_warnings::check;
use nexa::strmap::{StrMap, StrSet};

fn set_of(names: &[&str]) -> StrSet {
    let mut s = StrSet::new();
    for n in names {
        s.insert(n.to_string());
    }
    s
}

#[test]
fn warns_when_ui_classes_are_used_without_declaring_the_dependency() {
    let warnings = check(&Manifest::default(), &set_of(&["nx-btn"]), false, false, &StrSet::new(), &StrMap::new());
    assert!(warnings.iter().any(|w| w.code == "NEXA-PKG-001"));
}

#[test]
fn does_not_warn_once_ui_is_declared() {
    let mut manifest = Manifest::default();
    manifest.dependencies.insert("ui".to_string(), "0.1.0".to_string());

    let warnings = check(&manifest, &set_of(&["nx-btn"]), false, false, &StrSet::new(), &StrMap::new());
    assert!(warnings.is_empty());
}

#[test]
fn warns_when_forms_are_used_without_declaring_the_dependency() {
    let warnings = check(&Manifest::default(), &StrSet::new(), true, false, &StrSet::new(), &StrMap::new());
    assert!(warnings.iter().any(|w| w.code == "NEXA-PKG-002"));
}

#[test]
fn warns_when_platform_is_used_without_declaring_the_dependency() {
    let warnings = check(&Manifest::default(), &StrSet::new(), false, true, &StrSet::new(), &StrMap::new());
    assert!(warnings.iter().any(|w| w.code == "NEXA-PKG-003"));
}

#[test]
fn does_not_warn_once_platform_is_declared() {
    let mut manifest = Manifest::default();
    manifest.dependencies.insert("platform".to_string(), "0.1.0".to_string());

    let warnings = check(&manifest, &StrSet::new(), false, true, &StrSet::new(), &StrMap::new());
    assert!(warnings.is_empty());
}

#[test]
fn a_page_using_none_of_them_gets_no_warnings() {
    let warnings = check(&Manifest::default(), &StrSet::new(), false, false, &StrSet::new(), &StrMap::new());
    assert!(warnings.is_empty());
}

#[test]
fn warns_when_an_island_specifier_is_not_declared_in_the_import_map() {
    let islands = set_of(&["dashboardIsland"]);
    let warnings = check(&Manifest::default(), &StrSet::new(), false, false, &islands, &StrMap::new());
    assert!(warnings.iter().any(|w| w.code == "NEXA-PKG-004" && w.message.contains("dashboardIsland")));
}

#[test]
fn does_not_warn_once_the_island_specifier_is_in_the_resolved_import_map() {
    let islands = set_of(&["dashboardIsland"]);
    let mut resolved = StrMap::new();
    resolved.insert("dashboardIsland".to_string(), "/vendor/dashboard-island.js".to_string());

    let warnings = check(&Manifest::default(), &StrSet::new(), false, false, &islands, &resolved);
    assert!(warnings.is_empty());
}

#[test]
fn warnings_come_in_a_fixed_order() {
    let islands = set_of(&["b", "a"]);
    let warnings = check(&Manifest::default(), &set_of(&["nx-card"]), true, true, &islands, &StrMap::new());
    let codes: Vec<&str> = warnings.iter().map(|w| w.code).collect();
    assert_eq!(codes, vec!["NEXA-PKG-001", "NEXA-PKG-002", "NEXA-PKG-003", "NEXA-PKG-004", "NEXA-PKG-004"]);
    assert!(warnings[3].message.contains("\"a\""));
    assert!(warnings[4].message.contains("\"b\""));
}
