use nexa::activation::{ActivationEntry, ActivationManifest, Strategy};
use nexa::devtools::diagnostics_json;
use nexa::ir::{Classification, DependencyGraph, IrComponent, IrNode, IrNodeKind};
use nexa::modules::{content_hash, find, find_internal, ModuleSources, Stability};
use nexa::pipeline::{CompiledPage, SeoWarning};
use nexa::pkg_warnings::PackageWarning;
use nexa::strmap::StrSet;

fn empty_page() -> CompiledPage {
    let mut manifest = ActivationManifest::new();
    manifest.insert(
        3,
        ActivationEntry { event: "click".into(), handler: "buy".into(), module: "/assets/Home-3.js".into(), strategy: Strategy::Interaction },
    );

    CompiledPage {
        html: String::new(),
        manifest,
        chunks: vec![],
        ir: IrComponent {
            name: "Home".into(),
            root: IrNode { id: 0, classification: Classification::Static, kind: IrNodeKind::Text("x".into()) },
            dependencies: DependencyGraph::new(),
        },
        seo_warnings: vec![SeoWarning { code: "NEXA-SEO-001".into(), message: "falta title".into() }],
        ui_used_classes: StrSet::new(),
        pkg_warnings: vec![],
        initial_js_bytes: 1234,
    }
}

fn sources() -> ModuleSources {
    ModuleSources {
        ui: ".nx-btn{}".into(),
        forms_js: "export function initForms() {}".into(),
        platform_js: "export const platform = {};".into(),
        telemetry_js: "export function initTelemetry() {}".into(),
        tauri_template: b"[package]\nname = \"{{PACKAGE_NAME}}\"\n".to_vec(),
        capacitor_template: nexa::capacitor_scaffold::template_bytes().to_vec(),
    }
}

#[test]
fn produces_valid_json_with_the_expected_top_level_fields() {
    let page = empty_page();
    let json = diagnostics_json("/", &page);
    let value: serde_json::Value = serde_json::from_str(&json).expect("should be valid JSON");

    assert_eq!(value["pattern"], "/");
    assert_eq!(value["initialJsBytes"], 1234);
    assert_eq!(value["classification"]["static"], 1);
}

#[test]
fn lists_activation_entries_with_their_strategy_name() {
    let page = empty_page();
    let json = diagnostics_json("/", &page);
    let value: serde_json::Value = serde_json::from_str(&json).unwrap();

    let entries = value["activation"].as_array().unwrap();
    assert_eq!(entries.len(), 1);
    assert_eq!(entries[0]["handler"], "buy");
    assert_eq!(entries[0]["strategy"], "interaction");
}

#[test]
fn lists_seo_warnings() {
    let page = empty_page();
    let json = diagnostics_json("/", &page);
    let value: serde_json::Value = serde_json::from_str(&json).unwrap();

    let warnings = value["seoWarnings"].as_array().unwrap();
    assert_eq!(warnings.len(), 1);
    assert_eq!(warnings[0]["code"], "NEXA-SEO-001");
}

#[test]
fn diagnostics_are_compact_json_in_key_order() {
    let mut page = empty_page();
    page.pkg_warnings = vec![PackageWarning { code: "NEXA-PKG-002", message: "forms \"x\"".into() }];
    let json = diagnostics_json("/p", &page);
    assert_eq!(
        json,
        "{\"activation\":[{\"event\":\"click\",\"handler\":\"buy\",\"id\":\"3\",\"module\":\"/assets/Home-3.js\",\"strategy\":\"interaction\"}],\
\"classification\":{\"async\":0,\"dynamic\":0,\"interactive\":0,\"static\":1,\"total\":1},\
\"initialJsBytes\":1234,\"pattern\":\"/p\",\
\"pkgWarnings\":[{\"code\":\"NEXA-PKG-002\",\"message\":\"forms \\\"x\\\"\"}],\
\"seoWarnings\":[{\"code\":\"NEXA-SEO-001\",\"message\":\"falta title\"}]}"
    );
}

#[test]
fn finds_known_modules() {
    assert!(find("ui").is_some());
    assert!(find("forms").is_some());
    assert!(find("tauri").is_some());
}

#[test]
fn tauri_is_registered_as_experimental() {
    assert_eq!(find("tauri").unwrap().stability, Stability::Experimental);
}

#[test]
fn platform_is_registered_and_has_a_content_hash() {
    assert!(find("platform").is_some());
    assert!(content_hash("platform", &sources()).is_some());
}

#[test]
fn does_not_find_unknown_or_internal_modules_as_addable() {
    assert!(find("router").is_none());
    assert!(find("runtime").is_none());
    assert!(find("dev-client").is_none());
    assert!(find("no-existe").is_none());
}

#[test]
fn finds_internal_modules_separately_for_a_better_error_message() {
    assert!(find_internal("router").is_some());
    assert!(find_internal("runtime").is_some());
    assert!(find_internal("dev-client").is_some());
    assert!(find_internal("no-existe").is_none());
    assert!(find_internal("ui").is_none(), "ui es addable, no interno");
}

#[test]
fn content_hash_is_deterministic_and_differs_between_modules() {
    let s = sources();
    let ui_hash = content_hash("ui", &s).unwrap();
    let forms_hash = content_hash("forms", &s).unwrap();

    assert_eq!(ui_hash, content_hash("ui", &s).unwrap());
    assert_ne!(ui_hash, forms_hash);
}

#[test]
fn content_hash_is_none_for_unknown_modules() {
    assert_eq!(content_hash("no-existe", &sources()), None);
}

#[test]
fn content_hash_is_fnv1a_with_sixteen_hex_digits() {
    let mut s = sources();
    s.ui = String::new();
    assert_eq!(content_hash("ui", &s).unwrap(), "fnv1a:cbf29ce484222325");
    s.ui = "a".into();
    assert_eq!(content_hash("ui", &s).unwrap(), "fnv1a:af63dc4c8601ec8c");
}

#[test]
fn stability_names() {
    assert_eq!(Stability::Stable.as_str(), "stable");
    assert_eq!(Stability::Experimental.as_str(), "experimental");
    assert_eq!(Stability::Internal.as_str(), "internal");
}
