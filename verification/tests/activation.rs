use nexa::activation::{build, ActivationEntry, ActivationManifest, Strategy};
use nexa::ast::{Component, Element, Event, Expr, ForLoop, Node, TopLevelConst};
use nexa::hash::short_hash;
use nexa::ir::{Classification, DependencyGraph, IrComponent, IrNode, IrNodeKind};
use nexa::strmap::{StrMap, StrSet};

fn no_imports() -> StrSet {
    StrSet::new()
}

fn imports(names: &[&str]) -> StrSet {
    let mut s = StrSet::new();
    for n in names {
        s.insert(n.to_string());
    }
    s
}

fn static_text(id: usize, value: &str) -> IrNode {
    IrNode { id, classification: Classification::Static, kind: IrNodeKind::Text(value.to_string()) }
}

fn button_with_click(id: usize, handler: &str, strategy: Option<&str>, children: Vec<IrNode>) -> IrNode {
    IrNode {
        id,
        classification: Classification::Interactive,
        kind: IrNodeKind::Element {
            tag: "button".into(),
            attrs: vec![],
            events: vec![Event {
                name: "click".into(),
                handler: Expr::Identifier(handler.into()),
                strategy: strategy.map(str::to_string),
            }],
            island: None,
            children,
        },
    }
}

fn static_element(id: usize, tag: &str, children: Vec<IrNode>) -> IrNode {
    IrNode {
        id,
        classification: Classification::Static,
        kind: IrNodeKind::Element { tag: tag.into(), attrs: vec![], events: vec![], island: None, children },
    }
}

fn for_loop(id: usize, item_name: &str, body: IrNode) -> IrNode {
    IrNode {
        id,
        classification: Classification::Dynamic,
        kind: IrNodeKind::For {
            each: Expr::Member { object: Box::new(Expr::Identifier("data".into())), property: "items".into() },
            item_name: item_name.into(),
            body: Box::new(body),
        },
    }
}

fn component(name: &str, root: IrNode) -> IrComponent {
    IrComponent { name: name.into(), root, dependencies: DependencyGraph::new() }
}

fn handlers_of(pairs: &[(&str, &str)]) -> StrMap<String> {
    let mut m = StrMap::new();
    for (k, v) in pairs {
        m.insert(k.to_string(), v.to_string());
    }
    m
}

fn consts_of(name: &str, source: &str, is_simple: bool) -> StrMap<TopLevelConst> {
    let mut m = StrMap::new();
    m.insert(name.to_string(), TopLevelConst { source: source.to_string(), is_simple });
    m
}

#[test]
fn strategy_parses_known_values_and_falls_back_to_interaction() {
    assert_eq!(Strategy::parse(Some("idle")), Strategy::Idle);
    assert_eq!(Strategy::parse(Some("visible")), Strategy::Visible);
    assert_eq!(Strategy::parse(Some("load")), Strategy::Load);
    assert_eq!(Strategy::parse(Some("manual")), Strategy::Manual);
    assert_eq!(Strategy::parse(Some("algo-inventado")), Strategy::Interaction);
    assert_eq!(Strategy::parse(None), Strategy::Interaction);
}

#[test]
fn static_only_component_produces_no_manifest_entries_and_no_chunks() {
    let component = component("About", static_element(0, "main", vec![static_text(1, "Nada interactivo aquí")]));

    let (manifest, chunks) = build(&component, "About", &StrMap::new(), &StrMap::new(), &no_imports()).unwrap();

    assert!(manifest.is_empty(), "una página estática no debe generar manifiesto");
    assert!(chunks.is_empty(), "una página estática no debe generar JS");
}

#[test]
fn interactive_button_gets_one_manifest_entry_and_one_chunk() {
    let component = component(
        "ProductPage",
        static_element(
            0,
            "article",
            vec![
                static_element(1, "h1", vec![static_text(2, "iPhone 17")]),
                button_with_click(3, "buy", None, vec![static_text(4, "Comprar")]),
            ],
        ),
    );

    let (manifest, chunks) = build(&component, "ProductPage", &StrMap::new(), &StrMap::new(), &no_imports()).unwrap();

    assert_eq!(manifest.len(), 1);
    assert_eq!(chunks.len(), 1);

    let entry = manifest.get(3).expect("el botón (id 3) debe estar en el manifiesto");
    assert_eq!(entry.event, "click");
    assert_eq!(entry.handler, "buy");
    assert_eq!(entry.strategy, Strategy::Interaction);

    assert!(entry.module.starts_with("/assets/ProductPage-3."));
    assert!(entry.module.ends_with(".js"));
    assert_eq!(entry.module, format!("/assets/{}", chunks[0].filename));

    assert!(chunks[0].filename.starts_with("ProductPage-3."));
    assert!(chunks[0].content.contains("addEventListener(\"click\""));
    assert!(chunks[0].content.contains("buy"));
}

#[test]
fn an_interactive_element_inside_a_for_loop_body_gets_a_manifest_entry() {
    let component = component(
        "Catalog",
        static_element(0, "ul", vec![for_loop(1, "item", button_with_click(2, "remove", None, vec![static_text(3, "Quitar")]))]),
    );

    let (manifest, chunks) = build(&component, "Catalog", &StrMap::new(), &StrMap::new(), &no_imports()).unwrap();

    assert_eq!(manifest.len(), 1);
    assert_eq!(chunks.len(), 1);
    let entry = manifest.get(2).expect("el botón dentro del <For> (id 2) debe estar en el manifiesto");
    assert_eq!(entry.handler, "remove");
}

#[test]
fn chunk_filename_changes_when_the_handler_source_changes() {
    let make = || component("ProductPage", button_with_click(3, "buy", None, vec![]));

    let (_, chunks_a) = build(&make(), "ProductPage", &handlers_of(&[("buy", "function buy() { cart.add(1); }")]), &StrMap::new(), &no_imports()).unwrap();
    let (_, chunks_b) = build(&make(), "ProductPage", &handlers_of(&[("buy", "function buy() { cart.add(2); }")]), &StrMap::new(), &no_imports()).unwrap();

    assert_ne!(chunks_a[0].filename, chunks_b[0].filename);
}

#[test]
fn data_nexa_strategy_overrides_the_default() {
    let component = component("Gallery", button_with_click(0, "expand", Some("visible"), vec![]));

    let (manifest, _chunks) = build(&component, "Gallery", &StrMap::new(), &StrMap::new(), &no_imports()).unwrap();
    assert_eq!(manifest.get(0).unwrap().strategy, Strategy::Visible);
}

#[test]
fn manifest_serializes_to_json_keyed_by_node_id() {
    let component = component("ProductPage", button_with_click(5, "buy", None, vec![]));

    let (manifest, _chunks) = build(&component, "ProductPage", &StrMap::new(), &StrMap::new(), &no_imports()).unwrap();
    let json = manifest.to_json_pretty().expect("should serialize");

    assert!(json.contains("\"5\""));
    assert!(json.contains("\"event\": \"click\""));
    assert!(json.contains("\"handler\": \"buy\""));
    assert!(json.contains("\"strategy\": \"interaction\""));
}

#[test]
fn entries_iterates_every_manifest_entry() {
    let component = component("ProductPage", button_with_click(5, "buy", None, vec![]));

    let (manifest, _chunks) = build(&component, "ProductPage", &StrMap::new(), &StrMap::new(), &no_imports()).unwrap();
    let entries = manifest.entries();

    assert_eq!(entries.len(), 1);
    assert_eq!(entries[0].0, "5");
    assert_eq!(entries[0].1.handler, "buy");
}

#[test]
fn uses_the_real_handler_source_when_its_known() {
    let component = component("ProductPage", button_with_click(0, "buy", None, vec![]));
    let handlers = handlers_of(&[("buy", "function buy() {\n    cart.add(id);\n}")]);

    let (_manifest, chunks) = build(&component, "ProductPage", &handlers, &StrMap::new(), &no_imports()).unwrap();

    assert!(chunks[0].content.contains("function buy()"));
    assert!(chunks[0].content.contains("cart.add(id)"));
    assert!(!chunks[0].content.contains("no se pudo resolver"));
}

#[test]
fn bug_27_prepends_a_simple_top_level_const_the_handler_actually_uses() {
    let component = component("LoginPage", button_with_click(0, "handleLogin", None, vec![]));
    let handlers = handlers_of(&[("handleLogin", "async function handleLogin() {\n    await fetch(`${API_BASE}/auth/login`);\n}")]);
    let consts = consts_of("API_BASE", "const API_BASE = \"https://api.oweeme.com\";", true);

    let (_manifest, chunks) = build(&component, "LoginPage", &handlers, &consts, &no_imports()).unwrap();

    assert!(chunks[0].content.contains("const API_BASE = \"https://api.oweeme.com\";"));
    assert!(chunks[0].content.contains("async function handleLogin()"));
}

#[test]
fn bug_27_does_not_prepend_a_const_the_handler_never_mentions() {
    let component = component("LoginPage", button_with_click(0, "handleLogin", None, vec![]));
    let handlers = handlers_of(&[("handleLogin", "function handleLogin() {\n    console.log(\"hola\");\n}")]);
    let consts = consts_of("API_BASE", "const API_BASE = \"https://api.oweeme.com\";", true);

    let (_manifest, chunks) = build(&component, "LoginPage", &handlers, &consts, &no_imports()).unwrap();

    assert!(!chunks[0].content.contains("API_BASE"));
}

#[test]
fn bug_27_does_not_confuse_a_const_with_a_longer_name_that_contains_it() {
    let component = component("LoginPage", button_with_click(0, "handleLogin", None, vec![]));
    let handlers = handlers_of(&[("handleLogin", "function handleLogin() {\n    console.log(MY_API_BASE_URL);\n}")]);
    let consts = consts_of("API_BASE", "const API_BASE = \"esto no debería aparecer\";", true);

    let (_manifest, chunks) = build(&component, "LoginPage", &handlers, &consts, &no_imports()).unwrap();

    assert!(!chunks[0].content.contains("esto no debería aparecer"));
}

#[test]
fn bug_27_a_const_name_that_only_appears_inside_a_string_or_comment_is_not_a_real_usage() {
    let component = component("LoginPage", button_with_click(0, "handleClick", None, vec![]));
    let handlers = handlers_of(&[(
        "handleClick",
        "function handleClick() {\n    // no toca CONFIG para nada\n    console.log(\"click, sin tocar CONFIG\");\n}",
    )]);
    let consts = consts_of("CONFIG", "const CONFIG = buildConfig();", false);

    let (_manifest, chunks) = build(&component, "LoginPage", &handlers, &consts, &no_imports()).unwrap();

    assert!(chunks[0].content.contains("click, sin tocar CONFIG"));
}

#[test]
fn bug_27_a_real_usage_inside_a_template_literal_interpolation_still_counts() {
    let component = component("LoginPage", button_with_click(0, "handleLogin", None, vec![]));
    let handlers = handlers_of(&[("handleLogin", "async function handleLogin() {\n    await fetch(`${API_BASE}/auth/login`);\n}")]);
    let consts = consts_of("API_BASE", "const API_BASE = \"https://api.oweeme.com\";", true);

    let (_manifest, chunks) = build(&component, "LoginPage", &handlers, &consts, &no_imports()).unwrap();

    assert!(chunks[0].content.contains("const API_BASE ="));
}

#[test]
fn bug_27_fails_explicitly_when_a_handler_uses_a_const_that_is_not_a_simple_literal() {
    let component = component("LoginPage", button_with_click(0, "handleLogin", None, vec![]));
    let handlers = handlers_of(&[("handleLogin", "function handleLogin() {\n    console.log(CONFIG);\n}")]);
    let consts = consts_of("CONFIG", "const CONFIG = buildConfig();", false);

    let error = build(&component, "LoginPage", &handlers, &consts, &no_imports()).err().unwrap();

    assert!(error.contains("handleLogin"));
    assert!(error.contains("CONFIG"));
}

#[test]
fn falls_back_to_a_placeholder_when_the_handler_source_is_unknown() {
    let component = component("ProductPage", button_with_click(0, "buy", None, vec![]));

    let (_manifest, chunks) = build(&component, "ProductPage", &StrMap::new(), &StrMap::new(), &no_imports()).unwrap();

    assert!(chunks[0].content.contains("no se pudo resolver"));
}

#[test]
fn imports_a_known_identifier_only_when_the_handler_actually_uses_it() {
    let component = component("ProductPage", button_with_click(0, "share", None, vec![]));
    let handlers = handlers_of(&[("share", "function share() {\n    platform.share({ title: \"hola\" });\n}")]);

    let (_manifest, chunks) = build(&component, "ProductPage", &handlers, &StrMap::new(), &imports(&["platform"])).unwrap();

    assert!(chunks[0].content.contains("import { platform } from \"platform\";"));
}

#[test]
fn does_not_import_an_identifier_the_handler_does_not_use() {
    let component = component("ProductPage", button_with_click(0, "buy", None, vec![]));
    let handlers = handlers_of(&[("buy", "function buy() {\n    cart.add(id);\n}")]);

    let (_manifest, chunks) = build(&component, "ProductPage", &handlers, &StrMap::new(), &imports(&["platform"])).unwrap();

    assert!(!chunks[0].content.contains("import {"));
}

#[test]
fn generalizes_to_any_declared_identifier_not_just_platform() {
    let component = component("Checkout", button_with_click(0, "pay", None, vec![]));
    let handlers = handlers_of(&[("pay", "function pay() {\n    stripe.redirectToCheckout();\n}")]);

    let (_manifest, chunks) = build(&component, "Checkout", &handlers, &StrMap::new(), &imports(&["platform", "stripe"])).unwrap();

    assert!(chunks[0].content.contains("import { stripe } from \"stripe\";"));
    assert!(!chunks[0].content.contains("platform"));
}

#[test]
fn same_content_produces_the_same_hash() {
    assert_eq!(short_hash("hola"), short_hash("hola"));
}

#[test]
fn different_content_produces_a_different_hash() {
    assert_ne!(short_hash("hola"), short_hash("chau"));
}

#[test]
fn hash_is_eight_lowercase_hex_chars() {
    let hash = short_hash("cualquier cosa");
    assert_eq!(hash.len(), 8);
    assert!(hash.chars().all(|c| c.is_ascii_hexdigit() && !c.is_ascii_uppercase()));
}

#[test]
fn every_entry_module_is_its_chunk_and_strategies_agree() {
    let component = component(
        "Shop",
        static_element(
            0,
            "div",
            vec![button_with_click(1, "a", Some("idle"), vec![]), button_with_click(2, "b", Some("load"), vec![])],
        ),
    );
    let (manifest, chunks) = build(&component, "Shop", &StrMap::new(), &StrMap::new(), &no_imports()).unwrap();
    assert_eq!(chunks.len(), 2);
    let one = manifest.get(1).unwrap();
    let two = manifest.get(2).unwrap();
    assert_eq!(one.module, format!("/assets/{}", chunks[0].filename));
    assert_eq!(two.module, format!("/assets/{}", chunks[1].filename));
    assert_eq!(one.strategy, chunks[0].strategy);
    assert_eq!(two.strategy, Strategy::Load);
}

#[test]
fn a_classified_page_gets_one_entry_and_one_chunk_per_interactive_element() {
    let button = |h: &str| {
        Node::Element(Element {
            tag: "button".into(),
            attrs: vec![],
            events: vec![Event { name: "click".into(), handler: Expr::Identifier(h.into()), strategy: None }],
            island: None,
            children: vec![Node::Text("x".into())],
        })
    };
    let root = Node::Element(Element {
        tag: "main".into(),
        attrs: vec![],
        events: vec![],
        island: None,
        children: vec![
            button("a"),
            Node::For(ForLoop {
                each: Expr::Identifier("items".into()),
                item_name: "item".into(),
                body: Box::new(button("b")),
            }),
            button("c"),
        ],
    });
    let component = Component { name: "Page".into(), root, loader: None, paths: None, handlers: StrMap::new(), seo: None, schema: None };
    let ir = nexa::ir::analyze(component);
    assert_eq!(ir.root.classification_counts().interactive_count, 3);
    let (manifest, chunks) = build(&ir, "Page", &StrMap::new(), &StrMap::new(), &no_imports()).unwrap();
    assert_eq!(manifest.len(), 3);
    assert_eq!(chunks.len(), 3);
    let ids: Vec<&str> = manifest.entries().iter().map(|(id, _)| *id).collect();
    assert_eq!(ids, vec!["1", "4", "6"]);
}

fn entry(handler: &str) -> ActivationEntry {
    ActivationEntry { event: "click".into(), handler: handler.into(), module: "/m.js".into(), strategy: Strategy::Interaction }
}

#[test]
fn inserting_twice_under_one_node_replaces_and_lists_keys_in_text_order() {
    let mut m = ActivationManifest::new();
    assert!(m.is_empty());
    m.insert(10, entry("a"));
    m.insert(2, entry("b"));
    m.insert(10, entry("c"));
    assert_eq!(m.len(), 2);
    assert!(!m.is_empty());
    assert_eq!(m.get(10).map(|e| e.handler.as_str()), Some("c"));
    assert_eq!(m.get(2).map(|e| e.handler.as_str()), Some("b"));
    assert!(m.get(3).is_none());
    let listed: Vec<(&str, &str)> = m.entries().iter().map(|(k, e)| (*k, e.handler.as_str())).collect();
    assert_eq!(listed, vec![("10", "c"), ("2", "b")]);
}

#[test]
fn a_chunk_and_a_bundle_of_equal_content_carry_the_same_hash() {
    let component = component("Page", button_with_click(4, "buy", None, vec![]));
    let (_m, chunks) = build(&component, "Page", &StrMap::new(), &StrMap::new(), &no_imports()).unwrap();
    let chunk = &chunks[0];
    let assets = nexa::assets::FrameworkAssets {
        runtime: chunk.content.clone(),
        router: String::new(),
        forms: String::new(),
        platform: String::new(),
        telemetry: String::new(),
        islands: String::new(),
        ui: String::new(),
        dev_client: String::new(),
        devtools: String::new(),
    };
    let bundle = nexa::assets::nexa_runtime_filename(&assets);
    let h = short_hash(&chunk.content);
    assert_eq!(bundle, format!("nexa-runtime.{h}.js"));
    assert_eq!(chunk.filename, format!("Page-4.{h}.js"));
}
