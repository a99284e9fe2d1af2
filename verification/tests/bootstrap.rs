use nexa::activation::{ActivationEntry, ActivationManifest, Strategy};
use nexa::assets::{
    nexa_forms_filename, nexa_islands_filename, nexa_router_filename, nexa_runtime_filename, nexa_telemetry_filename,
    FrameworkAssets,
};
use nexa::bootstrap::{inject, insert_before_closing_tag};

fn assets() -> FrameworkAssets {
    FrameworkAssets {
        runtime: "export function initActivation() {}".into(),
        router: "export function initRouter() {}".into(),
        forms: "export function initForms() {}".into(),
        platform: "export const platform = {};".into(),
        telemetry: "export function initTelemetry() {}".into(),
        islands: "export function initIslands() {}".into(),
        ui: "export const ui = {};".into(),
        dev_client: "// dev client".into(),
        devtools: "export function initDevtools() {}".into(),
    }
}

fn entry(handler: &str, module: &str) -> ActivationEntry {
    ActivationEntry { event: "click".into(), handler: handler.into(), module: module.into(), strategy: Strategy::Interaction }
}

#[test]
fn always_loads_the_router_even_without_interactive_nodes() {
    let a = assets();
    let html = "<html><body><p>hola</p></body></html>";
    let out = inject(html, &ActivationManifest::new(), false, false, false, None, &a);

    assert!(out.contains(&format!("/assets/{}", nexa_router_filename(&a))));
    assert!(!out.contains("import { initActivation }"));
    assert!(!out.contains("import { initForms }"));
    assert!(out.contains("initRouter({ onNavigate: reactivate });"));
}

#[test]
fn every_page_defines_reactivate_even_with_no_interactive_content_of_its_own() {
    let html = "<html><body><p>hola</p></body></html>";
    let out = inject(html, &ActivationManifest::new(), false, false, false, None, &assets());

    assert!(out.contains("async function reactivate(root)"));
    assert!(out.contains("initRouter({ onNavigate: reactivate });"));
}

#[test]
fn embeds_the_manifest_as_inert_json_that_survives_an_innerhtml_swap() {
    let mut manifest = ActivationManifest::new();
    manifest.insert(3, entry("buy", "/assets/ProductPage-3.js"));

    let html = "<html><body><button data-nexa=\"3\">Comprar</button></body></html>";
    let out = inject(html, &manifest, false, false, false, None, &assets());

    assert!(out.contains("<script type=\"application/json\" data-nexa-manifest>"));
    assert!(out.contains("\"handler\": \"buy\""));
    let inert_pos = out.find("data-nexa-manifest").unwrap();
    let module_pos = out.find("<script type=\"module\">").unwrap();
    assert!(inert_pos < module_pos);
}

#[test]
fn escapes_a_closing_script_tag_inside_the_embedded_manifest() {
    let mut manifest = ActivationManifest::new();
    manifest.insert(1, entry("</script><script>alert(1)", "/assets/x-1.js"));

    let html = "<html><body><button data-nexa=\"1\"></button></body></html>";
    let out = inject(html, &manifest, false, false, false, None, &assets());

    assert!(!out.contains("</script><script>alert(1)"));
}

#[test]
fn loads_the_activation_runtime_when_the_manifest_has_entries() {
    let a = assets();
    let mut manifest = ActivationManifest::new();
    manifest.insert(3, entry("buy", "/assets/ProductPage-3.js"));

    let html = "<html><body><button data-nexa=\"3\">Comprar</button></body></html>";
    let out = inject(html, &manifest, false, false, false, None, &a);

    assert!(out.contains(&format!("/assets/{}", nexa_runtime_filename(&a))));
    assert!(out.contains("initActivation("));
    assert!(out.contains("\"handler\": \"buy\""));
}

#[test]
fn loads_forms_only_when_the_page_has_one() {
    let a = assets();
    let html = "<html><body><form data-nexa-form></form></body></html>";
    let out = inject(html, &ActivationManifest::new(), true, false, false, None, &a);

    assert!(out.contains(&format!("/assets/{}", nexa_forms_filename(&a))));
    assert!(out.contains("initForms();"));
}

#[test]
fn loads_telemetry_only_when_an_endpoint_is_given() {
    let a = assets();
    let html = "<html><body></body></html>";

    let without = inject(html, &ActivationManifest::new(), false, false, false, None, &a);
    assert!(!without.contains("nexa-telemetry."));

    let with = inject(html, &ActivationManifest::new(), false, false, false, Some("/api/telemetry"), &a);
    assert!(with.contains(&format!("/assets/{}", nexa_telemetry_filename(&a))));
    assert!(with.contains("initTelemetry({ endpoint: \"/api/telemetry\" });"));
}

#[test]
fn escapes_a_telemetry_endpoint_with_special_characters() {
    let html = "<html><body></body></html>";
    let out = inject(html, &ActivationManifest::new(), false, false, false, Some("/x\"; alert(1); //"), &assets());
    assert!(out.contains("initTelemetry({ endpoint: \"/x\\\"; alert(1); //\" });"));
}

#[test]
fn loads_islands_only_when_the_page_has_one() {
    let a = assets();
    let html = "<html><body><div data-nexa-island=\"x\"></div></body></html>";
    let out = inject(html, &ActivationManifest::new(), false, true, false, None, &a);

    assert!(out.contains(&format!("/assets/{}", nexa_islands_filename(&a))));
    assert!(out.contains("initIslands();"));
}

#[test]
fn does_not_load_islands_when_the_page_has_none() {
    let html = "<html><body><p>hola</p></body></html>";
    let out = inject(html, &ActivationManifest::new(), false, false, false, None, &assets());

    assert!(!out.contains("import { initIslands }"));
    assert!(!out.contains("disposeIslands = initIslands();"));
}

#[test]
fn registers_the_service_worker_only_when_the_page_declares_pwa() {
    let html = "<html><body></body></html>";
    let out = inject(html, &ActivationManifest::new(), false, false, true, None, &assets());
    assert!(out.contains("navigator.serviceWorker.register(\"/sw.js\")"));
}

#[test]
fn does_not_register_a_service_worker_without_pwa() {
    let html = "<html><body></body></html>";
    let out = inject(html, &ActivationManifest::new(), false, false, false, None, &assets());
    assert!(!out.contains("serviceWorker"));
}

#[test]
fn inserts_before_the_closing_body_tag() {
    let html = "<html><body><p>hola</p></body></html>";
    let out = inject(html, &ActivationManifest::new(), false, false, false, None, &assets());

    let script_pos = out.find("<script").unwrap();
    let body_close_pos = out.find("</body>").unwrap();
    assert!(script_pos < body_close_pos);
}

#[test]
fn insert_before_closing_tag_targets_the_requested_tag() {
    let html = "<html><head><title>t</title></head><body></body></html>";
    let out = insert_before_closing_tag(html, "head", "<meta>");

    assert!(out.contains("<meta></head>"));
    assert!(!out.contains("<meta></body>"));
}

#[test]
fn insert_before_closing_tag_appends_when_the_tag_is_missing() {
    let out = insert_before_closing_tag("<p>hola</p>", "head", "<meta>");
    assert_eq!(out, "<p>hola</p><meta>");
}

#[test]
fn insert_before_closing_tag_uses_the_last_closing_tag() {
    let out = insert_before_closing_tag("<body>a</body><body>b</body>", "body", "X");
    assert_eq!(out, "<body>a</body><body>bX</body>");
}

#[test]
fn a_bundle_file_name_follows_its_content() {
    let a = assets();
    let mut b = assets();
    b.router = "export function initRouter() { /* v2 */ }".into();
    assert!(nexa_router_filename(&a).starts_with("nexa-router."));
    assert!(nexa_router_filename(&a).ends_with(".js"));
    assert_ne!(nexa_router_filename(&a), nexa_router_filename(&b));
    assert_eq!(nexa_router_filename(&a), nexa_router_filename(&assets()));
}

#[test]
fn each_mark_appears_exactly_when_the_page_uses_it() {
    let html = "<html><body><p>x</p></body></html>";
    let marks = ["data-nexa-manifest>", "import { initForms }", "import { initIslands }", "serviceWorker", "import { initTelemetry }"];
    let cases: [(bool, bool, bool, bool, bool); 3] =
        [(false, false, false, false, false), (true, true, false, true, false), (false, false, true, false, true)];
    for (hm, f, i, pw, t) in cases {
        let mut m = ActivationManifest::new();
        if hm {
            m.insert(1, entry("buy", "/assets/P-1.js"));
        }
        let out = inject(html, &m, f, i, pw, if t { Some("/t") } else { None }, &assets());
        let fragment = &out[html.find("</body>").unwrap()..out.rfind("</body>").unwrap()];
        assert!(fragment.ends_with("</script>\n"));
        for (mark, used) in marks.iter().zip([hm, f, i, pw, t]) {
            assert_eq!(fragment.contains(mark), used, "{mark}");
        }
    }
}
