use nexa::assets::{
    nexa_forms_filename, nexa_islands_filename, nexa_platform_filename, nexa_router_filename, nexa_runtime_filename,
    nexa_telemetry_filename, nexa_ui_js_filename, FrameworkAssets, NEXA_DEVTOOLS_FILENAME, NEXA_DEV_CLIENT_FILENAME,
};
use nexa::dev::{compile_error_page, dev_route, html_escape, not_found_page, serve_framework_asset, with_dev_client, DevRoute};
use nexa::tauri_scaffold::{sanitize_package_name, substitute, tauri_files, template_bytes, TauriTemplates};

fn assets() -> FrameworkAssets {
    FrameworkAssets {
        runtime: "export function initActivation() {}".into(),
        router: "export function initRouter() {}".into(),
        forms: "export function initForms() {}".into(),
        platform: "export const platform = {};".into(),
        telemetry: "export function initTelemetry() {}".into(),
        islands: "export function initIslands() {}".into(),
        ui: "export const ui = {};".into(),
        dev_client: "// dev client".into(),
        devtools: "export function initDevtools() {}".into(),
    }
}

fn templates() -> TauriTemplates {
    TauriTemplates {
        cargo_toml: "[package]\nname = \"{{NAME}}\"\n\n[lib]\nname = \"{{NAME_UNDERSCORE}}_lib\"\n".into(),
        tauri_conf: "{\n  \"productName\": \"{{NAME}}\",\n  \"identifier\": \"{{IDENTIFIER}}\"\n}\n".into(),
        gitignore: "/target\n".into(),
        main_rs: "fn main() {\n    {{NAME_UNDERSCORE}}_lib::run();\n}\n".into(),
        lib_rs: "pub fn run() {}\n".into(),
        build_rs: "fn main() { tauri_build::build() }\n".into(),
        capabilities_default_json: "{}\n".into(),
        icon_png: vec![0x89, b'P', b'N', b'G'],
    }
}

#[test]
fn with_dev_client_inserts_the_script_in_head_not_body() {
    let html = "<html><head><title>t</title></head><body><p>hola</p></body></html>";
    let out = with_dev_client(html);

    assert!(out.contains(&format!("/assets/{NEXA_DEV_CLIENT_FILENAME}")));
    let script_pos = out.find("nexa-dev-client").unwrap();
    let head_close_pos = out.find("</head>").unwrap();
    let body_open_pos = out.find("<body>").unwrap();
    assert!(script_pos < head_close_pos);
    assert!(head_close_pos <= body_open_pos);
}

#[test]
fn with_dev_client_also_loads_devtools_and_calls_init() {
    let html = "<html><head></head><body></body></html>";
    let out = with_dev_client(html);

    assert!(out.contains(&format!("/assets/{NEXA_DEVTOOLS_FILENAME}")));
    assert!(out.contains("initDevtools();"));
}

#[test]
fn serve_framework_asset_recognizes_the_devtools_bundle() {
    let a = assets();
    assert!(serve_framework_asset(&a, &format!("/assets/{NEXA_DEVTOOLS_FILENAME}")).is_some());
}

#[test]
fn compile_error_page_escapes_the_message_and_is_marked_as_an_error() {
    let page = compile_error_page("<script>alert(1)</script> en home.tsx:3");
    assert!(!page.contains("<script>alert"));
    assert!(page.contains("&lt;script&gt;"));
    assert!(page.contains("data-nexa-dev-error"));
}

#[test]
fn serve_framework_asset_recognizes_the_dev_client_bundle() {
    let a = assets();
    let js = serve_framework_asset(&a, &format!("/assets/{NEXA_DEV_CLIENT_FILENAME}"));
    assert!(js.is_some());
}

#[test]
fn serve_framework_asset_serves_hashed_bundles_and_nothing_else() {
    let a = assets();
    let runtime = format!("/assets/{}", nexa_runtime_filename(&a));
    assert_eq!(serve_framework_asset(&a, &runtime), Some(a.runtime.as_str()));
    assert_eq!(serve_framework_asset(&a, "/assets/nexa-runtime.00000000.js"), None);
    assert_eq!(serve_framework_asset(&a, "/assets/other.js"), None);
}

#[test]
fn dev_route_recognizes_the_version_and_diagnostics_endpoints() {
    let a = assets();
    assert!(matches!(dev_route(&a, "/__nexa_dev__/version"), DevRoute::Version));
    assert!(matches!(dev_route(&a, "/__nexa_dev__/diagnostics"), DevRoute::Diagnostics));
}

#[test]
fn html_escape_escapes_markup_and_ampersands() {
    assert_eq!(html_escape("a < b && c > d"), "a &lt; b &amp;&amp; c &gt; d");
    assert_eq!(html_escape("\"q\""), "\"q\"");
}

#[test]
fn not_found_page_names_the_path() {
    let page = not_found_page("/nope");
    assert!(page.contains("<code>/nope</code>"));
    assert!(page.starts_with("<!doctype html>"));
}

#[test]
fn sanitizes_names_with_spaces_and_uppercase() {
    assert_eq!(sanitize_package_name("My Cool App"), "my-cool-app");
}

#[test]
fn prefixes_names_that_do_not_start_with_a_letter() {
    assert_eq!(sanitize_package_name("123app"), "app-123app");
}

#[test]
fn scaffold_writes_every_expected_file() {
    let files = tauri_files(&templates(), "hello");
    let names: Vec<&str> = files.iter().map(|(p, _)| p.as_str()).collect();
    assert_eq!(
        names,
        vec!["Cargo.toml", "tauri.conf.json", ".gitignore", "build.rs", "src/main.rs", "src/lib.rs", "capabilities/default.json"]
    );
}

#[test]
fn substitutes_the_project_name_into_cargo_toml_and_the_identifier() {
    let files = tauri_files(&templates(), "My App");
    let get = |name: &str| files.iter().find(|(p, _)| p == name).unwrap().1.clone();

    let cargo_toml = get("Cargo.toml");
    assert!(cargo_toml.contains("name = \"my-app\""));
    assert!(cargo_toml.contains("my_app_lib"));

    let conf = get("tauri.conf.json");
    assert!(conf.contains("\"identifier\": \"com.nexa.my-app\""));
    assert!(conf.contains("\"productName\": \"my-app\""));

    let main_rs = get("src/main.rs");
    assert!(main_rs.contains("my_app_lib::run();"));
}

#[test]
fn no_placeholder_survives_substitution() {
    let files = tauri_files(&templates(), "hello");
    for (path, contents) in &files {
        assert!(!contents.contains("{{"), "quedó un placeholder sin sustituir en {path}");
    }
}

#[test]
fn substitute_replaces_every_placeholder_in_order() {
    assert_eq!(substitute("{{NAME_UNDERSCORE}}/{{NAME}}/{{IDENTIFIER}}", "a-b", "com.nexa.a-b"), "a_b/a-b/com.nexa.a-b");
}

#[test]
fn template_bytes_concatenates_the_texts_then_the_icon() {
    let t = templates();
    let bytes = template_bytes(&t);
    let mut expected = Vec::new();
    for s in [&t.cargo_toml, &t.tauri_conf, &t.gitignore, &t.main_rs, &t.lib_rs, &t.build_rs, &t.capabilities_default_json] {
        expected.extend_from_slice(s.as_bytes());
    }
    expected.extend_from_slice(&t.icon_png);
    assert_eq!(bytes, expected);
}

#[test]
fn every_bundle_a_build_writes_is_served_under_its_name() {
    let a = assets();
    let cases = [
        (nexa_runtime_filename(&a), a.runtime.as_str()),
        (nexa_router_filename(&a), a.router.as_str()),
        (nexa_forms_filename(&a), a.forms.as_str()),
        (nexa_platform_filename(&a), a.platform.as_str()),
        (nexa_telemetry_filename(&a), a.telemetry.as_str()),
        (nexa_islands_filename(&a), a.islands.as_str()),
        (nexa_ui_js_filename(&a), a.ui.as_str()),
    ];
    for (name, content) in cases {
        assert_eq!(nexa::preview::preview_asset(&a, &format!("/assets/{name}")), Some(content));
        assert_eq!(serve_framework_asset(&a, &format!("/assets/{name}")), Some(content));
    }
}

fn text_reply(r: nexa::page_resolver::Reply) -> (u16, &'static str, String) {
    match r {
        nexa::page_resolver::Reply::Text { status, content_type, body } => (status, content_type, body),
        nexa::page_resolver::Reply::Bytes { .. } => panic!("expected a text reply"),
    }
}

#[test]
fn dev_serves_a_compiled_page_with_the_dev_client() {
    let html = "<html><head></head><body></body></html>";
    let (status, ct, body) = text_reply(nexa::dev::dev_page_reply("/", Ok(html.to_string()), None));
    assert_eq!(status, 200);
    assert_eq!(ct, "text/html; charset=utf-8");
    assert_eq!(body, with_dev_client(html));
}

#[test]
fn dev_falls_back_to_a_public_file_then_to_its_404_page() {
    match nexa::dev::dev_page_reply("/logo.PNG", Err(nexa::page_resolver::ResolveError::NotFound), Some(vec![1, 2])) {
        nexa::page_resolver::Reply::Bytes { status, content_type, body } => {
            assert_eq!(status, 200);
            assert_eq!(content_type, "image/png");
            assert_eq!(body, vec![1, 2]);
        }
        nexa::page_resolver::Reply::Text { .. } => panic!("expected the file"),
    }
    let (status, ct, body) = text_reply(nexa::dev::dev_page_reply("/nada", Err(nexa::page_resolver::ResolveError::NotFound), None));
    assert_eq!(status, 404);
    assert_eq!(ct, "text/html; charset=utf-8");
    assert_eq!(body, with_dev_client(&not_found_page("/nada")));
}

#[test]
fn dev_shows_a_compile_error_with_the_dev_client() {
    let (status, _, body) =
        text_reply(nexa::dev::dev_page_reply("/", Err(nexa::page_resolver::ResolveError::Failed("a < b".into())), None));
    assert_eq!(status, 500);
    assert_eq!(body, with_dev_client(&compile_error_page("a < b")));
    assert!(body.contains("a &lt; b"));
}

#[test]
fn preview_answers_pages_files_404_and_500() {
    let (status, _, body) = text_reply(nexa::preview::preview_page_reply("/", Ok("<p>x</p>".into()), None));
    assert_eq!((status, body.as_str()), (200, "<p>x</p>"));
    let (status, _, body) =
        text_reply(nexa::preview::preview_page_reply("/x", Err(nexa::page_resolver::ResolveError::NotFound), None));
    assert_eq!(status, 404);
    assert_eq!(body, nexa::preview::not_found_page("/x"));
    let (status, _, body) = text_reply(nexa::preview::preview_page_reply(
        "/x",
        Err(nexa::page_resolver::ResolveError::Failed("boom".into())),
        None,
    ));
    assert_eq!(status, 500);
    assert_eq!(body, nexa::preview::server_error_page("boom"));
    match nexa::preview::preview_page_reply("/a.css", Err(nexa::page_resolver::ResolveError::NotFound), Some(vec![7])) {
        nexa::page_resolver::Reply::Bytes { status, content_type, body } => {
            assert_eq!((status, content_type, body), (200, "text/css; charset=utf-8", vec![7]));
        }
        nexa::page_resolver::Reply::Text { .. } => panic!("expected the file"),
    }
}

#[test]
fn diagnostics_of_a_page_that_did_not_compile_is_an_empty_object() {
    let (status, ct, body) = text_reply(nexa::devtools::diagnostics_reply("/x", None));
    assert_eq!(status, 404);
    assert_eq!(ct, "application/json; charset=utf-8");
    assert_eq!(body, "{}");
}
