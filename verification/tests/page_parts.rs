use nexa::ast::{Attr, AttrValue, Expr, Template};
use nexa::capacitor_scaffold::{render as render_capacitor, sanitize_app_id};
use nexa::document::assemble;
use nexa::image_scan::collect_image_srcs;
use nexa::ir::{Classification, IrNode, IrNodeKind};

fn element(tag: &str, attrs: Vec<Attr>, children: Vec<IrNode>) -> IrNode {
    IrNode {
        id: 0,
        classification: Classification::Static,
        kind: IrNodeKind::Element { tag: tag.into(), attrs, events: vec![], island: None, children },
    }
}

fn static_src(value: &str) -> Attr {
    Attr { name: "src".into(), value: Some(AttrValue::Static(value.into())) }
}

#[test]
fn collects_static_image_srcs_at_any_depth() {
    let root = element("main", vec![], vec![element("div", vec![], vec![element("img", vec![static_src("/logo.png")], vec![])])]);
    assert_eq!(collect_image_srcs(&root), vec!["/logo.png".to_string()]);
}

#[test]
fn ignores_dynamic_image_srcs() {
    let root = element(
        "img",
        vec![Attr { name: "src".into(), value: Some(AttrValue::Dynamic(Template::from_expr(Expr::Identifier("x".into())))) }],
        vec![],
    );
    assert!(collect_image_srcs(&root).is_empty());
}

#[test]
fn a_page_with_no_images_yields_nothing() {
    let root = element("main", vec![], vec![element("p", vec![], vec![])]);
    assert!(collect_image_srcs(&root).is_empty());
}

#[test]
fn collects_several_images_in_document_order() {
    let root = element(
        "main",
        vec![],
        vec![element("img", vec![static_src("/a.png")], vec![]), element("section", vec![], vec![element("img", vec![static_src("/b.jpg")], vec![])])],
    );
    assert_eq!(collect_image_srcs(&root), vec!["/a.png".to_string(), "/b.jpg".to_string()]);
}

#[test]
fn scaffold_writes_a_valid_minimal_config() {
    let contents = render_capacitor("hello");
    assert!(contents.contains("\"appName\": \"hello\""));
    assert!(contents.contains("\"webDir\": \"dist\""));
    assert!(contents.contains("\"appId\": \"com.nexa.hello\""));
}

#[test]
fn sanitizes_the_app_id_from_a_name_with_spaces() {
    let contents = render_capacitor("My Cool App");
    assert!(contents.contains("\"appId\": \"com.nexa.my_cool_app\""));
}

#[test]
fn never_puts_a_dash_in_the_app_id_even_though_project_names_commonly_have_one() {
    let contents = render_capacitor("nexa-cap-verify");
    assert!(contents.contains("\"appId\": \"com.nexa.nexa_cap_verify\""));
    assert!(!contents.contains("appId\": \"com.nexa.nexa-cap-verify\""));
}

#[test]
fn an_app_id_that_does_not_start_with_a_letter_is_prefixed() {
    assert_eq!(sanitize_app_id("3d-viewer"), "app_3d_viewer");
    assert_eq!(sanitize_app_id(""), "app_");
    assert_eq!(render_capacitor("x"), "{\n  \"appId\": \"com.nexa.x\",\n  \"appName\": \"x\",\n  \"webDir\": \"dist\"\n}\n");
}

#[test]
fn falls_back_to_a_default_title_when_seo_has_none() {
    let html = assemble("<p>hola</p>", "", None, None, None);
    assert!(html.contains("<title>Nexa</title>"));
}

#[test]
fn uses_the_seo_title_instead_of_the_default() {
    let html = assemble("<p>hola</p>", "<title>iPhone 17</title>", None, None, None);
    assert!(html.contains("<title>iPhone 17</title>"));
    assert!(!html.contains("<title>Nexa</title>"));
}

#[test]
fn includes_the_schema_script_when_given() {
    let html = assemble("<p>hola</p>", "", Some("<script type=\"application/ld+json\">{}</script>"), None, None);
    assert!(html.contains("application/ld+json"));
}

#[test]
fn omits_the_ui_stylesheet_link_when_not_given() {
    let html = assemble("<p>hola</p>", "", None, None, None);
    assert!(!html.contains("stylesheet"));
}

#[test]
fn includes_the_ui_stylesheet_link_when_given() {
    let html = assemble("<p>hola</p>", "", None, Some("/assets/nexa-ui.css"), None);
    assert!(html.contains("<link rel=\"stylesheet\" href=\"/assets/nexa-ui.css\">"));
}

#[test]
fn omits_the_import_map_when_not_given() {
    let html = assemble("<p>hola</p>", "", None, None, None);
    assert!(!html.contains("importmap"));
}

#[test]
fn the_import_map_comes_before_anything_else_in_head() {
    let html = assemble(
        "<p>hola</p>",
        "<title>x</title>",
        None,
        None,
        Some("<script type=\"importmap\">{\"imports\":{\"stripe\":\"x\"}}</script>"),
    );
    let head_start = html.find("<head>").unwrap();
    let importmap_pos = html.find("importmap").unwrap();
    let title_pos = html.find("<title>").unwrap();
    assert!(head_start < importmap_pos);
    assert!(importmap_pos < title_pos);
}

#[test]
fn assembles_the_exact_document() {
    let html = assemble("<p>b</p>", "", None, None, None);
    assert_eq!(
        html,
        "<!doctype html>\n<html lang=\"es\">\n<head>\n<meta charset=\"UTF-8\">\n<meta name=\"viewport\" content=\"width=device-width, initial-scale=1\">\n<title>Nexa</title>\n</head>\n<body>\n<p>b</p>\n</body>\n</html>\n"
    );
}

#[test]
fn a_localized_page_names_its_language() {
    let html = nexa::document::assemble_in("en", "<p>hi</p>", "", None, None, None);
    assert!(html.starts_with("<!doctype html>\n<html lang=\"en\">\n<head>\n"));
    assert_eq!(
        nexa::document::assemble_in("es", "<p>hola</p>", "", None, None, None),
        nexa::document::assemble("<p>hola</p>", "", None, None, None)
    );
}

#[test]
fn an_app_id_from_a_non_ascii_name_is_still_lowercase_ascii() {
    assert_eq!(sanitize_app_id("Ünïcode App"), "app__n_code_app");
    assert_eq!(sanitize_app_id("\u{212A}elvin"), "kelvin");
    assert_eq!(nexa::tauri_scaffold::sanitize_package_name("\u{212A}elvin App"), "kelvin-app");
}
