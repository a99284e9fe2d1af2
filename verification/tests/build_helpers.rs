use nexa::activation::{ActivationEntry, Strategy};
use nexa::add::{declare_module, locked_package, plan_add, AddPlan};
use nexa::dev_watch::version_marker;
use nexa::ir::ClassificationCounts;
use nexa::lint::{lint_error, report, report_lines};
use nexa::manifest::Manifest;
use nexa::modules::{find, ModuleSources};
use nexa::page_resolver::{prebuilt_asset_name, prebuilt_page_dir, resolve_error, static_file, ResolveError};
use nexa::pipeline::{load_error, LoadFailure, PageError, SeoWarning};
use nexa::pkg_warnings::PackageWarning;
use nexa::site_build::{
    activation_summary, classification_summary, dynamic_names, enumerate_params, largest_image, output_dir,
    output_dir_for_params, page_usages, resolved_pattern, site_url, sitemap_url, static_page_error, PathsEntry,
    PathsResponse, PendingPageUsage, Segment,
};
use nexa::strmap::StrMap;

fn seg_static(s: &str) -> Segment {
    Segment::Static(s.to_string())
}

fn seg_dyn(s: &str) -> Segment {
    Segment::Dynamic(s.to_string())
}

fn params(pairs: &[(&str, &str)]) -> StrMap<String> {
    let mut m = StrMap::new();
    for (k, v) in pairs {
        m.insert(k.to_string(), v.to_string());
    }
    m
}

fn object(text: &str, fields: &[(&str, Option<&str>)]) -> PathsEntry {
    let mut m = StrMap::new();
    for (k, v) in fields {
        m.insert(k.to_string(), v.map(str::to_string));
    }
    PathsEntry { text: text.to_string(), fields: Some(m) }
}

fn sources() -> ModuleSources {
    ModuleSources {
        ui: ".nx-btn{}".into(),
        forms_js: "f".into(),
        platform_js: "p".into(),
        telemetry_js: "t".into(),
        tauri_template: vec![1, 2, 3],
        capacitor_template: vec![4, 5],
    }
}

#[test]
fn report_counts_and_combines_both_warning_kinds() {
    let seo = vec![SeoWarning { code: "NEXA-SEO-001".into(), message: "falta title".to_string() }];
    let pkg = vec![
        PackageWarning { code: "NEXA-PKG-001", message: "usa ui sin declararlo".to_string() },
        PackageWarning { code: "NEXA-PKG-002", message: "usa forms sin declararlo".to_string() },
    ];

    assert_eq!(report("/", &seo, &pkg), 3);
    assert_eq!(
        report_lines("/", &seo, &pkg),
        vec![
            "/:".to_string(),
            "  [NEXA-SEO-001] falta title".to_string(),
            "  [NEXA-PKG-001] usa ui sin declararlo".to_string(),
            "  [NEXA-PKG-002] usa forms sin declararlo".to_string(),
        ]
    );
}

#[test]
fn report_returns_zero_and_prints_nothing_extra_when_there_are_no_warnings() {
    assert_eq!(report("/", &[], &[]), 0);
    assert!(report_lines("/", &[], &[]).is_empty());
}

#[test]
fn lint_error_names_a_404_load() {
    assert_eq!(lint_error("/p/:id", PageError::NotFound), "/p/:id: su `load()` respondió 404");
    assert_eq!(lint_error("/x", PageError::Other("falló el parser".into())), "falló el parser");
}

#[test]
fn is_stable_when_nothing_changed() {
    let times = [10u128, 30, 20];
    assert_eq!(version_marker(&times), version_marker(&times));
    assert_eq!(version_marker(&times), "30");
}

#[test]
fn changes_when_a_watched_file_is_modified() {
    let before = version_marker(&[1_000u128, 2_000]);
    let after = version_marker(&[1_000u128, 2_500]);
    assert_ne!(before, after);
}

#[test]
fn a_missing_directory_does_not_panic() {
    assert_eq!(version_marker(&[]), "0");
}

#[test]
fn recurses_into_subdirectories() {
    assert_eq!(version_marker(&[5u128, 1_700_000_000_123_456_789, 7]), "1700000000123456789");
}

#[test]
fn resolved_pattern_fills_in_the_parameters() {
    let segs = vec![seg_static("products"), seg_dyn("slug")];
    assert_eq!(resolved_pattern(&segs, &params(&[("slug", "iphone-17")])), "/products/iphone-17");
    assert_eq!(resolved_pattern(&[], &StrMap::new()), "/");
    assert_eq!(resolved_pattern(&segs, &StrMap::new()), "/products/");
}

#[test]
fn output_dirs_live_under_dist() {
    assert_eq!(output_dir("/"), "dist");
    assert_eq!(output_dir("/about"), "dist/about");
    let segs = vec![seg_dyn("locale"), seg_static("products"), seg_dyn("slug")];
    assert_eq!(output_dir_for_params(&segs, &params(&[("locale", "es"), ("slug", "x")])), "dist/es/products/x");
    assert_eq!(output_dir_for_params(&[], &StrMap::new()), "dist");
}

#[test]
fn enumerate_params_reads_one_set_per_entry() {
    let segs = vec![seg_dyn("locale"), seg_static("products"), seg_dyn("slug")];
    assert_eq!(dynamic_names(&segs), vec!["locale".to_string(), "slug".to_string()]);
    let response = PathsResponse {
        text: "[...]".into(),
        entries: Some(vec![
            object("{\"locale\":\"es\",\"slug\":\"a\"}", &[("locale", Some("es")), ("slug", Some("a"))]),
            object("{\"locale\":\"en\",\"slug\":\"b\",\"x\":1}", &[("locale", Some("en")), ("slug", Some("b")), ("x", None)]),
        ]),
    };
    let sets = enumerate_params("/:locale/products/:slug", &segs, &response).unwrap();
    assert_eq!(sets.len(), 2);
    assert_eq!(sets[0].get("slug").map(String::as_str), Some("a"));
    assert_eq!(sets[1].get("locale").map(String::as_str), Some("en"));
    assert_eq!(sets[1].len(), 2);
}

#[test]
fn enumerate_params_refuses_what_is_not_an_array_of_objects_with_the_fields() {
    let segs = vec![seg_static("p"), seg_dyn("slug")];
    let not_array = PathsResponse { text: "{}".into(), entries: None };
    assert_eq!(
        enumerate_params("/p/:slug", &segs, &not_array).err().unwrap(),
        "/p/:slug: `paths` debe responder un array JSON, la respuesta fue: {}"
    );
    let not_object = PathsResponse { text: "[1]".into(), entries: Some(vec![PathsEntry { text: "1".into(), fields: None }]) };
    assert_eq!(
        enumerate_params("/p/:slug", &segs, &not_object).err().unwrap(),
        "/p/:slug: cada entrada de `paths` debe ser un objeto, encontré: 1"
    );
    let missing = PathsResponse { text: "[..]".into(), entries: Some(vec![object("{\"slug\":3}", &[("slug", None)])]) };
    assert_eq!(
        enumerate_params("/p/:slug", &segs, &missing).err().unwrap(),
        "/p/:slug: una entrada de `paths` no tiene el campo string `slug` que la ruta necesita: {\"slug\":3}"
    );
}

#[test]
fn the_first_bad_entry_is_the_one_reported() {
    let segs = vec![seg_dyn("id")];
    let response = PathsResponse {
        text: "[..]".into(),
        entries: Some(vec![
            object("{\"id\":\"1\"}", &[("id", Some("1"))]),
            PathsEntry { text: "true".into(), fields: None },
            object("{}", &[]),
        ]),
    };
    assert!(enumerate_params("/:id", &segs, &response).err().unwrap().ends_with("encontré: true"));
}

#[test]
fn site_urls_are_absolute_under_the_base_url() {
    assert_eq!(site_url(Some("https://x.dev/"), "/a"), "https://x.dev/a");
    assert_eq!(site_url(Some("https://x.dev//"), "/a"), "https://x.dev/a");
    assert_eq!(site_url(None, "/a"), "/a");
    assert_eq!(sitemap_url(Some("https://x.dev/")), Some("https://x.dev/sitemap.xml".to_string()));
    assert_eq!(sitemap_url(None), None);
}

#[test]
fn largest_image_takes_the_heaviest_found_one_and_the_last_of_a_tie() {
    let c = vec![
        ("/a.png".to_string(), Some(10u64)),
        ("/missing.png".to_string(), None),
        ("/b.png".to_string(), Some(30)),
        ("/c.png".to_string(), Some(30)),
        ("/d.png".to_string(), Some(5)),
    ];
    assert_eq!(largest_image(&c), Some(("/c.png".to_string(), 30)));
    assert_eq!(largest_image(&[("/x".to_string(), None)]), None);
    assert_eq!(largest_image(&[]), None);
}

#[test]
fn page_usages_charge_the_site_stylesheet_to_pages_that_link_it() {
    let pending = vec![
        PendingPageUsage { pattern: "/a".into(), initial_js_bytes: 10, links_ui_css: true, largest_image: None },
        PendingPageUsage { pattern: "/b".into(), initial_js_bytes: 20, links_ui_css: false, largest_image: Some(("/i.png".into(), 7)) },
    ];
    let usages = page_usages(&pending, Some(4_000));
    assert_eq!(usages[0].css_bytes, Some(4_000));
    assert_eq!(usages[1].css_bytes, None);
    assert_eq!(usages[1].largest_image, Some(("/i.png".to_string(), 7)));
    let without_css = page_usages(&pending, None);
    assert_eq!(without_css[0].css_bytes, Some(0));
}

#[test]
fn build_lines_and_errors() {
    assert_eq!(activation_summary(0, 0), "  Activación: 0 nodos interactivos.");
    assert_eq!(activation_summary(2, 2), "  Activación: 2 nodo(s) interactivo(s) -> 2 chunk(s) en dist/assets/");
    let counts = ClassificationCounts { static_count: 3, dynamic_count: 1, interactive_count: 1, async_count: 0, island_count: 0 };
    assert_eq!(classification_summary(&counts), "  Clasificación: 5 nodos — 3 static, 1 dynamic, 1 interactive, 0 async, 0 island");
    assert!(static_page_error("/x", PageError::NotFound).starts_with("/x: su `load()` respondió 404 — "));
}

#[test]
fn page_resolver_paths() {
    assert_eq!(prebuilt_page_dir("/"), "dist");
    assert_eq!(prebuilt_page_dir(""), "dist");
    assert_eq!(prebuilt_page_dir("/blog/x"), "dist/blog/x");
    assert_eq!(prebuilt_asset_name("/assets/Home-3.abc.js"), Some("Home-3.abc.js".to_string()));
    assert_eq!(prebuilt_asset_name("/img/x.png"), None);
    assert_eq!(static_file("//img/x.png"), Some("img/x.png".to_string()));
    assert_eq!(static_file("/"), None);
    assert!(matches!(resolve_error(PageError::NotFound), ResolveError::NotFound));
    assert!(matches!(resolve_error(PageError::Other("boom".into())), ResolveError::Failed(m) if m == "boom"));
}

#[test]
fn add_refuses_internal_and_unknown_modules() {
    let project = Manifest::default();
    let internal = plan_add("router", &project).err().unwrap();
    assert_eq!(internal, "`router` es un módulo interno (internal) — Navegación SPA + prefetch — siempre activo, no se declara. No se declara con `nexa add`.");
    let unknown = plan_add("leftpad", &project).err().unwrap();
    assert_eq!(unknown, "`leftpad` no es un módulo oficial de Nexa. Disponibles: ui, forms, tauri, capacitor, platform, telemetry, pwa, nginx");
}

#[test]
fn add_does_nothing_for_a_module_already_declared_at_its_version() {
    let mut project = Manifest::default();
    project.dependencies.insert("ui".into(), "0.1.0".into());
    assert!(matches!(plan_add("ui", &project), Ok(AddPlan::AlreadyDeclared(_))));
    project.dependencies.insert("ui".into(), "0.0.9".into());
    assert!(matches!(plan_add("ui", &project), Ok(AddPlan::Install(_))));
}

#[test]
fn adding_pwa_prefills_its_section_and_records_the_dependency() {
    let mut project = Manifest::default();
    project.project.name = "Tienda".into();
    let module = find("pwa").unwrap();
    declare_module(&mut project, &module);
    assert_eq!(project.dependencies.get("pwa").map(String::as_str), Some("0.1.0"));
    let pwa = project.pwa.as_ref().unwrap();
    assert_eq!(pwa.name, "Tienda");
    assert_eq!(pwa.display.as_deref(), Some("standalone"));
    assert!(pwa.icon.is_none());
}

#[test]
fn locked_package_records_the_module_and_its_hash() {
    let module = find("tauri").unwrap();
    let p = locked_package(&module, &sources());
    assert_eq!((p.name.as_str(), p.version.as_str(), p.stability.as_str(), p.source.as_str()), ("tauri", "0.1.0", "experimental", "builtin"));
    assert!(p.content_hash.starts_with("fnv1a:"));
    let nginx = locked_package(&find("nginx").unwrap(), &sources());
    assert_eq!(nginx.content_hash, "");
}

#[test]
fn an_activation_entry_keeps_its_fields() {
    let e = ActivationEntry { event: "click".into(), handler: "h".into(), module: "/assets/m.js".into(), strategy: Strategy::Idle };
    assert_eq!(e.clone(), e);
}

#[test]
fn a_missing_resource_from_the_loader_stays_a_not_found_page() {
    let e = load_error("pages/p.tsx", LoadFailure::NotFound);
    assert!(matches!(e, PageError::NotFound));
    assert_eq!(e.message(), "recurso no encontrado (404)");
}

#[test]
fn any_other_loader_failure_names_the_page_file() {
    let e = load_error("pages/p.tsx", LoadFailure::Other("timeout".to_string()));
    assert_eq!(e.message(), "cargando datos de pages/p.tsx: timeout");
}

#[test]
fn a_404_for_a_declared_parameter_set_says_paths_and_load_disagree() {
    let m = nexa::site_build::page_build_error("/p/:id", Some("{\"id\": \"7\"}"), PageError::NotFound);
    assert_eq!(
        m,
        "/p/:id con {\"id\": \"7\"}: su `load()` respondió 404 para un set de parámetros que `paths` declaró — revisa que `paths` y `load` estén de acuerdo"
    );
    assert_eq!(nexa::site_build::page_build_error("/p/:id", Some("{}"), PageError::Other("x".into())), "x");
    assert_eq!(
        nexa::site_build::page_build_error("/x", None, PageError::NotFound),
        static_page_error("/x", PageError::NotFound)
    );
}
