use nexa::nginx_scaffold::{render, route_prefix, sanitize_name};

#[test]
fn render_substitutes_the_project_name_into_the_root_path() {
    let conf = render("mi-tienda", &[]);
    assert!(conf.contains("root /var/www/mi-tienda/dist;"));
    assert!(!conf.contains("{{NAME}}"), "no debe quedar ningún placeholder sin sustituir");
}

#[test]
fn render_sanitizes_a_name_with_spaces_and_uppercase() {
    let conf = render("Mi Tienda Real", &[]);
    assert!(conf.contains("root /var/www/Mi-Tienda-Real/dist;"));
}

#[test]
fn render_includes_the_same_security_headers_that_serve_rs_applies() {
    let conf = render("app", &[]);
    assert!(conf.contains(r#"add_header X-Content-Type-Options "nosniff" always;"#));
    assert!(conf.contains(r#"add_header X-Frame-Options "SAMEORIGIN" always;"#));
    assert!(conf.contains(r#"add_header Referrer-Policy "strict-origin-when-cross-origin" always;"#));
}

#[test]
fn render_never_lists_text_html_in_gzip_types() {
    let conf = render("app", &[]);
    let gzip_line = conf.lines().find(|line| line.trim_start().starts_with("gzip_types")).unwrap();
    let continuation = conf.lines().skip_while(|l| !l.contains("gzip_types")).nth(1).unwrap_or("");
    assert!(!gzip_line.contains("text/html"));
    assert!(!continuation.contains("text/html"));
}

#[test]
fn render_recommends_a_year_long_immutable_cache_only_for_hashed_assets() {
    let conf = render("app", &[]);

    let hashed_location = conf
        .lines()
        .find(|line| line.trim_start().starts_with("location ~"))
        .expect("se espera un location con regex para los assets con hash");
    assert!(hashed_location.contains(r"\.[0-9a-f]{8}\."));

    let hashed_cache_control = conf
        .lines()
        .skip_while(|l| !l.trim_start().starts_with("location ~"))
        .find(|line| line.contains("Cache-Control"))
        .expect("se espera un Cache-Control dentro del location con hash");
    assert!(hashed_cache_control.contains("immutable"));
    assert!(hashed_cache_control.contains("max-age=31536000"));

    let generic_cache_control = conf
        .lines()
        .skip_while(|l| l.trim() != "location /assets/ {")
        .find(|line| line.contains("Cache-Control"))
        .expect("se espera un Cache-Control dentro del location genérico");
    assert!(!generic_cache_control.contains("immutable"));
}

#[test]
fn the_hashed_asset_regex_is_quoted_so_nginx_does_not_choke_on_the_braces() {
    let conf = render("app", &[]);
    let hashed_location = conf
        .lines()
        .find(|line| line.trim_start().starts_with("location ~"))
        .expect("se espera un location con regex para los assets con hash");
    assert!(hashed_location.contains(r#""^/assets/"#), "la regex debe empezar entre comillas, línea real: {hashed_location:?}");
    assert!(hashed_location.trim_end().ends_with("\" {"), "la regex debe cerrar la comilla antes de `{{`");
}

#[test]
fn render_says_so_explicitly_when_there_are_no_dynamic_routes_without_paths() {
    let conf = render("app", &[]);
    assert!(conf.contains("No se encontraron rutas dinámicas sin `paths`"));
    assert!(!conf.contains("proxy_pass"));
}

#[test]
fn render_lists_the_real_patterns_found_instead_of_a_generic_placeholder() {
    let patterns = vec!["/articles/:slug".to_string(), "/profiles/:username".to_string()];
    let conf = render("app", &patterns);

    assert!(conf.contains("/articles/:slug"));
    assert!(conf.contains("/profiles/:username"));
    assert!(conf.contains("# location /articles/ {"));
    assert!(!conf.contains("/products/"));
}

#[test]
fn render_flags_a_pattern_with_no_fixed_prefix_instead_of_guessing() {
    let patterns = vec!["/:locale/articles/:slug".to_string()];
    let conf = render("app", &patterns);

    assert!(conf.contains("/:locale/articles/:slug"));
    assert!(conf.contains("CAMBIAR-ESTE-PREFIJO"));
}

#[test]
fn scaffold_reports_no_dynamic_routes_for_a_fully_static_project() {
    let conf = render("app", &[]);
    assert!(conf.contains("No se encontraron rutas dinámicas sin `paths`"));
}

#[test]
fn route_prefix_keeps_the_fixed_segments_before_the_first_parameter() {
    assert_eq!(route_prefix("/articles/:slug"), "/articles/");
    assert_eq!(route_prefix("/shop/products/:id/reviews"), "/shop/products/");
}

#[test]
fn sanitize_name_replaces_what_a_path_cannot_hold() {
    assert_eq!(sanitize_name("Mi Tienda Real"), "Mi-Tienda-Real");
    assert_eq!(sanitize_name("ok_name-1"), "ok_name-1");
    assert_eq!(sanitize_name(""), "app");
}
