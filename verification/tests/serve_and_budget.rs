use nexa::manifest::PerformanceSection;
use nexa::performance_budget::{check, PageUsage};
use nexa::serve::{guess_static_content_type, percent_decode, query_param, request_path};

fn budget(max_initial_js: Option<u64>, max_css: Option<u64>, max_image: Option<u64>) -> PerformanceSection {
    PerformanceSection { max_initial_js, max_css, max_image }
}

fn page(pattern: &str, initial_js_bytes: u64, css_bytes: Option<u64>, largest_image: Option<(&str, u64)>) -> PageUsage {
    PageUsage {
        pattern: pattern.to_string(),
        initial_js_bytes,
        css_bytes,
        largest_image: largest_image.map(|(src, bytes)| (src.to_string(), bytes)),
    }
}

#[test]
fn query_param_reads_a_value_from_the_query_string() {
    assert_eq!(query_param("/__nexa_dev__/diagnostics?path=/products/x", "path"), Some("/products/x".to_string()));
}

#[test]
fn query_param_is_none_when_the_key_is_missing() {
    assert_eq!(query_param("/foo?other=1", "path"), None);
}

#[test]
fn query_param_is_none_without_a_query_string_at_all() {
    assert_eq!(query_param("/foo", "path"), None);
}

#[test]
fn query_param_finds_a_key_that_is_not_first() {
    assert_eq!(query_param("/foo?a=1&path=/bar&b=2", "path"), Some("/bar".to_string()));
}

#[test]
fn query_param_percent_decodes_the_value() {
    assert_eq!(query_param("/x?path=%2F", "path"), Some("/".to_string()));
    assert_eq!(query_param("/x?path=%2Fproducts%2Fiphone-17", "path"), Some("/products/iphone-17".to_string()));
}

#[test]
fn query_param_decodes_a_plus_as_a_space() {
    assert_eq!(query_param("/x?q=hola+mundo", "q"), Some("hola mundo".to_string()));
}

#[test]
fn query_param_leaves_a_malformed_percent_escape_untouched() {
    assert_eq!(query_param("/x?q=100%", "q"), Some("100%".to_string()));
    assert_eq!(query_param("/x?q=100%zz", "q"), Some("100%zz".to_string()));
}

#[test]
fn percent_decode_turns_escaped_utf8_back_into_text() {
    assert_eq!(percent_decode("caf%C3%A9"), "café");
    assert_eq!(percent_decode("a%20b"), "a b");
}

#[test]
fn request_path_drops_the_query_string() {
    assert_eq!(request_path("/products?id=1&x=2"), "/products");
    assert_eq!(request_path("/plain"), "/plain");
    assert_eq!(request_path("?only"), "");
}

#[test]
fn guesses_javascript_and_css_content_types() {
    assert_eq!(guess_static_content_type("/vendor/nexa-stripe.js"), "text/javascript; charset=utf-8");
    assert_eq!(guess_static_content_type("/x.mjs"), "text/javascript; charset=utf-8");
    assert_eq!(guess_static_content_type("/x.css"), "text/css; charset=utf-8");
}

#[test]
fn falls_back_to_octet_stream_for_an_unknown_extension() {
    assert_eq!(guess_static_content_type("/x.bin"), "application/octet-stream");
}

#[test]
fn guesses_image_types_whatever_the_case_of_the_extension() {
    assert_eq!(guess_static_content_type("/a/b.PNG"), "image/png");
    assert_eq!(guess_static_content_type("/photo.jpeg"), "image/jpeg");
    assert_eq!(guess_static_content_type("/noext"), "application/octet-stream");
}

#[test]
fn no_budget_declared_means_nothing_is_checked() {
    let empty = budget(None, None, None);
    let pages = [page("/", 999_999, Some(999_999), Some(("/huge.png", 999_999)))];
    assert!(check(&empty, &pages).is_empty());
}

#[test]
fn flags_a_page_over_the_initial_js_budget() {
    let b = budget(Some(10_000), None, None);
    let pages = [page("/", 12_000, None, None)];

    let violations = check(&b, &pages);
    assert_eq!(violations.len(), 1);
    assert_eq!(violations[0].budget, "maxInitialJS");
    assert_eq!(violations[0].actual, 12_000);
}

#[test]
fn does_not_flag_a_page_under_budget() {
    let b = budget(Some(10_000), None, None);
    let pages = [page("/", 9_000, None, None)];
    assert!(check(&b, &pages).is_empty());
}

#[test]
fn flags_a_page_over_the_css_budget_only_when_it_actually_links_css() {
    let b = budget(None, Some(5_000), None);
    let with_css = [page("/a", 0, Some(6_000), None)];
    let without_css = [page("/b", 0, None, None)];

    assert_eq!(check(&b, &with_css).len(), 1);
    assert!(check(&b, &without_css).is_empty());
}

#[test]
fn flags_a_page_whose_largest_image_exceeds_the_budget_and_names_it() {
    let b = budget(None, None, Some(100_000));
    let pages = [page("/gallery", 0, None, Some(("/photos/big.jpg", 250_000)))];

    let violations = check(&b, &pages);
    assert_eq!(violations.len(), 1);
    assert_eq!(violations[0].detail.as_deref(), Some("/photos/big.jpg"));
}

#[test]
fn checks_every_page_independently_and_can_report_several_violations() {
    let b = budget(Some(10_000), None, None);
    let pages = [page("/a", 20_000, None, None), page("/b", 5_000, None, None), page("/c", 30_000, None, None)];

    let violations = check(&b, &pages);
    assert_eq!(violations.len(), 2);
    assert_eq!(violations[0].pattern, "/a");
    assert_eq!(violations[1].pattern, "/c");
}

#[test]
fn a_violation_reads_as_one_line() {
    let b = budget(None, None, Some(100));
    let pages = [page("/g", 0, None, Some(("/big.jpg", 250)))];
    let violations = check(&b, &pages);
    assert_eq!(violations[0].to_message(), "/g: maxImage (/big.jpg) usa 250 bytes, supera el presupuesto maxImage de 100 bytes");
}

#[test]
fn the_limit_itself_is_within_budget() {
    let b = budget(Some(100), Some(100), Some(100));
    let pages = [page("/", 100, Some(100), Some(("/i.png", 100)))];
    assert!(check(&b, &pages).is_empty());
}

#[test]
fn a_plus_sign_after_a_percent_is_no_escape() {
    assert_eq!(percent_decode("%+41"), "% 41");
    assert_eq!(percent_decode("%+5"), "% 5");
    assert_eq!(percent_decode("%+g"), "% g");
    assert_eq!(percent_decode("%4"), "%4");
    assert_eq!(query_param("/x?q=%+5", "q"), Some("% 5".to_string()));
}

#[test]
fn invalid_utf8_after_decoding_keeps_the_text_as_it_was() {
    assert_eq!(percent_decode("a%FFb"), "a%FFb");
}
