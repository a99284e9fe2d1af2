use nexa::manifest::PwaSection;
use nexa::pwa::{head_fragment, render_manifest, render_service_worker};
use nexa::strmap::StrMap;

fn pwa(name: &str) -> PwaSection {
    PwaSection { name: name.to_string(), ..Default::default() }
}

#[test]
fn renders_a_minimal_manifest_with_sane_defaults() {
    let manifest = render_manifest(&pwa("Mi App"));
    assert!(manifest.contains("\"name\": \"Mi App\""));
    assert!(manifest.contains("\"short_name\": \"Mi App\""));
    assert!(manifest.contains("\"display\": \"standalone\""));
    assert!(manifest.contains("\"start_url\": \"/\""));
    assert!(!manifest.contains("\"icons\""));
}

#[test]
fn renders_icons_twice_when_an_icon_is_declared() {
    let mut p = pwa("Mi App");
    p.icon = Some("/icon-512.png".to_string());
    let manifest = render_manifest(&p);
    assert!(manifest.contains("\"192x192\""));
    assert!(manifest.contains("\"512x512\""));
    assert_eq!(manifest.matches("/icon-512.png").count(), 2);
}

#[test]
fn respects_an_explicit_short_name_and_theme_color() {
    let mut p = pwa("Mi App Muy Larga");
    p.short_name = Some("MAML".to_string());
    p.theme_color = Some("#2563eb".to_string());
    let manifest = render_manifest(&p);
    assert!(manifest.contains("\"short_name\": \"MAML\""));
    assert!(manifest.contains("\"theme_color\": \"#2563eb\""));
}

#[test]
fn service_worker_rejects_an_unknown_strategy() {
    let mut cache = StrMap::new();
    cache.insert("/api".to_string(), "always-fresh".to_string());
    let err = render_service_worker(&cache).unwrap_err();
    assert!(err.contains("always-fresh"));
}

#[test]
fn service_worker_matches_the_longest_prefix_first() {
    let mut cache = StrMap::new();
    cache.insert("/api".to_string(), "network-first".to_string());
    cache.insert("/api/products".to_string(), "stale-while-revalidate".to_string());

    let sw = render_service_worker(&cache).unwrap();
    let products_pos = sw.find("/api/products").unwrap();
    let api_pos = sw.rfind("[\"/api\"").unwrap();
    assert!(products_pos < api_pos, "el prefijo más específico debe ir primero en RULES");
}

#[test]
fn service_worker_defines_all_three_strategy_functions() {
    let sw = render_service_worker(&StrMap::new()).unwrap();
    assert!(sw.contains("async function cacheFirst"));
    assert!(sw.contains("async function networkFirst"));
    assert!(sw.contains("async function staleWhileRevalidate"));
    assert!(sw.contains("self.skipWaiting()"));
    assert!(sw.contains("self.clients.claim()"));
}

#[test]
fn head_fragment_always_includes_the_manifest_link() {
    let fragment = head_fragment(&pwa("Mi App"));
    assert!(fragment.contains("<link rel=\"manifest\" href=\"/manifest.webmanifest\">"));
    assert!(!fragment.contains("theme-color"));
}

#[test]
fn head_fragment_includes_theme_color_when_declared() {
    let mut p = pwa("Mi App");
    p.theme_color = Some("#111827".to_string());
    let fragment = head_fragment(&p);
    assert!(fragment.contains("<meta name=\"theme-color\" content=\"#111827\">"));
}

#[test]
fn rules_of_equal_length_keep_their_key_order_and_longer_ones_come_first() {
    let mut cache = StrMap::new();
    cache.insert("/b".to_string(), "cache-first".to_string());
    cache.insert("/a".to_string(), "network-first".to_string());
    cache.insert("/assets".to_string(), "cache-first".to_string());
    let sw = render_service_worker(&cache).unwrap();
    let assets = sw.find("[\"/assets\"").unwrap();
    let a = sw.find("[\"/a\"").unwrap();
    let b = sw.find("[\"/b\"").unwrap();
    assert!(assets < a && a < b);
}

#[test]
fn a_short_name_is_cut_from_a_long_name_when_not_given() {
    let manifest = render_manifest(&pwa("Aplicación Extremadamente Larga"));
    assert!(manifest.contains("\"name\": \"Aplicación Extremadamente Larga\""));
}
