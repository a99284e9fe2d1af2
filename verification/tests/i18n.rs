use nexa::i18n::{alternate_links, available_locales, locale_params};
use nexa::strmap::StrMap;

#[test]
fn available_locales_lists_every_json_file_sorted() {
    let files = vec!["locales/es.json".to_string(), "locales/readme.md".to_string(), "locales/en.json".to_string()];
    assert_eq!(available_locales(&files), vec!["en".to_string(), "es".to_string()]);
}

#[test]
fn missing_locales_dir_yields_no_locales() {
    assert!(available_locales(&[]).is_empty());
}

#[test]
fn alternate_links_substitute_locale_and_keep_other_params() {
    let mut params = StrMap::new();
    params.insert("locale".to_string(), "es".to_string());
    params.insert("slug".to_string(), "iphone-17".to_string());

    let en = locale_params(&params, "en");
    assert_eq!(en.get("locale").map(String::as_str), Some("en"));
    assert_eq!(en.get("slug").map(String::as_str), Some("iphone-17"));
    assert_eq!(en.len(), 2);

    let locales = vec!["es".to_string(), "en".to_string()];
    let hrefs = vec![Some("/es/products/iphone-17".to_string()), Some("/en/products/iphone-17".to_string())];
    let links = alternate_links(&locales, &hrefs);

    assert_eq!(links.len(), 2);
    assert_eq!((links[0].hreflang.as_str(), links[0].href.as_str()), ("es", "/es/products/iphone-17"));
    assert_eq!((links[1].hreflang.as_str(), links[1].href.as_str()), ("en", "/en/products/iphone-17"));
}

#[test]
fn alternate_links_skips_a_locale_if_the_pattern_cannot_be_resolved() {
    let links = alternate_links(&["es".to_string()], &[None]);
    assert!(links.is_empty());
}

#[test]
fn locales_come_sorted_whatever_the_listing_order() {
    let files = vec!["z/pt.json".to_string(), "z/de.json".to_string(), "z/fr.json".to_string(), "z/notes.txt".to_string()];
    assert_eq!(available_locales(&files), vec!["de".to_string(), "fr".to_string(), "pt".to_string()]);
}

#[test]
fn locale_params_adds_the_locale_when_the_route_had_none() {
    let params = locale_params(&StrMap::new(), "es");
    assert_eq!(params.get("locale").map(String::as_str), Some("es"));
    assert_eq!(params.len(), 1);
}
