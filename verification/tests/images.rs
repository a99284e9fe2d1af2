use nexa::image_pipeline::{generate, img_edit, is_supported, picture_edit, plan_for_source, source_tag, split_public_rel, srcset_attr, GeneratedImage, VariantCache};

fn sample() -> GeneratedImage {
    GeneratedImage {
        width: 1600,
        height: 900,
        fallback_srcset: vec![(480, "/img/photo-480.jpg".into()), (1600, "/img/photo.jpg".into())],
        avif_srcset: vec![(480, "/img/photo-480.avif".into()), (1600, "/img/photo-1600.avif".into())],
    }
}

#[test]
fn is_supported_only_recognizes_real_photo_extensions() {
    assert!(is_supported("/img/foto.jpg"));
    assert!(is_supported("/img/foto.JPEG"));
    assert!(is_supported("/img/foto.png"));
    assert!(!is_supported("/img/logo.svg"));
    assert!(!is_supported("/img/anim.gif"));
}

#[test]
fn small_images_are_not_worth_optimizing() {
    assert!(generate("/small.jpg", 300, 200, true).is_none());
}

#[test]
fn generates_smaller_breakpoints_and_keeps_the_original_as_the_largest_fallback_entry() {
    let plan = generate("/img/photo.jpg", 1600, 4, true).expect("expected variants");
    let generated = plan.image;
    assert_eq!(generated.width, 1600);
    assert_eq!(generated.height, 4);

    let fallback_widths: Vec<u32> = generated.fallback_srcset.iter().map(|(w, _)| *w).collect();
    assert_eq!(fallback_widths, vec![480, 768, 1280, 1600]);
    assert_eq!(generated.fallback_srcset.last().unwrap().1, "/img/photo.jpg");

    let avif_widths: Vec<u32> = generated.avif_srcset.iter().map(|(w, _)| *w).collect();
    assert_eq!(avif_widths, vec![480, 768, 1280, 1600]);

    let avif_writes: Vec<&str> = plan.writes.iter().filter(|w| w.avif).map(|w| w.rel.as_str()).collect();
    let avif_rels: Vec<&str> = generated.avif_srcset.iter().map(|(_, r)| r.as_str()).collect();
    assert_eq!(avif_writes, avif_rels);
    assert_eq!(avif_rels[0], "/img/photo-480.avif");
}

#[test]
fn only_includes_breakpoints_smaller_than_the_original() {
    let generated = generate("/medium.jpg", 600, 4, true).unwrap().image;
    let widths: Vec<u32> = generated.avif_srcset.iter().map(|(w, _)| *w).collect();
    assert_eq!(widths, vec![480, 600]);
}

#[test]
fn root_level_images_do_not_produce_double_slash_urls() {
    let generated = generate("/medium.jpg", 600, 4, true).unwrap().image;
    for (_, rel) in &generated.avif_srcset {
        assert!(!rel.starts_with("//"), "URL con doble slash: {rel}");
        assert!(rel.starts_with("/medium-") || rel == "/medium.jpg", "URL inesperada: {rel}");
    }
    for (_, rel) in &generated.fallback_srcset {
        assert!(!rel.starts_with("//"), "URL con doble slash: {rel}");
    }
}

#[test]
fn split_public_rel_separates_directory_stem_and_extension() {
    let (dir, stem, ext) = split_public_rel("/img/photo.jpg");
    assert_eq!((dir.as_str(), stem.as_str(), ext.as_str()), ("/img", "photo", "jpg"));
    let (dir, stem, ext) = split_public_rel("/medium.jpg");
    assert_eq!((dir.as_str(), stem.as_str(), ext.as_str()), ("", "medium", "jpg"));
}

#[test]
fn an_unwritable_original_format_only_gets_avif_variants() {
    let plan = generate("/img/photo.jpg", 1000, 10, false).unwrap();
    assert!(plan.writes.iter().all(|w| w.avif));
    let fallback: Vec<u32> = plan.image.fallback_srcset.iter().map(|(w, _)| *w).collect();
    assert_eq!(fallback, vec![1000]);
}

#[test]
fn picture_edit_wraps_the_image_with_its_avif_source_first() {
    let edit = picture_edit(&sample(), false, false, false);
    assert!(edit.before.starts_with("<picture>"));
    assert!(edit.before.contains("type=\"image/avif\""));
    assert!(edit.before.contains("photo-480.avif 480w"));
    assert_eq!(edit.after, "</picture>");
    let names: Vec<&str> = edit.attributes.iter().map(|(k, _)| k.as_str()).collect();
    assert_eq!(names, vec!["srcset", "sizes", "width", "height", "loading"]);
    assert!(edit.attributes.contains(&("width".to_string(), "1600".to_string())));
    assert!(edit.attributes.contains(&("height".to_string(), "900".to_string())));
    assert!(edit.attributes.contains(&("loading".to_string(), "lazy".to_string())));
}

#[test]
fn picture_edit_keeps_the_images_own_dimensions_and_loading() {
    let edit = picture_edit(&sample(), true, true, true);
    let names: Vec<&str> = edit.attributes.iter().map(|(k, _)| k.as_str()).collect();
    assert_eq!(names, vec!["srcset", "sizes"]);
}

#[test]
fn srcset_and_source_are_rendered_exactly() {
    let s = sample();
    assert_eq!(srcset_attr(&s.fallback_srcset), "/img/photo-480.jpg 480w, /img/photo.jpg 1600w");
    assert_eq!(
        source_tag("image/avif", &s.avif_srcset),
        "<source type=\"image/avif\" srcset=\"/img/photo-480.avif 480w, /img/photo-1600.avif 1600w\" sizes=\"100vw\">"
    );
}

#[test]
fn variant_cache_only_generates_the_same_image_once() {
    let mut cache = VariantCache::new();
    let mut calls = 0;
    for _ in 0..3 {
        let result = cache.get_or_generate(
            "/shared.jpg",
            || {
                calls += 1;
                Ok(Some(sample()))
            },
            |_| panic!("no debería haber errores"),
        );
        assert!(result.is_some());
    }
    assert_eq!(calls, 1);
    assert_eq!(cache.optimized_count(), 1);
}

#[test]
fn variant_cache_reports_errors_without_panicking() {
    let mut cache = VariantCache::new();
    let mut error_seen = false;
    let result = cache.get_or_generate("/broken.jpg", || Err("not a real jpeg".to_string()), |_| error_seen = true);
    assert!(result.is_none());
    assert!(error_seen);
    assert_eq!(cache.optimized_count(), 0);
}

#[test]
fn variant_cache_never_generates_an_unsupported_image() {
    let mut cache = VariantCache::new();
    let result = cache.get_or_generate("/logo.svg", || panic!("no se genera un svg"), |_| panic!("sin error"));
    assert!(result.is_none());
}

#[test]
fn an_unresolved_image_is_left_alone() {
    assert!(img_edit(None, false, false, false).is_none());
}

#[test]
fn a_resolved_image_gets_its_picture_edit() {
    let v = sample();
    let e = img_edit(Some(&v), true, false, true).unwrap();
    assert_eq!(e.before, "<picture><source type=\"image/avif\" srcset=\"/img/photo-480.avif 480w, /img/photo-1600.avif 1600w\" sizes=\"100vw\">");
    assert_eq!(e.after, "</picture>");
    let names: Vec<&str> = e.attributes.iter().map(|(n, _)| n.as_str()).collect();
    assert_eq!(names, vec!["srcset", "sizes", "height"]);
    assert_eq!(e.attributes[2].1, "900");
}

fn plan_shape(p: &nexa::image_pipeline::VariantPlan) -> Vec<(u32, String, bool)> {
    p.writes.iter().map(|w| (w.width, w.rel.clone(), w.avif)).collect()
}

#[test]
fn the_source_path_decides_whether_the_original_format_is_kept() {
    let known = plan_for_source("public/img/photo.JPG", "/img/photo.jpg", 1000, 10).unwrap();
    assert_eq!(plan_shape(&known), plan_shape(&generate("/img/photo.jpg", 1000, 10, true).unwrap()));
    let unknown = plan_for_source("public/img/photo.xyz", "/img/photo.jpg", 1000, 10).unwrap();
    assert_eq!(plan_shape(&unknown), plan_shape(&generate("/img/photo.jpg", 1000, 10, false).unwrap()));
    assert_ne!(plan_shape(&known), plan_shape(&unknown));
    assert!(plan_for_source("public/img/photo", "/img/photo.jpg", 400, 10).is_none());
}
