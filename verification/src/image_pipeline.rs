//! Static `<img src="/photo.jpg">` turned into AVIF variants at several
//! widths, and the `<img>` rewritten into a `<picture>` that uses them.
//! Only photos (`jpg`, `jpeg`, `png`) wider than 480 pixels are worth it;
//! the original file stays the largest fallback entry and is never
//! re-encoded at its own width and format. Decoding, resizing and
//! encoding the pixels is the imaging library's work; which files to
//! write, under which names, and what the HTML says of them is decided
//! here.
use vstd::prelude::*;

use crate::serve::{lowercase, path_extension, path_extension_of, unicode_lowercase};
use crate::strmap::StrMap;
use crate::text::{decimal, owned, push_decimal, str_eq};

verus! {

/// Widths at or below this are not worth optimizing.
pub const MIN_WORTH_OPTIMIZING: u32 = 480;

/// The file is a photo by its extension (case-insensitive).
pub open spec fn supported_path(path: Seq<char>) -> bool {
    match path_extension_of(path) {
        Some(e) => {
            let l = unicode_lowercase(e);
            l == "jpg"@ || l == "jpeg"@ || l == "png"@
        },
        None => false,
    }
}

/// `jpg`, `jpeg` and `png` files are optimized; anything else is left as
/// it is.
pub fn is_supported(path: &str) -> (b: bool)
    ensures
        b == supported_path(path@),
{
    match path_extension(path) {
        Some(e) => {
            let l = lowercase(e.as_str());
            str_eq(l.as_str(), "jpg") || str_eq(l.as_str(), "jpeg") || str_eq(l.as_str(), "png")
        },
        None => false,
    }
}

/// The parent directory that `std::path::Path::parent` finds in a path
/// (none for a root or an empty path). The result is left to `std`.
pub uninterp spec fn path_parent_of(path: Seq<char>) -> Option<Seq<char>>;

/// The file stem that `std::path::Path::file_stem` finds: the file name
/// without its last extension. The result is left to `std`.
pub uninterp spec fn path_file_stem_of(path: Seq<char>) -> Option<Seq<char>>;

/// Calls `std::path::Path::parent` on the path; the result (as text, which
/// a path built from text always is) is the named [`path_parent_of`].
#[verifier::external_body]
fn path_parent(path: &str) -> (r: Option<String>)
    ensures
        match r {
            Some(p) => path_parent_of(path@) == Some(p@),
            None => path_parent_of(path@) is None,
        },
{
    match std::path::Path::new(path).parent() {
        Some(p) => Some(p.to_string_lossy().to_string()),
        None => None,
    }
}

/// Calls `std::path::Path::file_stem` on the path; the result is the
/// named [`path_file_stem_of`].
#[verifier::external_body]
pub(crate) fn path_file_stem(path: &str) -> (r: Option<String>)
    ensures
        match r {
            Some(s) => path_file_stem_of(path@) == Some(s@),
            None => path_file_stem_of(path@) is None,
        },
{
    match std::path::Path::new(path).file_stem() {
        Some(s) => Some(s.to_string_lossy().to_string()),
        None => None,
    }
}

/// `/img/photo.jpg` split into directory, stem and lowercase extension:
/// `("/img", "photo", "jpg")`. An image at the root gets an empty
/// directory (not `/`, which would make `//photo-480.jpg`, a URL to
/// another host).
pub open spec fn split_rel(rel: Seq<char>) -> (Seq<char>, Seq<char>, Seq<char>) {
    (
        match path_parent_of(rel) {
            Some(d) => if d.len() == 0 || d == seq!['/'] {
                Seq::empty()
            } else {
                d
            },
            None => Seq::empty(),
        },
        match path_file_stem_of(rel) {
            Some(s) => s,
            None => Seq::empty(),
        },
        match path_extension_of(rel) {
            Some(e) => unicode_lowercase(e),
            None => Seq::empty(),
        },
    )
}

/// Directory, stem and lowercase extension of an image's public path.
pub fn split_public_rel(public_rel: &str) -> (r: (String, String, String))
    ensures
        (r.0@, r.1@, r.2@) == split_rel(public_rel@),
{
    let dir = match path_parent(public_rel) {
        Some(d) => {
            proof {
                reveal_strlit("/");
                assert("/"@ =~= seq!['/']);
            }
            if d.as_str().is_empty() || str_eq(d.as_str(), "/") {
                String::new()
            } else {
                d
            }
        },
        None => String::new(),
    };
    let stem = match path_file_stem(public_rel) {
        Some(s) => s,
        None => String::new(),
    };
    let ext = match path_extension(public_rel) {
        Some(e) => lowercase(e.as_str()),
        None => String::new(),
    };
    (dir, stem, ext)
}

/// The variants of an image, ready for the HTML.
#[derive(Debug, PartialEq)]
pub struct GeneratedImage {
    pub width: u32,
    pub height: u32,
    /// `(width, url)`, smallest first; the largest is the original file.
    pub fallback_srcset: Vec<(u32, String)>,
    pub avif_srcset: Vec<(u32, String)>,
}

/// A srcset by its texts.
pub open spec fn srcset_view(v: Seq<(u32, String)>) -> Seq<(u32, Seq<char>)> {
    v.map_values(|e: (u32, String)| (e.0, e.1@))
}

/// An image's variants by their texts.
pub struct GeneratedView {
    pub width: u32,
    pub height: u32,
    pub fallback: Seq<(u32, Seq<char>)>,
    pub avif: Seq<(u32, Seq<char>)>,
}

impl GeneratedImage {
    pub open spec fn view(&self) -> GeneratedView {
        GeneratedView {
            width: self.width,
            height: self.height,
            fallback: srcset_view(self.fallback_srcset@),
            avif: srcset_view(self.avif_srcset@),
        }
    }
}

fn copy_srcset(v: &Vec<(u32, String)>) -> (r: Vec<(u32, String)>)
    ensures
        srcset_view(r@) == srcset_view(v@),
{
    let mut r: Vec<(u32, String)> = Vec::new();
    let mut i: usize = 0;
    while i < v.len()
        invariant
            i <= v@.len(),
            srcset_view(r@) == srcset_view(v@).take(i as int),
        decreases v@.len() - i,
    {
        let ghost before = srcset_view(r@);
        r.push((v[i].0, owned(v[i].1.as_str())));
        assert(srcset_view(r@) =~= before.push((v@[i as int].0, v@[i as int].1@)));
        assert(srcset_view(v@)[i as int] == (v@[i as int].0, v@[i as int].1@));
        assert(srcset_view(v@).take(i + 1) =~= srcset_view(v@).take(i as int).push(
            srcset_view(v@)[i as int],
        ));
        i = i + 1;
    }
    assert(srcset_view(v@).take(i as int) =~= srcset_view(v@));
    r
}

impl Clone for GeneratedImage {
    fn clone(&self) -> (r: Self)
        ensures
            r@ == self@,
    {
        GeneratedImage {
            width: self.width,
            height: self.height,
            fallback_srcset: copy_srcset(&self.fallback_srcset),
            avif_srcset: copy_srcset(&self.avif_srcset),
        }
    }
}

/// The breakpoints (480, 768, 1280) narrower than the image.
pub open spec fn smaller_widths(width: u32) -> Seq<u32> {
    (if 480 < width {
        seq![480u32]
    } else {
        Seq::empty()
    }) + (if 768 < width {
        seq![768u32]
    } else {
        Seq::empty()
    }) + (if 1280 < width {
        seq![1280u32]
    } else {
        Seq::empty()
    })
}

/// `dir/stem-width.ext`.
pub open spec fn variant_rel(dir: Seq<char>, stem: Seq<char>, w: u32, ext: Seq<char>) -> Seq<char> {
    dir + "/"@ + stem + "-"@ + decimal(w as nat) + "."@ + ext
}

/// One file to write: at which width, where, and whether as AVIF (or in
/// the original's own format).
pub struct VariantWrite {
    pub width: u32,
    pub rel: String,
    pub avif: bool,
}

/// What to write for an image, and the variants the HTML will use.
pub struct VariantPlan {
    pub writes: Vec<VariantWrite>,
    pub image: GeneratedImage,
}

pub open spec fn writes_view(v: Seq<VariantWrite>) -> Seq<(u32, Seq<char>, bool)> {
    v.map_values(|w: VariantWrite| (w.width, w.rel@, w.avif))
}

/// The fallback variants: each smaller breakpoint in the original's own
/// format (when that format can be written), then the original itself.
pub open spec fn fallback_plan(
    widths: Seq<u32>,
    dir: Seq<char>,
    stem: Seq<char>,
    ext: Seq<char>,
    keep_format: bool,
) -> Seq<(u32, Seq<char>)> {
    if keep_format {
        widths.map_values(|w: u32| (w, variant_rel(dir, stem, w, ext)))
    } else {
        Seq::empty()
    }
}

/// The AVIF variants: every smaller breakpoint and the full width.
pub open spec fn avif_plan(widths: Seq<u32>, dir: Seq<char>, stem: Seq<char>) -> Seq<(u32, Seq<char>)> {
    widths.map_values(|w: u32| (w, variant_rel(dir, stem, w, "avif"@)))
}

/// The plan for an image of `width` x `height` at `public_rel`, or none
/// when it is too narrow to be worth it.
pub open spec fn variant_plan(public_rel: Seq<char>, width: u32, height: u32, keep_format: bool) -> Option<
    (Seq<(u32, Seq<char>, bool)>, GeneratedView),
> {
    if width <= MIN_WORTH_OPTIMIZING {
        None
    } else {
        let (dir, stem, ext) = split_rel(public_rel);
        let smaller = smaller_widths(width);
        let fallback = fallback_plan(smaller, dir, stem, ext, keep_format);
        let avif = avif_plan(smaller.push(width), dir, stem);
        Some(
            (
                fallback.map_values(|e: (u32, Seq<char>)| (e.0, e.1, false)) + avif.map_values(
                    |e: (u32, Seq<char>)| (e.0, e.1, true),
                ),
                GeneratedView { width, height, fallback: fallback.push((width, public_rel)), avif },
            ),
        )
    }
}

fn variant_rel_of(dir: &str, stem: &str, w: u32, ext: &str) -> (r: String)
    ensures
        r@ == variant_rel(dir@, stem@, w, ext@),
{
    let mut r = owned(dir);
    r.append("/");
    r.append(stem);
    r.append("-");
    push_decimal(&mut r, w as u128);
    r.append(".");
    r.append(ext);
    r
}

/// Whether `image::ImageFormat::from_path` recognises the format of the
/// file at a path (it goes by the path's extension alone). Which
/// extensions it knows is left to the `image` crate.
pub uninterp spec fn image_format_known(path: Seq<char>) -> bool;

/// Calls `image::ImageFormat::from_path` on the path and tells whether it
/// found a format: the named [`image_format_known`] of the path, never
/// for a path without an extension (the call looks at the extension
/// alone, and fails without one).
#[verifier::external_body]
pub(crate) fn known_image_format(path: &str) -> (b: bool)
    ensures
        b == image_format_known(path@),
        path_extension_of(path@) is None ==> !b,
{
    image::ImageFormat::from_path(path).is_ok()
}

/// The plan for the photo found at `src_path` (published at `public_rel`)
/// and decoded at `width` x `height`: its own format is kept among the
/// variants exactly when `image` recognises it from the source path.
pub fn plan_for_source(src_path: &str, public_rel: &str, width: u32, height: u32) -> (r: Option<
    VariantPlan,
>)
    ensures
        match r {
            Some(p) => variant_plan(public_rel@, width, height, image_format_known(src_path@))
                == Some((writes_view(p.writes@), p.image@)),
            None => variant_plan(public_rel@, width, height, image_format_known(src_path@)) is None,
        },
{
    let keep = known_image_format(src_path);
    generate(public_rel, width, height, keep)
}

/// Which files to write for an image decoded at `width` x `height`, and
/// the variants the HTML will use; `keep_format` says whether the
/// original's own format can be written (it is recognised). None when the
/// image is not wider than 480 pixels.
pub fn generate(public_rel: &str, width: u32, height: u32, keep_format: bool) -> (r: Option<
    VariantPlan,
>)
    ensures
        match r {
            Some(p) => variant_plan(public_rel@, width, height, keep_format) == Some(
                (writes_view(p.writes@), p.image@),
            ),
            None => variant_plan(public_rel@, width, height, keep_format) is None,
        },
{
    if width <= MIN_WORTH_OPTIMIZING {
        return None;
    }
    let (dir, stem, ext) = split_public_rel(public_rel);
    let mut smaller: Vec<u32> = Vec::new();
    if 480 < width {
        smaller.push(480);
    }
    if 768 < width {
        smaller.push(768);
    }
    if 1280 < width {
        smaller.push(1280);
    }
    assert(smaller@ =~= smaller_widths(width));
    let ghost fb = fallback_plan(smaller@, dir@, stem@, ext@, keep_format);
    let ghost av = avif_plan(smaller@.push(width), dir@, stem@);
    let mut writes: Vec<VariantWrite> = Vec::new();
    let mut fallback: Vec<(u32, String)> = Vec::new();
    if keep_format {
        let mut i: usize = 0;
        while i < smaller.len()
            invariant
                keep_format,
                i <= smaller@.len(),
                fb == fallback_plan(smaller@, dir@, stem@, ext@, keep_format),
                srcset_view(fallback@) == fb.take(i as int),
                writes_view(writes@) == fb.take(i as int).map_values(
                    |e: (u32, Seq<char>)| (e.0, e.1, false),
                ),
            decreases smaller@.len() - i,
        {
            let w = smaller[i];
            let rel = variant_rel_of(dir.as_str(), stem.as_str(), w, ext.as_str());
            let ghost wb = writes_view(writes@);
            writes.push(VariantWrite { width: w, rel: owned(rel.as_str()), avif: false });
            assert(writes_view(writes@) =~= wb.push((w, rel@, false)));
            assert(fb.take(i + 1) =~= fb.take(i as int).push(fb[i as int]));
            fallback.push((w, rel));
            assert(fb[i as int] == (w, variant_rel(dir@, stem@, w, ext@)));
            assert(srcset_view(fallback@) =~= fb.take(i + 1));
            assert(writes_view(writes@) =~= fb.take(i + 1).map_values(
                |e: (u32, Seq<char>)| (e.0, e.1, false),
            ));
            i = i + 1;
        }
        assert(fb.take(i as int) =~= fb);
    } else {
        assert(fb =~= Seq::<(u32, Seq<char>)>::empty());
        assert(srcset_view(fallback@) =~= fb);
        assert(writes_view(writes@) =~= fb.map_values(|e: (u32, Seq<char>)| (e.0, e.1, false)));
    }
    let ghost fb_writes = writes_view(writes@);
    fallback.push((width, owned(public_rel)));
    assert(srcset_view(fallback@) =~= fb.push((width, public_rel@)));
    let mut all = smaller;
    all.push(width);
    let mut avif: Vec<(u32, String)> = Vec::new();
    let mut j: usize = 0;
    while j < all.len()
        invariant
            j <= all@.len(),
            av == avif_plan(all@, dir@, stem@),
            srcset_view(avif@) == av.take(j as int),
            writes_view(writes@) == fb_writes + av.take(j as int).map_values(
                |e: (u32, Seq<char>)| (e.0, e.1, true),
            ),
        decreases all@.len() - j,
    {
        let w = all[j];
        let rel = variant_rel_of(dir.as_str(), stem.as_str(), w, "avif");
        let ghost wb = writes_view(writes@);
        writes.push(VariantWrite { width: w, rel: owned(rel.as_str()), avif: true });
        assert(writes_view(writes@) =~= wb.push((w, rel@, true)));
        assert(av.take(j + 1) =~= av.take(j as int).push(av[j as int]));
        avif.push((w, rel));
        assert(av[j as int] == (w, variant_rel(dir@, stem@, w, "avif"@)));
        assert(srcset_view(avif@) =~= av.take(j + 1));
        assert(av.take(j + 1).map_values(|e: (u32, Seq<char>)| (e.0, e.1, true)) =~= av.take(
            j as int,
        ).map_values(|e: (u32, Seq<char>)| (e.0, e.1, true)).push((w, av[j as int].1, true)));
        assert(writes_view(writes@) =~= fb_writes + av.take(j + 1).map_values(
            |e: (u32, Seq<char>)| (e.0, e.1, true),
        ));
        j = j + 1;
    }
    assert(av.take(j as int) =~= av);
    Some(
        VariantPlan {
            writes,
            image: GeneratedImage { width, height, fallback_srcset: fallback, avif_srcset: avif },
        },
    )
}

/// `url 480w, url 768w, ...`
pub open spec fn srcset_text(entries: Seq<(u32, Seq<char>)>) -> Seq<char>
    decreases entries.len(),
{
    if entries.len() == 0 {
        Seq::empty()
    } else if entries.len() == 1 {
        entries[0].1 + " "@ + decimal(entries[0].0 as nat) + "w"@
    } else {
        srcset_text(entries.drop_last()) + ", "@ + entries.last().1 + " "@ + decimal(
            entries.last().0 as nat,
        ) + "w"@
    }
}

/// The `srcset` attribute of a list of variants.
pub fn srcset_attr(entries: &[(u32, String)]) -> (r: String)
    ensures
        r@ == srcset_text(entries@.map_values(|e: (u32, String)| (e.0, e.1@))),
{
    let ghost es = entries@.map_values(|e: (u32, String)| (e.0, e.1@));
    let mut r = String::new();
    let mut i: usize = 0;
    while i < entries.len()
        invariant
            i <= entries@.len(),
            es == entries@.map_values(|e: (u32, String)| (e.0, e.1@)),
            r@ == srcset_text(es.take(i as int)),
        decreases entries@.len() - i,
    {
        if i > 0 {
            r.append(", ");
        }
        r.append(entries[i].1.as_str());
        r.append(" ");
        push_decimal(&mut r, entries[i].0 as u128);
        r.append("w");
        proof {
            let t = es.take(i + 1);
            assert(t.drop_last() =~= es.take(i as int));
            assert(t.last() == es[i as int]);
            if i == 0 {
                assert(es.take(0) =~= Seq::<(u32, Seq<char>)>::empty());
            }
        }
        i = i + 1;
    }
    assert(es.take(i as int) =~= es);
    r
}

/// `<source type="mime" srcset="..." sizes="100vw">`
pub open spec fn source_text(mime: Seq<char>, entries: Seq<(u32, Seq<char>)>) -> Seq<char> {
    "<source type=\""@ + mime + "\" srcset=\""@ + srcset_text(entries) + "\" sizes=\"100vw\">"@
}

/// The `<source>` of a `<picture>`.
pub fn source_tag(mime: &str, entries: &[(u32, String)]) -> (r: String)
    ensures
        r@ == source_text(mime@, entries@.map_values(|e: (u32, String)| (e.0, e.1@))),
{
    let mut r = owned("<source type=\"");
    r.append(mime);
    r.append("\" srcset=\"");
    r.append(srcset_attr(entries).as_str());
    r.append("\" sizes=\"100vw\">");
    r
}

/// How an `<img>` with resolved variants is rewritten: HTML before it
/// (`<picture>` and the AVIF `<source>`), HTML after it (`</picture>`),
/// and the attributes to set on it.
pub struct PictureEdit {
    pub before: String,
    pub after: String,
    pub attributes: Vec<(String, String)>,
}

/// The attributes set on the `<img>`: its own `srcset` and `sizes`, and
/// the intrinsic width, height and lazy loading when it has none.
pub open spec fn picture_attributes(v: GeneratedView, has_width: bool, has_height: bool, has_loading: bool) -> Seq<
    (Seq<char>, Seq<char>),
> {
    seq![("srcset"@, srcset_text(v.fallback)), ("sizes"@, "100vw"@)] + (if has_width {
        Seq::empty()
    } else {
        seq![("width"@, decimal(v.width as nat))]
    }) + (if has_height {
        Seq::empty()
    } else {
        seq![("height"@, decimal(v.height as nat))]
    }) + (if has_loading {
        Seq::empty()
    } else {
        seq![("loading"@, "lazy"@)]
    })
}

pub open spec fn pairs_view(v: Seq<(String, String)>) -> Seq<(Seq<char>, Seq<char>)> {
    v.map_values(|p: (String, String)| (p.0@, p.1@))
}

/// How to rewrite an `<img>` into a `<picture>` with its variants.
pub fn picture_edit(variants: &GeneratedImage, has_width: bool, has_height: bool, has_loading: bool) -> (r:
    PictureEdit)
    ensures
        r.before@ == "<picture>"@ + source_text("image/avif"@, variants@.avif),
        r.after@ == "</picture>"@,
        pairs_view(r.attributes@) == picture_attributes(
            variants@,
            has_width,
            has_height,
            has_loading,
        ),
{
    let mut before = owned("<picture>");
    before.append(source_tag("image/avif", variants.avif_srcset.as_slice()).as_str());
    let mut attributes: Vec<(String, String)> = Vec::new();
    attributes.push((owned("srcset"), srcset_attr(variants.fallback_srcset.as_slice())));
    attributes.push((owned("sizes"), owned("100vw")));
    let ghost a1 = pairs_view(attributes@);
    if !has_width {
        let mut w = String::new();
        push_decimal(&mut w, variants.width as u128);
        attributes.push((owned("width"), w));
    }
    let ghost a2 = pairs_view(attributes@);
    if !has_height {
        let mut h = String::new();
        push_decimal(&mut h, variants.height as u128);
        attributes.push((owned("height"), h));
    }
    let ghost a3 = pairs_view(attributes@);
    if !has_loading {
        attributes.push((owned("loading"), owned("lazy")));
    }
    proof {
        assert(a1 =~= seq![("srcset"@, srcset_text(variants@.fallback)), ("sizes"@, "100vw"@)]);
        assert(pairs_view(attributes@) =~= picture_attributes(
            variants@,
            has_width,
            has_height,
            has_loading,
        ));
    }
    PictureEdit { before, after: owned("</picture>"), attributes }
}

/// What becomes of one `<img src>`: nothing when its `src` resolved to no
/// variants (the element stays as it is), else the `<picture>` edit.
pub fn img_edit(variants: Option<&GeneratedImage>, has_width: bool, has_height: bool, has_loading: bool) -> (r:
    Option<PictureEdit>)
    ensures
        r is None <==> variants is None,
        match (variants, r) {
            (Some(v), Some(e)) => e.before@ == "<picture>"@ + source_text("image/avif"@, v@.avif)
                && e.after@ == "</picture>"@ && pairs_view(e.attributes@) == picture_attributes(
                v@,
                has_width,
                has_height,
                has_loading,
            ),
            _ => true,
        },
{
    match variants {
        Some(v) => Some(picture_edit(v, has_width, has_height, has_loading)),
        None => None,
    }
}

/// The variants generated during one build, by the path a page wrote:
/// the same image on several pages is decoded and encoded once.
pub struct VariantCache {
    entries: StrMap<Option<GeneratedImage>>,
}

pub open spec fn variant_view(v: Option<GeneratedImage>) -> Option<GeneratedView> {
    match v {
        Some(g) => Some(g@),
        None => None,
    }
}

impl VariantCache {
    /// Path to the image's variants (none when it was not optimized).
    pub closed spec fn view(&self) -> Map<Seq<char>, Option<GeneratedView>> {
        self.entries@.map_values(|v: Option<GeneratedImage>| variant_view(v))
    }

    /// An empty cache.
    pub fn new() -> (c: Self)
        ensures
            c@ == Map::<Seq<char>, Option<GeneratedView>>::empty(),
    {
        let c = VariantCache { entries: StrMap::new() };
        assert(c@ =~= Map::<Seq<char>, Option<GeneratedView>>::empty());
        c
    }

    /// How many distinct images ended up with variants.
    pub fn optimized_count(&self) -> (n: usize)
        ensures
            n == self@.dom().filter(|k: Seq<char>| self@[k] is Some).len(),
    {
        let len = self.entries.len();
        let mut n: usize = 0;
        let mut i: usize = 0;
        let ghost done = Set::<Seq<char>>::empty();
        while i < len
            invariant
                len == self.entries.pairs().len(),
                i <= len,
                n <= i,
                crate::strmap::sorted_keys(self.entries.pairs()),
                forall|k: Seq<char>|
                    #![trigger self.entries@.contains_key(k)]
                    self.entries@.contains_key(k) <==> exists|j: int|
                        crate::strmap::has_key_at(self.entries.pairs(), k, j),
                forall|j: int|
                    0 <= j < self.entries.pairs().len() ==> #[trigger] self.entries@[self.entries.pairs()[j].0]
                        == self.entries.pairs()[j].1,
                done == Set::new(
                    |k: Seq<char>|
                        exists|j: int|
                            0 <= j < i && self.entries.pairs()[j].0 == k
                                && self.entries.pairs()[j].1 is Some,
                ),
                done.finite(),
                done.len() == n,
            decreases len - i,
        {
            let v = self.entries.value_at(i);
            let ghost k = self.entries.pairs()[i as int].0;
            let ghost prev = done;
            proof {
                assert(!prev.contains(k)) by {
                    if prev.contains(k) {
                        let j = choose|j: int|
                            0 <= j < i && self.entries.pairs()[j].0 == k
                                && self.entries.pairs()[j].1 is Some;
                        crate::strmap::lemma_seq_lt_irreflexive(k);
                    }
                }
            }
            if v.is_some() {
                n = n + 1;
                proof {
                    done = prev.insert(k);
                    assert(done =~= Set::new(
                        |k2: Seq<char>|
                            exists|j: int|
                                0 <= j < i + 1 && self.entries.pairs()[j].0 == k2
                                    && self.entries.pairs()[j].1 is Some,
                    ));
                }
            } else {
                proof {
                    assert(done =~= Set::new(
                        |k2: Seq<char>|
                            exists|j: int|
                                0 <= j < i + 1 && self.entries.pairs()[j].0 == k2
                                    && self.entries.pairs()[j].1 is Some,
                    )) by {
                        assert forall|k2: Seq<char>| (exists|j: int|
                            0 <= j < i + 1 && self.entries.pairs()[j].0 == k2
                                && self.entries.pairs()[j].1 is Some) implies done.contains(k2) by {
                            let j = choose|j: int|
                                0 <= j < i + 1 && self.entries.pairs()[j].0 == k2
                                    && self.entries.pairs()[j].1 is Some;
                            if j == i {
                                assert(self.entries.pairs()[j].1 == *v);
                            }
                        }
                    }
                }
            }
            i = i + 1;
        }
        proof {
            assert(done =~= self@.dom().filter(|k: Seq<char>| self@[k] is Some)) by {
                assert forall|k: Seq<char>| done.contains(k) <==> self@.dom().filter(
                    |k: Seq<char>| self@[k] is Some,
                ).contains(k) by {
                    if done.contains(k) {
                        let j = choose|j: int|
                            0 <= j < i && self.entries.pairs()[j].0 == k
                                && self.entries.pairs()[j].1 is Some;
                        assert(crate::strmap::has_key_at(self.entries.pairs(), k, j));
                        assert(self.entries@.contains_key(k));
                    }
                    if self@.dom().filter(|k: Seq<char>| self@[k] is Some).contains(k) {
                        assert(self.entries@.contains_key(k));
                        let j = choose|j: int| crate::strmap::has_key_at(self.entries.pairs(), k, j);
                        assert(self.entries@[self.entries.pairs()[j].0] == self.entries.pairs()[j].1);
                    }
                }
            }
        }
        n
    }

    /// The variants of `src`: from the cache when this build already
    /// looked at it (without generating again), otherwise generated once
    /// (only for a supported photo) and remembered, a failure included,
    /// which is reported to `on_error` and leaves the image as it is.
    pub fn get_or_generate<G, E>(&mut self, src: &str, generate: G, on_error: E) -> (r: Option<
        GeneratedImage,
    >) where G: FnOnce() -> Result<Option<GeneratedImage>, String>, E: FnOnce(&String)
        requires
            call_requires(generate, ()),
            forall|e: &String| call_requires(on_error, (e,)),
        ensures
            old(self)@.contains_key(src@) ==> final(self)@ == old(self)@ && variant_view(r)
                == old(self)@[src@],
            !old(self)@.contains_key(src@) && !supported_path(src@) ==> r is None && final(self)@
                == old(self)@.insert(src@, None),
            !old(self)@.contains_key(src@) && supported_path(src@) ==> exists|
                res: Result<Option<GeneratedImage>, String>,
            |
                call_ensures(generate, (), res) && match res {
                    Ok(v) => variant_view(r) == variant_view(v) && final(self)@ == old(self)@.insert(
                        src@,
                        variant_view(v),
                    ),
                    Err(_) => r is None && final(self)@ == old(self)@.insert(src@, None),
                },
    {
        match self.entries.get(src) {
            Some(cached) => {
                let r = match cached {
                    Some(g) => Some(g.clone()),
                    None => None,
                };
                return r;
            },
            None => {},
        }
        let variant: Option<GeneratedImage> = if is_supported(src) {
            let res = generate();
            match res {
                Ok(v) => v,
                Err(err) => {
                    on_error(&err);
                    None
                },
            }
        } else {
            None
        };
        let r = match &variant {
            Some(g) => Some(g.clone()),
            None => None,
        };
        let ghost vv = variant_view(variant);
        self.entries.insert(owned(src), variant);
        assert(self@ =~= old(self)@.insert(src@, vv));
        r
    }
}

} // verus!
