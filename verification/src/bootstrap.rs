//! The boot `<script>` that a page needs for progressive activation,
//! SPA-style navigation and progressively enhanced forms to work in a
//! browser.
//!
//! The router is always loaded. The activation runtime is loaded only when
//! the manifest has entries, `@nexa/forms` only for a page with a form,
//! `@nexa/islands` only for a page with an island, `@nexa/telemetry` only
//! when an endpoint is configured, and the service worker is registered
//! only for a PWA. Every page also defines `reactivate(root)`, which the
//! router calls after each navigation: it re-reads the manifest, embedded
//! as inert JSON, from the swapped document and loads, with a dynamic
//! `import()`, only what the new page needs.
use vstd::prelude::*;

use crate::activation::{manifest_json, ActivationManifest, EntryView};
use crate::assets::{
    bundle_filename, forms_filename, islands_filename, nexa_forms_filename, nexa_islands_filename,
    nexa_router_filename, nexa_runtime_filename, nexa_telemetry_filename, router_filename,
    runtime_filename, telemetry_filename, FrameworkAssets,
};
use crate::hash::short_hash_of;
use crate::json::{json_quote, json_string_literal};
use crate::text::{
    contains_seq, ends_line, ends_with_seq, starts_with_seq, is_lower_hex, lemma_absent_char, lemma_absent_triple,
    lemma_join_lines, lemma_seam, last_occurrence, lemma_contains_in_middle, lemma_contains_left,
    lemma_contains_right, lemma_contains_self, owned, replace_seq,
    replace_str, rfind_str, text_if,
};
use vstd::string::*;

verus! {

pub const REACTIVATE_HEAD: &'static str = "\nlet disposeActivation = () => {};\nlet disposeForms = () => {};\nlet disposeIslands = () => {};\n\nasync function reactivate(root) {\n    disposeActivation();\n    disposeForms();\n    disposeIslands();\n    disposeActivation = disposeForms = disposeIslands = () => {};\n\n    const manifestEl = root.querySelector(\"script[data-nexa-manifest]\");\n    if (manifestEl) {\n        const { initActivation } = await import(\"/assets/";

pub const REACTIVATE_AFTER_RUNTIME: &'static str = "\");\n        disposeActivation = initActivation(JSON.parse(manifestEl.textContent), { root });\n    }\n    if (root.querySelector(\"[data-nexa-form]\")) {\n        const { initForms } = await import(\"/assets/";

pub const REACTIVATE_AFTER_FORMS: &'static str = "\");\n        disposeForms = initForms(root);\n    }\n    if (root.querySelector(\"[data-nexa-island]\")) {\n        const { initIslands } = await import(\"/assets/";

pub const REACTIVATE_TAIL: &'static str = "\");\n        disposeIslands = initIslands({ root });\n    }\n}\n";

/// The `reactivate(root)` function every page defines, which loads the
/// runtime, forms and islands bundles (by the given file names) only when
/// the swapped document needs them.
pub open spec fn reactivate_text(runtime: Seq<char>, forms: Seq<char>, islands: Seq<char>) -> Seq<
    char,
> {
    REACTIVATE_HEAD@ + runtime + REACTIVATE_AFTER_RUNTIME@ + forms + REACTIVATE_AFTER_FORMS@
        + islands + REACTIVATE_TAIL@
}

/// The `reactivate(root)` function of every page.
pub fn reactivate_fn(assets: &FrameworkAssets) -> (r: String)
    ensures
        r@ == reactivate_text(
            runtime_filename(*assets),
            forms_filename(*assets),
            islands_filename(*assets),
        ),
{
    let mut r = owned(REACTIVATE_HEAD);
    r.append(nexa_runtime_filename(assets).as_str());
    r.append(REACTIVATE_AFTER_RUNTIME);
    r.append(nexa_forms_filename(assets).as_str());
    r.append(REACTIVATE_AFTER_FORMS);
    r.append(nexa_islands_filename(assets).as_str());
    r.append(REACTIVATE_TAIL);
    r
}

/// `html` with `fragment` right before its last `</tag>`, or at its end
/// when there is none.
pub open spec fn insert_before_closing(html: Seq<char>, tag: Seq<char>, fragment: Seq<char>) -> Seq<
    char,
> {
    match last_occurrence(html, "</"@ + tag + ">"@) {
        Some(pos) => html.take(pos) + fragment + html.skip(pos),
        None => html + fragment,
    }
}

/// Inserts `fragment` right before the last `</tag>` of `html`, or at the
/// end of the document when the tag is missing (`</body>` for the boot
/// script, `</head>` for the development reload script).
pub fn insert_before_closing_tag(html: &str, tag: &str, fragment: &str) -> (r: String)
    ensures
        r@ == insert_before_closing(html@, tag@, fragment@),
{
    let mut needle = owned("</");
    needle.append(tag);
    needle.append(">");
    match rfind_str(html, needle.as_str()) {
        Some(pos) => {
            let n = html.unicode_len();
            let mut r = owned(html.substring_char(0, pos));
            r.append(fragment);
            r.append(html.substring_char(pos, n));
            assert(r@ =~= html@.take(pos as int) + fragment@ + html@.skip(pos as int));
            r
        },
        None => {
            let mut r = owned(html);
            r.append(fragment);
            r
        },
    }
}

pub const MANIFEST_SCRIPT_OPEN: &'static str = "<script type=\"application/json\" data-nexa-manifest>";

pub const SCRIPT_CLOSE_LINE: &'static str = "</script>\n";

pub const MODULE_SCRIPT_OPEN: &'static str = "<script type=\"module\">\n";

pub const ROUTER_IMPORT: &'static str = "import { initRouter, initPrefetch } from \"/assets/";

pub const RUNTIME_IMPORT: &'static str = "import { initActivation } from \"/assets/";

pub const FORMS_IMPORT: &'static str = "import { initForms } from \"/assets/";

pub const ISLANDS_IMPORT: &'static str = "import { initIslands } from \"/assets/";

pub const TELEMETRY_IMPORT: &'static str = "import { initTelemetry } from \"/assets/";

pub const IMPORT_END: &'static str = "\";\n";

pub const ROUTER_START: &'static str = "initRouter({ onNavigate: reactivate });\ninitPrefetch();\n";

pub const ACTIVATION_START: &'static str = "disposeActivation = initActivation(JSON.parse(document.querySelector(\"script[data-nexa-manifest]\").textContent));\n";

pub const FORMS_START: &'static str = "disposeForms = initForms();\n";

pub const ISLANDS_START: &'static str = "disposeIslands = initIslands();\n";

pub const TELEMETRY_START: &'static str = "initTelemetry({ endpoint: ";

pub const TELEMETRY_END: &'static str = " });\n";

pub const SERVICE_WORKER_START: &'static str = "if (\"serviceWorker\" in navigator) navigator.serviceWorker.register(\"/sw.js\");\n";

/// A static `import` of a bundle.
pub open spec fn bundle_import(head: Seq<char>, filename: Seq<char>) -> Seq<char> {
    head + filename + IMPORT_END@
}

/// The inert `<script type="application/json" data-nexa-manifest>` with
/// the manifest's JSON, in which no `</script>` can close the tag early.
pub open spec fn manifest_script(pairs: Seq<(Seq<char>, EntryView)>) -> Seq<char> {
    MANIFEST_SCRIPT_OPEN@ + replace_seq(manifest_json(pairs), "</script>"@, "<\\/script>"@)
        + SCRIPT_CLOSE_LINE@
}

/// The static imports of the boot script.
pub open spec fn boot_imports(
    a: FrameworkAssets,
    has_manifest: bool,
    has_forms: bool,
    has_islands: bool,
    has_telemetry: bool,
) -> Seq<char> {
    bundle_import(ROUTER_IMPORT@, router_filename(a)) + text_if(
        has_manifest,
        bundle_import(RUNTIME_IMPORT@, runtime_filename(a)),
    ) + text_if(has_forms, bundle_import(FORMS_IMPORT@, forms_filename(a))) + text_if(
        has_islands,
        bundle_import(ISLANDS_IMPORT@, islands_filename(a)),
    ) + text_if(has_telemetry, bundle_import(TELEMETRY_IMPORT@, telemetry_filename(a)))
}

/// The start-up calls of the boot script.
pub open spec fn boot_calls(
    has_manifest: bool,
    has_forms: bool,
    has_islands: bool,
    has_pwa: bool,
    telemetry_endpoint: Option<Seq<char>>,
) -> Seq<char> {
    ROUTER_START@ + text_if(has_manifest, ACTIVATION_START@) + text_if(has_forms, FORMS_START@)
        + text_if(has_islands, ISLANDS_START@) + match telemetry_endpoint {
        Some(ep) => TELEMETRY_START@ + json_string_literal(ep) + TELEMETRY_END@,
        None => Seq::empty(),
    } + text_if(has_pwa, SERVICE_WORKER_START@)
}

/// The boot script of a page.
pub open spec fn boot_script(
    a: FrameworkAssets,
    has_manifest: bool,
    has_forms: bool,
    has_islands: bool,
    has_pwa: bool,
    telemetry_endpoint: Option<Seq<char>>,
) -> Seq<char> {
    MODULE_SCRIPT_OPEN@ + boot_imports(
        a,
        has_manifest,
        has_forms,
        has_islands,
        telemetry_endpoint is Some,
    ) + reactivate_text(runtime_filename(a), forms_filename(a), islands_filename(a))
        + boot_calls(has_manifest, has_forms, has_islands, has_pwa, telemetry_endpoint)
        + SCRIPT_CLOSE_LINE@
}

/// The page with its boot scripts right before `</body>`.
pub open spec fn injected(
    html: Seq<char>,
    manifest: Map<Seq<char>, EntryView>,
    pairs: Seq<(Seq<char>, EntryView)>,
    a: FrameworkAssets,
    has_forms: bool,
    has_islands: bool,
    has_pwa: bool,
    telemetry_endpoint: Option<Seq<char>>,
) -> Seq<char> {
    let has_manifest = manifest.dom().len() > 0;
    insert_before_closing(
        html,
        "body"@,
        text_if(has_manifest, manifest_script(pairs)) + boot_script(
            a,
            has_manifest,
            has_forms,
            has_islands,
            has_pwa,
            telemetry_endpoint,
        ),
    )
}

fn push_import(script: &mut String, head: &str, filename: String)
    ensures
        final(script)@ == old(script)@ + bundle_import(head@, filename@),
{
    script.append(head);
    script.append(filename.as_str());
    script.append(IMPORT_END);
}

fn boot_imports_of(
    assets: &FrameworkAssets,
    has_manifest: bool,
    has_forms: bool,
    has_islands: bool,
    has_telemetry: bool,
) -> (r: String)
    ensures
        r@ == boot_imports(*assets, has_manifest, has_forms, has_islands, has_telemetry),
{
    let mut r = String::new();
    push_import(&mut r, ROUTER_IMPORT, nexa_router_filename(assets));
    let ghost s1 = r@;
    if has_manifest {
        push_import(&mut r, RUNTIME_IMPORT, nexa_runtime_filename(assets));
    }
    let ghost s2 = r@;
    if has_forms {
        push_import(&mut r, FORMS_IMPORT, nexa_forms_filename(assets));
    }
    let ghost s3 = r@;
    if has_islands {
        push_import(&mut r, ISLANDS_IMPORT, nexa_islands_filename(assets));
    }
    let ghost s4 = r@;
    if has_telemetry {
        push_import(&mut r, TELEMETRY_IMPORT, nexa_telemetry_filename(assets));
    }
    proof {
        assert(s1 =~= bundle_import(ROUTER_IMPORT@, router_filename(*assets)));
        assert(s2 =~= s1 + text_if(has_manifest, bundle_import(RUNTIME_IMPORT@, runtime_filename(*assets))));
        assert(s3 =~= s2 + text_if(has_forms, bundle_import(FORMS_IMPORT@, forms_filename(*assets))));
        assert(s4 =~= s3 + text_if(has_islands, bundle_import(ISLANDS_IMPORT@, islands_filename(*assets))));
        assert(r@ =~= s4 + text_if(has_telemetry, bundle_import(TELEMETRY_IMPORT@, telemetry_filename(*assets))));
    }
    r
}

fn append_if(out: &mut String, c: bool, s: &str)
    ensures
        final(out)@ == old(out)@ + text_if(c, s@),
{
    if c {
        out.append(s);
    } else {
        assert(out@ =~= old(out)@ + text_if(c, s@));
    }
}

fn boot_calls_of(
    has_manifest: bool,
    has_forms: bool,
    has_islands: bool,
    has_pwa: bool,
    telemetry_endpoint: Option<&str>,
) -> (r: String)
    ensures
        r@ == boot_calls(
            has_manifest,
            has_forms,
            has_islands,
            has_pwa,
            match telemetry_endpoint {
                Some(e) => Some(e@),
                None => None,
            },
        ),
{
    let mut r = owned(ROUTER_START);
    append_if(&mut r, has_manifest, ACTIVATION_START);
    append_if(&mut r, has_forms, FORMS_START);
    append_if(&mut r, has_islands, ISLANDS_START);
    let ghost before = r@;
    match telemetry_endpoint {
        Some(endpoint) => {
            r.append(TELEMETRY_START);
            r.append(json_quote(endpoint).as_str());
            r.append(TELEMETRY_END);
            assert(r@ =~= before + (TELEMETRY_START@ + json_string_literal(endpoint@)
                + TELEMETRY_END@));
        },
        None => {
            assert(r@ =~= before + Seq::<char>::empty());
        },
    }
    append_if(&mut r, has_pwa, SERVICE_WORKER_START);
    r
}

/// The boot script of a page.
pub fn boot_script_of(
    assets: &FrameworkAssets,
    has_manifest: bool,
    has_forms: bool,
    has_islands: bool,
    has_pwa: bool,
    telemetry_endpoint: Option<&str>,
) -> (r: String)
    ensures
        r@ == boot_script(
            *assets,
            has_manifest,
            has_forms,
            has_islands,
            has_pwa,
            match telemetry_endpoint {
                Some(e) => Some(e@),
                None => None,
            },
        ),
{
    let mut script = owned(MODULE_SCRIPT_OPEN);
    script.append(
        boot_imports_of(assets, has_manifest, has_forms, has_islands, telemetry_endpoint.is_some()).as_str(),
    );
    script.append(reactivate_fn(assets).as_str());
    script.append(boot_calls_of(has_manifest, has_forms, has_islands, has_pwa, telemetry_endpoint).as_str());
    script.append(SCRIPT_CLOSE_LINE);
    script
}

/// The inert script that embeds the manifest.
fn manifest_script_of(manifest: &ActivationManifest) -> (r: String)
    ensures
        r@ == manifest_script(manifest.pairs()),
{
    let json = match manifest.to_json_pretty() {
        Ok(j) => j,
        Err(_) => owned("{}"),
    };
    let mut r = owned(MANIFEST_SCRIPT_OPEN);
    proof {
        reveal_strlit("</script>");
    }
    r.append(replace_str(json.as_str(), "</script>", "<\\/script>").as_str());
    r.append(SCRIPT_CLOSE_LINE);
    r
}

/// Inserts the boot scripts of a page right before `</body>`.
pub fn inject(
    html: &str,
    manifest: &ActivationManifest,
    has_forms: bool,
    has_islands: bool,
    has_pwa: bool,
    telemetry_endpoint: Option<&str>,
    assets: &FrameworkAssets,
) -> (r: String)
    ensures
        r@ == injected(
            html@,
            manifest@,
            manifest.pairs(),
            *assets,
            has_forms,
            has_islands,
            has_pwa,
            match telemetry_endpoint {
                Some(e) => Some(e@),
                None => None,
            },
        ),
{
    let has_manifest = !manifest.is_empty();
    let mut fragment = String::new();
    if has_manifest {
        fragment.append(manifest_script_of(manifest).as_str());
    }
    let ghost prelude = fragment@;
    fragment.append(
        boot_script_of(assets, has_manifest, has_forms, has_islands, has_pwa, telemetry_endpoint).as_str(),
    );
    assert(prelude =~= text_if(has_manifest, manifest_script(manifest.pairs())));
    insert_before_closing_tag(html, "body", fragment.as_str())
}

} // verus!

verus! {

/// Whatever occurs in the fragment occurs in the page it was inserted in.
proof fn lemma_inserted_fragment_kept(html: Seq<char>, tag: Seq<char>, f: Seq<char>, p: Seq<char>)
    requires
        contains_seq(f, p),
    ensures
        contains_seq(insert_before_closing(html, tag, f), p),
{
    match last_occurrence(html, "</"@ + tag + ">"@) {
        Some(pos) => {
            lemma_contains_in_middle(html.take(pos), f, html.skip(pos), p);
        },
        None => {
            lemma_contains_in_middle(html, f, Seq::empty(), p);
            assert(html + f + Seq::<char>::empty() =~= html + f);
        },
    }
}

/// Every page loads the router and defines `reactivate`, whether or not
/// it has anything interactive, so that client-side navigation can bring
/// any page to life.
pub proof fn law_every_page_loads_router_and_reactivate(
    html: Seq<char>,
    manifest: Map<Seq<char>, EntryView>,
    pairs: Seq<(Seq<char>, EntryView)>,
    a: FrameworkAssets,
    has_forms: bool,
    has_islands: bool,
    has_pwa: bool,
    telemetry_endpoint: Option<Seq<char>>,
)
    ensures
        contains_seq(
            injected(html, manifest, pairs, a, has_forms, has_islands, has_pwa, telemetry_endpoint),
            bundle_import(ROUTER_IMPORT@, router_filename(a)),
        ),
        contains_seq(
            injected(html, manifest, pairs, a, has_forms, has_islands, has_pwa, telemetry_endpoint),
            reactivate_text(runtime_filename(a), forms_filename(a), islands_filename(a)),
        ),
{
    let hm = manifest.dom().len() > 0;
    let router = bundle_import(ROUTER_IMPORT@, router_filename(a));
    let re = reactivate_text(runtime_filename(a), forms_filename(a), islands_filename(a));
    let has_t = telemetry_endpoint is Some;
    let x1 = text_if(hm, bundle_import(RUNTIME_IMPORT@, runtime_filename(a)));
    let x2 = text_if(has_forms, bundle_import(FORMS_IMPORT@, forms_filename(a)));
    let x3 = text_if(has_islands, bundle_import(ISLANDS_IMPORT@, islands_filename(a)));
    let x4 = text_if(has_t, bundle_import(TELEMETRY_IMPORT@, telemetry_filename(a)));
    let bi = boot_imports(a, hm, has_forms, has_islands, has_t);
    let calls = boot_calls(hm, has_forms, has_islands, has_pwa, telemetry_endpoint);
    let bs = boot_script(a, hm, has_forms, has_islands, has_pwa, telemetry_endpoint);
    let tf = text_if(hm, manifest_script(pairs));
    let f = tf + bs;
    lemma_contains_self(router);
    lemma_contains_left(router, x1, router);
    lemma_contains_left(router + x1, x2, router);
    lemma_contains_left(router + x1 + x2, x3, router);
    lemma_contains_left(router + x1 + x2 + x3, x4, router);
    assert(bi == router + x1 + x2 + x3 + x4);
    let open = MODULE_SCRIPT_OPEN@;
    lemma_contains_right(open, bi, router);
    lemma_contains_left(open + bi, re, router);
    lemma_contains_left(open + bi + re, calls, router);
    lemma_contains_left(open + bi + re + calls, SCRIPT_CLOSE_LINE@, router);
    lemma_contains_self(re);
    lemma_contains_right(open + bi, re, re);
    lemma_contains_left(open + bi + re, calls, re);
    lemma_contains_left(open + bi + re + calls, SCRIPT_CLOSE_LINE@, re);
    assert(bs == open + bi + re + calls + SCRIPT_CLOSE_LINE@);
    lemma_contains_right(tf, bs, router);
    lemma_contains_right(tf, bs, re);
    lemma_inserted_fragment_kept(html, "body"@, f, router);
    lemma_inserted_fragment_kept(html, "body"@, f, re);
}

} // verus!

verus! {

/// The mark of the embedded manifest's `<script>` tag.
pub open spec fn manifest_marker() -> Seq<char> {
    "data-nexa-manifest>"@
}

/// The static import of the forms bundle.
pub open spec fn forms_marker() -> Seq<char> {
    "import { initForms }"@
}

/// The static import of the islands bundle.
pub open spec fn islands_marker() -> Seq<char> {
    "import { initIslands }"@
}

/// The registration of the service worker.
pub open spec fn service_worker_marker() -> Seq<char> {
    "serviceWorker"@
}

/// The static import of the telemetry bundle.
pub open spec fn telemetry_marker() -> Seq<char> {
    "import { initTelemetry }"@
}

/// What a page gets right before `</body>`: the embedded manifest when it
/// has entries, then the boot script.
pub open spec fn boot_fragment(
    pairs: Seq<(Seq<char>, EntryView)>,
    a: FrameworkAssets,
    has_manifest: bool,
    has_forms: bool,
    has_islands: bool,
    has_pwa: bool,
    telemetry_endpoint: Option<Seq<char>>,
) -> Seq<char> {
    text_if(has_manifest, manifest_script(pairs)) + boot_script(
        a,
        has_manifest,
        has_forms,
        has_islands,
        has_pwa,
        telemetry_endpoint,
    )
}

/// The telemetry start-up line, when there is an endpoint.
pub open spec fn telemetry_line(telemetry_endpoint: Option<Seq<char>>) -> Seq<char> {
    match telemetry_endpoint {
        Some(ep) => TELEMETRY_START@ + json_string_literal(ep) + TELEMETRY_END@,
        None => Seq::empty(),
    }
}

/// A file name made of lowercase letters and `-`.
pub open spec fn plain_stem(stem: Seq<char>) -> bool {
    forall|i: int| 0 <= i < stem.len() ==> ('a' <= #[trigger] stem[i] && stem[i] <= 'z') || stem[i] == '-'
}

/// A character that no bundle file name holds.
pub open spec fn outside_file_names(c: char) -> bool {
    ('A' <= c && c <= 'Z') || c == '>'
}

proof fn lemma_longer_absent(s: Seq<char>, p: Seq<char>)
    requires
        s.len() < p.len(),
    ensures
        !contains_seq(s, p),
{
}

proof fn lemma_stems_plain()
    ensures
        plain_stem("nexa-router"@),
        plain_stem("nexa-runtime"@),
        plain_stem("nexa-forms"@),
        plain_stem("nexa-islands"@),
        plain_stem("nexa-telemetry"@),
{
    reveal_strlit("nexa-router");
    reveal_strlit("nexa-runtime");
    reveal_strlit("nexa-forms");
    reveal_strlit("nexa-islands");
    reveal_strlit("nexa-telemetry");
}

/// A pattern with a character outside file names does not occur in a
/// bundle's file name.
proof fn lemma_filename_free(stem: Seq<char>, content: Seq<char>, p: Seq<char>, m: int)
    requires
        0 <= m < p.len(),
        outside_file_names(p[m]),
        plain_stem(stem),
    ensures
        !contains_seq(bundle_filename(stem, content), p),
{
    crate::hash::law_short_hash_is_eight_lowercase_hex_digits(content);
    reveal_strlit(".");
    reveal_strlit(".js");
    let h = short_hash_of(content);
    let f = bundle_filename(stem, content);
    assert(f == stem + "."@ + h + ".js"@);
    assert forall|i: int| 0 <= i < f.len() implies f[i] != p[m] by {
        if i < stem.len() {
            assert(f[i] == stem[i]);
        } else if i == stem.len() {
            assert(f[i] == '.');
        } else if i < stem.len() + 9 {
            assert(f[i] == h[i - stem.len() - 1]);
            assert(is_lower_hex(h[i - stem.len() - 1]));
        } else {
            assert(f[i] == ".js"@[i - stem.len() - 9]);
        }
    }
    lemma_absent_char(f, p, m);
}

/// A static import of a bundle holds a pattern only when its head does,
/// for a pattern that cannot cross the head's closing `/` or the quote
/// after the file name.
proof fn lemma_import_free(head: Seq<char>, stem: Seq<char>, content: Seq<char>, p: Seq<char>, m: int)
    requires
        0 <= m < p.len(),
        outside_file_names(p[m]),
        plain_stem(stem),
        head.len() > 0,
        head.last() == '/',
        !p.contains('/'),
        !p.contains('"'),
        p.len() > 3,
        !contains_seq(head, p),
    ensures
        !contains_seq(bundle_import(head, bundle_filename(stem, content)), p),
        ends_line(bundle_import(head, bundle_filename(stem, content))),
{
    reveal_strlit("\";\n");
    let f = bundle_filename(stem, content);
    lemma_filename_free(stem, content, p, m);
    lemma_seam(head, f, p);
    lemma_longer_absent(IMPORT_END@, p);
    lemma_seam(head + f, IMPORT_END@, p);
    assert((head + f + IMPORT_END@).last() == IMPORT_END@.last());
}

/// The part of a static import that comes before its file name holds a
/// pattern only when its head does.
proof fn lemma_import_holds(head: Seq<char>, filename: Seq<char>, p: Seq<char>)
    requires
        contains_seq(head, p),
    ensures
        contains_seq(bundle_import(head, filename), p),
        ends_line(bundle_import(head, filename)),
{
    reveal_strlit("\";\n");
    lemma_contains_left(head, filename, p);
    lemma_contains_left(head + filename, IMPORT_END@, p);
    assert((head + filename + IMPORT_END@).last() == IMPORT_END@.last());
}

/// `reactivate` holds a pattern that none of its fixed parts holds only
/// inside a file name, and so never for a pattern outside file names.
proof fn lemma_reactivate_free(a: FrameworkAssets, p: Seq<char>, m: int)
    requires
        0 <= m < p.len(),
        outside_file_names(p[m]),
        !p.contains('/'),
        !p.contains('"'),
        !contains_seq(REACTIVATE_HEAD@, p),
        !contains_seq(REACTIVATE_AFTER_RUNTIME@, p),
        !contains_seq(REACTIVATE_AFTER_FORMS@, p),
        !contains_seq(REACTIVATE_TAIL@, p),
    ensures
        !contains_seq(reactivate_text(runtime_filename(a), forms_filename(a), islands_filename(a)), p),
        ends_line(reactivate_text(runtime_filename(a), forms_filename(a), islands_filename(a))),
{
    reveal_strlit("\nlet disposeActivation = () => {};\nlet disposeForms = () => {};\nlet disposeIslands = () => {};\n\nasync function reactivate(root) {\n    disposeActivation();\n    disposeForms();\n    disposeIslands();\n    disposeActivation = disposeForms = disposeIslands = () => {};\n\n    const manifestEl = root.querySelector(\"script[data-nexa-manifest]\");\n    if (manifestEl) {\n        const { initActivation } = await import(\"/assets/");
    reveal_strlit("\");\n        disposeActivation = initActivation(JSON.parse(manifestEl.textContent), { root });\n    }\n    if (root.querySelector(\"[data-nexa-form]\")) {\n        const { initForms } = await import(\"/assets/");
    reveal_strlit("\");\n        disposeForms = initForms(root);\n    }\n    if (root.querySelector(\"[data-nexa-island]\")) {\n        const { initIslands } = await import(\"/assets/");
    reveal_strlit("\");\n        disposeIslands = initIslands({ root });\n    }\n}\n");
    lemma_stems_plain();
    let r = runtime_filename(a);
    let f = forms_filename(a);
    let i = islands_filename(a);
    lemma_filename_free("nexa-runtime"@, a.runtime@, p, m);
    lemma_filename_free("nexa-forms"@, a.forms@, p, m);
    lemma_filename_free("nexa-islands"@, a.islands@, p, m);
    let s1 = REACTIVATE_HEAD@ + r;
    lemma_seam(REACTIVATE_HEAD@, r, p);
    let s2 = s1 + REACTIVATE_AFTER_RUNTIME@;
    lemma_seam(s1, REACTIVATE_AFTER_RUNTIME@, p);
    let s3 = s2 + f;
    assert(s2.last() == REACTIVATE_AFTER_RUNTIME@.last());
    lemma_seam(s2, f, p);
    let s4 = s3 + REACTIVATE_AFTER_FORMS@;
    lemma_seam(s3, REACTIVATE_AFTER_FORMS@, p);
    let s5 = s4 + i;
    assert(s4.last() == REACTIVATE_AFTER_FORMS@.last());
    lemma_seam(s4, i, p);
    let s6 = s5 + REACTIVATE_TAIL@;
    lemma_seam(s5, REACTIVATE_TAIL@, p);
    assert(s6.last() == REACTIVATE_TAIL@.last());
}

/// The telemetry line holds a pattern without quotes only in its fixed
/// parts or inside the quoted endpoint.
proof fn lemma_telemetry_line_free(ep: Seq<char>, p: Seq<char>)
    requires
        !p.contains('"'),
        !contains_seq(TELEMETRY_START@, p),
        !contains_seq(TELEMETRY_END@, p),
        !contains_seq(json_string_literal(ep), p),
    ensures
        !contains_seq(telemetry_line(Some(ep)), p),
        ends_line(telemetry_line(Some(ep))),
{
    reveal_strlit(" });\n");
    let lit = json_string_literal(ep);
    assert(lit[0] == '"');
    lemma_seam(TELEMETRY_START@, lit, p);
    assert((TELEMETRY_START@ + lit).last() == '"');
    lemma_seam(TELEMETRY_START@ + lit, TELEMETRY_END@, p);
    assert((TELEMETRY_START@ + lit + TELEMETRY_END@).last() == TELEMETRY_END@.last());
}

} // verus!

verus! {

proof fn lemma_ends(x: Seq<char>, y: Seq<char>)
    requires
        y.len() > 0,
        y.last() == '\n',
    ensures
        ends_line(x + y),
{
    assert((x + y).last() == y.last());
}

/// Regrouping fifteen texts joined as a boot fragment is, left to right.
proof fn lemma_regroup(
    y0: Seq<char>, y1: Seq<char>, y2: Seq<char>, y3: Seq<char>, y4: Seq<char>,
    y5: Seq<char>, y6: Seq<char>, y7: Seq<char>, y8: Seq<char>, y9: Seq<char>,
    y10: Seq<char>, y11: Seq<char>, y12: Seq<char>, y13: Seq<char>, y14: Seq<char>,
)
    ensures
        y0 + (y1 + (y2 + y3 + y4 + y5 + y6) + y7 + (y8 + y9 + y10 + y11 + y12 + y13) + y14) == y0
            + y1 + y2 + y3 + y4 + y5 + y6 + y7 + y8 + y9 + y10 + y11 + y12 + y13 + y14,
{
    assert(y0 + (y1 + (y2 + y3 + y4 + y5 + y6) + y7 + (y8 + y9 + y10 + y11 + y12 + y13) + y14) =~= y0
        + y1 + y2 + y3 + y4 + y5 + y6 + y7 + y8 + y9 + y10 + y11 + y12 + y13 + y14);
}

/// Over fifteen texts that each end a line, a pattern without a line
/// break occurs in their join exactly when it occurs in one of them.
proof fn lemma_fifteen_lines(
    y0: Seq<char>, y1: Seq<char>, y2: Seq<char>, y3: Seq<char>, y4: Seq<char>,
    y5: Seq<char>, y6: Seq<char>, y7: Seq<char>, y8: Seq<char>, y9: Seq<char>,
    y10: Seq<char>, y11: Seq<char>, y12: Seq<char>, y13: Seq<char>, y14: Seq<char>,
    p: Seq<char>,
)
    requires
        !p.contains('\n'),
        ends_line(y0), ends_line(y1), ends_line(y2), ends_line(y3), ends_line(y4),
        ends_line(y5), ends_line(y6), ends_line(y7), ends_line(y8), ends_line(y9),
        ends_line(y10), ends_line(y11), ends_line(y12), ends_line(y13), ends_line(y14),
    ensures
        contains_seq(
            y0 + y1 + y2 + y3 + y4 + y5 + y6 + y7 + y8 + y9 + y10 + y11 + y12 + y13 + y14,
            p,
        ) <==> (contains_seq(y0, p) || contains_seq(y1, p) || contains_seq(y2, p) || contains_seq(y3, p)
            || contains_seq(y4, p) || contains_seq(y5, p) || contains_seq(y6, p) || contains_seq(y7, p)
            || contains_seq(y8, p) || contains_seq(y9, p) || contains_seq(y10, p) || contains_seq(y11, p)
            || contains_seq(y12, p) || contains_seq(y13, p) || contains_seq(y14, p)),
{
    let s1 = y0 + y1;
    lemma_join_lines(y0, y1, p);
    let s2 = s1 + y2;
    lemma_join_lines(s1, y2, p);
    let s3 = s2 + y3;
    lemma_join_lines(s2, y3, p);
    let s4 = s3 + y4;
    lemma_join_lines(s3, y4, p);
    let s5 = s4 + y5;
    lemma_join_lines(s4, y5, p);
    let s6 = s5 + y6;
    lemma_join_lines(s5, y6, p);
    let s7 = s6 + y7;
    lemma_join_lines(s6, y7, p);
    let s8 = s7 + y8;
    lemma_join_lines(s7, y8, p);
    let s9 = s8 + y9;
    lemma_join_lines(s8, y9, p);
    let s10 = s9 + y10;
    lemma_join_lines(s9, y10, p);
    let s11 = s10 + y11;
    lemma_join_lines(s10, y11, p);
    let s12 = s11 + y12;
    lemma_join_lines(s11, y12, p);
    let s13 = s12 + y13;
    lemma_join_lines(s12, y13, p);
    lemma_join_lines(s13, y14, p);
}

} // verus!

verus! {

/// Each piece of the boot fragment ends a line.
#[verifier::rlimit(40)]
proof fn lemma_pieces_end_lines(
    pairs: Seq<(Seq<char>, EntryView)>,
    a: FrameworkAssets,
    hm: bool,
    f: bool,
    i: bool,
    pw: bool,
    t: Option<Seq<char>>,
)
    ensures
        ends_line(text_if(hm, manifest_script(pairs))),
        ends_line(MODULE_SCRIPT_OPEN@),
        ends_line(bundle_import(ROUTER_IMPORT@, router_filename(a))),
        ends_line(text_if(hm, bundle_import(RUNTIME_IMPORT@, runtime_filename(a)))),
        ends_line(text_if(f, bundle_import(FORMS_IMPORT@, forms_filename(a)))),
        ends_line(text_if(i, bundle_import(ISLANDS_IMPORT@, islands_filename(a)))),
        ends_line(text_if(t is Some, bundle_import(TELEMETRY_IMPORT@, telemetry_filename(a)))),
        ends_line(reactivate_text(runtime_filename(a), forms_filename(a), islands_filename(a))),
        ends_line(ROUTER_START@),
        ends_line(text_if(hm, ACTIVATION_START@)),
        ends_line(text_if(f, FORMS_START@)),
        ends_line(text_if(i, ISLANDS_START@)),
        ends_line(telemetry_line(t)),
        ends_line(text_if(pw, SERVICE_WORKER_START@)),
        ends_line(SCRIPT_CLOSE_LINE@),
{
    reveal_strlit("<script type=\"module\">\n");
    reveal_strlit("</script>\n");
    reveal_strlit("\";\n");
    reveal_strlit("\");\n        disposeIslands = initIslands({ root });\n    }\n}\n");
    reveal_strlit("initRouter({ onNavigate: reactivate });\ninitPrefetch();\n");
    reveal_strlit("disposeActivation = initActivation(JSON.parse(document.querySelector(\"script[data-nexa-manifest]\").textContent));\n");
    reveal_strlit("disposeForms = initForms();\n");
    reveal_strlit("disposeIslands = initIslands();\n");
    reveal_strlit(" });\n");
    reveal_strlit("if (\"serviceWorker\" in navigator) navigator.serviceWorker.register(\"/sw.js\");\n");
    lemma_ends(
        MANIFEST_SCRIPT_OPEN@ + replace_seq(manifest_json(pairs), "</script>"@, "<\\/script>"@),
        SCRIPT_CLOSE_LINE@,
    );
    lemma_ends(ROUTER_IMPORT@ + router_filename(a), IMPORT_END@);
    lemma_ends(RUNTIME_IMPORT@ + runtime_filename(a), IMPORT_END@);
    lemma_ends(FORMS_IMPORT@ + forms_filename(a), IMPORT_END@);
    lemma_ends(ISLANDS_IMPORT@ + islands_filename(a), IMPORT_END@);
    lemma_ends(TELEMETRY_IMPORT@ + telemetry_filename(a), IMPORT_END@);
    lemma_ends(
        REACTIVATE_HEAD@ + runtime_filename(a) + REACTIVATE_AFTER_RUNTIME@ + forms_filename(a)
            + REACTIVATE_AFTER_FORMS@ + islands_filename(a),
        REACTIVATE_TAIL@,
    );
    match t {
        Some(ep) => {
            lemma_ends(TELEMETRY_START@ + json_string_literal(ep), TELEMETRY_END@);
        },
        None => {},
    }
}

/// A pattern without a line break occurs in the boot fragment exactly
/// when it occurs in one of its pieces.
proof fn lemma_fragment_pieces(
    pairs: Seq<(Seq<char>, EntryView)>,
    a: FrameworkAssets,
    hm: bool,
    f: bool,
    i: bool,
    pw: bool,
    t: Option<Seq<char>>,
    p: Seq<char>,
)
    requires
        !p.contains('\n'),
    ensures
        contains_seq(boot_fragment(pairs, a, hm, f, i, pw, t), p) <==> (contains_seq(text_if(hm, manifest_script(pairs)), p)
            || contains_seq(MODULE_SCRIPT_OPEN@, p)
            || contains_seq(bundle_import(ROUTER_IMPORT@, router_filename(a)), p)
            || contains_seq(text_if(hm, bundle_import(RUNTIME_IMPORT@, runtime_filename(a))), p)
            || contains_seq(text_if(f, bundle_import(FORMS_IMPORT@, forms_filename(a))), p)
            || contains_seq(text_if(i, bundle_import(ISLANDS_IMPORT@, islands_filename(a))), p)
            || contains_seq(text_if(t is Some, bundle_import(TELEMETRY_IMPORT@, telemetry_filename(a))), p)
            || contains_seq(reactivate_text(runtime_filename(a), forms_filename(a), islands_filename(a)), p)
            || contains_seq(ROUTER_START@, p)
            || contains_seq(text_if(hm, ACTIVATION_START@), p)
            || contains_seq(text_if(f, FORMS_START@), p)
            || contains_seq(text_if(i, ISLANDS_START@), p)
            || contains_seq(telemetry_line(t), p)
            || contains_seq(text_if(pw, SERVICE_WORKER_START@), p)
            || contains_seq(SCRIPT_CLOSE_LINE@, p)),
{
    lemma_pieces_end_lines(pairs, a, hm, f, i, pw, t);
    lemma_regroup(text_if(hm, manifest_script(pairs)), MODULE_SCRIPT_OPEN@, bundle_import(ROUTER_IMPORT@, router_filename(a)), text_if(hm, bundle_import(RUNTIME_IMPORT@, runtime_filename(a))), text_if(f, bundle_import(FORMS_IMPORT@, forms_filename(a))), text_if(i, bundle_import(ISLANDS_IMPORT@, islands_filename(a))), text_if(t is Some, bundle_import(TELEMETRY_IMPORT@, telemetry_filename(a))), reactivate_text(runtime_filename(a), forms_filename(a), islands_filename(a)), ROUTER_START@, text_if(hm, ACTIVATION_START@), text_if(f, FORMS_START@), text_if(i, ISLANDS_START@), telemetry_line(t), text_if(pw, SERVICE_WORKER_START@), SCRIPT_CLOSE_LINE@);
    lemma_fifteen_lines(text_if(hm, manifest_script(pairs)), MODULE_SCRIPT_OPEN@, bundle_import(ROUTER_IMPORT@, router_filename(a)), text_if(hm, bundle_import(RUNTIME_IMPORT@, runtime_filename(a))), text_if(f, bundle_import(FORMS_IMPORT@, forms_filename(a))), text_if(i, bundle_import(ISLANDS_IMPORT@, islands_filename(a))), text_if(t is Some, bundle_import(TELEMETRY_IMPORT@, telemetry_filename(a))), reactivate_text(runtime_filename(a), forms_filename(a), islands_filename(a)), ROUTER_START@, text_if(hm, ACTIVATION_START@), text_if(f, FORMS_START@), text_if(i, ISLANDS_START@), telemetry_line(t), text_if(pw, SERVICE_WORKER_START@), SCRIPT_CLOSE_LINE@, p);
}

} // verus!

verus! {
/// Where the text of `manifest_marker` occurs among the fixed texts of the boot script.
proof fn lemma_manifest_marker_in_fixed_texts()
    ensures
        !contains_seq(MODULE_SCRIPT_OPEN@, manifest_marker()),
        !contains_seq(ROUTER_IMPORT@, manifest_marker()),
        !contains_seq(RUNTIME_IMPORT@, manifest_marker()),
        !contains_seq(FORMS_IMPORT@, manifest_marker()),
        !contains_seq(ISLANDS_IMPORT@, manifest_marker()),
        !contains_seq(TELEMETRY_IMPORT@, manifest_marker()),
        !contains_seq(REACTIVATE_HEAD@, manifest_marker()),
        !contains_seq(REACTIVATE_AFTER_RUNTIME@, manifest_marker()),
        !contains_seq(REACTIVATE_AFTER_FORMS@, manifest_marker()),
        !contains_seq(REACTIVATE_TAIL@, manifest_marker()),
        !contains_seq(ROUTER_START@, manifest_marker()),
        !contains_seq(ACTIVATION_START@, manifest_marker()),
        !contains_seq(FORMS_START@, manifest_marker()),
        !contains_seq(ISLANDS_START@, manifest_marker()),
        !contains_seq(TELEMETRY_START@, manifest_marker()),
        !contains_seq(TELEMETRY_END@, manifest_marker()),
        !contains_seq(SERVICE_WORKER_START@, manifest_marker()),
        !contains_seq(SCRIPT_CLOSE_LINE@, manifest_marker()),
        !contains_seq(IMPORT_END@, manifest_marker()),
        contains_seq(MANIFEST_SCRIPT_OPEN@, manifest_marker()),
        !manifest_marker().contains('\n'),
        !manifest_marker().contains('/'),
        !manifest_marker().contains('"'),
        manifest_marker().len() == 19,
        outside_file_names(manifest_marker()[18]),
{
    reveal_strlit("data-nexa-manifest>");
    reveal_strlit("<script type=\"module\">\n");
    lemma_absent_char(MODULE_SCRIPT_OPEN@, manifest_marker(), 4);
    reveal_strlit("import { initRouter, initPrefetch } from \"/assets/");
    lemma_absent_char(ROUTER_IMPORT@, manifest_marker(), 4);
    reveal_strlit("import { initActivation } from \"/assets/");
    lemma_absent_char(RUNTIME_IMPORT@, manifest_marker(), 4);
    reveal_strlit("import { initForms } from \"/assets/");
    lemma_absent_char(FORMS_IMPORT@, manifest_marker(), 4);
    reveal_strlit("import { initIslands } from \"/assets/");
    lemma_absent_char(ISLANDS_IMPORT@, manifest_marker(), 4);
    reveal_strlit("import { initTelemetry } from \"/assets/");
    lemma_absent_char(TELEMETRY_IMPORT@, manifest_marker(), 4);
    reveal_strlit("\nlet disposeActivation = () => {};\nlet disposeForms = () => {};\nlet disposeIslands = () => {};\n\nasync function reactivate(root) {\n    disposeActivation();\n    disposeForms();\n    disposeIslands();\n    disposeActivation = disposeForms = disposeIslands = () => {};\n\n    const manifestEl = root.querySelector(\"script[data-nexa-manifest]\");\n    if (manifestEl) {\n        const { initActivation } = await import(\"/assets/");
    lemma_absent_triple(REACTIVATE_HEAD@, manifest_marker(), 16);
    reveal_strlit("\");\n        disposeActivation = initActivation(JSON.parse(manifestEl.textContent), { root });\n    }\n    if (root.querySelector(\"[data-nexa-form]\")) {\n        const { initForms } = await import(\"/assets/");
    lemma_absent_char(REACTIVATE_AFTER_RUNTIME@, manifest_marker(), 18);
    reveal_strlit("\");\n        disposeForms = initForms(root);\n    }\n    if (root.querySelector(\"[data-nexa-island]\")) {\n        const { initIslands } = await import(\"/assets/");
    lemma_absent_char(REACTIVATE_AFTER_FORMS@, manifest_marker(), 18);
    reveal_strlit("\");\n        disposeIslands = initIslands({ root });\n    }\n}\n");
    lemma_absent_char(REACTIVATE_TAIL@, manifest_marker(), 18);
    reveal_strlit("initRouter({ onNavigate: reactivate });\ninitPrefetch();\n");
    lemma_absent_char(ROUTER_START@, manifest_marker(), 4);
    reveal_strlit("disposeActivation = initActivation(JSON.parse(document.querySelector(\"script[data-nexa-manifest]\").textContent));\n");
    lemma_absent_char(ACTIVATION_START@, manifest_marker(), 18);
    reveal_strlit("disposeForms = initForms();\n");
    lemma_absent_char(FORMS_START@, manifest_marker(), 4);
    reveal_strlit("disposeIslands = initIslands();\n");
    lemma_absent_char(ISLANDS_START@, manifest_marker(), 4);
    reveal_strlit("initTelemetry({ endpoint: ");
    lemma_absent_char(TELEMETRY_START@, manifest_marker(), 4);
    reveal_strlit(" });\n");
    lemma_longer_absent(TELEMETRY_END@, manifest_marker());
    reveal_strlit("if (\"serviceWorker\" in navigator) navigator.serviceWorker.register(\"/sw.js\");\n");
    lemma_absent_char(SERVICE_WORKER_START@, manifest_marker(), 4);
    reveal_strlit("</script>\n");
    lemma_longer_absent(SCRIPT_CLOSE_LINE@, manifest_marker());
    reveal_strlit("\";\n");
    lemma_longer_absent(IMPORT_END@, manifest_marker());
    reveal_strlit("<script type=\"application/json\" data-nexa-manifest>");
    assert(MANIFEST_SCRIPT_OPEN@.subrange(32, 51) =~= manifest_marker());
    assert(crate::text::occurs_at(MANIFEST_SCRIPT_OPEN@, manifest_marker(), 32));
}

/// Where the text of `forms_marker` occurs among the fixed texts of the boot script.
proof fn lemma_forms_marker_in_fixed_texts()
    ensures
        !contains_seq(MODULE_SCRIPT_OPEN@, forms_marker()),
        !contains_seq(ROUTER_IMPORT@, forms_marker()),
        !contains_seq(RUNTIME_IMPORT@, forms_marker()),
        contains_seq(FORMS_IMPORT@, forms_marker()),
        !contains_seq(ISLANDS_IMPORT@, forms_marker()),
        !contains_seq(TELEMETRY_IMPORT@, forms_marker()),
        !contains_seq(REACTIVATE_HEAD@, forms_marker()),
        !contains_seq(REACTIVATE_AFTER_RUNTIME@, forms_marker()),
        !contains_seq(REACTIVATE_AFTER_FORMS@, forms_marker()),
        !contains_seq(REACTIVATE_TAIL@, forms_marker()),
        !contains_seq(ROUTER_START@, forms_marker()),
        !contains_seq(ACTIVATION_START@, forms_marker()),
        !contains_seq(FORMS_START@, forms_marker()),
        !contains_seq(ISLANDS_START@, forms_marker()),
        !contains_seq(TELEMETRY_START@, forms_marker()),
        !contains_seq(TELEMETRY_END@, forms_marker()),
        !contains_seq(SERVICE_WORKER_START@, forms_marker()),
        !contains_seq(SCRIPT_CLOSE_LINE@, forms_marker()),
        !contains_seq(IMPORT_END@, forms_marker()),
        !forms_marker().contains('\n'),
        !forms_marker().contains('/'),
        !forms_marker().contains('"'),
        forms_marker().len() == 20,
        outside_file_names(forms_marker()[13]),
{
    reveal_strlit("import { initForms }");
    reveal_strlit("<script type=\"module\">\n");
    lemma_absent_char(MODULE_SCRIPT_OPEN@, forms_marker(), 13);
    reveal_strlit("import { initRouter, initPrefetch } from \"/assets/");
    lemma_absent_char(ROUTER_IMPORT@, forms_marker(), 13);
    reveal_strlit("import { initActivation } from \"/assets/");
    lemma_absent_char(RUNTIME_IMPORT@, forms_marker(), 13);
    reveal_strlit("import { initForms } from \"/assets/");
    assert(FORMS_IMPORT@.subrange(0, 20) =~= forms_marker());
    assert(crate::text::occurs_at(FORMS_IMPORT@, forms_marker(), 0));
    reveal_strlit("import { initIslands } from \"/assets/");
    lemma_absent_char(ISLANDS_IMPORT@, forms_marker(), 13);
    reveal_strlit("import { initTelemetry } from \"/assets/");
    lemma_absent_char(TELEMETRY_IMPORT@, forms_marker(), 13);
    reveal_strlit("\nlet disposeActivation = () => {};\nlet disposeForms = () => {};\nlet disposeIslands = () => {};\n\nasync function reactivate(root) {\n    disposeActivation();\n    disposeForms();\n    disposeIslands();\n    disposeActivation = disposeForms = disposeIslands = () => {};\n\n    const manifestEl = root.querySelector(\"script[data-nexa-manifest]\");\n    if (manifestEl) {\n        const { initActivation } = await import(\"/assets/");
    lemma_absent_triple(REACTIVATE_HEAD@, forms_marker(), 4);
    reveal_strlit("\");\n        disposeActivation = initActivation(JSON.parse(manifestEl.textContent), { root });\n    }\n    if (root.querySelector(\"[data-nexa-form]\")) {\n        const { initForms } = await import(\"/assets/");
    lemma_absent_triple(REACTIVATE_AFTER_RUNTIME@, forms_marker(), 4);
    reveal_strlit("\");\n        disposeForms = initForms(root);\n    }\n    if (root.querySelector(\"[data-nexa-island]\")) {\n        const { initIslands } = await import(\"/assets/");
    lemma_absent_triple(REACTIVATE_AFTER_FORMS@, forms_marker(), 4);
    reveal_strlit("\");\n        disposeIslands = initIslands({ root });\n    }\n}\n");
    lemma_absent_triple(REACTIVATE_TAIL@, forms_marker(), 4);
    reveal_strlit("initRouter({ onNavigate: reactivate });\ninitPrefetch();\n");
    lemma_absent_char(ROUTER_START@, forms_marker(), 13);
    reveal_strlit("disposeActivation = initActivation(JSON.parse(document.querySelector(\"script[data-nexa-manifest]\").textContent));\n");
    lemma_absent_char(ACTIVATION_START@, forms_marker(), 13);
    reveal_strlit("disposeForms = initForms();\n");
    lemma_absent_char(FORMS_START@, forms_marker(), 7);
    reveal_strlit("disposeIslands = initIslands();\n");
    lemma_absent_char(ISLANDS_START@, forms_marker(), 13);
    reveal_strlit("initTelemetry({ endpoint: ");
    lemma_absent_char(TELEMETRY_START@, forms_marker(), 13);
    reveal_strlit(" });\n");
    lemma_longer_absent(TELEMETRY_END@, forms_marker());
    reveal_strlit("if (\"serviceWorker\" in navigator) navigator.serviceWorker.register(\"/sw.js\");\n");
    lemma_absent_char(SERVICE_WORKER_START@, forms_marker(), 13);
    reveal_strlit("</script>\n");
    lemma_longer_absent(SCRIPT_CLOSE_LINE@, forms_marker());
    reveal_strlit("\";\n");
    lemma_longer_absent(IMPORT_END@, forms_marker());
}

/// Where the text of `islands_marker` occurs among the fixed texts of the boot script.
proof fn lemma_islands_marker_in_fixed_texts()
    ensures
        !contains_seq(MODULE_SCRIPT_OPEN@, islands_marker()),
        !contains_seq(ROUTER_IMPORT@, islands_marker()),
        !contains_seq(RUNTIME_IMPORT@, islands_marker()),
        !contains_seq(FORMS_IMPORT@, islands_marker()),
        contains_seq(ISLANDS_IMPORT@, islands_marker()),
        !contains_seq(TELEMETRY_IMPORT@, islands_marker()),
        !contains_seq(REACTIVATE_HEAD@, islands_marker()),
        !contains_seq(REACTIVATE_AFTER_RUNTIME@, islands_marker()),
        !contains_seq(REACTIVATE_AFTER_FORMS@, islands_marker()),
        !contains_seq(REACTIVATE_TAIL@, islands_marker()),
        !contains_seq(ROUTER_START@, islands_marker()),
        !contains_seq(ACTIVATION_START@, islands_marker()),
        !contains_seq(FORMS_START@, islands_marker()),
        !contains_seq(ISLANDS_START@, islands_marker()),
        !contains_seq(TELEMETRY_START@, islands_marker()),
        !contains_seq(TELEMETRY_END@, islands_marker()),
        !contains_seq(SERVICE_WORKER_START@, islands_marker()),
        !contains_seq(SCRIPT_CLOSE_LINE@, islands_marker()),
        !contains_seq(IMPORT_END@, islands_marker()),
        !islands_marker().contains('\n'),
        !islands_marker().contains('/'),
        !islands_marker().contains('"'),
        islands_marker().len() == 22,
        outside_file_names(islands_marker()[13]),
{
    reveal_strlit("import { initIslands }");
    reveal_strlit("<script type=\"module\">\n");
    lemma_absent_char(MODULE_SCRIPT_OPEN@, islands_marker(), 13);
    reveal_strlit("import { initRouter, initPrefetch } from \"/assets/");
    lemma_absent_char(ROUTER_IMPORT@, islands_marker(), 13);
    reveal_strlit("import { initActivation } from \"/assets/");
    lemma_absent_char(RUNTIME_IMPORT@, islands_marker(), 13);
    reveal_strlit("import { initForms } from \"/assets/");
    lemma_absent_char(FORMS_IMPORT@, islands_marker(), 13);
    reveal_strlit("import { initIslands } from \"/assets/");
    assert(ISLANDS_IMPORT@.subrange(0, 22) =~= islands_marker());
    assert(crate::text::occurs_at(ISLANDS_IMPORT@, islands_marker(), 0));
    reveal_strlit("import { initTelemetry } from \"/assets/");
    lemma_absent_char(TELEMETRY_IMPORT@, islands_marker(), 13);
    reveal_strlit("\nlet disposeActivation = () => {};\nlet disposeForms = () => {};\nlet disposeIslands = () => {};\n\nasync function reactivate(root) {\n    disposeActivation();\n    disposeForms();\n    disposeIslands();\n    disposeActivation = disposeForms = disposeIslands = () => {};\n\n    const manifestEl = root.querySelector(\"script[data-nexa-manifest]\");\n    if (manifestEl) {\n        const { initActivation } = await import(\"/assets/");
    lemma_absent_triple(REACTIVATE_HEAD@, islands_marker(), 4);
    reveal_strlit("\");\n        disposeActivation = initActivation(JSON.parse(manifestEl.textContent), { root });\n    }\n    if (root.querySelector(\"[data-nexa-form]\")) {\n        const { initForms } = await import(\"/assets/");
    lemma_absent_triple(REACTIVATE_AFTER_RUNTIME@, islands_marker(), 4);
    reveal_strlit("\");\n        disposeForms = initForms(root);\n    }\n    if (root.querySelector(\"[data-nexa-island]\")) {\n        const { initIslands } = await import(\"/assets/");
    lemma_absent_triple(REACTIVATE_AFTER_FORMS@, islands_marker(), 4);
    reveal_strlit("\");\n        disposeIslands = initIslands({ root });\n    }\n}\n");
    lemma_absent_triple(REACTIVATE_TAIL@, islands_marker(), 4);
    reveal_strlit("initRouter({ onNavigate: reactivate });\ninitPrefetch();\n");
    lemma_absent_char(ROUTER_START@, islands_marker(), 13);
    reveal_strlit("disposeActivation = initActivation(JSON.parse(document.querySelector(\"script[data-nexa-manifest]\").textContent));\n");
    lemma_absent_char(ACTIVATION_START@, islands_marker(), 13);
    reveal_strlit("disposeForms = initForms();\n");
    lemma_absent_char(FORMS_START@, islands_marker(), 13);
    reveal_strlit("disposeIslands = initIslands();\n");
    lemma_absent_char(ISLANDS_START@, islands_marker(), 7);
    reveal_strlit("initTelemetry({ endpoint: ");
    lemma_absent_char(TELEMETRY_START@, islands_marker(), 13);
    reveal_strlit(" });\n");
    lemma_longer_absent(TELEMETRY_END@, islands_marker());
    reveal_strlit("if (\"serviceWorker\" in navigator) navigator.serviceWorker.register(\"/sw.js\");\n");
    lemma_absent_char(SERVICE_WORKER_START@, islands_marker(), 13);
    reveal_strlit("</script>\n");
    lemma_longer_absent(SCRIPT_CLOSE_LINE@, islands_marker());
    reveal_strlit("\";\n");
    lemma_longer_absent(IMPORT_END@, islands_marker());
}

/// Where the text of `service_worker_marker` occurs among the fixed texts of the boot script.
proof fn lemma_service_worker_marker_in_fixed_texts()
    ensures
        !contains_seq(MODULE_SCRIPT_OPEN@, service_worker_marker()),
        !contains_seq(ROUTER_IMPORT@, service_worker_marker()),
        !contains_seq(RUNTIME_IMPORT@, service_worker_marker()),
        !contains_seq(FORMS_IMPORT@, service_worker_marker()),
        !contains_seq(ISLANDS_IMPORT@, service_worker_marker()),
        !contains_seq(TELEMETRY_IMPORT@, service_worker_marker()),
        !contains_seq(REACTIVATE_HEAD@, service_worker_marker()),
        !contains_seq(REACTIVATE_AFTER_RUNTIME@, service_worker_marker()),
        !contains_seq(REACTIVATE_AFTER_FORMS@, service_worker_marker()),
        !contains_seq(REACTIVATE_TAIL@, service_worker_marker()),
        !contains_seq(ROUTER_START@, service_worker_marker()),
        !contains_seq(ACTIVATION_START@, service_worker_marker()),
        !contains_seq(FORMS_START@, service_worker_marker()),
        !contains_seq(ISLANDS_START@, service_worker_marker()),
        !contains_seq(TELEMETRY_START@, service_worker_marker()),
        !contains_seq(TELEMETRY_END@, service_worker_marker()),
        contains_seq(SERVICE_WORKER_START@, service_worker_marker()),
        !contains_seq(SCRIPT_CLOSE_LINE@, service_worker_marker()),
        !contains_seq(IMPORT_END@, service_worker_marker()),
        !service_worker_marker().contains('\n'),
        !service_worker_marker().contains('/'),
        !service_worker_marker().contains('"'),
        service_worker_marker().len() == 13,
        outside_file_names(service_worker_marker()[7]),
{
    reveal_strlit("serviceWorker");
    reveal_strlit("<script type=\"module\">\n");
    lemma_absent_char(MODULE_SCRIPT_OPEN@, service_worker_marker(), 7);
    reveal_strlit("import { initRouter, initPrefetch } from \"/assets/");
    lemma_absent_char(ROUTER_IMPORT@, service_worker_marker(), 7);
    reveal_strlit("import { initActivation } from \"/assets/");
    lemma_absent_char(RUNTIME_IMPORT@, service_worker_marker(), 7);
    reveal_strlit("import { initForms } from \"/assets/");
    lemma_absent_char(FORMS_IMPORT@, service_worker_marker(), 7);
    reveal_strlit("import { initIslands } from \"/assets/");
    lemma_absent_char(ISLANDS_IMPORT@, service_worker_marker(), 7);
    reveal_strlit("import { initTelemetry } from \"/assets/");
    lemma_absent_char(TELEMETRY_IMPORT@, service_worker_marker(), 7);
    reveal_strlit("\nlet disposeActivation = () => {};\nlet disposeForms = () => {};\nlet disposeIslands = () => {};\n\nasync function reactivate(root) {\n    disposeActivation();\n    disposeForms();\n    disposeIslands();\n    disposeActivation = disposeForms = disposeIslands = () => {};\n\n    const manifestEl = root.querySelector(\"script[data-nexa-manifest]\");\n    if (manifestEl) {\n        const { initActivation } = await import(\"/assets/");
    lemma_absent_char(REACTIVATE_HEAD@, service_worker_marker(), 7);
    reveal_strlit("\");\n        disposeActivation = initActivation(JSON.parse(manifestEl.textContent), { root });\n    }\n    if (root.querySelector(\"[data-nexa-form]\")) {\n        const { initForms } = await import(\"/assets/");
    lemma_absent_char(REACTIVATE_AFTER_RUNTIME@, service_worker_marker(), 7);
    reveal_strlit("\");\n        disposeForms = initForms(root);\n    }\n    if (root.querySelector(\"[data-nexa-island]\")) {\n        const { initIslands } = await import(\"/assets/");
    lemma_absent_char(REACTIVATE_AFTER_FORMS@, service_worker_marker(), 7);
    reveal_strlit("\");\n        disposeIslands = initIslands({ root });\n    }\n}\n");
    lemma_absent_char(REACTIVATE_TAIL@, service_worker_marker(), 7);
    reveal_strlit("initRouter({ onNavigate: reactivate });\ninitPrefetch();\n");
    lemma_absent_char(ROUTER_START@, service_worker_marker(), 7);
    reveal_strlit("disposeActivation = initActivation(JSON.parse(document.querySelector(\"script[data-nexa-manifest]\").textContent));\n");
    lemma_absent_char(ACTIVATION_START@, service_worker_marker(), 7);
    reveal_strlit("disposeForms = initForms();\n");
    lemma_absent_char(FORMS_START@, service_worker_marker(), 7);
    reveal_strlit("disposeIslands = initIslands();\n");
    lemma_absent_char(ISLANDS_START@, service_worker_marker(), 7);
    reveal_strlit("initTelemetry({ endpoint: ");
    lemma_absent_char(TELEMETRY_START@, service_worker_marker(), 7);
    reveal_strlit(" });\n");
    lemma_longer_absent(TELEMETRY_END@, service_worker_marker());
    reveal_strlit("if (\"serviceWorker\" in navigator) navigator.serviceWorker.register(\"/sw.js\");\n");
    assert(SERVICE_WORKER_START@.subrange(5, 18) =~= service_worker_marker());
    assert(crate::text::occurs_at(SERVICE_WORKER_START@, service_worker_marker(), 5));
    reveal_strlit("</script>\n");
    lemma_longer_absent(SCRIPT_CLOSE_LINE@, service_worker_marker());
    reveal_strlit("\";\n");
    lemma_longer_absent(IMPORT_END@, service_worker_marker());
}

/// Where the text of `telemetry_marker` occurs among the fixed texts of the boot script.
proof fn lemma_telemetry_marker_in_fixed_texts()
    ensures
        !contains_seq(MODULE_SCRIPT_OPEN@, telemetry_marker()),
        !contains_seq(ROUTER_IMPORT@, telemetry_marker()),
        !contains_seq(RUNTIME_IMPORT@, telemetry_marker()),
        !contains_seq(FORMS_IMPORT@, telemetry_marker()),
        !contains_seq(ISLANDS_IMPORT@, telemetry_marker()),
        contains_seq(TELEMETRY_IMPORT@, telemetry_marker()),
        !contains_seq(REACTIVATE_HEAD@, telemetry_marker()),
        !contains_seq(REACTIVATE_AFTER_RUNTIME@, telemetry_marker()),
        !contains_seq(REACTIVATE_AFTER_FORMS@, telemetry_marker()),
        !contains_seq(REACTIVATE_TAIL@, telemetry_marker()),
        !contains_seq(ROUTER_START@, telemetry_marker()),
        !contains_seq(ACTIVATION_START@, telemetry_marker()),
        !contains_seq(FORMS_START@, telemetry_marker()),
        !contains_seq(ISLANDS_START@, telemetry_marker()),
        !contains_seq(TELEMETRY_START@, telemetry_marker()),
        !contains_seq(TELEMETRY_END@, telemetry_marker()),
        !contains_seq(SERVICE_WORKER_START@, telemetry_marker()),
        !contains_seq(SCRIPT_CLOSE_LINE@, telemetry_marker()),
        !contains_seq(IMPORT_END@, telemetry_marker()),
        !telemetry_marker().contains('\n'),
        !telemetry_marker().contains('/'),
        !telemetry_marker().contains('"'),
        telemetry_marker().len() == 24,
        outside_file_names(telemetry_marker()[13]),
{
    reveal_strlit("import { initTelemetry }");
    reveal_strlit("<script type=\"module\">\n");
    lemma_longer_absent(MODULE_SCRIPT_OPEN@, telemetry_marker());
    reveal_strlit("import { initRouter, initPrefetch } from \"/assets/");
    lemma_absent_char(ROUTER_IMPORT@, telemetry_marker(), 13);
    reveal_strlit("import { initActivation } from \"/assets/");
    lemma_absent_char(RUNTIME_IMPORT@, telemetry_marker(), 13);
    reveal_strlit("import { initForms } from \"/assets/");
    lemma_absent_char(FORMS_IMPORT@, telemetry_marker(), 13);
    reveal_strlit("import { initIslands } from \"/assets/");
    lemma_absent_char(ISLANDS_IMPORT@, telemetry_marker(), 13);
    reveal_strlit("import { initTelemetry } from \"/assets/");
    assert(TELEMETRY_IMPORT@.subrange(0, 24) =~= telemetry_marker());
    assert(crate::text::occurs_at(TELEMETRY_IMPORT@, telemetry_marker(), 0));
    reveal_strlit("\nlet disposeActivation = () => {};\nlet disposeForms = () => {};\nlet disposeIslands = () => {};\n\nasync function reactivate(root) {\n    disposeActivation();\n    disposeForms();\n    disposeIslands();\n    disposeActivation = disposeForms = disposeIslands = () => {};\n\n    const manifestEl = root.querySelector(\"script[data-nexa-manifest]\");\n    if (manifestEl) {\n        const { initActivation } = await import(\"/assets/");
    lemma_absent_triple(REACTIVATE_HEAD@, telemetry_marker(), 4);
    reveal_strlit("\");\n        disposeActivation = initActivation(JSON.parse(manifestEl.textContent), { root });\n    }\n    if (root.querySelector(\"[data-nexa-form]\")) {\n        const { initForms } = await import(\"/assets/");
    lemma_absent_triple(REACTIVATE_AFTER_RUNTIME@, telemetry_marker(), 4);
    reveal_strlit("\");\n        disposeForms = initForms(root);\n    }\n    if (root.querySelector(\"[data-nexa-island]\")) {\n        const { initIslands } = await import(\"/assets/");
    lemma_absent_triple(REACTIVATE_AFTER_FORMS@, telemetry_marker(), 4);
    reveal_strlit("\");\n        disposeIslands = initIslands({ root });\n    }\n}\n");
    lemma_absent_triple(REACTIVATE_TAIL@, telemetry_marker(), 4);
    reveal_strlit("initRouter({ onNavigate: reactivate });\ninitPrefetch();\n");
    lemma_absent_char(ROUTER_START@, telemetry_marker(), 13);
    reveal_strlit("disposeActivation = initActivation(JSON.parse(document.querySelector(\"script[data-nexa-manifest]\").textContent));\n");
    lemma_absent_char(ACTIVATION_START@, telemetry_marker(), 13);
    reveal_strlit("disposeForms = initForms();\n");
    lemma_absent_char(FORMS_START@, telemetry_marker(), 13);
    reveal_strlit("disposeIslands = initIslands();\n");
    lemma_absent_char(ISLANDS_START@, telemetry_marker(), 13);
    reveal_strlit("initTelemetry({ endpoint: ");
    lemma_absent_char(TELEMETRY_START@, telemetry_marker(), 23);
    reveal_strlit(" });\n");
    lemma_longer_absent(TELEMETRY_END@, telemetry_marker());
    reveal_strlit("if (\"serviceWorker\" in navigator) navigator.serviceWorker.register(\"/sw.js\");\n");
    lemma_absent_char(SERVICE_WORKER_START@, telemetry_marker(), 13);
    reveal_strlit("</script>\n");
    lemma_longer_absent(SCRIPT_CLOSE_LINE@, telemetry_marker());
    reveal_strlit("\";\n");
    lemma_longer_absent(IMPORT_END@, telemetry_marker());
}

} // verus!

verus! {
/// Each static import's head ends with the `/` of `/assets/`.
proof fn lemma_heads_end_with_slash()
    ensures
        ROUTER_IMPORT@.len() > 0 && ROUTER_IMPORT@.last() == '/',
        RUNTIME_IMPORT@.len() > 0 && RUNTIME_IMPORT@.last() == '/',
        FORMS_IMPORT@.len() > 0 && FORMS_IMPORT@.last() == '/',
        ISLANDS_IMPORT@.len() > 0 && ISLANDS_IMPORT@.last() == '/',
        TELEMETRY_IMPORT@.len() > 0 && TELEMETRY_IMPORT@.last() == '/',
{
    reveal_strlit("import { initRouter, initPrefetch } from \"/assets/");
    reveal_strlit("import { initActivation } from \"/assets/");
    reveal_strlit("import { initForms } from \"/assets/");
    reveal_strlit("import { initIslands } from \"/assets/");
    reveal_strlit("import { initTelemetry } from \"/assets/");
}

/// The boot fragment holds the `manifest_marker` text exactly when its flag is set.
proof fn lemma_manifest_marker_status(
    pairs: Seq<(Seq<char>, EntryView)>,
    a: FrameworkAssets,
    hm: bool,
    f: bool,
    i: bool,
    pw: bool,
    t: Option<Seq<char>>,
)
    requires
        !hm && t is Some ==> !contains_seq(json_string_literal(t->0), manifest_marker()),
    ensures
        contains_seq(boot_fragment(pairs, a, hm, f, i, pw, t), manifest_marker()) <==> hm,
{
    let p = manifest_marker();
    lemma_manifest_marker_in_fixed_texts();
    lemma_fragment_pieces(pairs, a, hm, f, i, pw, t, p);
    lemma_stems_plain();
    lemma_heads_end_with_slash();
    lemma_longer_absent(Seq::<char>::empty(), p);
    let ms_body = MANIFEST_SCRIPT_OPEN@ + replace_seq(manifest_json(pairs), "</script>"@, "<\\/script>"@);
    lemma_contains_left(MANIFEST_SCRIPT_OPEN@, replace_seq(manifest_json(pairs), "</script>"@, "<\\/script>"@), p);
    lemma_contains_left(ms_body, SCRIPT_CLOSE_LINE@, p);
    lemma_import_free(ROUTER_IMPORT@, "nexa-router"@, a.router@, p, 18);
    lemma_import_free(RUNTIME_IMPORT@, "nexa-runtime"@, a.runtime@, p, 18);
    lemma_import_free(FORMS_IMPORT@, "nexa-forms"@, a.forms@, p, 18);
    lemma_import_free(ISLANDS_IMPORT@, "nexa-islands"@, a.islands@, p, 18);
    lemma_import_free(TELEMETRY_IMPORT@, "nexa-telemetry"@, a.telemetry@, p, 18);
    lemma_reactivate_free(a, p, 18);
    if !(hm) {
        match t {
            Some(ep) => {
                lemma_telemetry_line_free(ep, p);
            },
            None => {},
        }
    }
}

/// The boot fragment holds the `forms_marker` text exactly when its flag is set.
proof fn lemma_forms_marker_status(
    pairs: Seq<(Seq<char>, EntryView)>,
    a: FrameworkAssets,
    hm: bool,
    f: bool,
    i: bool,
    pw: bool,
    t: Option<Seq<char>>,
)
    requires
        !(f) && hm ==> !contains_seq(manifest_script(pairs), forms_marker()),
        !(f) && t is Some ==> !contains_seq(json_string_literal(t->0), forms_marker()),
    ensures
        contains_seq(boot_fragment(pairs, a, hm, f, i, pw, t), forms_marker()) <==> f,
{
    let p = forms_marker();
    lemma_forms_marker_in_fixed_texts();
    lemma_fragment_pieces(pairs, a, hm, f, i, pw, t, p);
    lemma_stems_plain();
    lemma_heads_end_with_slash();
    lemma_longer_absent(Seq::<char>::empty(), p);
    lemma_import_free(ROUTER_IMPORT@, "nexa-router"@, a.router@, p, 13);
    lemma_import_free(RUNTIME_IMPORT@, "nexa-runtime"@, a.runtime@, p, 13);
    lemma_import_holds(FORMS_IMPORT@, bundle_filename("nexa-forms"@, a.forms@), p);
    lemma_import_free(ISLANDS_IMPORT@, "nexa-islands"@, a.islands@, p, 13);
    lemma_import_free(TELEMETRY_IMPORT@, "nexa-telemetry"@, a.telemetry@, p, 13);
    lemma_reactivate_free(a, p, 13);
    if !(f) {
        match t {
            Some(ep) => {
                lemma_telemetry_line_free(ep, p);
            },
            None => {},
        }
    }
}

/// The boot fragment holds the `islands_marker` text exactly when its flag is set.
proof fn lemma_islands_marker_status(
    pairs: Seq<(Seq<char>, EntryView)>,
    a: FrameworkAssets,
    hm: bool,
    f: bool,
    i: bool,
    pw: bool,
    t: Option<Seq<char>>,
)
    requires
        !(i) && hm ==> !contains_seq(manifest_script(pairs), islands_marker()),
        !(i) && t is Some ==> !contains_seq(json_string_literal(t->0), islands_marker()),
    ensures
        contains_seq(boot_fragment(pairs, a, hm, f, i, pw, t), islands_marker()) <==> i,
{
    let p = islands_marker();
    lemma_islands_marker_in_fixed_texts();
    lemma_fragment_pieces(pairs, a, hm, f, i, pw, t, p);
    lemma_stems_plain();
    lemma_heads_end_with_slash();
    lemma_longer_absent(Seq::<char>::empty(), p);
    lemma_import_free(ROUTER_IMPORT@, "nexa-router"@, a.router@, p, 13);
    lemma_import_free(RUNTIME_IMPORT@, "nexa-runtime"@, a.runtime@, p, 13);
    lemma_import_free(FORMS_IMPORT@, "nexa-forms"@, a.forms@, p, 13);
    lemma_import_holds(ISLANDS_IMPORT@, bundle_filename("nexa-islands"@, a.islands@), p);
    lemma_import_free(TELEMETRY_IMPORT@, "nexa-telemetry"@, a.telemetry@, p, 13);
    lemma_reactivate_free(a, p, 13);
    if !(i) {
        match t {
            Some(ep) => {
                lemma_telemetry_line_free(ep, p);
            },
            None => {},
        }
    }
}

/// The boot fragment holds the `service_worker_marker` text exactly when its flag is set.
proof fn lemma_service_worker_marker_status(
    pairs: Seq<(Seq<char>, EntryView)>,
    a: FrameworkAssets,
    hm: bool,
    f: bool,
    i: bool,
    pw: bool,
    t: Option<Seq<char>>,
)
    requires
        !(pw) && hm ==> !contains_seq(manifest_script(pairs), service_worker_marker()),
        !(pw) && t is Some ==> !contains_seq(json_string_literal(t->0), service_worker_marker()),
    ensures
        contains_seq(boot_fragment(pairs, a, hm, f, i, pw, t), service_worker_marker()) <==> pw,
{
    let p = service_worker_marker();
    lemma_service_worker_marker_in_fixed_texts();
    lemma_fragment_pieces(pairs, a, hm, f, i, pw, t, p);
    lemma_stems_plain();
    lemma_heads_end_with_slash();
    lemma_longer_absent(Seq::<char>::empty(), p);
    lemma_import_free(ROUTER_IMPORT@, "nexa-router"@, a.router@, p, 7);
    lemma_import_free(RUNTIME_IMPORT@, "nexa-runtime"@, a.runtime@, p, 7);
    lemma_import_free(FORMS_IMPORT@, "nexa-forms"@, a.forms@, p, 7);
    lemma_import_free(ISLANDS_IMPORT@, "nexa-islands"@, a.islands@, p, 7);
    lemma_import_free(TELEMETRY_IMPORT@, "nexa-telemetry"@, a.telemetry@, p, 7);
    lemma_reactivate_free(a, p, 7);
    if !(pw) {
        match t {
            Some(ep) => {
                lemma_telemetry_line_free(ep, p);
            },
            None => {},
        }
    }
}

/// The boot fragment holds the `telemetry_marker` text exactly when its flag is set.
proof fn lemma_telemetry_marker_status(
    pairs: Seq<(Seq<char>, EntryView)>,
    a: FrameworkAssets,
    hm: bool,
    f: bool,
    i: bool,
    pw: bool,
    t: Option<Seq<char>>,
)
    requires
        t is None && hm ==> !contains_seq(manifest_script(pairs), telemetry_marker()),
    ensures
        contains_seq(boot_fragment(pairs, a, hm, f, i, pw, t), telemetry_marker()) <==> t is Some,
{
    let p = telemetry_marker();
    lemma_telemetry_marker_in_fixed_texts();
    lemma_fragment_pieces(pairs, a, hm, f, i, pw, t, p);
    lemma_stems_plain();
    lemma_heads_end_with_slash();
    lemma_longer_absent(Seq::<char>::empty(), p);
    lemma_import_free(ROUTER_IMPORT@, "nexa-router"@, a.router@, p, 13);
    lemma_import_free(RUNTIME_IMPORT@, "nexa-runtime"@, a.runtime@, p, 13);
    lemma_import_free(FORMS_IMPORT@, "nexa-forms"@, a.forms@, p, 13);
    lemma_import_free(ISLANDS_IMPORT@, "nexa-islands"@, a.islands@, p, 13);
    lemma_import_holds(TELEMETRY_IMPORT@, bundle_filename("nexa-telemetry"@, a.telemetry@), p);
    lemma_reactivate_free(a, p, 13);
}

} // verus!

verus! {

proof fn lemma_edges(t: Seq<char>, o: Seq<char>, y1: Seq<char>, y2: Seq<char>, y3: Seq<char>, c: Seq<char>)
    ensures
        starts_with_seq(o + y1 + y2 + y3 + c, o),
        ends_with_seq(t + (o + y1 + y2 + y3 + c), c),
{
    let b = o + y1 + y2 + y3 + c;
    assert(b.subrange(0, o.len() as int) =~= o);
    let s = t + b;
    assert(s.subrange(s.len() - c.len(), s.len() as int) =~= c);
}

/// The boot fragment is the embedded manifest, when there is one, then the
/// module script, which ends the fragment.
proof fn lemma_fragment_edges(
    pairs: Seq<(Seq<char>, EntryView)>,
    a: FrameworkAssets,
    hm: bool,
    f: bool,
    i: bool,
    pw: bool,
    t: Option<Seq<char>>,
)
    ensures
        ends_with_seq(boot_fragment(pairs, a, hm, f, i, pw, t), SCRIPT_CLOSE_LINE@),
        starts_with_seq(boot_script(a, hm, f, i, pw, t), MODULE_SCRIPT_OPEN@),
        hm ==> boot_fragment(pairs, a, hm, f, i, pw, t) == manifest_script(pairs) + boot_script(
            a,
            hm,
            f,
            i,
            pw,
            t,
        ),
{
    lemma_edges(
        text_if(hm, manifest_script(pairs)),
        MODULE_SCRIPT_OPEN@,
        boot_imports(a, hm, f, i, t is Some),
        reactivate_text(runtime_filename(a), forms_filename(a), islands_filename(a)),
        boot_calls(hm, f, i, pw, t),
        SCRIPT_CLOSE_LINE@,
    );
}

/// What a page gets before `</body>` depends only on the manifest, the
/// flags and the telemetry endpoint, ends the boot script, puts the
/// embedded manifest (when there is one) before the module script, and
/// marks exactly what the page uses: the embedded manifest exactly when
/// the manifest has entries, the static import of forms, islands and
/// telemetry exactly when the page has a form, an island or an endpoint,
/// and the service worker exactly for a PWA. The texts the page brings
/// (the manifest's JSON, the endpoint) are assumed not to spell a marker
/// the page does not use, for then it would appear without its flag.
pub proof fn law_boot_fragment_marks_what_the_page_uses(
    html: Seq<char>,
    manifest: Map<Seq<char>, EntryView>,
    pairs: Seq<(Seq<char>, EntryView)>,
    a: FrameworkAssets,
    has_forms: bool,
    has_islands: bool,
    has_pwa: bool,
    telemetry_endpoint: Option<Seq<char>>,
)
    requires
        manifest.dom().len() == 0 && telemetry_endpoint is Some ==> !contains_seq(
            json_string_literal(telemetry_endpoint->0),
            manifest_marker(),
        ),
        !has_forms && manifest.dom().len() > 0 ==> !contains_seq(manifest_script(pairs), forms_marker()),
        !has_forms && telemetry_endpoint is Some ==> !contains_seq(
            json_string_literal(telemetry_endpoint->0),
            forms_marker(),
        ),
        !has_islands && manifest.dom().len() > 0 ==> !contains_seq(
            manifest_script(pairs),
            islands_marker(),
        ),
        !has_islands && telemetry_endpoint is Some ==> !contains_seq(
            json_string_literal(telemetry_endpoint->0),
            islands_marker(),
        ),
        !has_pwa && manifest.dom().len() > 0 ==> !contains_seq(
            manifest_script(pairs),
            service_worker_marker(),
        ),
        !has_pwa && telemetry_endpoint is Some ==> !contains_seq(
            json_string_literal(telemetry_endpoint->0),
            service_worker_marker(),
        ),
        telemetry_endpoint is None && manifest.dom().len() > 0 ==> !contains_seq(
            manifest_script(pairs),
            telemetry_marker(),
        ),
    ensures
        ({
            let hm = manifest.dom().len() > 0;
            let frag = boot_fragment(pairs, a, hm, has_forms, has_islands, has_pwa, telemetry_endpoint);
            &&& injected(
                html,
                manifest,
                pairs,
                a,
                has_forms,
                has_islands,
                has_pwa,
                telemetry_endpoint,
            ) == insert_before_closing(html, "body"@, frag)
            &&& ends_with_seq(frag, SCRIPT_CLOSE_LINE@)
            &&& starts_with_seq(
                boot_script(a, hm, has_forms, has_islands, has_pwa, telemetry_endpoint),
                MODULE_SCRIPT_OPEN@,
            )
            &&& (hm ==> frag == manifest_script(pairs) + boot_script(
                a,
                hm,
                has_forms,
                has_islands,
                has_pwa,
                telemetry_endpoint,
            ))
            &&& (contains_seq(frag, manifest_marker()) <==> hm)
            &&& (contains_seq(frag, forms_marker()) <==> has_forms)
            &&& (contains_seq(frag, islands_marker()) <==> has_islands)
            &&& (contains_seq(frag, service_worker_marker()) <==> has_pwa)
            &&& (contains_seq(frag, telemetry_marker()) <==> telemetry_endpoint is Some)
        }),
{
    let hm = manifest.dom().len() > 0;
    let (f, i, pw, t) = (has_forms, has_islands, has_pwa, telemetry_endpoint);
    lemma_manifest_marker_status(pairs, a, hm, f, i, pw, t);
    lemma_forms_marker_status(pairs, a, hm, f, i, pw, t);
    lemma_islands_marker_status(pairs, a, hm, f, i, pw, t);
    lemma_service_worker_marker_status(pairs, a, hm, f, i, pw, t);
    lemma_telemetry_marker_status(pairs, a, hm, f, i, pw, t);
    lemma_fragment_edges(pairs, a, hm, f, i, pw, t);
}

} // verus!
