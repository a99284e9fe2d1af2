//! The diagnostics `nexa dev` serves to its devtools panel for a page:
//! how its nodes are classified, how much JS it loads without
//! interaction, what it activates and with which strategy, and its SEO
//! and package warnings, as compact JSON (keys in sorted order).
use vstd::prelude::*;

use crate::activation::{strategy_name_of, ActivationEntry, ActivationManifest, EntryView};
use crate::ir::{ir_class_count, ir_count, Classification};
use crate::json::{
    compact_container, compact_container_of, compact_member, compact_member_of, json_quote,
    json_string_literal,
};
use crate::page_resolver::Reply;
use crate::pipeline::{CompiledPage, SeoWarning};
use crate::pkg_warnings::PackageWarning;
use crate::text::{decimal, decimal_string, owned};

verus! {

/// `{"code":...,"message":...}`
pub open spec fn warning_json(code: Seq<char>, message: Seq<char>) -> Seq<char> {
    compact_container(
        '{',
        '}',
        seq![
            compact_member("code"@, json_string_literal(code)),
            compact_member("message"@, json_string_literal(message)),
        ],
    )
}

/// One activation entry: its node id, event, handler, module and
/// strategy name.
pub open spec fn activation_json(id: Seq<char>, e: EntryView) -> Seq<char> {
    compact_container(
        '{',
        '}',
        seq![
            compact_member("event"@, json_string_literal(e.event)),
            compact_member("handler"@, json_string_literal(e.handler)),
            compact_member("id"@, json_string_literal(id)),
            compact_member("module"@, json_string_literal(e.module)),
            compact_member("strategy"@, json_string_literal(strategy_name_of(e.strategy))),
        ],
    )
}

/// The classification counts of a tree and their total.
pub open spec fn classification_json(root: crate::ir::IrNode) -> Seq<char> {
    compact_container(
        '{',
        '}',
        seq![
            compact_member("async"@, decimal(ir_class_count(root, Classification::Async))),
            compact_member("dynamic"@, decimal(ir_class_count(root, Classification::Dynamic))),
            compact_member(
                "interactive"@,
                decimal(ir_class_count(root, Classification::Interactive)),
            ),
            compact_member("static"@, decimal(ir_class_count(root, Classification::Static))),
            compact_member("total"@, decimal(ir_count(root))),
        ],
    )
}

/// The diagnostics of a page.
pub open spec fn diagnostics(
    pattern: Seq<char>,
    root: crate::ir::IrNode,
    initial_js_bytes: u64,
    activation: Seq<(Seq<char>, EntryView)>,
    seo: Seq<(Seq<char>, Seq<char>)>,
    pkg: Seq<(Seq<char>, Seq<char>)>,
) -> Seq<char> {
    compact_container(
        '{',
        '}',
        seq![
            compact_member(
                "activation"@,
                compact_container(
                    '[',
                    ']',
                    activation.map_values(
                        |p: (Seq<char>, EntryView)| activation_json(p.0, p.1),
                    ),
                ),
            ),
            compact_member("classification"@, classification_json(root)),
            compact_member("initialJsBytes"@, decimal(initial_js_bytes as nat)),
            compact_member("pattern"@, json_string_literal(pattern)),
            compact_member(
                "pkgWarnings"@,
                compact_container(
                    '[',
                    ']',
                    pkg.map_values(|w: (Seq<char>, Seq<char>)| warning_json(w.0, w.1)),
                ),
            ),
            compact_member(
                "seoWarnings"@,
                compact_container(
                    '[',
                    ']',
                    seo.map_values(|w: (Seq<char>, Seq<char>)| warning_json(w.0, w.1)),
                ),
            ),
        ],
    )
}

/// The strategy's lowercase name.
pub fn strategy_name(strategy: crate::activation::Strategy) -> (r: &'static str)
    ensures
        r@ == strategy_name_of(strategy),
{
    strategy.name()
}

fn text_member(key: &str, value: &str) -> (r: String)
    ensures
        r@ == compact_member(key@, json_string_literal(value@)),
{
    let q = json_quote(value);
    compact_member_of(key, q.as_str())
}

fn warning_json_of(code: &str, message: &str) -> (r: String)
    ensures
        r@ == warning_json(code@, message@),
{
    let mut items: Vec<String> = Vec::new();
    items.push(text_member("code", code));
    items.push(text_member("message", message));
    assert(items@.map_values(|x: String| x@) =~= seq![
        compact_member("code"@, json_string_literal(code@)),
        compact_member("message"@, json_string_literal(message@)),
    ]);
    compact_container_of('{', '}', &items)
}

/// The activation entries of a manifest, as JSON objects in key order.
pub fn activation_entries(manifest: &ActivationManifest) -> (r: String)
    ensures
        r@ == compact_container(
            '[',
            ']',
            manifest.pairs().map_values(|p: (Seq<char>, EntryView)| activation_json(p.0, p.1)),
        ),
{
    let entries = manifest.entries();
    let mut items: Vec<String> = Vec::new();
    let mut i: usize = 0;
    let ghost ps = manifest.pairs();
    while i < entries.len()
        invariant
            i <= entries@.len(),
            entries@.map_values(|p: (&str, &ActivationEntry)| (p.0@, p.1@)) == ps,
            items@.map_values(|x: String| x@) == ps.take(i as int).map_values(
                |p: (Seq<char>, EntryView)| activation_json(p.0, p.1),
            ),
        decreases entries@.len() - i,
    {
        let (id, e) = entries[i];
        let mut obj: Vec<String> = Vec::new();
        obj.push(text_member("event", e.event.as_str()));
        obj.push(text_member("handler", e.handler.as_str()));
        obj.push(text_member("id", id));
        obj.push(text_member("module", e.module.as_str()));
        obj.push(text_member("strategy", strategy_name(e.strategy)));
        assert(obj@.map_values(|x: String| x@) =~= seq![
            compact_member("event"@, json_string_literal(e.event@)),
            compact_member("handler"@, json_string_literal(e.handler@)),
            compact_member("id"@, json_string_literal(id@)),
            compact_member("module"@, json_string_literal(e.module@)),
            compact_member("strategy"@, json_string_literal(strategy_name_of(e.strategy))),
        ]);
        let ghost before = items@.map_values(|x: String| x@);
        items.push(compact_container_of('{', '}', &obj));
        proof {
            assert(ps[i as int] == (id@, e@));
            assert(items@.map_values(|x: String| x@) =~= before.push(activation_json(id@, e@)));
            assert(ps.take(i + 1) =~= ps.take(i as int).push(ps[i as int]));
            assert(items@.map_values(|x: String| x@) =~= ps.take(i + 1).map_values(
                |p: (Seq<char>, EntryView)| activation_json(p.0, p.1),
            ));
        }
        i = i + 1;
    }
    assert(ps.take(i as int) =~= ps);
    compact_container_of('[', ']', &items)
}

pub open spec fn seo_views(v: Seq<SeoWarning>) -> Seq<(Seq<char>, Seq<char>)> {
    v.map_values(|w: SeoWarning| (w.code@, w.message@))
}

pub open spec fn pkg_views(v: Seq<PackageWarning>) -> Seq<(Seq<char>, Seq<char>)> {
    v.map_values(|w: PackageWarning| (w.code@, w.message@))
}

fn seo_array(ws: &Vec<SeoWarning>) -> (r: String)
    ensures
        r@ == compact_container(
            '[',
            ']',
            seo_views(ws@).map_values(|w: (Seq<char>, Seq<char>)| warning_json(w.0, w.1)),
        ),
{
    let mut items: Vec<String> = Vec::new();
    let mut i: usize = 0;
    while i < ws.len()
        invariant
            i <= ws@.len(),
            items@.map_values(|x: String| x@) == seo_views(ws@).take(i as int).map_values(
                |w: (Seq<char>, Seq<char>)| warning_json(w.0, w.1),
            ),
        decreases ws@.len() - i,
    {
        let ghost before = items@.map_values(|x: String| x@);
        items.push(warning_json_of(ws[i].code.as_str(), ws[i].message.as_str()));
        proof {
            let v = seo_views(ws@);
            assert(v[i as int] == (ws@[i as int].code@, ws@[i as int].message@));
            assert(v.take(i + 1) =~= v.take(i as int).push(v[i as int]));
            assert(items@.map_values(|x: String| x@) =~= before.push(
                warning_json(ws@[i as int].code@, ws@[i as int].message@),
            ));
            assert(items@.map_values(|x: String| x@) =~= v.take(i + 1).map_values(
                |w: (Seq<char>, Seq<char>)| warning_json(w.0, w.1),
            ));
        }
        i = i + 1;
    }
    assert(seo_views(ws@).take(i as int) =~= seo_views(ws@));
    compact_container_of('[', ']', &items)
}

fn pkg_array(ws: &Vec<PackageWarning>) -> (r: String)
    ensures
        r@ == compact_container(
            '[',
            ']',
            pkg_views(ws@).map_values(|w: (Seq<char>, Seq<char>)| warning_json(w.0, w.1)),
        ),
{
    let mut items: Vec<String> = Vec::new();
    let mut i: usize = 0;
    while i < ws.len()
        invariant
            i <= ws@.len(),
            items@.map_values(|x: String| x@) == pkg_views(ws@).take(i as int).map_values(
                |w: (Seq<char>, Seq<char>)| warning_json(w.0, w.1),
            ),
        decreases ws@.len() - i,
    {
        let ghost before = items@.map_values(|x: String| x@);
        items.push(warning_json_of(ws[i].code, ws[i].message.as_str()));
        proof {
            let v = pkg_views(ws@);
            assert(v[i as int] == (ws@[i as int].code@, ws@[i as int].message@));
            assert(v.take(i + 1) =~= v.take(i as int).push(v[i as int]));
            assert(items@.map_values(|x: String| x@) =~= before.push(
                warning_json(ws@[i as int].code@, ws@[i as int].message@),
            ));
            assert(items@.map_values(|x: String| x@) =~= v.take(i + 1).map_values(
                |w: (Seq<char>, Seq<char>)| warning_json(w.0, w.1),
            ));
        }
        i = i + 1;
    }
    assert(pkg_views(ws@).take(i as int) =~= pkg_views(ws@));
    compact_container_of('[', ']', &items)
}

/// The diagnostics JSON of a compiled page matched by `pattern`.
pub fn diagnostics_json(pattern: &str, page: &CompiledPage) -> (r: String)
    requires
        ir_count(page.ir.root) <= usize::MAX,
    ensures
        r@ == diagnostics(
            pattern@,
            page.ir.root,
            page.initial_js_bytes,
            page.manifest.pairs(),
            seo_views(page.seo_warnings@),
            pkg_views(page.pkg_warnings@),
        ),
{
    let counts = page.ir.root.classification_counts();
    proof {
        crate::ir::lemma_class_counts_add_up(page.ir.root);
    }
    let mut cls: Vec<String> = Vec::new();
    cls.push(compact_member_of("async", decimal_string(counts.async_count as u128).as_str()));
    cls.push(compact_member_of("dynamic", decimal_string(counts.dynamic_count as u128).as_str()));
    cls.push(
        compact_member_of("interactive", decimal_string(counts.interactive_count as u128).as_str()),
    );
    cls.push(compact_member_of("static", decimal_string(counts.static_count as u128).as_str()));
    cls.push(compact_member_of("total", decimal_string(counts.total() as u128).as_str()));
    proof {
        assert(counts.count_of(Classification::Async) == ir_class_count(
            page.ir.root,
            Classification::Async,
        ));
        assert(counts.count_of(Classification::Dynamic) == ir_class_count(
            page.ir.root,
            Classification::Dynamic,
        ));
        assert(counts.count_of(Classification::Interactive) == ir_class_count(
            page.ir.root,
            Classification::Interactive,
        ));
        assert(counts.count_of(Classification::Static) == ir_class_count(
            page.ir.root,
            Classification::Static,
        ));
        assert(cls@.map_values(|x: String| x@) =~= seq![
            compact_member("async"@, decimal(ir_class_count(page.ir.root, Classification::Async))),
            compact_member(
                "dynamic"@,
                decimal(ir_class_count(page.ir.root, Classification::Dynamic)),
            ),
            compact_member(
                "interactive"@,
                decimal(ir_class_count(page.ir.root, Classification::Interactive)),
            ),
            compact_member(
                "static"@,
                decimal(ir_class_count(page.ir.root, Classification::Static)),
            ),
            compact_member("total"@, decimal(ir_count(page.ir.root))),
        ]);
    }
    let classification = compact_container_of('{', '}', &cls);
    let mut top: Vec<String> = Vec::new();
    top.push(compact_member_of("activation", activation_entries(&page.manifest).as_str()));
    top.push(compact_member_of("classification", classification.as_str()));
    top.push(
        compact_member_of("initialJsBytes", decimal_string(page.initial_js_bytes as u128).as_str()),
    );
    top.push(text_member("pattern", pattern));
    top.push(compact_member_of("pkgWarnings", pkg_array(&page.pkg_warnings).as_str()));
    top.push(compact_member_of("seoWarnings", seo_array(&page.seo_warnings).as_str()));
    let r = compact_container_of('{', '}', &top);
    assert(top@.map_values(|x: String| x@) =~= seq![
        compact_member(
            "activation"@,
            compact_container(
                '[',
                ']',
                page.manifest.pairs().map_values(
                    |p: (Seq<char>, EntryView)| activation_json(p.0, p.1),
                ),
            ),
        ),
        compact_member("classification"@, classification_json(page.ir.root)),
        compact_member("initialJsBytes"@, decimal(page.initial_js_bytes as nat)),
        compact_member("pattern"@, json_string_literal(pattern@)),
        compact_member(
            "pkgWarnings"@,
            compact_container(
                '[',
                ']',
                pkg_views(page.pkg_warnings@).map_values(
                    |w: (Seq<char>, Seq<char>)| warning_json(w.0, w.1),
                ),
            ),
        ),
        compact_member(
            "seoWarnings"@,
            compact_container(
                '[',
                ']',
                seo_views(page.seo_warnings@).map_values(
                    |w: (Seq<char>, Seq<char>)| warning_json(w.0, w.1),
                ),
            ),
        ),
    ]);
    r
}

/// The media type of the diagnostics endpoint's answers.
pub const JSON_CONTENT_TYPE: &'static str = "application/json; charset=utf-8";

/// The answer of the diagnostics endpoint for the page at `target`: its
/// diagnostics JSON when it compiled, else a 404 with an empty object.
pub fn diagnostics_reply(target: &str, page: Option<&CompiledPage>) -> (r: Reply)
    requires
        match page {
            Some(p) => ir_count(p.ir.root) <= usize::MAX,
            None => true,
        },
    ensures
        match page {
            Some(p) => r matches Reply::Text { status, content_type, body } && status == 200
                && content_type@ == JSON_CONTENT_TYPE@ && body@ == diagnostics(
                target@,
                p.ir.root,
                p.initial_js_bytes,
                p.manifest.pairs(),
                seo_views(p.seo_warnings@),
                pkg_views(p.pkg_warnings@),
            ),
            None => r matches Reply::Text { status, content_type, body } && status == 404
                && content_type@ == JSON_CONTENT_TYPE@ && body@ == "{}"@,
        },
{
    match page {
        Some(p) => Reply::Text {
            status: 200,
            content_type: JSON_CONTENT_TYPE,
            body: diagnostics_json(target, p),
        },
        None => Reply::Text { status: 404, content_type: JSON_CONTENT_TYPE, body: owned("{}") },
    }
}

} // verus!
