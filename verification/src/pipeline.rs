//! The compilation of one page, once its tree is parsed, its data loaded
//! and its body rendered: the document around the body, the import map,
//! the activation manifest and chunks, the boot scripts, the package
//! warnings and the weight of the JS it loads without interaction.
use vstd::prelude::*;

use crate::activation::{
    activations, build, chunks_of, outcome, record_all, ActivationManifest, BuildContext, Chunk,
    ChunkView, EntryView, Strategy,
};
use crate::assets::FrameworkAssets;
use crate::ast::{Attr, TopLevelConst};
use crate::bootstrap::{inject, injected};
use crate::document::{assemble_in, document_in, DEFAULT_LANG};
use crate::import_map::{
    builtin_imports, handlers_use, import_map_script, page_uses, resolved, script_tag, text_map,
    used_by_handlers, used_by_page,
};
use crate::ir::{ir_count, irs_count, IrComponent, IrNode, IrNodeKind};
use crate::layout::has_attr;
use crate::manifest::Manifest;
use crate::pkg_warnings::{check, package_warnings, warning_views, PackageWarning};
use crate::pwa::{head_fragment, pwa_head};
use crate::strmap::{sorted_elems, StrMap, StrSet};
use crate::text::{owned, str_eq};

verus! {

/// The hash `nexa-ui.css`'s `href` carries until the content of the
/// whole site's stylesheet is known; real hashes are hexadecimal, so this
/// never collides with one.
pub const UI_CSS_HASH_PLACEHOLDER: &'static str = "pending";

/// `/assets/nexa-ui.<hash>.css`
pub fn ui_stylesheet_href_with_hash(hash: &str) -> (r: String)
    ensures
        r@ == "/assets/nexa-ui."@ + hash@ + ".css"@,
{
    let mut r = owned("/assets/nexa-ui.");
    r.append(hash);
    r.append(".css");
    r
}

/// Two `<head>` fragments, one per line, either of them possibly empty.
pub open spec fn joined_fragments(a: Seq<char>, b: Seq<char>) -> Seq<char> {
    if a.len() == 0 {
        b
    } else if b.len() == 0 {
        a
    } else {
        a + "\n"@ + b
    }
}

/// Joins two `<head>` fragments.
pub fn join_head_fragments(a: &str, b: &str) -> (r: String)
    ensures
        r@ == joined_fragments(a@, b@),
{
    match (a.is_empty(), b.is_empty()) {
        (true, true) => String::new(),
        (false, true) => owned(a),
        (true, false) => owned(b),
        (false, false) => {
            let mut r = owned(a);
            r.append("\n");
            r.append(b);
            r
        },
    }
}

/// An element of the tree carries `data-nexa-form` (descending through
/// elements only).
pub open spec fn tree_has_forms(n: IrNode) -> bool
    decreases n,
{
    match n.kind {
        IrNodeKind::Element { attrs, children, .. } => has_attr(attrs@, "data-nexa-form"@)
            || any_has_forms(children@),
        _ => false,
    }
}

pub open spec fn any_has_forms(s: Seq<IrNode>) -> bool
    decreases s,
{
    s.len() > 0 && (any_has_forms(s.drop_last()) || tree_has_forms(s.last()))
}

fn attrs_have(attrs: &Vec<Attr>, name: &str) -> (b: bool)
    ensures
        b == has_attr(attrs@, name@),
{
    let mut i: usize = 0;
    while i < attrs.len()
        invariant
            i <= attrs@.len(),
            forall|j: int| 0 <= j < i ==> attrs@[j].name@ != name@,
        decreases attrs@.len() - i,
    {
        if str_eq(attrs[i].name.as_str(), name) {
            return true;
        }
        i = i + 1;
    }
    false
}

/// The page has a `<form data-nexa-form>`: only then is `@nexa/forms`
/// loaded.
pub fn has_forms(root: &IrNode) -> (b: bool)
    ensures
        b == tree_has_forms(*root),
    decreases ir_count(*root), 0nat,
{
    match &root.kind {
        IrNodeKind::Element { attrs, children, .. } => {
            if attrs_have(attrs, "data-nexa-form") {
                return true;
            }
            any_child_has_forms(children)
        },
        _ => false,
    }
}

fn any_child_has_forms(children: &Vec<IrNode>) -> (b: bool)
    ensures
        b == any_has_forms(children@),
    decreases irs_count(children@), 1nat,
{
    let mut i: usize = 0;
    while i < children.len()
        invariant
            i <= children@.len(),
            !any_has_forms(children@.take(i as int)),
        decreases children@.len() - i,
    {
        proof {
            crate::activation::lemma_irs_count_elem(children@, i as int);
            assert(children@.take(i + 1).drop_last() =~= children@.take(i as int));
        }
        if has_forms(&children[i]) {
            proof {
                lemma_any_forms_prefix(children@, i + 1);
            }
            return true;
        }
        i = i + 1;
    }
    assert(children@.take(i as int) =~= children@);
    false
}

proof fn lemma_any_forms_prefix(s: Seq<IrNode>, k: int)
    requires
        0 <= k <= s.len(),
        any_has_forms(s.take(k)),
    ensures
        any_has_forms(s),
    decreases s.len(),
{
    if k < s.len() {
        assert(s.drop_last().take(k) =~= s.take(k));
        lemma_any_forms_prefix(s.drop_last(), k);
    } else {
        assert(s.take(k) =~= s);
    }
}

/// The island specifiers of a tree (the `<For>` bodies included).
pub open spec fn tree_islands(n: IrNode) -> Set<Seq<char>>
    decreases n,
{
    match n.kind {
        IrNodeKind::Element { island, children, .. } => (match island {
            Some(i) => set![i.specifier@],
            None => Set::empty(),
        }).union(all_islands(children@)),
        IrNodeKind::For { body, .. } => tree_islands(*body),
        _ => Set::empty(),
    }
}

pub open spec fn all_islands(s: Seq<IrNode>) -> Set<Seq<char>>
    decreases s,
{
    if s.len() == 0 {
        Set::empty()
    } else {
        all_islands(s.drop_last()).union(tree_islands(s.last()))
    }
}

fn collect_islands(node: &IrNode, out: &mut StrSet)
    ensures
        final(out)@ == old(out)@.union(tree_islands(*node)),
    decreases ir_count(*node), 0nat,
{
    match &node.kind {
        IrNodeKind::Element { island, children, .. } => {
            match island {
                Some(i) => out.insert(owned(i.specifier.as_str())),
                None => {},
            }
            let ghost mid = out@;
            collect_islands_all(children, out);
            assert(out@ =~= old(out)@.union(tree_islands(*node)));
        },
        IrNodeKind::For { body, .. } => {
            collect_islands(body, out);
        },
        _ => {
            assert(out@ =~= old(out)@.union(tree_islands(*node)));
        },
    }
}

fn collect_islands_all(children: &Vec<IrNode>, out: &mut StrSet)
    ensures
        final(out)@ == old(out)@.union(all_islands(children@)),
    decreases irs_count(children@), 1nat,
{
    let mut i: usize = 0;
    assert(children@.take(0) =~= Seq::<IrNode>::empty());
    assert(old(out)@.union(all_islands(children@.take(0))) =~= old(out)@);
    while i < children.len()
        invariant
            i <= children@.len(),
            out@ == old(out)@.union(all_islands(children@.take(i as int))),
        decreases children@.len() - i,
    {
        proof {
            crate::activation::lemma_irs_count_elem(children@, i as int);
            assert(children@.take(i + 1).drop_last() =~= children@.take(i as int));
        }
        collect_islands(&children[i], out);
        assert(out@ =~= old(out)@.union(all_islands(children@.take(i + 1))));
        i = i + 1;
    }
    assert(children@.take(i as int) =~= children@);
}

/// The island specifiers (`data-nexa-island="..."`) a page declares: they
/// go into its import map, and each one missing from the resolved imports
/// is warned about.
pub fn island_specifiers(root: &IrNode) -> (r: StrSet)
    ensures
        r@ == tree_islands(*root),
{
    let mut out = StrSet::new();
    collect_islands(root, &mut out);
    assert(out@ =~= tree_islands(*root));
    out
}

/// Why a page could not be compiled: the data it asked for does not exist
/// (a real 404), or anything else, with its message.
pub enum PageError {
    NotFound,
    Other(String),
}

impl PageError {
    /// The error as the user reads it.
    pub fn message(&self) -> (r: String)
        ensures
            r@ == match self {
                PageError::NotFound => "recurso no encontrado (404)"@,
                PageError::Other(m) => m@,
            },
    {
        match self {
            PageError::NotFound => owned("recurso no encontrado (404)"),
            PageError::Other(m) => owned(m.as_str()),
        }
    }
}

/// How a page's data loader failed: what it asked for does not exist, or
/// any other failure, with its message.
pub enum LoadFailure {
    NotFound,
    Other(String),
}

/// The page error for a failure of the data loader of page file `file`: a
/// missing resource stays a 404; anything else says which file's data
/// could not be loaded, and why.
pub fn load_error(file: &str, failure: LoadFailure) -> (r: PageError)
    ensures
        match failure {
            LoadFailure::NotFound => r is NotFound,
            LoadFailure::Other(m) => r matches PageError::Other(t) && t@ == "cargando datos de "@
                + file@ + ": "@ + m@,
        },
{
    match failure {
        LoadFailure::NotFound => PageError::NotFound,
        LoadFailure::Other(m) => {
            let mut t = owned("cargando datos de ");
            t.append(file);
            t.append(": ");
            t.append(m.as_str());
            PageError::Other(t)
        },
    }
}

/// A warning of the SEO analysis: its code and message.
pub struct SeoWarning {
    pub code: String,
    pub message: String,
}

/// The JS a page downloads without waiting for any interaction: the
/// router always, the runtime when something is interactive, forms and
/// telemetry when used, and every chunk activated on load.
pub open spec fn initial_js(
    a: FrameworkAssets,
    has_manifest: bool,
    chunks: Seq<Chunk>,
    has_forms: bool,
    has_telemetry: bool,
) -> nat {
    bytes_of(a.router@) + (if has_manifest {
        bytes_of(a.runtime@)
    } else {
        0
    }) + (if has_forms {
        bytes_of(a.forms@)
    } else {
        0
    }) + (if has_telemetry {
        bytes_of(a.telemetry@)
    } else {
        0
    }) + load_chunks_bytes(chunks)
}

/// The length in bytes (UTF-8) of a text.
pub open spec fn bytes_of(s: Seq<char>) -> nat {
    vstd::utf8::encode_utf8(s).len()
}

/// The bytes of the chunks activated on load.
pub open spec fn load_chunks_bytes(chunks: Seq<Chunk>) -> nat
    decreases chunks.len(),
{
    if chunks.len() == 0 {
        0
    } else {
        load_chunks_bytes(chunks.drop_last()) + if chunks.last().strategy == Strategy::Load {
            bytes_of(chunks.last().content@)
        } else {
            0
        }
    }
}

fn text_bytes(s: &str) -> (n: u64)
    ensures
        n == bytes_of(s@),
{
    let n = s.as_bytes().len();
    n as u64
}

/// `x`, or `u64::MAX` when it does not fit.
pub open spec fn capped(x: nat) -> u64 {
    if x > u64::MAX {
        u64::MAX
    } else {
        x as u64
    }
}

/// The bytes of JS a page loads without interaction (for the
/// `maxInitialJS` budget); a sum beyond `u64::MAX` (which no page held in
/// memory reaches) stays at `u64::MAX`.
pub fn initial_js_bytes(
    manifest: &ActivationManifest,
    chunks: &[Chunk],
    has_forms: bool,
    has_telemetry: bool,
    assets: &FrameworkAssets,
) -> (n: u64)
    ensures
        n == capped(
            initial_js(*assets, manifest@.dom().len() > 0, chunks@, has_forms, has_telemetry),
        ),
{
    let has_manifest = !manifest.is_empty();
    let mut total: u64 = text_bytes(assets.router.as_str());
    if has_manifest {
        total = total.saturating_add(text_bytes(assets.runtime.as_str()));
    }
    if has_forms {
        total = total.saturating_add(text_bytes(assets.forms.as_str()));
    }
    if has_telemetry {
        total = total.saturating_add(text_bytes(assets.telemetry.as_str()));
    }
    let ghost base: nat = bytes_of(assets.router@) + (if has_manifest {
        bytes_of(assets.runtime@)
    } else {
        0
    }) + (if has_forms {
        bytes_of(assets.forms@)
    } else {
        0
    }) + (if has_telemetry {
        bytes_of(assets.telemetry@)
    } else {
        0
    });
    assert(total == capped(base));
    let mut i: usize = 0;
    assert(chunks@.take(0) =~= Seq::<Chunk>::empty());
    while i < chunks.len()
        invariant
            i <= chunks@.len(),
            total == capped(base + load_chunks_bytes(chunks@.take(i as int))),
        decreases chunks@.len() - i,
    {
        proof {
            assert(chunks@.take(i + 1).drop_last() =~= chunks@.take(i as int));
        }
        if chunks[i].strategy == Strategy::Load {
            total = total.saturating_add(text_bytes(chunks[i].content.as_str()));
        }
        i = i + 1;
    }
    assert(chunks@.take(i as int) =~= chunks@);
    total
}

/// What a page compiles from besides its tree: the rendered body (inside
/// the layout, if any), the `<head>` fragments resolved for it (SEO,
/// hreflang, the layout's), its JSON-LD script, the SEO warnings, the
/// `nx-*` classes the page and its layout use, and the page's `locale`
/// parameter when its route has one.
pub struct PageParts {
    pub body: String,
    pub seo_head: String,
    pub hreflang_head: String,
    pub layout_head: String,
    pub schema_script: Option<String>,
    pub seo_warnings: Vec<SeoWarning>,
    pub ui_used_classes: StrSet,
    pub layout_ui_classes: StrSet,
    pub locale: Option<String>,
}

/// The language of a page's document: its locale, else the default.
pub open spec fn page_lang(parts: PageParts) -> Seq<char> {
    match parts.locale {
        Some(l) => l@,
        None => DEFAULT_LANG@,
    }
}

/// A compiled page.
pub struct CompiledPage {
    pub html: String,
    pub manifest: ActivationManifest,
    pub chunks: Vec<Chunk>,
    pub ir: IrComponent,
    /// Never fail a build; shown only.
    pub seo_warnings: Vec<SeoWarning>,
    /// The `nx-*` classes the page uses (the site's stylesheet is their
    /// union over all pages).
    pub ui_used_classes: StrSet,
    pub pkg_warnings: Vec<PackageWarning>,
    /// Bytes of JS loaded without interaction.
    pub initial_js_bytes: u64,
}

/// The PWA `<head>` fragment, when the project declares `[pwa]`.
pub open spec fn pwa_part(project: Manifest) -> Seq<char> {
    match project.pwa {
        Some(p) => pwa_head(p),
        None => Seq::empty(),
    }
}

/// The `<head>` of a page beyond the base: SEO, hreflang, PWA, then the
/// layout's, one fragment per line.
pub open spec fn page_head(parts: PageParts, project: Manifest) -> Seq<char> {
    joined_fragments(
        joined_fragments(
            joined_fragments(parts.seo_head@, parts.hreflang_head@),
            pwa_part(project),
        ),
        parts.layout_head@,
    )
}

/// The `nx-*` classes of a page and its layout.
pub open spec fn page_classes(parts: PageParts) -> Set<Seq<char>> {
    parts.ui_used_classes@.union(parts.layout_ui_classes@)
}

/// The stylesheet link a page carries while the site's stylesheet hash is
/// pending, when it uses `@nexa/ui`.
pub open spec fn stylesheet_href(classes: Set<Seq<char>>) -> Option<Seq<char>> {
    if classes.len() > 0 {
        Some("/assets/nexa-ui."@ + UI_CSS_HASH_PLACEHOLDER@ + ".css"@)
    } else {
        None
    }
}

/// The imports resolved for the project (name to specifier).
pub open spec fn project_imports(project: Manifest) -> Map<Seq<char>, Seq<char>> {
    builtin_imports().union_prefer_right(text_map(project.imports@))
}

/// The telemetry endpoint declared in `[telemetry]`.
pub open spec fn telemetry_endpoint(project: Manifest) -> Option<Seq<char>> {
    match project.telemetry {
        Some(t) => match t.endpoint {
            Some(e) => Some(e@),
            None => None,
        },
        None => None,
    }
}

/// What the activation build of a page works from.
pub open spec fn page_context(
    ir: IrComponent,
    handlers: Map<Seq<char>, String>,
    consts: Seq<(Seq<char>, TopLevelConst)>,
    project: Manifest,
) -> BuildContext {
    BuildContext {
        name: ir.name@,
        handlers,
        imports: sorted_elems(project_imports(project).dom()),
        consts,
    }
}

pub open spec fn opt_string(o: Option<String>) -> Option<Seq<char>> {
    match o {
        Some(s) => Some(s@),
        None => None,
    }
}

/// The document of a page, before its boot scripts.
pub open spec fn page_document(
    ir: IrComponent,
    handlers: Map<Seq<char>, String>,
    parts: PageParts,
    project: Manifest,
) -> Seq<char> {
    document_in(
        page_lang(parts),
        parts.body@,
        page_head(parts, project),
        opt_string(parts.schema_script),
        stylesheet_href(page_classes(parts)),
        import_map_script(
            project_imports(project).restrict(page_uses(handlers, tree_islands(ir.root))),
        ),
    )
}

fn keys_of(m: &StrMap<String>) -> (r: StrSet)
    ensures
        r@ == m@.dom(),
{
    let n = m.len();
    let mut r = StrSet::new();
    let mut i: usize = 0;
    while i < n
        invariant
            n == m.pairs().len(),
            i <= n,
            r@ == crate::strmap::map_of(m.pairs().take(i as int)).dom(),
        decreases n - i,
    {
        let k = m.key_at(i);
        r.insert(owned(k.as_str()));
        proof {
            assert(m.pairs().take(i + 1).drop_last() =~= m.pairs().take(i as int));
            assert(r@ =~= crate::strmap::map_of(m.pairs().take(i + 1)).dom());
        }
        i = i + 1;
    }
    assert(m.pairs().take(i as int) =~= m.pairs());
    r
}

/// Compiles a page from its classified tree and the parts resolved around
/// it: the document (base head, SEO and other fragments, the `@nexa/ui`
/// stylesheet with a pending hash, the import map of the imports the page
/// really uses), its activation manifest and chunks, the boot scripts,
/// the package warnings and the initial JS weight. Fails when the
/// activation build fails.
pub fn compile_parts(
    ir: IrComponent,
    handlers: &StrMap<String>,
    consts: &StrMap<TopLevelConst>,
    parts: PageParts,
    project: &Manifest,
    assets: &FrameworkAssets,
) -> (r: Result<CompiledPage, PageError>)
    ensures
        ({
            let ctx = page_context(ir, handlers@, consts.pairs(), *project);
            let islands = tree_islands(ir.root);
            let forms = tree_has_forms(ir.root);
            match r {
                Err(PageError::Other(msg)) => outcome(ctx, activations(ir.root)) == Err::<
                    Seq<(nat, EntryView, ChunkView)>,
                    Seq<char>,
                >(msg@),
                Err(PageError::NotFound) => false,
                Ok(page) => {
                    &&& outcome(ctx, activations(ir.root)) matches Ok(done)
                    &&& page.manifest@ == record_all(Map::empty(), done)
                    &&& page.chunks@.map_values(|c: Chunk| c@) == chunks_of(done)
                    &&& page.ir == ir
                    &&& page.ui_used_classes@ == page_classes(parts)
                    &&& page.seo_warnings == parts.seo_warnings
                    &&& page.html@ == injected(
                        page_document(ir, handlers@, parts, *project),
                        page.manifest@,
                        page.manifest.pairs(),
                        *assets,
                        forms,
                        islands.len() > 0,
                        project.pwa is Some,
                        telemetry_endpoint(*project),
                    )
                    &&& warning_views(page.pkg_warnings@) == package_warnings(
                        project.dependencies@.dom(),
                        page_classes(parts).len() > 0,
                        forms,
                        used_by_handlers(handlers@, "platform"@),
                        sorted_elems(islands),
                        project_imports(*project).dom(),
                    )
                    &&& page.initial_js_bytes == capped(
                        initial_js(
                            *assets,
                            page.manifest@.dom().len() > 0,
                            page.chunks@,
                            forms,
                            telemetry_endpoint(*project) is Some,
                        ),
                    )
                },
            }
        }),
{
    let PageParts {
        body,
        seo_head,
        hreflang_head,
        layout_head,
        schema_script,
        seo_warnings,
        ui_used_classes,
        layout_ui_classes,
        locale,
    } = parts;
    let ghost parts_g = PageParts {
        body,
        seo_head,
        hreflang_head,
        layout_head,
        schema_script,
        seo_warnings,
        ui_used_classes,
        layout_ui_classes,
        locale,
    };
    assert(parts_g == parts);
    let pwa_head_text = match &project.pwa {
        Some(p) => head_fragment(p),
        None => String::new(),
    };
    let h1 = join_head_fragments(seo_head.as_str(), hreflang_head.as_str());
    let h2 = join_head_fragments(h1.as_str(), pwa_head_text.as_str());
    let combined_head = join_head_fragments(h2.as_str(), layout_head.as_str());
    let mut classes = ui_used_classes;
    classes.extend_from(&layout_ui_classes);
    let href: Option<String> = if !classes.is_empty() {
        Some(ui_stylesheet_href_with_hash(UI_CSS_HASH_PLACEHOLDER))
    } else {
        None
    };
    let all_imports = resolved(project);
    let import_names = keys_of(&all_imports);
    let islands = island_specifiers(&ir.root);
    let used = used_by_page(&all_imports, handlers, &islands);
    let import_map_tag = script_tag(&used);
    let schema_ref: Option<&str> = match &schema_script {
        Some(s) => Some(s.as_str()),
        None => None,
    };
    let href_ref: Option<&str> = match &href {
        Some(h) => Some(h.as_str()),
        None => None,
    };
    let map_ref: Option<&str> = match &import_map_tag {
        Some(t) => Some(t.as_str()),
        None => None,
    };
    let lang: &str = match &locale {
        Some(l) => l.as_str(),
        None => DEFAULT_LANG,
    };
    let html = assemble_in(lang, body.as_str(), combined_head.as_str(), schema_ref, href_ref, map_ref);
    assert(text_map(all_imports@).dom() =~= all_imports@.dom());
    let _ = import_names.len();
    let built = build(&ir, ir.name.as_str(), handlers, consts, &import_names);
    let (activation_manifest, chunks) = match built {
        Ok(pair) => pair,
        Err(msg) => return Err(PageError::Other(msg)),
    };
    let forms = has_forms(&ir.root);
    let has_islands = !islands.is_empty();
    let has_pwa = project.pwa.is_some();
    let endpoint: Option<&str> = match &project.telemetry {
        Some(t) => match &t.endpoint {
            Some(e) => Some(e.as_str()),
            None => None,
        },
        None => None,
    };
    let html = inject(
        html.as_str(),
        &activation_manifest,
        forms,
        has_islands,
        has_pwa,
        endpoint,
        assets,
    );
    let has_platform = handlers_use(handlers, "platform");
    let _ = islands.len();
    let pkg_warnings = check(project, &classes, forms, has_platform, &islands, &all_imports);
    let initial = initial_js_bytes(
        &activation_manifest,
        chunks.as_slice(),
        forms,
        endpoint.is_some(),
        assets,
    );
    Ok(
        CompiledPage {
            html,
            manifest: activation_manifest,
            chunks,
            ir,
            seo_warnings,
            ui_used_classes: classes,
            pkg_warnings,
            initial_js_bytes: initial,
        },
    )
}

} // verus!
