//! The framework's own JS bundles (`@nexa/runtime`, `@nexa/router`,
//! `@nexa/forms`, ...), which every build writes to `dist/assets/` and
//! every server can hand out without a `dist/` on disk. Each bundle's file
//! name carries the short hash of its content, so that a browser cache
//! never serves an old bundle under a new name, nor the other way round.
use vstd::prelude::*;

use crate::hash::{short_hash, short_hash_of};
use crate::text::{owned, str_eq};
use vstd::string::*;

verus! {

/// The texts of the framework bundles.
pub struct FrameworkAssets {
    pub runtime: String,
    pub router: String,
    pub forms: String,
    pub platform: String,
    pub telemetry: String,
    pub islands: String,
    pub ui: String,
    pub dev_client: String,
    pub devtools: String,
}

/// `nexa dev` serves these two from memory at every request, under stable
/// names (no cache to bust during development).
pub const NEXA_DEV_CLIENT_FILENAME: &'static str = "nexa-dev-client.js";

pub const NEXA_DEVTOOLS_FILENAME: &'static str = "nexa-devtools.js";

/// `stem.hash.js`, with the short hash of the bundle's content.
pub open spec fn bundle_filename(stem: Seq<char>, content: Seq<char>) -> Seq<char> {
    stem + "."@ + short_hash_of(content) + ".js"@
}

pub open spec fn runtime_filename(a: FrameworkAssets) -> Seq<char> {
    bundle_filename("nexa-runtime"@, a.runtime@)
}

pub open spec fn router_filename(a: FrameworkAssets) -> Seq<char> {
    bundle_filename("nexa-router"@, a.router@)
}

pub open spec fn forms_filename(a: FrameworkAssets) -> Seq<char> {
    bundle_filename("nexa-forms"@, a.forms@)
}

pub open spec fn platform_filename(a: FrameworkAssets) -> Seq<char> {
    bundle_filename("nexa-platform"@, a.platform@)
}

pub open spec fn telemetry_filename(a: FrameworkAssets) -> Seq<char> {
    bundle_filename("nexa-telemetry"@, a.telemetry@)
}

pub open spec fn islands_filename(a: FrameworkAssets) -> Seq<char> {
    bundle_filename("nexa-islands"@, a.islands@)
}

pub open spec fn ui_filename(a: FrameworkAssets) -> Seq<char> {
    bundle_filename("nexa-ui"@, a.ui@)
}

fn bundle_filename_of(stem: &str, content: &str) -> (r: String)
    ensures
        r@ == bundle_filename(stem@, content@),
{
    let mut r = owned(stem);
    r.append(".");
    r.append(short_hash(content).as_str());
    r.append(".js");
    r
}

pub fn nexa_runtime_filename(assets: &FrameworkAssets) -> (r: String)
    ensures
        r@ == runtime_filename(*assets),
{
    bundle_filename_of("nexa-runtime", assets.runtime.as_str())
}

pub fn nexa_router_filename(assets: &FrameworkAssets) -> (r: String)
    ensures
        r@ == router_filename(*assets),
{
    bundle_filename_of("nexa-router", assets.router.as_str())
}

pub fn nexa_forms_filename(assets: &FrameworkAssets) -> (r: String)
    ensures
        r@ == forms_filename(*assets),
{
    bundle_filename_of("nexa-forms", assets.forms.as_str())
}

pub fn nexa_platform_filename(assets: &FrameworkAssets) -> (r: String)
    ensures
        r@ == platform_filename(*assets),
{
    bundle_filename_of("nexa-platform", assets.platform.as_str())
}

pub fn nexa_telemetry_filename(assets: &FrameworkAssets) -> (r: String)
    ensures
        r@ == telemetry_filename(*assets),
{
    bundle_filename_of("nexa-telemetry", assets.telemetry.as_str())
}

pub fn nexa_islands_filename(assets: &FrameworkAssets) -> (r: String)
    ensures
        r@ == islands_filename(*assets),
{
    bundle_filename_of("nexa-islands", assets.islands.as_str())
}

pub fn nexa_ui_js_filename(assets: &FrameworkAssets) -> (r: String)
    ensures
        r@ == ui_filename(*assets),
{
    bundle_filename_of("nexa-ui", assets.ui.as_str())
}

/// `s` without its leading occurrences of `c`.
pub open spec fn trim_start(s: Seq<char>, c: char) -> Seq<char>
    decreases s.len(),
{
    if s.len() > 0 && s[0] == c {
        trim_start(s.skip(1), c)
    } else {
        s
    }
}

/// `s` without its leading occurrences of `c` (`str::trim_start_matches`
/// with one character).
pub fn trim_start_char(s: &str, c: char) -> (r: &str)
    ensures
        r@ == trim_start(s@, c),
{
    let n = s.unicode_len();
    let mut i: usize = 0;
    assert(s@.skip(0) =~= s@);
    while i < n && s.get_char(i) == c
        invariant
            n == s@.len(),
            i <= n,
            trim_start(s@.skip(i as int), c) == trim_start(s@, c),
        decreases n - i,
    {
        assert(s@.skip(i as int).skip(1) =~= s@.skip(i + 1));
        i = i + 1;
    }
    let r = s.substring_char(i, n);
    assert(r@ =~= s@.skip(i as int));
    r
}

/// The bundle that `path` names (`/assets/<name>.<hash>.js`, leading
/// slashes optional), in the order runtime, router, forms, platform,
/// telemetry, islands, ui.
pub open spec fn framework_asset_of(a: FrameworkAssets, path: Seq<char>) -> Option<Seq<char>> {
    let p = trim_start(path, '/');
    if p == "assets/"@ + runtime_filename(a) {
        Some(a.runtime@)
    } else if p == "assets/"@ + router_filename(a) {
        Some(a.router@)
    } else if p == "assets/"@ + forms_filename(a) {
        Some(a.forms@)
    } else if p == "assets/"@ + platform_filename(a) {
        Some(a.platform@)
    } else if p == "assets/"@ + telemetry_filename(a) {
        Some(a.telemetry@)
    } else if p == "assets/"@ + islands_filename(a) {
        Some(a.islands@)
    } else if p == "assets/"@ + ui_filename(a) {
        Some(a.ui@)
    } else {
        None
    }
}

/// A text option by its characters.
pub open spec fn str_option(o: Option<&str>) -> Option<Seq<char>> {
    match o {
        Some(s) => Some(s@),
        None => None,
    }
}

fn is_asset_path(p: &str, filename: String) -> (b: bool)
    ensures
        b == (p@ == "assets/"@ + filename@),
{
    let mut full = owned("assets/");
    full.append(filename.as_str());
    str_eq(p, full.as_str())
}

/// The framework bundle that `path` names, if any.
pub fn framework_asset<'a>(assets: &'a FrameworkAssets, path: &str) -> (r: Option<&'a str>)
    ensures
        str_option(r) == framework_asset_of(*assets, path@),
{
    let p = trim_start_char(path, '/');
    if is_asset_path(p, nexa_runtime_filename(assets)) {
        return Some(assets.runtime.as_str());
    }
    if is_asset_path(p, nexa_router_filename(assets)) {
        return Some(assets.router.as_str());
    }
    if is_asset_path(p, nexa_forms_filename(assets)) {
        return Some(assets.forms.as_str());
    }
    if is_asset_path(p, nexa_platform_filename(assets)) {
        return Some(assets.platform.as_str());
    }
    if is_asset_path(p, nexa_telemetry_filename(assets)) {
        return Some(assets.telemetry.as_str());
    }
    if is_asset_path(p, nexa_islands_filename(assets)) {
        return Some(assets.islands.as_str());
    }
    if is_asset_path(p, nexa_ui_js_filename(assets)) {
        return Some(assets.ui.as_str());
    }
    None
}

} // verus!

verus! {

proof fn lemma_served_path(filename: Seq<char>)
    ensures
        trim_start("/assets/"@ + filename, '/') == "assets/"@ + filename,
{
    reveal_strlit("/assets/");
    reveal_strlit("assets/");
    let p = "/assets/"@ + filename;
    assert(p[0] == '/');
    assert(p.skip(1) =~= "assets/"@ + filename);
    assert(p.skip(1)[0] == 'a');
    assert(trim_start(p.skip(1), '/') == p.skip(1));
    assert(trim_start(p, '/') == trim_start(p.skip(1), '/'));
}

proof fn lemma_bundle_char(stem: Seq<char>, content: Seq<char>, i: int)
    requires
        0 <= i < stem.len(),
    ensures
        ("assets/"@ + bundle_filename(stem, content))[7 + i] == stem[i],
{
    reveal_strlit("assets/");
    assert(("assets/"@ + bundle_filename(stem, content))[7 + i] == bundle_filename(stem, content)[i]);
}

/// Every framework bundle a build writes under its hashed name is served
/// under that name, with its content, by the preview and development
/// servers.
pub proof fn law_every_bundle_is_served_under_its_name(a: FrameworkAssets)
    ensures
        framework_asset_of(a, "/assets/"@ + runtime_filename(a)) == Some(a.runtime@),
        framework_asset_of(a, "/assets/"@ + router_filename(a)) == Some(a.router@),
        framework_asset_of(a, "/assets/"@ + forms_filename(a)) == Some(a.forms@),
        framework_asset_of(a, "/assets/"@ + platform_filename(a)) == Some(a.platform@),
        framework_asset_of(a, "/assets/"@ + telemetry_filename(a)) == Some(a.telemetry@),
        framework_asset_of(a, "/assets/"@ + islands_filename(a)) == Some(a.islands@),
        framework_asset_of(a, "/assets/"@ + ui_filename(a)) == Some(a.ui@),
{
    reveal_strlit("nexa-runtime");
    reveal_strlit("nexa-router");
    reveal_strlit("nexa-forms");
    reveal_strlit("nexa-platform");
    reveal_strlit("nexa-telemetry");
    reveal_strlit("nexa-islands");
    reveal_strlit("nexa-ui");
    let runtime = "assets/"@ + runtime_filename(a);
    let router = "assets/"@ + router_filename(a);
    let forms = "assets/"@ + forms_filename(a);
    let platform = "assets/"@ + platform_filename(a);
    let telemetry = "assets/"@ + telemetry_filename(a);
    let islands = "assets/"@ + islands_filename(a);
    let ui = "assets/"@ + ui_filename(a);
    lemma_bundle_char("nexa-runtime"@, a.runtime@, 5);
    lemma_bundle_char("nexa-runtime"@, a.runtime@, 6);
    lemma_bundle_char("nexa-router"@, a.router@, 5);
    lemma_bundle_char("nexa-router"@, a.router@, 6);
    lemma_bundle_char("nexa-forms"@, a.forms@, 5);
    lemma_bundle_char("nexa-platform"@, a.platform@, 5);
    lemma_bundle_char("nexa-telemetry"@, a.telemetry@, 5);
    lemma_bundle_char("nexa-islands"@, a.islands@, 5);
    lemma_bundle_char("nexa-ui"@, a.ui@, 5);
    assert(runtime[13] == 'u' && router[13] == 'o');
    assert(runtime[12] == 'r' && router[12] == 'r' && forms[12] == 'f' && platform[12] == 'p');
    assert(telemetry[12] == 't' && islands[12] == 'i' && ui[12] == 'u');
    lemma_served_path(runtime_filename(a));
    lemma_served_path(router_filename(a));
    lemma_served_path(forms_filename(a));
    lemma_served_path(platform_filename(a));
    lemma_served_path(telemetry_filename(a));
    lemma_served_path(islands_filename(a));
    lemma_served_path(ui_filename(a));
}

} // verus!
