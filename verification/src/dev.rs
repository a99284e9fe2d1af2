//! `nexa dev`: every request recompiles the page from `src/`, and every
//! HTML response carries, in `<head>` (so that it survives the `<body>`
//! swap it triggers), the client that polls for changes and the devtools
//! panel. Compile errors are shown as a readable page that reloads itself
//! once the file compiles again.
use vstd::prelude::*;

use crate::assets::{
    framework_asset, framework_asset_of, str_option, trim_start, trim_start_char, FrameworkAssets,
    NEXA_DEVTOOLS_FILENAME, NEXA_DEV_CLIENT_FILENAME,
};
use crate::bootstrap::{insert_before_closing, insert_before_closing_tag};
use crate::page_resolver::{Reply, ResolveError, HTML_CONTENT_TYPE};
use crate::serve::{guess_static_content_type, static_content_type};
use crate::text::{ends_with_seq, ends_with_str, owned, push_char, str_eq};

verus! {

pub const VERSION_ENDPOINT: &'static str = "/__nexa_dev__/version";

pub const DIAGNOSTICS_ENDPOINT: &'static str = "/__nexa_dev__/diagnostics";

/// How HTML escapes one character of text: `&`, `<` and `>` become
/// entities.
pub open spec fn html_escape_char(c: char) -> Seq<char> {
    if c == '&' {
        "&amp;"@
    } else if c == '<' {
        "&lt;"@
    } else if c == '>' {
        "&gt;"@
    } else {
        seq![c]
    }
}

/// `s` with `&`, `<` and `>` escaped.
pub open spec fn html_escaped(s: Seq<char>) -> Seq<char>
    decreases s.len(),
{
    if s.len() == 0 {
        Seq::empty()
    } else {
        html_escaped(s.drop_last()) + html_escape_char(s.last())
    }
}

/// `s` with `&`, `<` and `>` escaped, so that it shows as text in HTML.
pub fn html_escape(s: &str) -> (r: String)
    ensures
        r@ == html_escaped(s@),
{
    let cs = crate::text::chars_of(s);
    let mut r = String::new();
    let mut i: usize = 0;
    while i < cs.len()
        invariant
            cs@ == s@,
            i <= cs@.len(),
            r@ == html_escaped(s@.take(i as int)),
        decreases cs@.len() - i,
    {
        let c = cs[i];
        if c == '&' {
            r.append("&amp;");
        } else if c == '<' {
            r.append("&lt;");
        } else if c == '>' {
            r.append("&gt;");
        } else {
            push_char(&mut r, c);
        }
        assert(s@.take(i + 1).drop_last() =~= s@.take(i as int));
        i = i + 1;
    }
    assert(s@.take(i as int) =~= s@);
    r
}

pub const DEV_CLIENT_SCRIPT_OPEN: &'static str = "<script type=\"module\" src=\"/assets/";

pub const DEV_CLIENT_SCRIPT_MIDDLE: &'static str = "\"></script>\n<script type=\"module\">\nimport { initDevtools } from \"/assets/";

pub const DEV_CLIENT_SCRIPT_CLOSE: &'static str = "\";\ninitDevtools();\n</script>\n";

/// The scripts of the development client and of the devtools panel.
pub open spec fn dev_client_script() -> Seq<char> {
    DEV_CLIENT_SCRIPT_OPEN@ + NEXA_DEV_CLIENT_FILENAME@ + DEV_CLIENT_SCRIPT_MIDDLE@
        + NEXA_DEVTOOLS_FILENAME@ + DEV_CLIENT_SCRIPT_CLOSE@
}

/// `html` with the development client and the devtools panel loaded right
/// before `</head>`.
pub fn with_dev_client(html: &str) -> (r: String)
    ensures
        r@ == insert_before_closing(html@, "head"@, dev_client_script()),
{
    let mut script = owned(DEV_CLIENT_SCRIPT_OPEN);
    script.append(NEXA_DEV_CLIENT_FILENAME);
    script.append(DEV_CLIENT_SCRIPT_MIDDLE);
    script.append(NEXA_DEVTOOLS_FILENAME);
    script.append(DEV_CLIENT_SCRIPT_CLOSE);
    insert_before_closing_tag(html, "head", script.as_str())
}

pub const NOT_FOUND_HEAD: &'static str = "<!doctype html>\n<html lang=\"es\"><head><meta charset=\"UTF-8\"><title>404 — Nexa dev</title></head><body><h1>404</h1><p>No existe una página para <code>";

pub const NOT_FOUND_TAIL: &'static str = "</code>.</p></body></html>\n";

/// The 404 page of `nexa dev`.
pub fn not_found_page(path: &str) -> (r: String)
    ensures
        r@ == NOT_FOUND_HEAD@ + path@ + NOT_FOUND_TAIL@,
{
    let mut r = owned(NOT_FOUND_HEAD);
    r.append(path);
    r.append(NOT_FOUND_TAIL);
    r
}

pub const COMPILE_ERROR_HEAD: &'static str = "<!doctype html>\n<html lang=\"es\"><head><meta charset=\"UTF-8\"><title>Error de compilación — Nexa dev</title><style>body{background:#1e1e1e;color:#f2f2f2;font-family:ui-monospace,Menlo,Consolas,monospace;padding:2rem;line-height:1.5}h1{color:#ff6b6b;font-size:1.1rem;margin:0 0 1rem}pre{white-space:pre-wrap;background:#2a2a2a;padding:1rem;border-radius:6px;overflow-x:auto}p{color:#999}</style></head><body data-nexa-dev-error=\"1\"><h1>Nexa no pudo compilar esta página</h1><pre>";

pub const COMPILE_ERROR_TAIL: &'static str = "</pre><p>Corrige el archivo y guarda — esta página se reemplaza sola cuando vuelva a compilar.</p></body></html>\n";

/// The page that shows a compile error while editing: monospaced, with
/// the whole message, escaped.
pub fn compile_error_page(message: &str) -> (r: String)
    ensures
        r@ == COMPILE_ERROR_HEAD@ + html_escaped(message@) + COMPILE_ERROR_TAIL@,
{
    let mut r = owned(COMPILE_ERROR_HEAD);
    r.append(html_escape(message).as_str());
    r.append(COMPILE_ERROR_TAIL);
    r
}

/// The bundle `nexa dev` serves at `path`: the development client and the
/// devtools panel, which only this command serves, then the framework
/// bundles.
pub open spec fn dev_asset_of(a: FrameworkAssets, path: Seq<char>) -> Option<Seq<char>> {
    let p = trim_start(path, '/');
    if p == "assets/"@ + NEXA_DEV_CLIENT_FILENAME@ {
        Some(a.dev_client@)
    } else if p == "assets/"@ + NEXA_DEVTOOLS_FILENAME@ {
        Some(a.devtools@)
    } else {
        framework_asset_of(a, path)
    }
}

/// The bundle that `nexa dev` serves at `path`, if any.
pub fn serve_framework_asset<'a>(assets: &'a FrameworkAssets, path: &str) -> (r: Option<&'a str>)
    ensures
        str_option(r) == dev_asset_of(*assets, path@),
{
    let trimmed = trim_start_char(path, '/');
    let mut dev_client = owned("assets/");
    dev_client.append(NEXA_DEV_CLIENT_FILENAME);
    if str_eq(trimmed, dev_client.as_str()) {
        return Some(assets.dev_client.as_str());
    }
    let mut devtools = owned("assets/");
    devtools.append(NEXA_DEVTOOLS_FILENAME);
    if str_eq(trimmed, devtools.as_str()) {
        return Some(assets.devtools.as_str());
    }
    framework_asset(assets, path)
}

/// What the development server answers first, before looking at disk.
pub enum DevRoute<'a> {
    /// The change marker that the client polls.
    Version,
    /// The diagnostics of a page, for the devtools panel.
    Diagnostics,
    /// A bundle held in memory.
    Bundle(&'a str),
    /// Anything else: a built asset, the sitemap, robots, a page or a
    /// static file.
    Site,
}

/// How `nexa dev` routes a request path before looking at disk.
pub fn dev_route<'a>(assets: &'a FrameworkAssets, path: &str) -> (r: DevRoute<'a>)
    ensures
        path@ == VERSION_ENDPOINT@ <==> r is Version,
        path@ != VERSION_ENDPOINT@ ==> (path@ == DIAGNOSTICS_ENDPOINT@ <==> r is Diagnostics),
        path@ != VERSION_ENDPOINT@ && path@ != DIAGNOSTICS_ENDPOINT@ ==> match r {
            DevRoute::Bundle(js) => dev_asset_of(*assets, path@) == Some(js@),
            DevRoute::Site => dev_asset_of(*assets, path@) is None,
            _ => false,
        },
{
    if str_eq(path, VERSION_ENDPOINT) {
        return DevRoute::Version;
    }
    if str_eq(path, DIAGNOSTICS_ENDPOINT) {
        return DevRoute::Diagnostics;
    }
    match serve_framework_asset(assets, path) {
        Some(js) => DevRoute::Bundle(js),
        None => DevRoute::Site,
    }
}

/// Where a request that is no bundle goes, once no built asset matched.
pub enum SiteRoute {
    Sitemap,
    Robots,
    Page,
}

/// The sitemap and robots paths, or a page.
pub fn site_route(path: &str) -> (r: SiteRoute)
    ensures
        path@ == "/sitemap.xml"@ <==> r is Sitemap,
        path@ == "/robots.txt"@ <==> r is Robots,
{
    proof {
        reveal_strlit("/sitemap.xml");
        reveal_strlit("/robots.txt");
        assert("/sitemap.xml"@.len() != "/robots.txt"@.len());
    }
    if str_eq(path, "/sitemap.xml") {
        SiteRoute::Sitemap
    } else if str_eq(path, "/robots.txt") {
        SiteRoute::Robots
    } else {
        SiteRoute::Page
    }
}

/// The media type of a built asset (`/assets/...`): CSS for a `.css`
/// file, JS otherwise.
pub fn built_asset_content_type(path: &str) -> (r: &'static str)
    ensures
        r@ == (if ends_with_seq(path@, ".css"@) {
            "text/css; charset=utf-8"@
        } else {
            "text/javascript; charset=utf-8"@
        }),
{
    if ends_with_str(path, ".css") {
        "text/css; charset=utf-8"
    } else {
        "text/javascript; charset=utf-8"
    }
}


/// The answer of `nexa dev` to a page request at `path`, once the page
/// was resolved: the page itself, with the development client; for a path
/// that names no page, the file of `public/` there when there is one
/// (read only in that case), else the 404 page; for a page that did not
/// compile, the error page. Every HTML answer carries the development
/// client, so the browser reloads when the source changes.
pub fn dev_page_reply(path: &str, page: Result<String, ResolveError>, static_file: Option<Vec<u8>>) -> (r:
    Reply)
    ensures
        match page {
            Ok(html) => r matches Reply::Text { status, content_type, body } && status == 200
                && content_type@ == HTML_CONTENT_TYPE@ && body@ == insert_before_closing(
                html@,
                "head"@,
                dev_client_script(),
            ),
            Err(ResolveError::NotFound) => match static_file {
                Some(bytes) => r matches Reply::Bytes { status, content_type, body } && status == 200
                    && content_type@ == static_content_type(path@) && body@ == bytes@,
                None => r matches Reply::Text { status, content_type, body } && status == 404
                    && content_type@ == HTML_CONTENT_TYPE@ && body@ == insert_before_closing(
                    NOT_FOUND_HEAD@ + path@ + NOT_FOUND_TAIL@,
                    "head"@,
                    dev_client_script(),
                ),
            },
            Err(ResolveError::Failed(m)) => r matches Reply::Text { status, content_type, body }
                && status == 500 && content_type@ == HTML_CONTENT_TYPE@ && body@
                == insert_before_closing(
                COMPILE_ERROR_HEAD@ + html_escaped(m@) + COMPILE_ERROR_TAIL@,
                "head"@,
                dev_client_script(),
            ),
        },
{
    match page {
        Ok(html) => Reply::Text {
            status: 200,
            content_type: HTML_CONTENT_TYPE,
            body: with_dev_client(html.as_str()),
        },
        Err(ResolveError::NotFound) => match static_file {
            Some(bytes) => Reply::Bytes {
                status: 200,
                content_type: guess_static_content_type(path),
                body: bytes,
            },
            None => Reply::Text {
                status: 404,
                content_type: HTML_CONTENT_TYPE,
                body: with_dev_client(not_found_page(path).as_str()),
            },
        },
        Err(ResolveError::Failed(m)) => Reply::Text {
            status: 500,
            content_type: HTML_CONTENT_TYPE,
            body: with_dev_client(compile_error_page(m.as_str()).as_str()),
        },
    }
}

} // verus!

verus! {

/// Escaped text holds no `<` or `>`: a message shown in the error page
/// can never open or close a tag.
pub proof fn law_escaped_text_has_no_markup(s: Seq<char>)
    ensures
        forall|i: int|
            0 <= i < html_escaped(s).len() ==> #[trigger] html_escaped(s)[i] != '<'
                && html_escaped(s)[i] != '>',
    decreases s.len(),
{
    if s.len() > 0 {
        law_escaped_text_has_no_markup(s.drop_last());
        reveal_strlit("&amp;");
        reveal_strlit("&lt;");
        reveal_strlit("&gt;");
        let pre = html_escaped(s.drop_last());
        let e = html_escape_char(s.last());
        assert(forall|j: int| 0 <= j < e.len() ==> #[trigger] e[j] != '<' && e[j] != '>');
        assert forall|i: int| 0 <= i < html_escaped(s).len() implies #[trigger] html_escaped(
            s,
        )[i] != '<' && html_escaped(s)[i] != '>' by {
            if i < pre.len() {
                assert(html_escaped(s)[i] == pre[i]);
            } else {
                assert(html_escaped(s)[i] == e[i - pre.len()]);
            }
        }
    }
}

} // verus!
