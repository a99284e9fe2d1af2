//! Resolving an HTTP path to a page, shared by `nexa preview` and
//! `nexa dev`: where an already built page or asset would be found under
//! `dist/`, which file of a static directory a path names, and the error
//! a failed resolution reports.
use vstd::prelude::*;

use crate::assets::{trim_start, trim_start_char};
use crate::pipeline::PageError;
use crate::text::{owned, starts_with_seq, starts_with_str, str_eq};

verus! {

/// Why a path could not be turned into a page: no route matches it (or
/// its `load()` answered 404), or compiling it failed.
pub enum ResolveError {
    NotFound,
    Failed(String),
}

/// The media type of every HTML page the servers answer with.
pub const HTML_CONTENT_TYPE: &'static str = "text/html; charset=utf-8";

/// What a server answers a request with: a status, a media type, and a
/// text or a byte body.
pub enum Reply {
    Text { status: u16, content_type: &'static str, body: String },
    Bytes { status: u16, content_type: &'static str, body: Vec<u8> },
}

/// The resolution error for a page that did not compile.
pub fn resolve_error(err: PageError) -> (r: ResolveError)
    ensures
        match err {
            PageError::NotFound => r is NotFound,
            PageError::Other(m) => r matches ResolveError::Failed(f) && f@ == m@,
        },
{
    match err {
        PageError::NotFound => ResolveError::NotFound,
        PageError::Other(m) => ResolveError::Failed(m),
    }
}

/// The directory of `dist/` an earlier build wrote the page for `path` to.
pub open spec fn prebuilt_page_dir_of(path: Seq<char>) -> Seq<char> {
    if path == "/"@ || path.len() == 0 {
        "dist"@
    } else {
        "dist/"@ + trim_start(path, '/')
    }
}

/// Where a built page for `path` would be.
pub fn prebuilt_page_dir(path: &str) -> (r: String)
    ensures
        r@ == prebuilt_page_dir_of(path@),
{
    if str_eq(path, "/") || path.unicode_len() == 0 {
        owned("dist")
    } else {
        let mut r = owned("dist/");
        r.append(trim_start_char(path, '/'));
        r
    }
}

/// The name under `dist/assets/` of the built asset `path` asks for
/// (`/assets/<name>`), if it asks for one.
pub open spec fn prebuilt_asset_name_of(path: Seq<char>) -> Option<Seq<char>> {
    if starts_with_seq(path, "/assets/"@) {
        Some(path.skip(8))
    } else {
        None
    }
}

/// The built asset `path` names.
pub fn prebuilt_asset_name(path: &str) -> (r: Option<String>)
    ensures
        match (r, prebuilt_asset_name_of(path@)) {
            (Some(a), Some(b)) => a@ == b,
            (None, None) => true,
            _ => false,
        },
{
    proof {
        reveal_strlit("/assets/");
    }
    if starts_with_str(path, "/assets/") {
        let n = path.unicode_len();
        let rest = path.substring_char(8, n);
        assert(rest@ =~= path@.skip(8));
        Some(owned(rest))
    } else {
        None
    }
}

/// The file of a static directory that `path` names: the path without its
/// leading slashes, and none for the root.
pub open spec fn static_file_of(path: Seq<char>) -> Option<Seq<char>> {
    let rest = trim_start(path, '/');
    if rest.len() == 0 {
        None
    } else {
        Some(rest)
    }
}

/// The file of a static directory `path` names.
pub fn static_file(path: &str) -> (r: Option<String>)
    ensures
        match (r, static_file_of(path@)) {
            (Some(a), Some(b)) => a@ == b,
            (None, None) => true,
            _ => false,
        },
{
    let rest = trim_start_char(path, '/');
    if rest.unicode_len() == 0 {
        None
    } else {
        Some(owned(rest))
    }
}

} // verus!
