//! `nexa preview`: serves what `dist/` already holds and renders on the
//! fly what is missing (typically dynamic routes); its error pages are
//! plain.
use vstd::prelude::*;

use crate::assets::{framework_asset, framework_asset_of, str_option, FrameworkAssets};
use crate::page_resolver::{Reply, ResolveError, HTML_CONTENT_TYPE};
use crate::serve::{guess_static_content_type, static_content_type};
use crate::text::owned;

verus! {

pub const NOT_FOUND_HEAD: &'static str = "<!doctype html>\n<html lang=\"es\"><head><meta charset=\"UTF-8\"><title>404</title></head><body><h1>404</h1><p>No existe una página para <code>";

pub const NOT_FOUND_TAIL: &'static str = "</code>.</p></body></html>\n";

pub const SERVER_ERROR_HEAD: &'static str = "<!doctype html>\n<html lang=\"es\"><head><meta charset=\"UTF-8\"><title>500</title></head><body><h1>500</h1><p>";

pub const SERVER_ERROR_TAIL: &'static str = "</p></body></html>\n";

/// The 404 page of `nexa preview`.
pub fn not_found_page(path: &str) -> (r: String)
    ensures
        r@ == NOT_FOUND_HEAD@ + path@ + NOT_FOUND_TAIL@,
{
    let mut r = owned(NOT_FOUND_HEAD);
    r.append(path);
    r.append(NOT_FOUND_TAIL);
    r
}

/// The 500 page of `nexa preview`, with the message as it is.
pub fn server_error_page(message: &str) -> (r: String)
    ensures
        r@ == SERVER_ERROR_HEAD@ + message@ + SERVER_ERROR_TAIL@,
{
    let mut r = owned(SERVER_ERROR_HEAD);
    r.append(message);
    r.append(SERVER_ERROR_TAIL);
    r
}

/// The framework bundle that `nexa preview` serves at `path`, if any: the
/// same set as a build writes, without the development tools.
pub fn preview_asset<'a>(assets: &'a FrameworkAssets, path: &str) -> (r: Option<&'a str>)
    ensures
        str_option(r) == framework_asset_of(*assets, path@),
{
    framework_asset(assets, path)
}


/// The answer of `nexa preview` to a page request at `path`, once the
/// page was resolved: the page itself; for a path that names no page, the
/// file of `dist/` there when there is one (read only in that case), else
/// the 404 page; for a page that could not be compiled, the 500 page.
pub fn preview_page_reply(path: &str, page: Result<String, ResolveError>, static_file: Option<Vec<u8>>) -> (r:
    Reply)
    ensures
        match page {
            Ok(html) => r matches Reply::Text { status, content_type, body } && status == 200
                && content_type@ == HTML_CONTENT_TYPE@ && body@ == html@,
            Err(ResolveError::NotFound) => match static_file {
                Some(bytes) => r matches Reply::Bytes { status, content_type, body } && status == 200
                    && content_type@ == static_content_type(path@) && body@ == bytes@,
                None => r matches Reply::Text { status, content_type, body } && status == 404
                    && content_type@ == HTML_CONTENT_TYPE@ && body@ == NOT_FOUND_HEAD@ + path@
                    + NOT_FOUND_TAIL@,
            },
            Err(ResolveError::Failed(m)) => r matches Reply::Text { status, content_type, body }
                && status == 500 && content_type@ == HTML_CONTENT_TYPE@ && body@
                == SERVER_ERROR_HEAD@ + m@ + SERVER_ERROR_TAIL@,
        },
{
    match page {
        Ok(html) => Reply::Text { status: 200, content_type: HTML_CONTENT_TYPE, body: html },
        Err(ResolveError::NotFound) => match static_file {
            Some(bytes) => Reply::Bytes {
                status: 200,
                content_type: guess_static_content_type(path),
                body: bytes,
            },
            None => Reply::Text { status: 404, content_type: HTML_CONTENT_TYPE, body: not_found_page(path) },
        },
        Err(ResolveError::Failed(m)) => Reply::Text {
            status: 500,
            content_type: HTML_CONTENT_TYPE,
            body: server_error_page(m.as_str()),
        },
    }
}

} // verus!
