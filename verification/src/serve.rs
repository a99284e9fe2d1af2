//! What the development and preview servers read from a request URL (the
//! path, a query parameter, percent-decoded) and the `Content-Type` they
//! give a static file by its extension.
use vstd::prelude::*;

use crate::text::{chars_of, owned, str_eq, string_of_range};
use vstd::utf8::{decode_utf8, encode_utf8, valid_utf8};

verus! {

/// The position of the first `c` in `s`.
pub open spec fn find_char(s: Seq<char>, c: char) -> Option<int>
    decreases s.len(),
{
    if s.len() == 0 {
        None
    } else if s[0] == c {
        Some(0)
    } else {
        match find_char(s.skip(1), c) {
            Some(i) => Some(i + 1),
            None => None,
        }
    }
}

pub proof fn lemma_find_char(s: Seq<char>, c: char)
    ensures
        match find_char(s, c) {
            Some(i) => 0 <= i < s.len() && s[i] == c && forall|j: int| 0 <= j < i ==> s[j] != c,
            None => forall|j: int| 0 <= j < s.len() ==> s[j] != c,
        },
    decreases s.len(),
{
    if s.len() > 0 && s[0] != c {
        lemma_find_char(s.skip(1), c);
        match find_char(s.skip(1), c) {
            Some(i) => {
                assert forall|j: int| 0 <= j < i + 1 implies s[j] != c by {
                    if j > 0 {
                        assert(s[j] == s.skip(1)[j - 1]);
                    }
                }
            },
            None => {
                assert forall|j: int| 0 <= j < s.len() implies s[j] != c by {
                    if j > 0 {
                        assert(s[j] == s.skip(1)[j - 1]);
                    }
                }
            },
        }
    }
}

pub proof fn lemma_find_char_is(s: Seq<char>, c: char, k: int)
    requires
        0 <= k <= s.len(),
        k < s.len() ==> s[k] == c,
        forall|j: int| 0 <= j < k ==> s[j] != c,
    ensures
        find_char(s, c) == (if k < s.len() {
            Some(k)
        } else {
            None
        }),
    decreases s.len(),
{
    if s.len() > 0 && k > 0 {
        assert forall|j: int| 0 <= j < k - 1 implies s.skip(1)[j] != c by {
            assert(s.skip(1)[j] == s[j + 1]);
        }
        lemma_find_char_is(s.skip(1), c, k - 1);
    }
}

/// The first position at or after `from` where `cs` holds `c`, or the
/// length of `cs` when there is none.
fn find_char_from(cs: &Vec<char>, c: char, from: usize) -> (r: usize)
    requires
        from <= cs@.len(),
    ensures
        from <= r <= cs@.len(),
        find_char(cs@.skip(from as int), c) == (if r < cs@.len() {
            Some(r - from)
        } else {
            None
        }),
{
    let mut i = from;
    while i < cs.len() && cs[i] != c
        invariant
            from <= i <= cs@.len(),
            forall|j: int| from <= j < i ==> cs@[j] != c,
        decreases cs@.len() - i,
    {
        i = i + 1;
    }
    proof {
        let s = cs@.skip(from as int);
        assert forall|j: int| 0 <= j < i - from implies s[j] != c by {
            assert(s[j] == cs@[from + j]);
        }
        lemma_find_char_is(s, c, i - from);
    }
    i
}

/// The path of a request URL: what precedes its query string.
pub open spec fn request_path_of(url: Seq<char>) -> Seq<char> {
    match find_char(url, '?') {
        Some(i) => url.take(i),
        None => url,
    }
}

/// The path of a request URL, without its query string.
pub fn request_path(url: &str) -> (r: String)
    ensures
        r@ == request_path_of(url@),
{
    let cs = chars_of(url);
    let q = find_char_from(&cs, '?', 0);
    assert(cs@.skip(0) =~= cs@);
    let r = string_of_range(&cs, 0, q);
    assert(r@ =~= request_path_of(url@));
    r
}

/// The value of an ASCII hexadecimal digit.
pub open spec fn hex_value(b: u8) -> Option<u8> {
    if 48 <= b <= 57 {
        Some((b - 48) as u8)
    } else if 97 <= b <= 102 {
        Some((b - 87) as u8)
    } else if 65 <= b <= 70 {
        Some((b - 55) as u8)
    } else {
        None
    }
}

/// The byte that the two characters after a `%` denote, when both are
/// hexadecimal digits.
pub open spec fn escaped_byte(b1: u8, b2: u8) -> Option<u8> {
    match (hex_value(b1), hex_value(b2)) {
        (Some(h), Some(l)) => Some((h * 16 + l) as u8),
        _ => None,
    }
}

/// Percent-decoding of bytes: `%XX` becomes the byte it denotes, `+`
/// becomes a space, and anything else (a malformed escape included) stays.
pub open spec fn decode_percent(s: Seq<u8>) -> Seq<u8>
    decreases s.len(),
{
    if s.len() == 0 {
        Seq::empty()
    } else if s[0] == 37 && s.len() > 2 && escaped_byte(s[1], s[2]) is Some {
        seq![escaped_byte(s[1], s[2])->Some_0] + decode_percent(s.skip(3))
    } else if s[0] == 43 {
        seq![32u8] + decode_percent(s.skip(1))
    } else {
        seq![s[0]] + decode_percent(s.skip(1))
    }
}

/// The percent-decoded text of `s`, or `s` itself when the decoded bytes
/// are not valid UTF-8.
pub open spec fn percent_decoded(s: Seq<char>) -> Seq<char> {
    let b = decode_percent(encode_utf8(s));
    if valid_utf8(b) {
        decode_utf8(b)
    } else {
        s
    }
}

/// Builds a string from bytes with `String::from_utf8`, which succeeds
/// exactly when the bytes are valid UTF-8, and then holds the characters
/// they encode.
#[verifier::external_body]
fn utf8_string(bytes: Vec<u8>) -> (r: Option<String>)
    ensures
        match r {
            Some(s) => valid_utf8(bytes@) && s@ == decode_utf8(bytes@),
            None => !valid_utf8(bytes@),
        },
{
    String::from_utf8(bytes).ok()
}

fn hex_value_of(b: u8) -> (r: Option<u8>)
    ensures
        r == hex_value(b),
{
    if 48 <= b && b <= 57 {
        Some(b - 48)
    } else if 97 <= b && b <= 102 {
        Some(b - 87)
    } else if 65 <= b && b <= 70 {
        Some(b - 55)
    } else {
        None
    }
}

fn escaped_byte_of(b1: u8, b2: u8) -> (r: Option<u8>)
    ensures
        r == escaped_byte(b1, b2),
{
    match (hex_value_of(b1), hex_value_of(b2)) {
        (Some(h), Some(l)) => Some(h * 16 + l),
        _ => None,
    }
}

/// Decodes `%XX` escapes, and `+` as a space (the convention of
/// `application/x-www-form-urlencoded`); a malformed escape stays as it
/// is, and so does the whole text when the result is not valid UTF-8.
pub fn percent_decode(s: &str) -> (r: String)
    ensures
        r@ == percent_decoded(s@),
{
    let bytes = s.as_bytes();
    let n = bytes.len();
    let mut out: Vec<u8> = Vec::new();
    let mut i: usize = 0;
    assert(bytes@.skip(0) =~= bytes@);
    while i < n
        invariant
            n == bytes@.len(),
            bytes@ == encode_utf8(s@),
            i <= n,
            out@ + decode_percent(bytes@.skip(i as int)) == decode_percent(bytes@),
        decreases n - i,
    {
        let ghost rest = bytes@.skip(i as int);
        let ghost before = out@;
        let b = bytes[i];
        let mut step: usize = 1;
        if b == 37 && n - i > 2 {
            match escaped_byte_of(bytes[i + 1], bytes[i + 2]) {
                Some(v) => {
                    out.push(v);
                    step = 3;
                },
                None => {
                    out.push(b);
                },
            }
        } else if b == 43 {
            out.push(32);
        } else {
            out.push(b);
        }
        proof {
            assert(rest[0] == b);
            if rest.len() > 2 {
                assert(rest[1] == bytes@[i + 1]);
                assert(rest[2] == bytes@[i + 2]);
            }
            assert(rest.skip(step as int) =~= bytes@.skip(i + step));
            assert(out@ + decode_percent(bytes@.skip(i + step)) =~= before + decode_percent(rest));
        }
        i = i + step;
    }
    assert(bytes@.skip(i as int) =~= Seq::<u8>::empty());
    assert(out@ =~= decode_percent(bytes@));
    match utf8_string(out) {
        Some(decoded) => decoded,
        None => owned(s),
    }
}

/// The `sep`-separated segments of `s`, in order.
pub open spec fn segments(s: Seq<char>, sep: char) -> Seq<Seq<char>>
    decreases s.len(),
{
    match find_char(s, sep) {
        None => seq![s],
        Some(i) => {
            proof {
                lemma_find_char(s, sep);
            }
            seq![s.take(i)] + segments(s.skip(i + 1), sep)
        },
    }
}

/// The value of the first `key=value` pair, among `pairs`, whose key is
/// `key` (a pair without `=` has no key).
pub open spec fn first_value(pairs: Seq<Seq<char>>, key: Seq<char>) -> Option<Seq<char>>
    decreases pairs.len(),
{
    if pairs.len() == 0 {
        None
    } else {
        let p = pairs[0];
        match find_char(p, '=') {
            Some(e) => if p.take(e) == key {
                Some(percent_decoded(p.skip(e + 1)))
            } else {
                first_value(pairs.skip(1), key)
            },
            None => first_value(pairs.skip(1), key),
        }
    }
}

/// The percent-decoded value of `key` in the query string of `url`.
pub open spec fn query_param_of(url: Seq<char>, key: Seq<char>) -> Option<Seq<char>> {
    match find_char(url, '?') {
        None => None,
        Some(q) => first_value(segments(url.skip(q + 1), '&'), key),
    }
}

/// The value of `key` in pair `cs[start..end]`, if that pair has it.
fn pair_value(cs: &Vec<char>, start: usize, end: usize, key: &str) -> (r: Option<String>)
    requires
        start <= end <= cs@.len(),
    ensures
        ({
            let p = cs@.subrange(start as int, end as int);
            match find_char(p, '=') {
                Some(e) => if p.take(e) == key@ {
                    r is Some && r->Some_0@ == percent_decoded(p.skip(e + 1))
                } else {
                    r is None
                },
                None => r is None,
            }
        }),
{
    let eq = find_char_from(cs, '=', start);
    let ghost p = cs@.subrange(start as int, end as int);
    proof {
        lemma_find_char(cs@.skip(start as int), '=');
        lemma_find_char(p, '=');
    }
    if eq >= end {
        proof {
            assert forall|j: int| 0 <= j < p.len() implies p[j] != '=' by {
                assert(p[j] == cs@.skip(start as int)[j]);
            }
            lemma_find_char_is(p, '=', p.len() as int);
        }
        return None;
    }
    proof {
        assert forall|j: int| 0 <= j < eq - start implies p[j] != '=' by {
            assert(p[j] == cs@.skip(start as int)[j]);
        }
        assert(p[eq - start] == cs@.skip(start as int)[eq - start]);
        lemma_find_char_is(p, '=', eq - start);
    }
    let k = string_of_range(cs, start, eq);
    if !str_eq(k.as_str(), key) {
        assert(k@ =~= p.take(eq - start));
        return None;
    }
    assert(k@ =~= p.take(eq - start));
    let v = string_of_range(cs, eq + 1, end);
    assert(v@ =~= p.skip(eq - start + 1));
    let d = percent_decode(v.as_str());
    Some(d)
}

/// The value of `key` in the query string of `url`, percent-decoded: the
/// first `key=value` pair that has it.
pub fn query_param(url: &str, key: &str) -> (r: Option<String>)
    ensures
        match r {
            Some(v) => query_param_of(url@, key@) == Some(v@),
            None => query_param_of(url@, key@) is None,
        },
{
    let cs = chars_of(url);
    let n = cs.len();
    let q = find_char_from(&cs, '?', 0);
    assert(cs@.skip(0) =~= cs@);
    if q >= n {
        return None;
    }
    let ghost query = cs@.skip(q + 1);
    let mut start = q + 1;
    assert(cs@.skip(start as int) =~= query);
    while start <= n
        invariant
            n == cs@.len(),
            q < n,
            query == cs@.skip(q + 1),
            q + 1 <= start <= n,
            query_param_of(url@, key@) == first_value(segments(cs@.skip(start as int), '&'), key@),
        decreases n - start,
    {
        let end = find_char_from(&cs, '&', start);
        let ghost rest = cs@.skip(start as int);
        proof {
            lemma_find_char(rest, '&');
            assert(cs@.subrange(start as int, end as int) =~= rest.take(end - start));
            if end < n {
                assert(rest.skip(end - start + 1) =~= cs@.skip(end + 1));
                assert(segments(rest, '&') == seq![rest.take(end - start)] + segments(
                    rest.skip(end - start + 1),
                    '&',
                ));
            } else {
                assert(rest.take(end - start) =~= rest);
                assert(segments(rest, '&') == seq![rest]);
            }
            let segs = segments(rest, '&');
            assert(segs[0] == rest.take(end - start));
            assert(segs.skip(1) =~= if end < n {
                segments(cs@.skip(end + 1), '&')
            } else {
                Seq::empty()
            });
        }
        match pair_value(&cs, start, end, key) {
            Some(v) => {
                return Some(v);
            },
            None => {},
        }
        if end >= n {
            proof {
                let segs = segments(rest, '&');
                assert(segs.skip(1) =~= Seq::<Seq<char>>::empty());
                assert(first_value(segs.skip(1), key@) is None);
            }
            return None;
        }
        start = end + 1;
    }
    None
}

/// The extension that `std::path::Path::extension` finds in a path: the
/// text after the last dot of the path's file name, none for a name
/// without a dot or that begins with its only dot, or for a path without a
/// file name. What the result is on given values is left to `std`.
pub uninterp spec fn path_extension_of(path: Seq<char>) -> Option<Seq<char>>;

/// Calls `std::path::Path::extension` on the path and keeps the extension
/// when it is valid Unicode (a `&str` always is); the result is the named
/// [`path_extension_of`] of the path.
#[verifier::external_body]
pub(crate) fn path_extension(path: &str) -> (r: Option<String>)
    ensures
        match r {
            Some(e) => path_extension_of(path@) == Some(e@),
            None => path_extension_of(path@) is None,
        },
{
    match std::path::Path::new(path).extension() {
        Some(e) => match e.to_str() {
            Some(t) => Some(t.to_string()),
            None => None,
        },
        None => None,
    }
}

/// What `str::to_lowercase` makes of a text: each character mapped to its
/// Unicode lowercase form. The mapping itself is left to `std`.
pub uninterp spec fn unicode_lowercase(s: Seq<char>) -> Seq<char>;

/// Whether every character of a text is ASCII.
pub open spec fn is_ascii_text(s: Seq<char>) -> bool {
    forall|i: int| 0 <= i < s.len() ==> (#[trigger] s[i] as u32) < 128
}

/// An ASCII letter `A`..`Z` turned into `a`..`z`; any other character
/// stays.
pub open spec fn ascii_lower_char(c: char) -> char {
    if 65 <= (c as u32) <= 90 {
        ((c as u32) + 32) as char
    } else {
        c
    }
}

/// A text with each ASCII capital letter lowercased.
pub open spec fn ascii_lowercase(s: Seq<char>) -> Seq<char> {
    s.map_values(|c: char| ascii_lower_char(c))
}

/// No character of a text is an ASCII capital letter `A`..`Z`.
pub open spec fn no_ascii_capital(s: Seq<char>) -> bool {
    forall|i: int| 0 <= i < s.len() ==> !('A' <= #[trigger] s[i] && s[i] <= 'Z')
}

/// Lowercases a text with `str::to_lowercase`; the result is the named
/// [`unicode_lowercase`] of the text. As `std` documents, an ASCII text
/// keeps its length and has only its capital letters `A`..`Z` turned into
/// `a`..`z`, and no character of any result is an ASCII capital; what
/// other characters become is not stated here.
#[verifier::external_body]
pub fn lowercase(s: &str) -> (r: String)
    ensures
        r@ == unicode_lowercase(s@),
        is_ascii_text(s@) ==> r@ == ascii_lowercase(s@),
        no_ascii_capital(r@),
{
    s.to_lowercase()
}

/// The media type of a static file by its (lowercased) extension; an
/// unknown extension gets the generic `application/octet-stream`.
pub open spec fn mime_for_extension(ext: Seq<char>) -> Seq<char> {
    if ext == "png"@ {
        "image/png"@
    } else if ext == "jpg"@ || ext == "jpeg"@ {
        "image/jpeg"@
    } else if ext == "gif"@ {
        "image/gif"@
    } else if ext == "svg"@ {
        "image/svg+xml"@
    } else if ext == "webp"@ {
        "image/webp"@
    } else if ext == "ico"@ {
        "image/x-icon"@
    } else if ext == "woff"@ {
        "font/woff"@
    } else if ext == "woff2"@ {
        "font/woff2"@
    } else if ext == "ttf"@ {
        "font/ttf"@
    } else if ext == "pdf"@ {
        "application/pdf"@
    } else if ext == "txt"@ {
        "text/plain; charset=utf-8"@
    } else if ext == "json"@ {
        "application/json"@
    } else if ext == "js"@ || ext == "mjs"@ {
        "text/javascript; charset=utf-8"@
    } else if ext == "css"@ {
        "text/css; charset=utf-8"@
    } else if ext == "html"@ {
        "text/html; charset=utf-8"@
    } else {
        "application/octet-stream"@
    }
}

/// The `Content-Type` of a static file at `path`.
pub open spec fn static_content_type(path: Seq<char>) -> Seq<char> {
    match path_extension_of(path) {
        Some(e) => mime_for_extension(unicode_lowercase(e)),
        None => "application/octet-stream"@,
    }
}

fn mime_for_extension_of(ext: &str) -> (r: &'static str)
    ensures
        r@ == mime_for_extension(ext@),
{
    if str_eq(ext, "png") {
        "image/png"
    } else if str_eq(ext, "jpg") || str_eq(ext, "jpeg") {
        "image/jpeg"
    } else if str_eq(ext, "gif") {
        "image/gif"
    } else if str_eq(ext, "svg") {
        "image/svg+xml"
    } else if str_eq(ext, "webp") {
        "image/webp"
    } else if str_eq(ext, "ico") {
        "image/x-icon"
    } else if str_eq(ext, "woff") {
        "font/woff"
    } else if str_eq(ext, "woff2") {
        "font/woff2"
    } else if str_eq(ext, "ttf") {
        "font/ttf"
    } else if str_eq(ext, "pdf") {
        "application/pdf"
    } else if str_eq(ext, "txt") {
        "text/plain; charset=utf-8"
    } else if str_eq(ext, "json") {
        "application/json"
    } else if str_eq(ext, "js") || str_eq(ext, "mjs") {
        "text/javascript; charset=utf-8"
    } else if str_eq(ext, "css") {
        "text/css; charset=utf-8"
    } else if str_eq(ext, "html") {
        "text/html; charset=utf-8"
    } else {
        "application/octet-stream"
    }
}

/// Guesses the `Content-Type` of a static file of `public/` or `dist/` by
/// its extension, case-insensitively: images, fonts, PDF, text, JSON,
/// JS (so that a browser runs a module script), CSS and HTML; anything
/// else is `application/octet-stream`, better than a wrong guess.
pub fn guess_static_content_type(path: &str) -> (r: &'static str)
    ensures
        r@ == static_content_type(path@),
{
    match path_extension(path) {
        Some(e) => mime_for_extension_of(lowercase(e.as_str()).as_str()),
        None => "application/octet-stream",
    }
}

} // verus!

verus! {

/// The path of a request never holds a `?`: the query string is always
/// cut off.
pub proof fn law_request_path_has_no_query(url: Seq<char>)
    ensures
        forall|i: int|
            0 <= i < request_path_of(url).len() ==> #[trigger] request_path_of(url)[i] != '?',
{
    lemma_find_char(url, '?');
}

/// A static file is served with the media type of its extension, whatever
/// its case (`.SVG` as `.svg`): images, fonts, PDF, text, JSON, scripts,
/// style sheets and HTML each get their own, and a file without an
/// extension the generic `application/octet-stream`.
pub proof fn law_static_files_get_their_media_type(path: Seq<char>)
    ensures
        path_extension_of(path) matches Some(e) && unicode_lowercase(e) == "png"@ ==> static_content_type(
            path,
        ) == "image/png"@,
        path_extension_of(path) matches Some(e) && unicode_lowercase(e) == "jpg"@ ==> static_content_type(
            path,
        ) == "image/jpeg"@,
        path_extension_of(path) matches Some(e) && unicode_lowercase(e) == "jpeg"@ ==> static_content_type(
            path,
        ) == "image/jpeg"@,
        path_extension_of(path) matches Some(e) && unicode_lowercase(e) == "gif"@ ==> static_content_type(
            path,
        ) == "image/gif"@,
        path_extension_of(path) matches Some(e) && unicode_lowercase(e) == "svg"@ ==> static_content_type(
            path,
        ) == "image/svg+xml"@,
        path_extension_of(path) matches Some(e) && unicode_lowercase(e) == "webp"@ ==> static_content_type(
            path,
        ) == "image/webp"@,
        path_extension_of(path) matches Some(e) && unicode_lowercase(e) == "ico"@ ==> static_content_type(
            path,
        ) == "image/x-icon"@,
        path_extension_of(path) matches Some(e) && unicode_lowercase(e) == "woff"@ ==> static_content_type(
            path,
        ) == "font/woff"@,
        path_extension_of(path) matches Some(e) && unicode_lowercase(e) == "woff2"@ ==> static_content_type(
            path,
        ) == "font/woff2"@,
        path_extension_of(path) matches Some(e) && unicode_lowercase(e) == "ttf"@ ==> static_content_type(
            path,
        ) == "font/ttf"@,
        path_extension_of(path) matches Some(e) && unicode_lowercase(e) == "pdf"@ ==> static_content_type(
            path,
        ) == "application/pdf"@,
        path_extension_of(path) matches Some(e) && unicode_lowercase(e) == "txt"@ ==> static_content_type(
            path,
        ) == "text/plain; charset=utf-8"@,
        path_extension_of(path) matches Some(e) && unicode_lowercase(e) == "json"@ ==> static_content_type(
            path,
        ) == "application/json"@,
        path_extension_of(path) matches Some(e) && unicode_lowercase(e) == "js"@ ==> static_content_type(
            path,
        ) == "text/javascript; charset=utf-8"@,
        path_extension_of(path) matches Some(e) && unicode_lowercase(e) == "mjs"@ ==> static_content_type(
            path,
        ) == "text/javascript; charset=utf-8"@,
        path_extension_of(path) matches Some(e) && unicode_lowercase(e) == "css"@ ==> static_content_type(
            path,
        ) == "text/css; charset=utf-8"@,
        path_extension_of(path) matches Some(e) && unicode_lowercase(e) == "html"@ ==> static_content_type(
            path,
        ) == "text/html; charset=utf-8"@,
        path_extension_of(path) is None ==> static_content_type(path) == "application/octet-stream"@,
{
    reveal_strlit("png");
    reveal_strlit("jpg");
    reveal_strlit("jpeg");
    reveal_strlit("gif");
    reveal_strlit("svg");
    reveal_strlit("webp");
    reveal_strlit("ico");
    reveal_strlit("woff");
    reveal_strlit("woff2");
    reveal_strlit("ttf");
    reveal_strlit("pdf");
    reveal_strlit("txt");
    reveal_strlit("json");
    reveal_strlit("js");
    reveal_strlit("mjs");
    reveal_strlit("css");
    reveal_strlit("html");
    if let Some(e) = path_extension_of(path) {
        let l = unicode_lowercase(e);
        if l == "png"@ {
        }
        if l == "jpg"@ {
            assert("jpg"@[0] != "png"@[0]);
        }
        if l == "jpeg"@ {
            assert("jpeg"@.len() != "png"@.len());
            assert("jpeg"@.len() != "jpg"@.len());
        }
        if l == "gif"@ {
            assert("gif"@[0] != "png"@[0]);
            assert("gif"@[0] != "jpg"@[0]);
            assert("gif"@.len() != "jpeg"@.len());
        }
        if l == "svg"@ {
            assert("svg"@[0] != "png"@[0]);
            assert("svg"@[0] != "jpg"@[0]);
            assert("svg"@.len() != "jpeg"@.len());
            assert("svg"@[0] != "gif"@[0]);
        }
        if l == "webp"@ {
            assert("webp"@.len() != "png"@.len());
            assert("webp"@.len() != "jpg"@.len());
            assert("webp"@[0] != "jpeg"@[0]);
            assert("webp"@.len() != "gif"@.len());
            assert("webp"@.len() != "svg"@.len());
        }
        if l == "ico"@ {
            assert("ico"@[0] != "png"@[0]);
            assert("ico"@[0] != "jpg"@[0]);
            assert("ico"@.len() != "jpeg"@.len());
            assert("ico"@[0] != "gif"@[0]);
            assert("ico"@[0] != "svg"@[0]);
            assert("ico"@.len() != "webp"@.len());
        }
        if l == "woff"@ {
            assert("woff"@.len() != "png"@.len());
            assert("woff"@.len() != "jpg"@.len());
            assert("woff"@[0] != "jpeg"@[0]);
            assert("woff"@.len() != "gif"@.len());
            assert("woff"@.len() != "svg"@.len());
            assert("woff"@[1] != "webp"@[1]);
            assert("woff"@.len() != "ico"@.len());
        }
        if l == "woff2"@ {
            assert("woff2"@.len() != "png"@.len());
            assert("woff2"@.len() != "jpg"@.len());
            assert("woff2"@.len() != "jpeg"@.len());
            assert("woff2"@.len() != "gif"@.len());
            assert("woff2"@.len() != "svg"@.len());
            assert("woff2"@.len() != "webp"@.len());
            assert("woff2"@.len() != "ico"@.len());
            assert("woff2"@.len() != "woff"@.len());
        }
        if l == "ttf"@ {
            assert("ttf"@[0] != "png"@[0]);
            assert("ttf"@[0] != "jpg"@[0]);
            assert("ttf"@.len() != "jpeg"@.len());
            assert("ttf"@[0] != "gif"@[0]);
            assert("ttf"@[0] != "svg"@[0]);
            assert("ttf"@.len() != "webp"@.len());
            assert("ttf"@[0] != "ico"@[0]);
            assert("ttf"@.len() != "woff"@.len());
            assert("ttf"@.len() != "woff2"@.len());
        }
        if l == "pdf"@ {
            assert("pdf"@[1] != "png"@[1]);
            assert("pdf"@[0] != "jpg"@[0]);
            assert("pdf"@.len() != "jpeg"@.len());
            assert("pdf"@[0] != "gif"@[0]);
            assert("pdf"@[0] != "svg"@[0]);
            assert("pdf"@.len() != "webp"@.len());
            assert("pdf"@[0] != "ico"@[0]);
            assert("pdf"@.len() != "woff"@.len());
            assert("pdf"@.len() != "woff2"@.len());
            assert("pdf"@[0] != "ttf"@[0]);
        }
        if l == "txt"@ {
            assert("txt"@[0] != "png"@[0]);
            assert("txt"@[0] != "jpg"@[0]);
            assert("txt"@.len() != "jpeg"@.len());
            assert("txt"@[0] != "gif"@[0]);
            assert("txt"@[0] != "svg"@[0]);
            assert("txt"@.len() != "webp"@.len());
            assert("txt"@[0] != "ico"@[0]);
            assert("txt"@.len() != "woff"@.len());
            assert("txt"@.len() != "woff2"@.len());
            assert("txt"@[1] != "ttf"@[1]);
            assert("txt"@[0] != "pdf"@[0]);
        }
        if l == "json"@ {
            assert("json"@.len() != "png"@.len());
            assert("json"@.len() != "jpg"@.len());
            assert("json"@[1] != "jpeg"@[1]);
            assert("json"@.len() != "gif"@.len());
            assert("json"@.len() != "svg"@.len());
            assert("json"@[0] != "webp"@[0]);
            assert("json"@.len() != "ico"@.len());
            assert("json"@[0] != "woff"@[0]);
            assert("json"@.len() != "woff2"@.len());
            assert("json"@.len() != "ttf"@.len());
            assert("json"@.len() != "pdf"@.len());
            assert("json"@.len() != "txt"@.len());
        }
        if l == "js"@ {
            assert("js"@.len() != "png"@.len());
            assert("js"@.len() != "jpg"@.len());
            assert("js"@.len() != "jpeg"@.len());
            assert("js"@.len() != "gif"@.len());
            assert("js"@.len() != "svg"@.len());
            assert("js"@.len() != "webp"@.len());
            assert("js"@.len() != "ico"@.len());
            assert("js"@.len() != "woff"@.len());
            assert("js"@.len() != "woff2"@.len());
            assert("js"@.len() != "ttf"@.len());
            assert("js"@.len() != "pdf"@.len());
            assert("js"@.len() != "txt"@.len());
            assert("js"@.len() != "json"@.len());
        }
        if l == "mjs"@ {
            assert("mjs"@[0] != "png"@[0]);
            assert("mjs"@[0] != "jpg"@[0]);
            assert("mjs"@.len() != "jpeg"@.len());
            assert("mjs"@[0] != "gif"@[0]);
            assert("mjs"@[0] != "svg"@[0]);
            assert("mjs"@.len() != "webp"@.len());
            assert("mjs"@[0] != "ico"@[0]);
            assert("mjs"@.len() != "woff"@.len());
            assert("mjs"@.len() != "woff2"@.len());
            assert("mjs"@[0] != "ttf"@[0]);
            assert("mjs"@[0] != "pdf"@[0]);
            assert("mjs"@[0] != "txt"@[0]);
            assert("mjs"@.len() != "json"@.len());
            assert("mjs"@.len() != "js"@.len());
        }
        if l == "css"@ {
            assert("css"@[0] != "png"@[0]);
            assert("css"@[0] != "jpg"@[0]);
            assert("css"@.len() != "jpeg"@.len());
            assert("css"@[0] != "gif"@[0]);
            assert("css"@[0] != "svg"@[0]);
            assert("css"@.len() != "webp"@.len());
            assert("css"@[0] != "ico"@[0]);
            assert("css"@.len() != "woff"@.len());
            assert("css"@.len() != "woff2"@.len());
            assert("css"@[0] != "ttf"@[0]);
            assert("css"@[0] != "pdf"@[0]);
            assert("css"@[0] != "txt"@[0]);
            assert("css"@.len() != "json"@.len());
            assert("css"@.len() != "js"@.len());
            assert("css"@[0] != "mjs"@[0]);
        }
        if l == "html"@ {
            assert("html"@.len() != "png"@.len());
            assert("html"@.len() != "jpg"@.len());
            assert("html"@[0] != "jpeg"@[0]);
            assert("html"@.len() != "gif"@.len());
            assert("html"@.len() != "svg"@.len());
            assert("html"@[0] != "webp"@[0]);
            assert("html"@.len() != "ico"@.len());
            assert("html"@[0] != "woff"@[0]);
            assert("html"@.len() != "woff2"@.len());
            assert("html"@.len() != "ttf"@.len());
            assert("html"@.len() != "pdf"@.len());
            assert("html"@.len() != "txt"@.len());
            assert("html"@[0] != "json"@[0]);
            assert("html"@.len() != "js"@.len());
            assert("html"@.len() != "mjs"@.len());
            assert("html"@.len() != "css"@.len());
        }
    }
}

} // verus!
