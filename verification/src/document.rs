//! The final HTML document of a page: the base `<head>`, what the SEO
//! analysis resolved (title, meta, JSON-LD), the `@nexa/ui` stylesheet
//! when the page uses it, the import map first of all, and the rendered
//! body.
use vstd::prelude::*;

use crate::activation::join_lines;
use crate::text::{contains_seq, contains_str, owned};

verus! {

pub const CHARSET_LINE: &'static str = "<meta charset=\"UTF-8\">";

pub const VIEWPORT_LINE: &'static str = "<meta name=\"viewport\" content=\"width=device-width, initial-scale=1\">";

pub const DEFAULT_TITLE_LINE: &'static str = "<title>Nexa</title>";

pub const DOCUMENT_OPEN: &'static str = "<!doctype html>\n<html lang=\"";

pub const DOCUMENT_HEAD_OPEN: &'static str = "\">\n<head>\n";

/// The language a document is written in when the page has no locale.
pub const DEFAULT_LANG: &'static str = "es";

pub const DOCUMENT_MIDDLE: &'static str = "\n</head>\n<body>\n";

pub const DOCUMENT_TAIL: &'static str = "\n</body>\n</html>\n";

/// A text option by its characters.
pub open spec fn opt_view(o: Option<&str>) -> Option<Seq<char>> {
    match o {
        Some(s) => Some(s@),
        None => None,
    }
}

/// `[x]` for `Some(x)`, nothing for `None`.
pub open spec fn line_of(o: Option<Seq<char>>) -> Seq<Seq<char>> {
    match o {
        Some(x) => seq![x],
        None => Seq::empty(),
    }
}

/// The `<link>` of the `@nexa/ui` stylesheet.
pub open spec fn stylesheet_link(href: Seq<char>) -> Seq<char> {
    "<link rel=\"stylesheet\" href=\""@ + href + "\">"@
}

/// The lines of `<head>`: the import map first (it must precede any module
/// script), the charset and viewport, a default title when the SEO head
/// has none, the SEO head, the JSON-LD script and the stylesheet link.
pub open spec fn head_lines(
    seo_head: Seq<char>,
    schema_script: Option<Seq<char>>,
    ui_stylesheet_href: Option<Seq<char>>,
    import_map: Option<Seq<char>>,
) -> Seq<Seq<char>> {
    line_of(import_map) + seq![CHARSET_LINE@, VIEWPORT_LINE@] + (if contains_seq(
        seo_head,
        "<title>"@,
    ) {
        Seq::empty()
    } else {
        seq![DEFAULT_TITLE_LINE@]
    }) + (if seo_head.len() == 0 {
        Seq::empty()
    } else {
        seq![seo_head]
    }) + line_of(schema_script) + match ui_stylesheet_href {
        Some(href) => seq![stylesheet_link(href)],
        None => Seq::empty(),
    }
}

/// The whole document, in language `lang`.
pub open spec fn document_in(
    lang: Seq<char>,
    body: Seq<char>,
    seo_head: Seq<char>,
    schema_script: Option<Seq<char>>,
    ui_stylesheet_href: Option<Seq<char>>,
    import_map: Option<Seq<char>>,
) -> Seq<char> {
    DOCUMENT_OPEN@ + lang + DOCUMENT_HEAD_OPEN@ + join_lines(
        head_lines(seo_head, schema_script, ui_stylesheet_href, import_map),
    ) + DOCUMENT_MIDDLE@ + body + DOCUMENT_TAIL@
}

/// The whole document, in the default language.
pub open spec fn document(
    body: Seq<char>,
    seo_head: Seq<char>,
    schema_script: Option<Seq<char>>,
    ui_stylesheet_href: Option<Seq<char>>,
    import_map: Option<Seq<char>>,
) -> Seq<char> {
    document_in(DEFAULT_LANG@, body, seo_head, schema_script, ui_stylesheet_href, import_map)
}

/// Assembles the HTML document of a page in the default language; with no
/// `<title>` in the SEO head, a default one stands in.
pub fn assemble(
    body: &str,
    seo_head: &str,
    schema_script: Option<&str>,
    ui_stylesheet_href: Option<&str>,
    import_map: Option<&str>,
) -> (r: String)
    ensures
        r@ == document(
            body@,
            seo_head@,
            opt_view(schema_script),
            opt_view(ui_stylesheet_href),
            opt_view(import_map),
        ),
{
    assemble_in(DEFAULT_LANG, body, seo_head, schema_script, ui_stylesheet_href, import_map)
}

/// Assembles the HTML document of a page written in `lang` (the `lang`
/// attribute of `<html>`).
pub fn assemble_in(
    lang: &str,
    body: &str,
    seo_head: &str,
    schema_script: Option<&str>,
    ui_stylesheet_href: Option<&str>,
    import_map: Option<&str>,
) -> (r: String)
    ensures
        r@ == document_in(
            lang@,
            body@,
            seo_head@,
            opt_view(schema_script),
            opt_view(ui_stylesheet_href),
            opt_view(import_map),
        ),
{
    let mut lines: Vec<String> = Vec::new();
    match import_map {
        Some(script) => lines.push(owned(script)),
        None => {},
    }
    let ghost l1 = lines@.map_values(|x: String| x@);
    lines.push(owned(CHARSET_LINE));
    lines.push(owned(VIEWPORT_LINE));
    let ghost l2 = lines@.map_values(|x: String| x@);
    if !contains_str(seo_head, "<title>") {
        lines.push(owned(DEFAULT_TITLE_LINE));
    }
    let ghost l3 = lines@.map_values(|x: String| x@);
    if !seo_head.is_empty() {
        lines.push(owned(seo_head));
    }
    let ghost l4 = lines@.map_values(|x: String| x@);
    match schema_script {
        Some(script) => lines.push(owned(script)),
        None => {},
    }
    let ghost l5 = lines@.map_values(|x: String| x@);
    match ui_stylesheet_href {
        Some(href) => {
            let mut link = owned("<link rel=\"stylesheet\" href=\"");
            link.append(href);
            link.append("\">");
            lines.push(link);
        },
        None => {},
    }
    proof {
        assert(l1 =~= line_of(opt_view(import_map)));
        assert(l2 =~= l1 + seq![CHARSET_LINE@, VIEWPORT_LINE@]);
        assert(l3 =~= l2 + (if contains_seq(seo_head@, "<title>"@) {
            Seq::empty()
        } else {
            seq![DEFAULT_TITLE_LINE@]
        }));
        assert(l4 =~= l3 + (if seo_head@.len() == 0 {
            Seq::empty()
        } else {
            seq![seo_head@]
        }));
        assert(l5 =~= l4 + line_of(opt_view(schema_script)));
        assert(lines@.map_values(|x: String| x@) =~= head_lines(
            seo_head@,
            opt_view(schema_script),
            opt_view(ui_stylesheet_href),
            opt_view(import_map),
        ));
    }
    let mut r = owned(DOCUMENT_OPEN);
    r.append(lang);
    r.append(DOCUMENT_HEAD_OPEN);
    let mut joined = String::new();
    crate::json::push_joined(&mut joined, &lines, "\n", "");
    r.append(joined.as_str());
    r.append(DOCUMENT_MIDDLE);
    r.append(body);
    r.append(DOCUMENT_TAIL);
    r
}

} // verus!
