//! The decisions `nexa build` makes around each page: where its HTML goes
//! in `dist/`, how a dynamic route reads once its parameters are known,
//! the parameter sets a route's `paths` declaration answered, the URLs of
//! the sitemap, the heaviest image a page references and what the
//! performance budget is checked against, and the lines it prints.
use vstd::prelude::*;

use crate::assets::{trim_start, trim_start_char};
use crate::ir::ClassificationCounts;
use crate::json::{join_items, push_joined};
use crate::performance_budget::PageUsage;
use crate::pipeline::PageError;
use crate::strmap::StrMap;
use crate::text::{decimal, decimal_string, owned, str_eq};

verus! {

/// A segment of a route's pattern: a fixed name, or a `[parameter]`.
pub enum Segment {
    Static(String),
    Dynamic(String),
}

/// What a segment reads as under `params`: its name, or the value of its
/// parameter (empty when none was given).
pub open spec fn segment_text(s: Segment, params: Map<Seq<char>, String>) -> Seq<char> {
    match s {
        Segment::Static(name) => name@,
        Segment::Dynamic(name) => if params.contains_key(name@) {
            params[name@]@
        } else {
            Seq::empty()
        },
    }
}

/// The readable form of a route under `params`: `/products/iphone-17`
/// rather than `/products/:slug`; `/` for the root.
pub open spec fn resolved_pattern_of(segments: Seq<Segment>, params: Map<Seq<char>, String>) -> Seq<
    char,
> {
    if segments.len() == 0 {
        "/"@
    } else {
        "/"@ + join_items(
            segments.map_values(|s: Segment| segment_text(s, params)),
            "/"@,
            Seq::empty(),
        )
    }
}

/// The readable form of a route under a set of parameters.
pub fn resolved_pattern(segments: &[Segment], params: &StrMap<String>) -> (r: String)
    ensures
        r@ == resolved_pattern_of(segments@, params@),
{
    if segments.len() == 0 {
        return owned("/");
    }
    let mut texts: Vec<String> = Vec::new();
    let mut i: usize = 0;
    while i < segments.len()
        invariant
            i <= segments@.len(),
            texts@.map_values(|x: String| x@) == segments@.take(i as int).map_values(
                |s: Segment| segment_text(s, params@),
            ),
        decreases segments@.len() - i,
    {
        let ghost before = texts@.map_values(|x: String| x@);
        let t = match &segments[i] {
            Segment::Static(name) => owned(name.as_str()),
            Segment::Dynamic(name) => match params.get(name.as_str()) {
                Some(v) => owned(v.as_str()),
                None => String::new(),
            },
        };
        texts.push(t);
        proof {
            let ss = segments@;
            assert(ss.take(i + 1) =~= ss.take(i as int).push(ss[i as int]));
            assert(texts@.map_values(|x: String| x@) =~= before.push(segment_text(ss[i as int], params@)));
            assert(texts@.map_values(|x: String| x@) =~= ss.take(i + 1).map_values(
                |s: Segment| segment_text(s, params@),
            ));
        }
        i = i + 1;
    }
    assert(segments@.take(i as int) =~= segments@);
    let mut r = owned("/");
    push_joined(&mut r, &texts, "/", "");
    proof {
        reveal_strlit("");
        assert(""@ =~= Seq::<char>::empty());
    }
    r
}

/// The directory of `dist/` that holds the `index.html` of the static
/// route `pattern`; `/` lives at the root of `dist/`.
pub open spec fn output_dir_of(pattern: Seq<char>) -> Seq<char> {
    if pattern == "/"@ {
        "dist"@
    } else {
        "dist/"@ + trim_start(pattern, '/')
    }
}

/// Where the page of a static route is written.
pub fn output_dir(pattern: &str) -> (r: String)
    ensures
        r@ == output_dir_of(pattern@),
{
    if str_eq(pattern, "/") {
        owned("dist")
    } else {
        let mut r = owned("dist/");
        r.append(trim_start_char(pattern, '/'));
        r
    }
}

/// Where the page of a dynamic route under `params` is written: each
/// parameter replaced by its value, one directory per segment.
pub open spec fn output_dir_for_params_of(
    segments: Seq<Segment>,
    params: Map<Seq<char>, String>,
) -> Seq<char> {
    if segments.len() == 0 {
        "dist"@
    } else {
        "dist"@ + resolved_pattern_of(segments, params)
    }
}

/// Where the page of a dynamic route under a set of parameters is written.
pub fn output_dir_for_params(segments: &[Segment], params: &StrMap<String>) -> (r: String)
    ensures
        r@ == output_dir_for_params_of(segments@, params@),
{
    if segments.len() == 0 {
        owned("dist")
    } else {
        let mut r = owned("dist");
        let p = resolved_pattern(segments, params);
        r.append(p.as_str());
        r
    }
}

/// The names of a route's parameters, in the order its pattern gives them.
pub open spec fn dynamic_names_of(segments: Seq<Segment>) -> Seq<Seq<char>>
    decreases segments.len(),
{
    if segments.len() == 0 {
        seq![]
    } else {
        let rest = dynamic_names_of(segments.drop_last());
        match segments.last() {
            Segment::Dynamic(name) => rest.push(name@),
            Segment::Static(_) => rest,
        }
    }
}

/// The names of a route's parameters.
pub fn dynamic_names(segments: &[Segment]) -> (r: Vec<String>)
    ensures
        r@.map_values(|x: String| x@) == dynamic_names_of(segments@),
{
    let mut out: Vec<String> = Vec::new();
    let mut i: usize = 0;
    while i < segments.len()
        invariant
            i <= segments@.len(),
            out@.map_values(|x: String| x@) == dynamic_names_of(segments@.take(i as int)),
        decreases segments@.len() - i,
    {
        let ghost before = out@.map_values(|x: String| x@);
        assert(segments@.take(i + 1).drop_last() =~= segments@.take(i as int));
        match &segments[i] {
            Segment::Dynamic(name) => {
                out.push(owned(name.as_str()));
                assert(out@.map_values(|x: String| x@) =~= before.push(name@));
            },
            Segment::Static(_) => {},
        }
        i = i + 1;
    }
    assert(segments@.take(i as int) =~= segments@);
    out
}

/// One entry of what a route's `paths` declaration answered: its JSON
/// text (for error messages) and, when it is an object, its fields, with
/// the text of those that are strings.
pub struct PathsEntry {
    pub text: String,
    pub fields: Option<StrMap<Option<String>>>,
}

/// What a route's `paths` declaration answered: its JSON text and, when
/// it is an array, its entries.
pub struct PathsResponse {
    pub text: String,
    pub entries: Option<Vec<PathsEntry>>,
}

/// The text of the string field `name`, if the entry has one.
pub open spec fn field_text(fields: Map<Seq<char>, Option<String>>, name: Seq<char>) -> Option<
    Seq<char>,
> {
    if fields.contains_key(name) && fields[name] is Some {
        Some(fields[name]->0@)
    } else {
        None
    }
}

/// The first of `names` the entry has no string field for.
pub open spec fn first_missing(names: Seq<Seq<char>>, fields: Map<Seq<char>, Option<String>>) -> Option<
    Seq<char>,
>
    decreases names.len(),
{
    if names.len() == 0 {
        None
    } else {
        match first_missing(names.drop_last(), fields) {
            Some(n) => Some(n),
            None => if field_text(fields, names.last()) is None {
                Some(names.last())
            } else {
                None
            },
        }
    }
}

/// The parameters an entry gives: each name with the text of its field.
pub open spec fn entry_params_of(names: Seq<Seq<char>>, fields: Map<Seq<char>, Option<String>>) -> Map<
    Seq<char>,
    Seq<char>,
> {
    Map::new(|k: Seq<char>| names.contains(k), |k: Seq<char>| field_text(fields, k)->0)
}

/// The parameter set of one entry of `paths` for a route named `pattern`
/// with parameters `names`, or the error that stops the build.
pub open spec fn entry_result(
    pattern: Seq<char>,
    names: Seq<Seq<char>>,
    text: Seq<char>,
    fields: Option<Map<Seq<char>, Option<String>>>,
) -> Result<Map<Seq<char>, Seq<char>>, Seq<char>> {
    match fields {
        None => Err(pattern + ": cada entrada de `paths` debe ser un objeto, encontré: "@ + text),
        Some(f) => match first_missing(names, f) {
            Some(n) => Err(
                pattern + ": una entrada de `paths` no tiene el campo string `"@ + n
                    + "` que la ruta necesita: "@ + text,
            ),
            None => Ok(entry_params_of(names, f)),
        },
    }
}

/// An entry by its views.
pub open spec fn entry_view(e: PathsEntry) -> (Seq<char>, Option<Map<Seq<char>, Option<String>>>) {
    (
        e.text@,
        match e.fields {
            Some(f) => Some(f@),
            None => None,
        },
    )
}

/// The parameter sets of the entries, in order, or the first error.
pub open spec fn entries_result(
    pattern: Seq<char>,
    names: Seq<Seq<char>>,
    entries: Seq<PathsEntry>,
) -> Result<Seq<Map<Seq<char>, Seq<char>>>, Seq<char>>
    decreases entries.len(),
{
    if entries.len() == 0 {
        Ok(seq![])
    } else {
        match entries_result(pattern, names, entries.drop_last()) {
            Err(m) => Err(m),
            Ok(ps) => {
                let e = entry_view(entries.last());
                match entry_result(pattern, names, e.0, e.1) {
                    Err(m) => Err(m),
                    Ok(p) => Ok(ps.push(p)),
                }
            },
        }
    }
}

/// The parameter sets a `paths` answer declares, or why it is unusable.
pub open spec fn paths_result(
    pattern: Seq<char>,
    names: Seq<Seq<char>>,
    response: PathsResponse,
) -> Result<Seq<Map<Seq<char>, Seq<char>>>, Seq<char>> {
    match response.entries {
        None => Err(
            pattern + ": `paths` debe responder un array JSON, la respuesta fue: "@ + response.text@,
        ),
        Some(es) => entries_result(pattern, names, es@),
    }
}

/// A parameter set by the text of its values.
pub open spec fn params_view(m: Map<Seq<char>, String>) -> Map<Seq<char>, Seq<char>> {
    m.map_values(|s: String| s@)
}

fn entry_params(pattern: &str, names: &Vec<String>, entry: &PathsEntry) -> (r: Result<
    StrMap<String>,
    String,
>)
    ensures
        match (r, entry_result(
            pattern@,
            names@.map_values(|x: String| x@),
            entry_view(*entry).0,
            entry_view(*entry).1,
        )) {
            (Ok(m), Ok(p)) => params_view(m@) == p,
            (Err(e), Err(m)) => e@ == m,
            _ => false,
        },
{
    let ghost ns = names@.map_values(|x: String| x@);
    match &entry.fields {
        None => {
            let mut e = owned(pattern);
            e.append(": cada entrada de `paths` debe ser un objeto, encontré: ");
            e.append(entry.text.as_str());
            assert(e@ =~= pattern@ + ": cada entrada de `paths` debe ser un objeto, encontré: "@
                + entry.text@);
            Err(e)
        },
        Some(fields) => {
            let mut params: StrMap<String> = StrMap::new();
            let mut i: usize = 0;
            while i < names.len()
                invariant
                    i <= names@.len(),
                    ns == names@.map_values(|x: String| x@),
                    entry_view(*entry).1 == Some(fields@),
                    first_missing(ns.take(i as int), fields@) is None,
                    params_view(params@) == entry_params_of(ns.take(i as int), fields@),
                decreases names@.len() - i,
            {
                let name = names[i].as_str();
                assert(ns.take(i + 1).drop_last() =~= ns.take(i as int));
                assert(ns.take(i + 1).last() == name@);
                match fields.get(name) {
                    Some(Some(v)) => {
                        let ghost before = params@;
                        params.insert(owned(name), owned(v.as_str()));
                        proof {
                            assert(field_text(fields@, name@) == Some(v@));
                            assert(ns.take(i + 1) =~= ns.take(i as int).push(name@));
                            assert(params_view(params@) =~= params_view(before).insert(name@, v@));
                            assert forall|k: Seq<char>|
                                ns.take(i + 1).contains(k) <==> (ns.take(i as int).contains(k) || k
                                    == name@) by {
                                vstd::seq_lib::lemma_seq_contains_after_push(
                                    ns.take(i as int),
                                    name@,
                                    k,
                                );
                            }
                            assert(entry_params_of(ns.take(i + 1), fields@) =~= entry_params_of(
                                ns.take(i as int),
                                fields@,
                            ).insert(name@, v@));
                            assert(params_view(params@) =~= entry_params_of(
                                ns.take(i + 1),
                                fields@,
                            ));
                        }
                    },
                    _ => {
                        assert(first_missing(ns.take(i + 1), fields@) == Some(name@));
                        let mut e = owned(pattern);
                        e.append(": una entrada de `paths` no tiene el campo string `");
                        e.append(name);
                        e.append("` que la ruta necesita: ");
                        e.append(entry.text.as_str());
                        proof {
                            lemma_first_missing_prefix(ns, fields@, i as int + 1);
                            assert(e@ =~= pattern@ + ": una entrada de `paths` no tiene el campo string `"@
                                + name@ + "` que la ruta necesita: "@ + entry.text@);
                        }
                        return Err(e);
                    },
                }
                i = i + 1;
            }
            assert(ns.take(i as int) =~= ns);
            Ok(params)
        },
    }
}

proof fn lemma_first_missing_prefix(
    names: Seq<Seq<char>>,
    fields: Map<Seq<char>, Option<String>>,
    k: int,
)
    requires
        0 <= k <= names.len(),
        first_missing(names.take(k), fields) is Some,
    ensures
        first_missing(names, fields) == first_missing(names.take(k), fields),
    decreases names.len() - k,
{
    if k < names.len() {
        assert(names.take(k + 1).drop_last() =~= names.take(k));
        lemma_first_missing_prefix(names, fields, k + 1);
    } else {
        assert(names.take(k) =~= names);
    }
}

/// The parameter sets a route's `paths` declaration answered: one per
/// entry of the array, each with a string field for every parameter of
/// the route. Anything else stops the build with an error naming the
/// route and what was wrong.
pub fn enumerate_params(
    pattern: &str,
    segments: &[Segment],
    response: &PathsResponse,
) -> (r: Result<Vec<StrMap<String>>, String>)
    ensures
        match (r, paths_result(pattern@, dynamic_names_of(segments@), *response)) {
            (Ok(v), Ok(ps)) => v@.map_values(|m: StrMap<String>| params_view(m@)) == ps,
            (Err(e), Err(m)) => e@ == m,
            _ => false,
        },
{
    let names = dynamic_names(segments);
    let ghost ns = dynamic_names_of(segments@);
    match &response.entries {
        None => {
            let mut e = owned(pattern);
            e.append(": `paths` debe responder un array JSON, la respuesta fue: ");
            e.append(response.text.as_str());
            Err(e)
        },
        Some(entries) => {
            let mut out: Vec<StrMap<String>> = Vec::new();
            let mut i: usize = 0;
            assert(entries@.take(0) =~= Seq::<PathsEntry>::empty());
            assert(out@.map_values(|m: StrMap<String>| params_view(m@)) =~= Seq::<
                Map<Seq<char>, Seq<char>>,
            >::empty());
            while i < entries.len()
                invariant
                    i <= entries@.len(),
                    names@.map_values(|x: String| x@) == ns,
                    ns == dynamic_names_of(segments@),
                    paths_result(pattern@, ns, *response) == entries_result(pattern@, ns, entries@),
                    entries_result(pattern@, ns, entries@.take(i as int)) == Ok::<
                        Seq<Map<Seq<char>, Seq<char>>>,
                        Seq<char>,
                    >(out@.map_values(|m: StrMap<String>| params_view(m@))),
                decreases entries@.len() - i,
            {
                assert(entries@.take(i + 1).drop_last() =~= entries@.take(i as int));
                assert(entries@.take(i + 1).last() == entries@[i as int]);
                match entry_params(pattern, &names, &entries[i]) {
                    Ok(p) => {
                        let ghost before = out@.map_values(|m: StrMap<String>| params_view(m@));
                        out.push(p);
                        assert(out@.map_values(|m: StrMap<String>| params_view(m@)) =~= before.push(
                            params_view(p@),
                        ));
                    },
                    Err(e) => {
                        proof {
                            let ev = entry_view(entries@[i as int]);
                            assert(entry_result(pattern@, ns, ev.0, ev.1) == Err::<
                                Map<Seq<char>, Seq<char>>,
                                Seq<char>,
                            >(e@));
                            assert(entries_result(pattern@, ns, entries@.take(i + 1)) == Err::<
                                Seq<Map<Seq<char>, Seq<char>>>,
                                Seq<char>,
                            >(e@));
                            lemma_entries_error_prefix(pattern@, ns, entries@, i as int + 1);
                        }
                        return Err(e);
                    },
                }
                i = i + 1;
            }
            assert(entries@.take(i as int) =~= entries@);
            Ok(out)
        },
    }
}

proof fn lemma_entries_error_prefix(
    pattern: Seq<char>,
    names: Seq<Seq<char>>,
    entries: Seq<PathsEntry>,
    k: int,
)
    requires
        0 <= k <= entries.len(),
        entries_result(pattern, names, entries.take(k)) is Err,
    ensures
        entries_result(pattern, names, entries) == entries_result(pattern, names, entries.take(k)),
    decreases entries.len() - k,
{
    if k < entries.len() {
        assert(entries.take(k + 1).drop_last() =~= entries.take(k));
        lemma_entries_error_prefix(pattern, names, entries, k + 1);
    } else {
        assert(entries.take(k) =~= entries);
    }
}

/// `s` without its trailing occurrences of `c`.
pub open spec fn trim_end(s: Seq<char>, c: char) -> Seq<char>
    decreases s.len(),
{
    if s.len() > 0 && s.last() == c {
        trim_end(s.drop_last(), c)
    } else {
        s
    }
}

/// `s` without its trailing occurrences of `c` (`str::trim_end_matches`
/// with one character).
pub fn trim_end_char(s: &str, c: char) -> (r: &str)
    ensures
        r@ == trim_end(s@, c),
{
    let mut n = s.unicode_len();
    assert(s@.take(n as int) =~= s@);
    while n > 0 && s.get_char(n - 1) == c
        invariant
            n <= s@.len(),
            trim_end(s@.take(n as int), c) == trim_end(s@, c),
        decreases n,
    {
        assert(s@.take(n as int).drop_last() =~= s@.take(n - 1));
        n = n - 1;
    }
    s.substring_char(0, n)
}

/// The URL the sitemap lists for a built page: absolute under the site's
/// base URL when one is set, else the pattern itself.
pub open spec fn site_url_of(base: Option<Seq<char>>, pattern: Seq<char>) -> Seq<char> {
    match base {
        Some(b) => trim_end(b, '/') + pattern,
        None => pattern,
    }
}

/// The URL of a built page in the sitemap.
pub fn site_url(base: Option<&str>, pattern: &str) -> (r: String)
    ensures
        r@ == site_url_of(
            match base {
                Some(b) => Some(b@),
                None => None,
            },
            pattern@,
        ),
{
    match base {
        Some(b) => {
            let mut r = owned(trim_end_char(b, '/'));
            r.append(pattern);
            r
        },
        None => owned(pattern),
    }
}

/// The sitemap's URL that `robots.txt` names, when the site's base URL is
/// set.
pub fn sitemap_url(base: Option<&str>) -> (r: Option<String>)
    ensures
        match base {
            Some(b) => r is Some && r->0@ == trim_end(b@, '/') + "/sitemap.xml"@,
            None => r is None,
        },
{
    match base {
        Some(b) => {
            let mut r = owned(trim_end_char(b, '/'));
            r.append("/sitemap.xml");
            Some(r)
        },
        None => None,
    }
}

/// The heaviest of the images a page references, among those found under
/// `public/` (the size is `None` for one that is not there); the last of
/// equally heavy ones.
pub open spec fn largest_of(c: Seq<(Seq<char>, Option<u64>)>) -> Option<(Seq<char>, u64)>
    decreases c.len(),
{
    if c.len() == 0 {
        None
    } else {
        let rest = largest_of(c.drop_last());
        match c.last().1 {
            None => rest,
            Some(b) => match rest {
                Some(r) => if b >= r.1 {
                    Some((c.last().0, b))
                } else {
                    rest
                },
                None => Some((c.last().0, b)),
            },
        }
    }
}

pub open spec fn candidate_views(c: Seq<(String, Option<u64>)>) -> Seq<(Seq<char>, Option<u64>)> {
    c.map_values(|p: (String, Option<u64>)| (p.0@, p.1))
}

/// The heaviest static image a page references, with its size.
pub fn largest_image(candidates: &[(String, Option<u64>)]) -> (r: Option<(String, u64)>)
    ensures
        match (r, largest_of(candidate_views(candidates@))) {
            (Some(a), Some(b)) => a.0@ == b.0 && a.1 == b.1,
            (None, None) => true,
            _ => false,
        },
{
    let ghost cs = candidate_views(candidates@);
    let mut best: Option<(String, u64)> = None;
    let mut i: usize = 0;
    while i < candidates.len()
        invariant
            i <= candidates@.len(),
            cs == candidate_views(candidates@),
            match (best, largest_of(cs.take(i as int))) {
                (Some(a), Some(b)) => a.0@ == b.0 && a.1 == b.1,
                (None, None) => true,
                _ => false,
            },
        decreases candidates@.len() - i,
    {
        assert(cs.take(i + 1).drop_last() =~= cs.take(i as int));
        assert(cs.take(i + 1).last() == (candidates@[i as int].0@, candidates@[i as int].1));
        match candidates[i].1 {
            Some(b) => {
                let better = match &best {
                    Some(cur) => b >= cur.1,
                    None => true,
                };
                if better {
                    best = Some((owned(candidates[i].0.as_str()), b));
                }
            },
            None => {},
        }
        i = i + 1;
    }
    assert(cs.take(i as int) =~= cs);
    best
}

/// What a built page contributes to the performance budget before the
/// size of the site's `@nexa/ui` stylesheet is known.
pub struct PendingPageUsage {
    pub pattern: String,
    pub initial_js_bytes: u64,
    pub links_ui_css: bool,
    pub largest_image: Option<(String, u64)>,
}

/// The usage the budget is checked against: a page that links the
/// stylesheet weighs what the whole site's stylesheet weighs (nothing when
/// none was written).
pub open spec fn usage_matches(p: PendingPageUsage, u: PageUsage, ui_css_bytes: Option<u64>) -> bool {
    &&& u.pattern@ == p.pattern@
    &&& u.initial_js_bytes == p.initial_js_bytes
    &&& u.css_bytes == (if p.links_ui_css {
        Some(
            match ui_css_bytes {
                Some(b) => b,
                None => 0u64,
            },
        )
    } else {
        None
    })
    &&& match (u.largest_image, p.largest_image) {
        (Some(a), Some(b)) => a.0@ == b.0@ && a.1 == b.1,
        (None, None) => true,
        _ => false,
    }
}

/// The usages of every built page, in build order.
pub fn page_usages(pending: &[PendingPageUsage], ui_css_bytes: Option<u64>) -> (r: Vec<PageUsage>)
    ensures
        r@.len() == pending@.len(),
        forall|i: int|
            0 <= i < pending@.len() ==> usage_matches(pending@[i], #[trigger] r@[i], ui_css_bytes),
{
    let mut out: Vec<PageUsage> = Vec::new();
    let mut i: usize = 0;
    while i < pending.len()
        invariant
            i <= pending@.len(),
            out@.len() == i,
            forall|j: int|
                0 <= j < i ==> usage_matches(pending@[j], #[trigger] out@[j], ui_css_bytes),
        decreases pending@.len() - i,
    {
        let p = &pending[i];
        let css_bytes = if p.links_ui_css {
            Some(
                match ui_css_bytes {
                    Some(b) => b,
                    None => 0,
                },
            )
        } else {
            None
        };
        let largest_image = match &p.largest_image {
            Some(img) => Some((owned(img.0.as_str()), img.1)),
            None => None,
        };
        out.push(
            PageUsage {
                pattern: owned(p.pattern.as_str()),
                initial_js_bytes: p.initial_js_bytes,
                css_bytes,
                largest_image,
            },
        );
        i = i + 1;
    }
    out
}

/// The error that stops the build when the `load()` of a static route
/// answered 404: there is no data to make a static page of.
pub fn static_page_error(pattern: &str, err: PageError) -> (r: String)
    ensures
        r@ == match err {
            PageError::NotFound => pattern@
                + ": su `load()` respondió 404 — no se puede generar un HTML estático para un dato que no existe"@,
            PageError::Other(m) => m@,
        },
{
    match err {
        PageError::NotFound => {
            let mut r = owned(pattern);
            r.append(
                ": su `load()` respondió 404 — no se puede generar un HTML estático para un dato que no existe",
            );
            r
        },
        PageError::Other(m) => m,
    }
}

/// The error that stops the build when a page could not be compiled. A
/// route that declares its parameter sets is compiled once per set;
/// `declared_params` then holds the set being compiled, as the build
/// prints it. A `load()` that answers 404 for a declared set means that
/// `paths` and `load` disagree; for a static route, see
/// [`static_page_error`]; any other failure keeps its message.
pub fn page_build_error(pattern: &str, declared_params: Option<&str>, err: PageError) -> (r: String)
    ensures
        r@ == match (declared_params, err) {
            (Some(p), PageError::NotFound) => pattern@ + " con "@ + p@
                + ": su `load()` respondió 404 para un set de parámetros que `paths` declaró — revisa que `paths` y `load` estén de acuerdo"@,
            (Some(_), PageError::Other(m)) => m@,
            (None, PageError::NotFound) => pattern@
                + ": su `load()` respondió 404 — no se puede generar un HTML estático para un dato que no existe"@,
            (None, PageError::Other(m)) => m@,
        },
{
    match declared_params {
        Some(p) => match err {
            PageError::NotFound => {
                let mut r = owned(pattern);
                r.append(" con ");
                r.append(p);
                r.append(
                    ": su `load()` respondió 404 para un set de parámetros que `paths` declaró — revisa que `paths` y `load` estén de acuerdo",
                );
                r
            },
            PageError::Other(m) => m,
        },
        None => static_page_error(pattern, err),
    }
}

/// The activation line `nexa build` prints for a page.
pub open spec fn activation_summary_of(entries: nat, chunks: nat) -> Seq<char> {
    if entries == 0 {
        "  Activación: 0 nodos interactivos."@
    } else {
        "  Activación: "@ + decimal(entries) + " nodo(s) interactivo(s) -> "@ + decimal(chunks)
            + " chunk(s) en dist/assets/"@
    }
}

/// The activation line for a page with `entries` manifest entries and
/// `chunks` chunks.
pub fn activation_summary(entries: usize, chunks: usize) -> (r: String)
    ensures
        r@ == activation_summary_of(entries as nat, chunks as nat),
{
    if entries == 0 {
        owned("  Activación: 0 nodos interactivos.")
    } else {
        let mut r = owned("  Activación: ");
        r.append(decimal_string(entries as u128).as_str());
        r.append(" nodo(s) interactivo(s) -> ");
        r.append(decimal_string(chunks as u128).as_str());
        r.append(" chunk(s) en dist/assets/");
        r
    }
}

/// The classification line `nexa build` prints for a page.
pub open spec fn classification_summary_of(c: ClassificationCounts) -> Seq<char> {
    "  Clasificación: "@ + decimal(c.sum()) + " nodos — "@ + decimal(c.static_count as nat)
        + " static, "@ + decimal(c.dynamic_count as nat) + " dynamic, "@ + decimal(
        c.interactive_count as nat,
    ) + " interactive, "@ + decimal(c.async_count as nat) + " async, "@ + decimal(
        c.island_count as nat,
    ) + " island"@
}

/// The classification line for a page's counts.
pub fn classification_summary(c: &ClassificationCounts) -> (r: String)
    requires
        c.sum() <= usize::MAX,
    ensures
        r@ == classification_summary_of(*c),
{
    let mut r = owned("  Clasificación: ");
    r.append(decimal_string(c.total() as u128).as_str());
    r.append(" nodos — ");
    r.append(decimal_string(c.static_count as u128).as_str());
    r.append(" static, ");
    r.append(decimal_string(c.dynamic_count as u128).as_str());
    r.append(" dynamic, ");
    r.append(decimal_string(c.interactive_count as u128).as_str());
    r.append(" interactive, ");
    r.append(decimal_string(c.async_count as u128).as_str());
    r.append(" async, ");
    r.append(decimal_string(c.island_count as u128).as_str());
    r.append(" island");
    r
}

} // verus!
