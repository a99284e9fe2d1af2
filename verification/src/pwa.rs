//! `[pwa]` in `nexa.toml` turned into the two files a browser needs to
//! install the site and work offline: `manifest.webmanifest` and `sw.js`,
//! plus the `<head>` fragment that links the manifest.
use vstd::prelude::*;

use crate::activation::join_lines;
use crate::json::{
    lemma_pretty_container_has, json_quote, json_string_literal, pretty_container, pretty_container_of, pretty_member,
    pretty_member_of,
};
use crate::manifest::PwaSection;
use crate::strmap::StrMap;
use crate::text::{contains_seq, owned, str_eq};
use vstd::string::*;
use vstd::utf8::encode_utf8;

verus! {

pub const SW_HEAD: &'static str = "// Generado por Nexa (Fase 18) a partir de [pwa]/[pwa.cache] en nexa.toml.\nconst CACHE_NAME = \"nexa-pwa-v1\";\nconst RULES = [\n";

pub const SW_TAIL: &'static str = "\n];\n\nfunction strategyFor(pathname) {\n    for (const [prefix, strategy] of RULES) {\n        if (pathname.startsWith(prefix)) return strategy;\n    }\n    return \"network-first\";\n}\n\nself.addEventListener(\"install\", () => {\n    self.skipWaiting();\n});\n\nself.addEventListener(\"activate\", (event) => {\n    event.waitUntil(self.clients.claim());\n});\n\nself.addEventListener(\"fetch\", (event) => {\n    if (event.request.method !== \"GET\") return;\n    const url = new URL(event.request.url);\n    const strategy = strategyFor(url.pathname);\n\n    if (strategy === \"cache-first\") {\n        event.respondWith(cacheFirst(event.request));\n    } else if (strategy === \"stale-while-revalidate\") {\n        event.respondWith(staleWhileRevalidate(event.request));\n    } else {\n        event.respondWith(networkFirst(event.request));\n    }\n});\n\nasync function cacheFirst(request) {\n    const cached = await caches.match(request);\n    if (cached) return cached;\n    const response = await fetch(request);\n    await putInCache(request, response);\n    return response;\n}\n\nasync function networkFirst(request) {\n    try {\n        const response = await fetch(request);\n        await putInCache(request, response);\n        return response;\n    } catch (err) {\n        const cached = await caches.match(request);\n        if (cached) return cached;\n        throw err;\n    }\n}\n\nasync function staleWhileRevalidate(request) {\n    const cached = await caches.match(request);\n    const fetchPromise = fetch(request).then((response) => {\n        putInCache(request, response);\n        return response;\n    });\n    return cached ?? fetchPromise;\n}\n\nasync function putInCache(request, response) {\n    if (!response || !response.ok) return;\n    const cache = await caches.open(CACHE_NAME);\n    await cache.put(request, response.clone());\n}\n";

/// A text option by its characters.
pub open spec fn opt_text(o: Option<String>) -> Option<Seq<char>> {
    match o {
        Some(s) => Some(s@),
        None => None,
    }
}

/// The first twelve characters of a name.
pub open spec fn short_prefix(name: Seq<char>) -> Seq<char> {
    if name.len() <= 12 {
        name
    } else {
        name.take(12)
    }
}

/// One icon entry of the manifest (depth 2).
pub open spec fn icon_json(icon: Seq<char>, size: Seq<char>) -> Seq<char> {
    pretty_container(
        '{',
        '}',
        seq![
            pretty_member("sizes"@, json_string_literal(size)),
            pretty_member("src"@, json_string_literal(icon)),
            pretty_member("type"@, json_string_literal("image/png"@)),
        ],
        2,
    )
}

/// The `icons` array: the same file declared at 192x192 and 512x512.
pub open spec fn icons_json(icon: Seq<char>) -> Seq<char> {
    pretty_container('[', ']', seq![icon_json(icon, "192x192"@), icon_json(icon, "512x512"@)], 1)
}

/// A member when the value is present.
pub open spec fn member_if(key: Seq<char>, value: Option<Seq<char>>) -> Seq<Seq<char>> {
    match value {
        Some(v) => seq![pretty_member(key, json_string_literal(v))],
        None => Seq::empty(),
    }
}

/// The members of `manifest.webmanifest`, in key order (as a JSON object
/// with sorted keys prints them): the short name defaults to the first
/// twelve characters of the name, the display to `standalone`.
pub open spec fn manifest_members(pwa: PwaSection) -> Seq<Seq<char>> {
    member_if("background_color"@, opt_text(pwa.background_color)) + seq![
        pretty_member(
            "display"@,
            json_string_literal(
                match pwa.display {
                    Some(d) => d@,
                    None => "standalone"@,
                },
            ),
        ),
    ] + match pwa.icon {
        Some(icon) => seq![pretty_member("icons"@, icons_json(icon@))],
        None => Seq::empty(),
    } + seq![
        pretty_member("name"@, json_string_literal(pwa.name@)),
        pretty_member(
            "short_name"@,
            json_string_literal(
                match pwa.short_name {
                    Some(s) => s@,
                    None => short_prefix(pwa.name@),
                },
            ),
        ),
        pretty_member("start_url"@, json_string_literal("/"@)),
    ] + member_if("theme_color"@, opt_text(pwa.theme_color))
}

/// The pretty-printed `manifest.webmanifest`.
pub open spec fn web_manifest(pwa: PwaSection) -> Seq<char> {
    pretty_container('{', '}', manifest_members(pwa), 0)
}

fn text_member(key: &str, value: &str) -> (r: String)
    ensures
        r@ == pretty_member(key@, json_string_literal(value@)),
{
    let q = json_quote(value);
    pretty_member_of(key, q.as_str())
}

fn icon_json_of(icon: &str, size: &str) -> (r: String)
    ensures
        r@ == icon_json(icon@, size@),
{
    let mut items: Vec<String> = Vec::new();
    items.push(text_member("sizes", size));
    items.push(text_member("src", icon));
    items.push(text_member("type", "image/png"));
    assert(items@.map_values(|x: String| x@) =~= seq![
        pretty_member("sizes"@, json_string_literal(size@)),
        pretty_member("src"@, json_string_literal(icon@)),
        pretty_member("type"@, json_string_literal("image/png"@)),
    ]);
    pretty_container_of('{', '}', &items, 2)
}

/// The first `n` characters of `s` (all of them when it is shorter).
fn take_chars(s: &str, n: usize) -> (r: &str)
    ensures
        r@ == (if s@.len() <= n {
            s@
        } else {
            s@.take(n as int)
        }),
{
    let len = s.unicode_len();
    if len <= n {
        let r = s.substring_char(0, len);
        assert(r@ =~= s@);
        r
    } else {
        s.substring_char(0, n)
    }
}

/// `manifest.webmanifest`, pretty-printed.
pub fn render_manifest(pwa: &PwaSection) -> (r: String)
    ensures
        r@ == web_manifest(*pwa),
{
    let mut members: Vec<String> = Vec::new();
    match &pwa.background_color {
        Some(c) => members.push(text_member("background_color", c.as_str())),
        None => {},
    }
    let ghost m1 = members@.map_values(|x: String| x@);
    match &pwa.display {
        Some(d) => members.push(text_member("display", d.as_str())),
        None => members.push(text_member("display", "standalone")),
    }
    let ghost m2 = members@.map_values(|x: String| x@);
    match &pwa.icon {
        Some(icon) => {
            let mut icons: Vec<String> = Vec::new();
            icons.push(icon_json_of(icon.as_str(), "192x192"));
            icons.push(icon_json_of(icon.as_str(), "512x512"));
            assert(icons@.map_values(|x: String| x@) =~= seq![
                icon_json(icon@, "192x192"@),
                icon_json(icon@, "512x512"@),
            ]);
            let arr = pretty_container_of('[', ']', &icons, 1);
            members.push(pretty_member_of("icons", arr.as_str()));
        },
        None => {},
    }
    let ghost m3 = members@.map_values(|x: String| x@);
    members.push(text_member("name", pwa.name.as_str()));
    match &pwa.short_name {
        Some(s) => members.push(text_member("short_name", s.as_str())),
        None => members.push(text_member("short_name", take_chars(pwa.name.as_str(), 12))),
    }
    members.push(text_member("start_url", "/"));
    let ghost m4 = members@.map_values(|x: String| x@);
    match &pwa.theme_color {
        Some(c) => members.push(text_member("theme_color", c.as_str())),
        None => {},
    }
    proof {
        let p = *pwa;
        assert(m1 =~= member_if("background_color"@, opt_text(p.background_color)));
        assert(m3 =~= m1 + seq![
            pretty_member(
                "display"@,
                json_string_literal(
                    match p.display {
                        Some(d) => d@,
                        None => "standalone"@,
                    },
                ),
            ),
        ] + match p.icon {
            Some(icon) => seq![pretty_member("icons"@, icons_json(icon@))],
            None => Seq::empty(),
        });
        assert(members@.map_values(|x: String| x@) =~= manifest_members(p));
    }
    pretty_container_of('{', '}', &members, 0)
}

/// The caching strategies a `[pwa.cache]` rule may name.
pub open spec fn valid_strategy(s: Seq<char>) -> bool {
    s == "cache-first"@ || s == "network-first"@ || s == "stale-while-revalidate"@
}

/// The message for a rule with an unknown strategy.
pub open spec fn invalid_rule_message(prefix: Seq<char>, strategy: Seq<char>) -> Seq<char> {
    "[pwa.cache] \""@ + prefix + "\" = \""@ + strategy
        + "\" no es una estrategia válida — usa una de: cache-first, network-first, stale-while-revalidate"@
}

/// The first rule, in prefix order, with an unknown strategy.
pub open spec fn first_invalid(rules: Seq<(Seq<char>, String)>) -> Option<(Seq<char>, Seq<char>)>
    decreases rules.len(),
{
    if rules.len() == 0 {
        None
    } else {
        match first_invalid(rules.drop_last()) {
            Some(r) => Some(r),
            None => if valid_strategy(rules.last().1@) {
                None
            } else {
                Some((rules.last().0, rules.last().1@))
            },
        }
    }
}

/// The length in bytes of a text.
pub open spec fn byte_len(s: Seq<char>) -> nat {
    encode_utf8(s).len()
}

/// `x` inserted into `t` after every rule whose prefix is at least as
/// long (in bytes).
pub open spec fn insert_by_len(t: Seq<(Seq<char>, Seq<char>)>, x: (Seq<char>, Seq<char>)) -> Seq<
    (Seq<char>, Seq<char>),
>
    decreases t.len(),
{
    if t.len() == 0 {
        seq![x]
    } else if byte_len(t.last().0) < byte_len(x.0) {
        insert_by_len(t.drop_last(), x).push(t.last())
    } else {
        t.push(x)
    }
}

/// The rules sorted by prefix length, longest first, rules of equal
/// length in their original order (stable).
pub open spec fn sort_by_len(s: Seq<(Seq<char>, Seq<char>)>) -> Seq<(Seq<char>, Seq<char>)>
    decreases s.len(),
{
    if s.len() == 0 {
        Seq::empty()
    } else {
        insert_by_len(sort_by_len(s.drop_last()), s.last())
    }
}

/// `  ["prefix", "strategy"],`
pub open spec fn rule_line(r: (Seq<char>, Seq<char>)) -> Seq<char> {
    "  ["@ + json_string_literal(r.0) + ", "@ + json_string_literal(r.1) + "],"@
}

/// The rules by their texts, in prefix order.
pub open spec fn rule_texts(rules: Seq<(Seq<char>, String)>) -> Seq<(Seq<char>, Seq<char>)> {
    rules.map_values(|r: (Seq<char>, String)| (r.0, r.1@))
}

/// `sw.js`: install, claim the pages at once, and answer each GET with
/// the strategy of the longest matching prefix (`network-first` when none
/// matches); or the message of the first rule with an unknown strategy.
pub open spec fn service_worker(cache: Seq<(Seq<char>, String)>) -> Result<Seq<char>, Seq<char>> {
    match first_invalid(cache) {
        Some((prefix, strategy)) => Err(invalid_rule_message(prefix, strategy)),
        None => Ok(
            SW_HEAD@ + join_lines(sort_by_len(rule_texts(cache)).map_values(
                |r: (Seq<char>, Seq<char>)| rule_line(r),
            )) + SW_TAIL@,
        ),
    }
}

proof fn lemma_insert_by_len_at(t: Seq<(Seq<char>, Seq<char>)>, x: (Seq<char>, Seq<char>), j: int)
    requires
        0 <= j <= t.len(),
        forall|k: int| j <= k < t.len() ==> byte_len(#[trigger] t[k].0) < byte_len(x.0),
        j == 0 || !(byte_len(t[j - 1].0) < byte_len(x.0)),
    ensures
        insert_by_len(t, x) == t.take(j).push(x) + t.skip(j),
    decreases t.len() - j,
{
    if j == t.len() {
        if t.len() == 0 {
            assert(t.take(j).push(x) + t.skip(j) =~= seq![x]);
        } else {
            assert(t.take(j).push(x) + t.skip(j) =~= t.push(x));
        }
    } else {
        let u = t.drop_last();
        assert(byte_len(t.last().0) < byte_len(x.0));
        assert forall|k: int| j <= k < u.len() implies byte_len(#[trigger] u[k].0) < byte_len(x.0) by {
            assert(u[k] == t[k]);
        }
        if j > 0 {
            assert(u[j - 1] == t[j - 1]);
        }
        lemma_insert_by_len_at(u, x, j);
        assert(u.take(j).push(x) + u.skip(j) + seq![t.last()] =~= t.take(j).push(x) + t.skip(j));
    }
}

/// A rule by its texts, with the byte length of its prefix.
pub struct Rule {
    pub prefix: String,
    pub strategy: String,
    pub prefix_bytes: usize,
}

pub open spec fn rule_views(v: Seq<Rule>) -> Seq<(Seq<char>, Seq<char>)> {
    v.map_values(|r: Rule| (r.prefix@, r.strategy@))
}

pub open spec fn rule_lengths_ok(v: Seq<Rule>) -> bool {
    forall|i: int| 0 <= i < v.len() ==> #[trigger] v[i].prefix_bytes == byte_len(v[i].prefix@)
}

fn insert_rule(v: &mut Vec<Rule>, x: Rule)
    requires
        rule_lengths_ok(old(v)@),
        x.prefix_bytes == byte_len(x.prefix@),
    ensures
        rule_lengths_ok(final(v)@),
        rule_views(final(v)@) == insert_by_len(rule_views(old(v)@), (x.prefix@, x.strategy@)),
{
    let ghost t = rule_views(v@);
    let mut j = v.len();
    while j > 0 && v[j - 1].prefix_bytes < x.prefix_bytes
        invariant
            j <= v@.len(),
            v@ == old(v)@,
            rule_lengths_ok(v@),
            x.prefix_bytes == byte_len(x.prefix@),
            t == rule_views(v@),
            forall|k: int|
                j <= k < v@.len() ==> byte_len(#[trigger] t[k].0) < byte_len(x.prefix@),
        decreases j,
    {
        assert(t[j - 1].0 == v@[j - 1].prefix@);
        assert(v@[j - 1].prefix_bytes == byte_len(v@[j - 1].prefix@));
        j = j - 1;
    }
    proof {
        if j > 0 {
            assert(t[j - 1].0 == v@[j - 1].prefix@);
            assert(v@[j - 1].prefix_bytes == byte_len(v@[j - 1].prefix@));
        }
        lemma_insert_by_len_at(t, (x.prefix@, x.strategy@), j as int);
    }
    let ghost xv = (x.prefix@, x.strategy@);
    v.insert(j, x);
    assert(rule_views(v@) =~= t.take(j as int).push(xv) + t.skip(j as int));
}

/// The rules of `cache` sorted by prefix length, longest first.
fn sorted_rules(cache: &StrMap<String>) -> (r: Vec<Rule>)
    ensures
        rule_views(r@) == sort_by_len(rule_texts(cache.pairs())),
{
    let n = cache.len();
    let mut sorted: Vec<Rule> = Vec::new();
    let mut i: usize = 0;
    let ghost all = rule_texts(cache.pairs());
    assert(all.take(0) =~= Seq::<(Seq<char>, Seq<char>)>::empty());
    while i < n
        invariant
            n == cache.pairs().len(),
            all == rule_texts(cache.pairs()),
            i <= n,
            rule_lengths_ok(sorted@),
            rule_views(sorted@) == sort_by_len(all.take(i as int)),
        decreases n - i,
    {
        let k = cache.key_at(i);
        let v = cache.value_at(i);
        let prefix = owned(k.as_str());
        let bytes = prefix.as_str().as_bytes().len();
        proof {
            assert(all.take(i + 1).drop_last() =~= all.take(i as int));
            assert(all[i as int] == (k@, v@));
        }
        insert_rule(&mut sorted, Rule { prefix, strategy: owned(v.as_str()), prefix_bytes: bytes });
        i = i + 1;
    }
    assert(all.take(i as int) =~= all);
    sorted
}

fn is_valid_strategy(s: &str) -> (b: bool)
    ensures
        b == valid_strategy(s@),
{
    str_eq(s, "cache-first") || str_eq(s, "network-first") || str_eq(s, "stale-while-revalidate")
}

/// `sw.js`, or the message of the first `[pwa.cache]` rule with an
/// unknown strategy.
pub fn render_service_worker(cache: &StrMap<String>) -> (r: Result<String, String>)
    ensures
        match r {
            Ok(s) => service_worker(cache.pairs()) == Ok::<Seq<char>, Seq<char>>(s@),
            Err(e) => service_worker(cache.pairs()) == Err::<Seq<char>, Seq<char>>(e@),
        },
{
    let n = cache.len();
    let mut i: usize = 0;
    while i < n
        invariant
            n == cache.pairs().len(),
            i <= n,
            first_invalid(cache.pairs().take(i as int)) is None,
        decreases n - i,
    {
        let k = cache.key_at(i);
        let v = cache.value_at(i);
        proof {
            assert(cache.pairs().take(i + 1).drop_last() =~= cache.pairs().take(i as int));
            assert(cache.pairs()[i as int] == (k@, *v));
        }
        if !is_valid_strategy(v.as_str()) {
            proof {
                lemma_first_invalid_prefix(cache.pairs(), i + 1);
            }
            let mut msg = owned("[pwa.cache] \"");
            msg.append(k.as_str());
            msg.append("\" = \"");
            msg.append(v.as_str());
            msg.append("\" no es una estrategia válida — usa una de: cache-first, network-first, stale-while-revalidate");
            return Err(msg);
        }
        i = i + 1;
    }
    assert(cache.pairs().take(i as int) =~= cache.pairs());
    let rules = sorted_rules(cache);
    let mut lines: Vec<String> = Vec::new();
    let mut j: usize = 0;
    while j < rules.len()
        invariant
            j <= rules@.len(),
            lines@.map_values(|x: String| x@) == rule_views(rules@).take(j as int).map_values(
                |r: (Seq<char>, Seq<char>)| rule_line(r),
            ),
        decreases rules@.len() - j,
    {
        let ghost before = lines@.map_values(|x: String| x@);
        let mut line = owned("  [");
        line.append(json_quote(rules[j].prefix.as_str()).as_str());
        line.append(", ");
        line.append(json_quote(rules[j].strategy.as_str()).as_str());
        line.append("],");
        lines.push(line);
        proof {
            let rv = rule_views(rules@);
            assert(rv[j as int] == (rules@[j as int].prefix@, rules@[j as int].strategy@));
            assert(rv.take(j + 1) =~= rv.take(j as int).push(rv[j as int]));
            assert(lines@.map_values(|x: String| x@) =~= before.push(rule_line(rv[j as int])));
        }
        j = j + 1;
    }
    assert(rule_views(rules@).take(j as int) =~= rule_views(rules@));
    let mut out = owned(SW_HEAD);
    let mut joined = String::new();
    crate::json::push_joined(&mut joined, &lines, "\n", "");
    out.append(joined.as_str());
    out.append(SW_TAIL);
    Ok(out)
}

proof fn lemma_first_invalid_prefix(s: Seq<(Seq<char>, String)>, k: int)
    requires
        0 <= k <= s.len(),
        first_invalid(s.take(k)) is Some,
    ensures
        first_invalid(s) == first_invalid(s.take(k)),
    decreases s.len(),
{
    if k < s.len() {
        assert(s.drop_last().take(k) =~= s.take(k));
        lemma_first_invalid_prefix(s.drop_last(), k);
    } else {
        assert(s.take(k) =~= s);
    }
}

pub const MANIFEST_LINK: &'static str = "<link rel=\"manifest\" href=\"/manifest.webmanifest\">";

/// The `<head>` fragment of every page of a PWA: the manifest link, and
/// the theme color when declared.
pub open spec fn pwa_head(pwa: PwaSection) -> Seq<char> {
    join_lines(
        seq![MANIFEST_LINK@] + match pwa.theme_color {
            Some(c) => seq!["<meta name=\"theme-color\" content=\""@ + c@ + "\">"@],
            None => Seq::empty(),
        },
    )
}

/// The `<head>` fragment of every page of a PWA.
pub fn head_fragment(pwa: &PwaSection) -> (r: String)
    ensures
        r@ == pwa_head(*pwa),
{
    let mut lines: Vec<String> = Vec::new();
    lines.push(owned(MANIFEST_LINK));
    match &pwa.theme_color {
        Some(c) => {
            let mut line = owned("<meta name=\"theme-color\" content=\"");
            line.append(c.as_str());
            line.append("\">");
            lines.push(line);
        },
        None => {},
    }
    assert(lines@.map_values(|x: String| x@) =~= seq![MANIFEST_LINK@] + match pwa.theme_color {
        Some(c) => seq!["<meta name=\"theme-color\" content=\""@ + c@ + "\">"@],
        None => Seq::empty(),
    });
    let mut r = String::new();
    crate::json::push_joined(&mut r, &lines, "\n", "");
    r
}

} // verus!

verus! {

/// Rules ordered by prefix length, longest first.
pub open spec fn longest_first(s: Seq<(Seq<char>, Seq<char>)>) -> bool {
    forall|i: int, j: int|
        0 <= i < j < s.len() ==> byte_len(#[trigger] s[i].0) >= byte_len(#[trigger] s[j].0)
}

proof fn lemma_insert_by_len_members(
    t: Seq<(Seq<char>, Seq<char>)>,
    x: (Seq<char>, Seq<char>),
    y: (Seq<char>, Seq<char>),
)
    ensures
        insert_by_len(t, x).contains(y) <==> (t.contains(y) || y == x),
        insert_by_len(t, x).len() == t.len() + 1,
    decreases t.len(),
{
    if t.len() == 0 {
        assert(insert_by_len(t, x) =~= seq![x]);
        if y == x {
            assert(insert_by_len(t, x)[0] == y);
        }
    } else if byte_len(t.last().0) < byte_len(x.0) {
        lemma_insert_by_len_members(t.drop_last(), x, y);
        vstd::seq_lib::lemma_seq_contains_after_push(insert_by_len(t.drop_last(), x), t.last(), y);
        vstd::seq_lib::lemma_seq_contains_after_push(t.drop_last(), t.last(), y);
        assert(t.drop_last().push(t.last()) =~= t);
    } else {
        vstd::seq_lib::lemma_seq_contains_after_push(t, x, y);
    }
}

proof fn lemma_insert_by_len_sorted(t: Seq<(Seq<char>, Seq<char>)>, x: (Seq<char>, Seq<char>))
    requires
        longest_first(t),
    ensures
        longest_first(insert_by_len(t, x)),
    decreases t.len(),
{
    if t.len() == 0 {
        assert(insert_by_len(t, x) =~= seq![x]);
    } else if byte_len(t.last().0) < byte_len(x.0) {
        let u = t.drop_last();
        lemma_insert_by_len_sorted(u, x);
        let inner = insert_by_len(u, x);
        let r = inner.push(t.last());
        lemma_insert_by_len_members(u, x, x);
        assert forall|k: int| 0 <= k < inner.len() implies byte_len(#[trigger] inner[k].0)
            >= byte_len(t.last().0) by {
            lemma_insert_by_len_members(u, x, inner[k]);
            assert(inner.contains(inner[k]));
            if inner[k] != x {
                let m = choose|m: int| 0 <= m < u.len() && u[m] == inner[k];
                assert(t[m] == u[m]);
                assert(byte_len(t[m].0) >= byte_len(t[t.len() - 1].0));
            }
        }
        assert forall|i: int, j: int| 0 <= i < j < r.len() implies byte_len(#[trigger] r[i].0)
            >= byte_len(#[trigger] r[j].0) by {
            if j == r.len() - 1 {
                assert(r[i] == inner[i]);
            } else {
                assert(r[i] == inner[i]);
                assert(r[j] == inner[j]);
            }
        }
    } else {
        let r = t.push(x);
        assert forall|i: int, j: int| 0 <= i < j < r.len() implies byte_len(#[trigger] r[i].0)
            >= byte_len(#[trigger] r[j].0) by {
            if j == r.len() - 1 {
                assert(r[i] == t[i]);
                if i < t.len() - 1 {
                    assert(byte_len(t[i].0) >= byte_len(t[t.len() - 1].0));
                }
            } else {
                assert(r[i] == t[i]);
                assert(r[j] == t[j]);
            }
        }
    }
}

/// The service worker tries the rules longest prefix first, so the most
/// specific rule for a path always wins; the sort neither drops nor adds
/// a rule.
pub proof fn law_longest_prefix_first(s: Seq<(Seq<char>, Seq<char>)>)
    ensures
        longest_first(sort_by_len(s)),
        sort_by_len(s).len() == s.len(),
        forall|y: (Seq<char>, Seq<char>)| #[trigger] sort_by_len(s).contains(y) <==> s.contains(y),
    decreases s.len(),
{
    if s.len() > 0 {
        law_longest_prefix_first(s.drop_last());
        lemma_insert_by_len_sorted(sort_by_len(s.drop_last()), s.last());
        lemma_insert_by_len_members(sort_by_len(s.drop_last()), s.last(), s.last());
        assert forall|y: (Seq<char>, Seq<char>)| #[trigger] sort_by_len(s).contains(y) <==> s.contains(
            y,
        ) by {
            lemma_insert_by_len_members(sort_by_len(s.drop_last()), s.last(), y);
            vstd::seq_lib::lemma_seq_contains_after_push(s.drop_last(), s.last(), y);
            assert(s.drop_last().push(s.last()) =~= s);
        }
    } else {
        assert(sort_by_len(s) =~= Seq::<(Seq<char>, Seq<char>)>::empty());
    }
}

/// The manifest holds the display mode the project declared, as is, and
/// `standalone` only when it declared none; it also holds the app's name.
pub proof fn law_manifest_keeps_the_declared_display(pwa: PwaSection)
    ensures
        pwa.display matches Some(d) ==> contains_seq(
            web_manifest(pwa),
            pretty_member("display"@, json_string_literal(d@)),
        ),
        pwa.display is None ==> contains_seq(
            web_manifest(pwa),
            pretty_member("display"@, json_string_literal("standalone"@)),
        ),
        contains_seq(web_manifest(pwa), pretty_member("name"@, json_string_literal(pwa.name@))),
        pwa.short_name matches Some(sn) ==> contains_seq(
            web_manifest(pwa),
            pretty_member("short_name"@, json_string_literal(sn@)),
        ),
        pwa.short_name is None ==> contains_seq(
            web_manifest(pwa),
            pretty_member(
                "short_name"@,
                json_string_literal(
                    if pwa.name@.len() <= 12 {
                        pwa.name@
                    } else {
                        pwa.name@.take(12)
                    },
                ),
            ),
        ),
        contains_seq(web_manifest(pwa), pretty_member("start_url"@, json_string_literal("/"@))),
        pwa.background_color matches Some(c) ==> contains_seq(
            web_manifest(pwa),
            pretty_member("background_color"@, json_string_literal(c@)),
        ),
        pwa.theme_color matches Some(c) ==> contains_seq(
            web_manifest(pwa),
            pretty_member("theme_color"@, json_string_literal(c@)),
        ),
{
    let ms = manifest_members(pwa);
    let k = member_if("background_color"@, opt_text(pwa.background_color)).len() as int;
    let icons: Seq<Seq<char>> = match pwa.icon {
        Some(icon) => seq![pretty_member("icons"@, icons_json(icon@))],
        None => Seq::empty(),
    };
    let d = json_string_literal(
        match pwa.display {
            Some(d) => d@,
            None => "standalone"@,
        },
    );
    assert(ms[k] == pretty_member("display"@, d));
    lemma_pretty_container_has('{', '}', ms, 0, k);
    let n = k + 1 + icons.len();
    assert(ms[n] == pretty_member("name"@, json_string_literal(pwa.name@)));
    lemma_pretty_container_has('{', '}', ms, 0, n);
    lemma_pretty_container_has('{', '}', ms, 0, n + 1);
    lemma_pretty_container_has('{', '}', ms, 0, n + 2);
    if pwa.background_color is Some {
        lemma_pretty_container_has('{', '}', ms, 0, 0);
    }
    if pwa.theme_color is Some {
        assert(ms[n + 3] == pretty_member("theme_color"@, json_string_literal(pwa.theme_color->0@)));
        lemma_pretty_container_has('{', '}', ms, 0, n + 3);
    }
}

} // verus!
