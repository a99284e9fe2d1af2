//! The import map a browser needs to resolve a bare identifier
//! (`import { stripe } from "stripe";`) to a real URL: the built-in
//! `platform`, plus what the project declares in `[imports]`; a page
//! declares only the names it really uses.
use vstd::prelude::*;

use crate::json::{
    compact_container, compact_container_of, compact_member, compact_member_of, json_quote,
    json_string_literal,
};
use crate::manifest::Manifest;
use crate::strmap::{canonical_pairs, lemma_canonical, map_of, seq_lt, sorted_keys, StrMap, StrSet};
use crate::text::{contains_seq, contains_str, owned};

verus! {

/// A map of texts by its characters.
pub open spec fn text_map(m: Map<Seq<char>, String>) -> Map<Seq<char>, Seq<char>> {
    m.map_values(|s: String| s@)
}

/// The built-in importable identifiers.
pub open spec fn builtin_imports() -> Map<Seq<char>, Seq<char>> {
    map!["platform"@ => "/assets/nexa-platform.js"@]
}

/// Nexa's built-in imports and the project's; a project that reuses a
/// built-in name wins.
pub fn resolved(project_manifest: &Manifest) -> (r: StrMap<String>)
    ensures
        text_map(r@) == builtin_imports().union_prefer_right(text_map(project_manifest.imports@)),
{
    let mut map: StrMap<String> = StrMap::new();
    map.insert(owned("platform"), owned("/assets/nexa-platform.js"));
    let ghost base = map@;
    map.extend_from(&project_manifest.imports);
    assert(text_map(base) =~= builtin_imports());
    assert(text_map(map@) =~= builtin_imports().union_prefer_right(
        text_map(project_manifest.imports@),
    ));
    map
}

/// Some handler source uses `name` followed by a dot.
pub open spec fn used_by_handlers(handlers: Map<Seq<char>, String>, name: Seq<char>) -> bool {
    exists|h: Seq<char>| handlers.contains_key(h) && contains_seq(handlers[h]@, name + "."@)
}

/// The names a page uses: those some handler uses with a dot, and those
/// an island declares as its specifier.
pub open spec fn page_uses(
    handlers: Map<Seq<char>, String>,
    island_specifiers: Set<Seq<char>>,
) -> Set<Seq<char>> {
    Set::new(|k: Seq<char>| used_by_handlers(handlers, k) || island_specifiers.contains(k))
}

pub fn handlers_use(handlers: &StrMap<String>, name: &str) -> (b: bool)
    ensures
        b == used_by_handlers(handlers@, name@),
{
    let mut needle = owned(name);
    needle.append(".");
    let n = handlers.len();
    let mut i: usize = 0;
    while i < n
        invariant
            n == handlers.pairs().len(),
            i <= n,
            needle@ == name@ + "."@,
            forall|j: int| 0 <= j < i ==> !contains_seq(handlers.pairs()[j].1@, needle@),
            forall|k: Seq<char>|
                #![trigger handlers@.contains_key(k)]
                handlers@.contains_key(k) <==> exists|j: int|
                    crate::strmap::has_key_at(handlers.pairs(), k, j),
            forall|j: int|
                0 <= j < handlers.pairs().len() ==> #[trigger] handlers@[handlers.pairs()[j].0]
                    == handlers.pairs()[j].1,
        decreases n - i,
    {
        let v = handlers.value_at(i);
        if contains_str(v.as_str(), needle.as_str()) {
            assert(handlers@.contains_key(handlers.pairs()[i as int].0)) by {
                assert(crate::strmap::has_key_at(handlers.pairs(), handlers.pairs()[i as int].0, i as int));
            }
            return true;
        }
        i = i + 1;
    }
    assert forall|h: Seq<char>| handlers@.contains_key(h) implies !contains_seq(
        handlers@[h]@,
        name@ + "."@,
    ) by {
        let j = choose|j: int| crate::strmap::has_key_at(handlers.pairs(), h, j);
        assert(handlers@[handlers.pairs()[j].0] == handlers.pairs()[j].1);
    }
    false
}

/// The resolved imports that this page really uses.
pub fn used_by_page(
    resolved: &StrMap<String>,
    handlers: &StrMap<String>,
    island_specifiers: &StrSet,
) -> (r: StrMap<String>)
    ensures
        r@ == resolved@.restrict(page_uses(handlers@, island_specifiers@)),
        text_map(r@) == text_map(resolved@).restrict(page_uses(handlers@, island_specifiers@)),
{
    let n = resolved.len();
    let mut r: StrMap<String> = StrMap::new();
    let mut i: usize = 0;
    let ghost uses = page_uses(handlers@, island_specifiers@);
    while i < n
        invariant
            n == resolved.pairs().len(),
            i <= n,
            uses == page_uses(handlers@, island_specifiers@),
            r@ == map_of(resolved.pairs().take(i as int)).restrict(uses),
        decreases n - i,
    {
        let k = resolved.key_at(i);
        let v = resolved.value_at(i);
        let used = handlers_use(handlers, k.as_str()) || island_specifiers.contains(k.as_str());
        let ghost before = r@;
        proof {
            let t = resolved.pairs().take(i + 1);
            assert(t.drop_last() =~= resolved.pairs().take(i as int));
            assert(t.last() == (k@, *v));
            assert(used == uses.contains(k@));
        }
        if used {
            r.insert(owned(k.as_str()), v.clone());
        }
        assert(r@ =~= map_of(resolved.pairs().take(i + 1)).restrict(uses));
        i = i + 1;
    }
    assert(resolved.pairs().take(i as int) =~= resolved.pairs());
    assert(text_map(r@) =~= text_map(resolved@).restrict(uses));
    r
}

/// The compact JSON `{"imports":{...}}` of the used imports, in key order.
pub open spec fn import_map_json(pairs: Seq<(Seq<char>, Seq<char>)>) -> Seq<char> {
    compact_container(
        '{',
        '}',
        seq![
            compact_member(
                "imports"@,
                compact_container(
                    '{',
                    '}',
                    pairs.map_values(
                        |p: (Seq<char>, Seq<char>)| compact_member(p.0, json_string_literal(p.1)),
                    ),
                ),
            ),
        ],
    )
}

/// The import map script of the imports a page uses (name to specifier),
/// or none when it uses none.
pub open spec fn import_map_script(used: Map<Seq<char>, Seq<char>>) -> Option<Seq<char>> {
    if used.dom().len() == 0 {
        None
    } else {
        Some(
            "<script type=\"importmap\">"@ + import_map_json(canonical_pairs(used))
                + "</script>"@,
        )
    }
}

/// The entries of a map of texts by their characters: still sorted, and
/// the canonical entries of the text map.
proof fn lemma_text_pairs(m: &StrMap<String>)
    requires
        sorted_keys(m.pairs()),
        map_of(m.pairs()) == m@,
    ensures
        canonical_pairs(text_map(m@)) == m.pairs().map_values(
            |p: (Seq<char>, String)| (p.0, p.1@),
        ),
{
    let t = m.pairs().map_values(|p: (Seq<char>, String)| (p.0, p.1@));
    assert(sorted_keys(t)) by {
        assert forall|i: int, j: int| 0 <= i < j < t.len() implies seq_lt(
            #[trigger] t[i].0,
            #[trigger] t[j].0,
        ) by {
            assert(t[i].0 == m.pairs()[i].0);
            assert(t[j].0 == m.pairs()[j].0);
        }
    }
    lemma_map_of_text(m.pairs());
    lemma_canonical(t);
}

proof fn lemma_map_of_text(s: Seq<(Seq<char>, String)>)
    ensures
        map_of(s.map_values(|p: (Seq<char>, String)| (p.0, p.1@))) == text_map(map_of(s)),
    decreases s.len(),
{
    let t = s.map_values(|p: (Seq<char>, String)| (p.0, p.1@));
    if s.len() == 0 {
        assert(text_map(map_of(s)) =~= Map::<Seq<char>, Seq<char>>::empty());
    } else {
        lemma_map_of_text(s.drop_last());
        assert(t.drop_last() =~= s.drop_last().map_values(|p: (Seq<char>, String)| (p.0, p.1@)));
        assert(text_map(map_of(s)) =~= text_map(map_of(s.drop_last())).insert(
            s.last().0,
            s.last().1@,
        ));
    }
}

/// `<script type="importmap">...</script>`, or nothing when the page uses
/// no import. It must come before any module script of the document.
pub fn script_tag(used: &StrMap<String>) -> (r: Option<String>)
    ensures
        match r {
            Some(s) => import_map_script(text_map(used@)) == Some(s@),
            None => import_map_script(text_map(used@)) is None,
        },
{
    let n = used.len();
    assert(text_map(used@).dom() =~= used@.dom());
    if n == 0 {
        return None;
    }
    proof {
        lemma_text_pairs(used);
    }
    let ghost tp = used.pairs().map_values(|p: (Seq<char>, String)| (p.0, p.1@));
    let mut members: Vec<String> = Vec::new();
    let mut i: usize = 0;
    while i < n
        invariant
            n == used.pairs().len(),
            i <= n,
            tp == used.pairs().map_values(|p: (Seq<char>, String)| (p.0, p.1@)),
            members@.map_values(|x: String| x@) == tp.take(i as int).map_values(
                |p: (Seq<char>, Seq<char>)| compact_member(p.0, json_string_literal(p.1)),
            ),
        decreases n - i,
    {
        let k = used.key_at(i);
        let v = used.value_at(i);
        let ghost before = members@.map_values(|x: String| x@);
        let q = json_quote(v.as_str());
        members.push(compact_member_of(k.as_str(), q.as_str()));
        proof {
            assert(tp[i as int] == (k@, v@));
            assert(members@.map_values(|x: String| x@) =~= before.push(
                compact_member(k@, json_string_literal(v@)),
            ));
            assert(tp.take(i + 1) =~= tp.take(i as int).push((k@, v@)));
            assert(members@.map_values(|x: String| x@) =~= tp.take(i + 1).map_values(
                |p: (Seq<char>, Seq<char>)| compact_member(p.0, json_string_literal(p.1)),
            ));
        }
        i = i + 1;
    }
    assert(tp.take(i as int) =~= tp);
    let inner = compact_container_of('{', '}', &members);
    let mut outer_items: Vec<String> = Vec::new();
    outer_items.push(compact_member_of("imports", inner.as_str()));
    assert(outer_items@.map_values(|x: String| x@) =~= seq![
        compact_member("imports"@, inner@),
    ]);
    let body = compact_container_of('{', '}', &outer_items);
    let mut tag = owned("<script type=\"importmap\">");
    tag.append(body.as_str());
    tag.append("</script>");
    Some(tag)
}

} // verus!

verus! {

/// `platform` can always be imported, whatever the project declares: a
/// project may point it elsewhere, but never lose it.
pub proof fn law_platform_always_resolvable(project_imports: Map<Seq<char>, String>)
    ensures
        builtin_imports().union_prefer_right(text_map(project_imports)).contains_key(
            "platform"@,
        ),
{
}

} // verus!
