//! Route internationalisation: the locales a project has (one
//! `src/locales/<locale>.json` each), and the `hreflang` alternates of a
//! page: the same route with each locale in place of the current one, the
//! other parameters kept.
use vstd::prelude::*;

use crate::image_pipeline::path_file_stem_of;
use crate::serve::{path_extension, path_extension_of};
use crate::strmap::{
    lemma_seq_lt_irreflexive, lemma_seq_lt_total, lemma_seq_lt_transitive, seq_lt, StrMap,
};
use crate::text::{owned, str_eq};

verus! {

/// `x` inserted into `t` after every text not greater than it.
pub open spec fn insert_text(t: Seq<Seq<char>>, x: Seq<char>) -> Seq<Seq<char>>
    decreases t.len(),
{
    if t.len() == 0 {
        seq![x]
    } else if seq_lt(x, t.last()) {
        insert_text(t.drop_last(), x).push(t.last())
    } else {
        t.push(x)
    }
}

/// `s` sorted in increasing order (insertion sort).
pub open spec fn sort_texts(s: Seq<Seq<char>>) -> Seq<Seq<char>>
    decreases s.len(),
{
    if s.len() == 0 {
        Seq::empty()
    } else {
        insert_text(sort_texts(s.drop_last()), s.last())
    }
}

/// The locale a file path names: the stem of a `.json` file.
pub open spec fn locale_of_path(path: Seq<char>) -> Option<Seq<char>> {
    if path_extension_of(path) == Some("json"@) {
        crate::image_pipeline::path_file_stem_of(path)
    } else {
        None
    }
}

/// The locales named by some file paths, in path order.
pub open spec fn locales_in(paths: Seq<Seq<char>>) -> Seq<Seq<char>>
    decreases paths.len(),
{
    if paths.len() == 0 {
        Seq::empty()
    } else {
        let rest = locales_in(paths.drop_last());
        match locale_of_path(paths.last()) {
            Some(l) => rest.push(l),
            None => rest,
        }
    }
}

pub open spec fn texts(v: Seq<String>) -> Seq<Seq<char>> {
    v.map_values(|s: String| s@)
}

proof fn lemma_insert_text_at(t: Seq<Seq<char>>, x: Seq<char>, j: int)
    requires
        0 <= j <= t.len(),
        forall|k: int| j <= k < t.len() ==> seq_lt(x, #[trigger] t[k]),
        j == 0 || !seq_lt(x, t[j - 1]),
    ensures
        insert_text(t, x) == t.take(j).push(x) + t.skip(j),
    decreases t.len() - j,
{
    if j == t.len() {
        if t.len() == 0 {
            assert(t.take(j).push(x) + t.skip(j) =~= seq![x]);
        } else {
            assert(t.take(j).push(x) + t.skip(j) =~= t.push(x));
        }
    } else {
        let u = t.drop_last();
        assert(seq_lt(x, t.last()));
        assert forall|k: int| j <= k < u.len() implies seq_lt(x, #[trigger] u[k]) by {
            assert(u[k] == t[k]);
        }
        if j > 0 {
            assert(u[j - 1] == t[j - 1]);
        }
        lemma_insert_text_at(u, x, j);
        assert(u.take(j).push(x) + u.skip(j) + seq![t.last()] =~= t.take(j).push(x) + t.skip(j));
    }
}

fn text_lt(a: &String, b: &String) -> (r: bool)
    ensures
        r == seq_lt(a@, b@),
{
    let (lt, _eq) = crate::strmap::compare_text(a.as_str(), b.as_str());
    lt
}

fn insert_sorted_text(v: &mut Vec<String>, x: String)
    ensures
        texts(final(v)@) == insert_text(texts(old(v)@), x@),
{
    let ghost t = texts(v@);
    let mut j = v.len();
    while j > 0 && text_lt(&x, &v[j - 1])
        invariant
            j <= v@.len(),
            v@ == old(v)@,
            t == texts(v@),
            forall|k: int| j <= k < v@.len() ==> seq_lt(x@, #[trigger] t[k]),
        decreases j,
    {
        assert(t[j - 1] == v@[j - 1]@);
        j = j - 1;
    }
    proof {
        if j > 0 {
            assert(t[j - 1] == v@[j - 1]@);
        }
        lemma_insert_text_at(t, x@, j as int);
    }
    let ghost xv = x@;
    v.insert(j, x);
    assert(texts(v@) =~= t.take(j as int).push(xv) + t.skip(j as int));
}

/// The locales of a project, from the paths of the files of its locales
/// directory: the stem of every `.json` file, sorted.
pub fn available_locales(paths: &[String]) -> (r: Vec<String>)
    ensures
        texts(r@) == sort_texts(locales_in(texts(paths@))),
{
    let ghost ps = texts(paths@);
    let mut found: Vec<String> = Vec::new();
    let mut i: usize = 0;
    while i < paths.len()
        invariant
            i <= paths@.len(),
            ps == texts(paths@),
            texts(found@) == locales_in(ps.take(i as int)),
        decreases paths@.len() - i,
    {
        proof {
            assert(ps.take(i + 1).drop_last() =~= ps.take(i as int));
            assert(ps.take(i + 1).last() == paths@[i as int]@);
            reveal_strlit("json");
        }
        let p = paths[i].as_str();
        let is_json = match path_extension(p) {
            Some(e) => str_eq(e.as_str(), "json"),
            None => false,
        };
        if is_json {
            match crate::image_pipeline::path_file_stem(p) {
                Some(stem) => {
                    let ghost before = texts(found@);
                    found.push(stem);
                    assert(texts(found@) =~= before.push(found@.last()@));
                },
                None => {},
            }
        }
        i = i + 1;
    }
    assert(ps.take(i as int) =~= ps);
    let ghost all = texts(found@);
    let ghost target = found@;
    let mut sorted: Vec<String> = Vec::new();
    let mut rest = crate::ir::reversed(found);
    let ghost rev = rest@;
    let _ = rest.len();
    let mut k: usize = 0;
    assert(all.take(0) =~= Seq::<Seq<char>>::empty());
    while rest.len() > 0
        invariant
            rest@ == rev.take(rev.len() - k),
            rest@.len() == rev.len() - k,
            rev.len() <= usize::MAX,
            rev == target.reverse(),
            all == texts(target),
            k <= target.len(),
            texts(sorted@) == sort_texts(all.take(k as int)),
        decreases rest@.len(),
    {
        let x = rest.pop().unwrap();
        proof {
            assert(x == target[k as int]);
            assert(x@ == all[k as int]);
            assert(all.take(k + 1).drop_last() =~= all.take(k as int));
        }
        insert_sorted_text(&mut sorted, x);
        k = k + 1;
        assert(rest@ =~= rev.take(rev.len() - k));
    }
    assert(all.take(k as int) =~= all);
    sorted
}

/// A `<link rel="alternate" hreflang>` target.
#[derive(Debug, Clone, PartialEq)]
pub struct AlternateLink {
    pub hreflang: String,
    pub href: String,
}

/// The route parameters of the alternate in `locale`: the current ones,
/// with `locale` replaced.
pub fn locale_params(current: &StrMap<String>, locale: &str) -> (r: StrMap<String>)
    ensures
        crate::import_map::text_map(r@) == crate::import_map::text_map(current@).insert(
            "locale"@,
            locale@,
        ),
{
    let mut params = current.clone_map();
    params.insert(owned("locale"), owned(locale));
    assert(crate::import_map::text_map(params@) =~= crate::import_map::text_map(current@).insert(
        "locale"@,
        locale@,
    ));
    params
}

/// The alternates: for each locale whose URL could be resolved (the
/// route's pattern with that locale's parameters), the locale and that
/// URL, in locale order.
pub open spec fn alternates(locales: Seq<Seq<char>>, hrefs: Seq<Option<Seq<char>>>) -> Seq<
    (Seq<char>, Seq<char>),
>
    decreases locales.len(),
{
    if locales.len() == 0 || hrefs.len() == 0 {
        Seq::empty()
    } else {
        let rest = alternates(locales.drop_last(), hrefs.drop_last());
        match hrefs.last() {
            Some(h) => rest.push((locales.last(), h)),
            None => rest,
        }
    }
}

pub open spec fn opt_texts(v: Seq<Option<String>>) -> Seq<Option<Seq<char>>> {
    v.map_values(
        |o: Option<String>|
            match o {
                Some(s) => Some(s@),
                None => None,
            },
    )
}

pub open spec fn link_views(v: Seq<AlternateLink>) -> Seq<(Seq<char>, Seq<char>)> {
    v.map_values(|l: AlternateLink| (l.hreflang@, l.href@))
}

/// The alternate links of a page, given for each locale the URL its
/// parameters resolve to (none when the route cannot be resolved with
/// them, which skips that locale).
pub fn alternate_links(locales: &[String], hrefs: &[Option<String>]) -> (r: Vec<AlternateLink>)
    requires
        locales@.len() == hrefs@.len(),
    ensures
        link_views(r@) == alternates(texts(locales@), opt_texts(hrefs@)),
{
    let mut links: Vec<AlternateLink> = Vec::new();
    let mut i: usize = 0;
    let ghost ls = texts(locales@);
    let ghost hs = opt_texts(hrefs@);
    while i < locales.len()
        invariant
            locales@.len() == hrefs@.len(),
            i <= locales@.len(),
            ls == texts(locales@),
            hs == opt_texts(hrefs@),
            link_views(links@) == alternates(ls.take(i as int), hs.take(i as int)),
        decreases locales@.len() - i,
    {
        proof {
            assert(ls.take(i + 1).drop_last() =~= ls.take(i as int));
            assert(hs.take(i + 1).drop_last() =~= hs.take(i as int));
            assert(ls.take(i + 1).last() == locales@[i as int]@);
            assert(hs.take(i + 1).last() == hs[i as int]);
        }
        match &hrefs[i] {
            Some(h) => {
                let ghost before = link_views(links@);
                links.push(
                    AlternateLink { hreflang: owned(locales[i].as_str()), href: owned(h.as_str()) },
                );
                assert(link_views(links@) =~= before.push((locales@[i as int]@, h@)));
            },
            None => {},
        }
        i = i + 1;
    }
    assert(ls.take(i as int) =~= ls);
    assert(hs.take(i as int) =~= hs);
    links
}

} // verus!

verus! {

/// Texts in non-decreasing order.
pub open spec fn texts_sorted(s: Seq<Seq<char>>) -> bool {
    forall|i: int, j: int| 0 <= i < j < s.len() ==> !seq_lt(#[trigger] s[j], #[trigger] s[i])
}

proof fn lemma_insert_text_members(t: Seq<Seq<char>>, x: Seq<char>, y: Seq<char>)
    ensures
        insert_text(t, x).contains(y) <==> (t.contains(y) || y == x),
        insert_text(t, x).len() == t.len() + 1,
    decreases t.len(),
{
    if t.len() == 0 {
        assert(insert_text(t, x) =~= seq![x]);
        if y == x {
            assert(insert_text(t, x)[0] == y);
        }
    } else if seq_lt(x, t.last()) {
        lemma_insert_text_members(t.drop_last(), x, y);
        vstd::seq_lib::lemma_seq_contains_after_push(insert_text(t.drop_last(), x), t.last(), y);
        vstd::seq_lib::lemma_seq_contains_after_push(t.drop_last(), t.last(), y);
        assert(t.drop_last().push(t.last()) =~= t);
    } else {
        vstd::seq_lib::lemma_seq_contains_after_push(t, x, y);
    }
}

proof fn lemma_insert_text_sorted(t: Seq<Seq<char>>, x: Seq<char>)
    requires
        texts_sorted(t),
    ensures
        texts_sorted(insert_text(t, x)),
    decreases t.len(),
{
    if t.len() == 0 {
        assert(insert_text(t, x) =~= seq![x]);
    } else if seq_lt(x, t.last()) {
        let u = t.drop_last();
        let last = t.last();
        lemma_insert_text_sorted(u, x);
        let inner = insert_text(u, x);
        let r = inner.push(last);
        lemma_insert_text_members(u, x, x);
        assert forall|k: int| 0 <= k < inner.len() implies !seq_lt(last, #[trigger] inner[k]) by {
            lemma_insert_text_members(u, x, inner[k]);
            assert(inner.contains(inner[k]));
            if inner[k] == x {
                lemma_seq_lt_irreflexive(x);
                if seq_lt(last, x) {
                    lemma_seq_lt_transitive(x, last, x);
                }
            } else {
                let m = choose|m: int| 0 <= m < u.len() && u[m] == inner[k];
                assert(t[m] == u[m]);
                assert(!seq_lt(t[t.len() - 1], t[m]));
            }
        }
        assert forall|i: int, j: int| 0 <= i < j < r.len() implies !seq_lt(
            #[trigger] r[j],
            #[trigger] r[i],
        ) by {
            assert(r[i] == inner[i]);
            if j < r.len() - 1 {
                assert(r[j] == inner[j]);
            }
        }
    } else {
        let r = t.push(x);
        let last = t.last();
        assert forall|i: int, j: int| 0 <= i < j < r.len() implies !seq_lt(
            #[trigger] r[j],
            #[trigger] r[i],
        ) by {
            assert(r[i] == t[i]);
            if j == r.len() - 1 {
                if seq_lt(x, t[i]) {
                    lemma_seq_lt_total(t[i], last);
                    if t[i] != last && !seq_lt(last, t[i]) {
                        lemma_seq_lt_transitive(x, t[i], last);
                    }
                    if i < t.len() - 1 {
                        assert(!seq_lt(t[t.len() - 1], t[i]));
                    }
                }
            } else {
                assert(r[j] == t[j]);
            }
        }
    }
}

/// The locales of a project come sorted, and are exactly the stems of its
/// `.json` files.
pub proof fn law_locales_sorted(paths: Seq<Seq<char>>)
    ensures
        texts_sorted(sort_texts(locales_in(paths))),
        forall|l: Seq<char>| #[trigger]
            sort_texts(locales_in(paths)).contains(l) <==> locales_in(paths).contains(l),
{
    lemma_sort_texts(locales_in(paths));
}

proof fn lemma_sort_texts(s: Seq<Seq<char>>)
    ensures
        texts_sorted(sort_texts(s)),
        forall|l: Seq<char>| #[trigger] sort_texts(s).contains(l) <==> s.contains(l),
    decreases s.len(),
{
    if s.len() > 0 {
        lemma_sort_texts(s.drop_last());
        lemma_insert_text_sorted(sort_texts(s.drop_last()), s.last());
        assert forall|l: Seq<char>| #[trigger] sort_texts(s).contains(l) <==> s.contains(l) by {
            lemma_insert_text_members(sort_texts(s.drop_last()), s.last(), l);
            vstd::seq_lib::lemma_seq_contains_after_push(s.drop_last(), s.last(), l);
            assert(s.drop_last().push(s.last()) =~= s);
        }
    } else {
        assert(sort_texts(s) =~= Seq::<Seq<char>>::empty());
    }
}

} // verus!
