//! `nexa.lock`: which version, and which content, each module had when
//! `nexa add` last ran. A package is recorded once per name, and the list
//! is kept in name order.
use vstd::prelude::*;

use crate::strmap::{compare_text, lemma_seq_lt_asymmetric, lemma_seq_lt_irreflexive, lemma_seq_lt_total, lemma_seq_lt_transitive, seq_lt};
use crate::text::str_eq;

verus! {

/// One locked module.
#[derive(Debug, Clone, PartialEq, Eq)]
pub struct LockedPackage {
    pub name: String,
    pub version: String,
    pub stability: String,
    /// Where it came from (today always `builtin`: embedded in the tool).
    pub source: String,
    pub content_hash: String,
}

/// The lockfile: its format version and the locked packages.
pub struct Lockfile {
    pub version: u32,
    pub packages: Vec<LockedPackage>,
}

/// The current format version of `nexa.lock`.
pub fn lockfile_format_version() -> (v: u32)
    ensures
        v == 1,
{
    1
}

impl Default for Lockfile {
    fn default() -> (l: Self)
        ensures
            l.version == 1,
            l.packages@.len() == 0,
    {
        Lockfile { version: lockfile_format_version(), packages: Vec::new() }
    }
}

/// `x` inserted into `t` after every element whose name is not greater
/// than its own (into a name-sorted `t`, that keeps it sorted, and equal
/// names in their original order).
pub open spec fn insert_by_name(t: Seq<LockedPackage>, x: LockedPackage) -> Seq<LockedPackage>
    decreases t.len(),
{
    if t.len() == 0 {
        seq![x]
    } else if seq_lt(x.name@, t.last().name@) {
        insert_by_name(t.drop_last(), x).push(t.last())
    } else {
        t.push(x)
    }
}

/// The stable sort of `s` by name (insertion sort).
pub open spec fn sort_by_name(s: Seq<LockedPackage>) -> Seq<LockedPackage>
    decreases s.len(),
{
    if s.len() == 0 {
        Seq::empty()
    } else {
        insert_by_name(sort_by_name(s.drop_last()), s.last())
    }
}

/// The position of the first package named `name`.
pub open spec fn first_named(s: Seq<LockedPackage>, name: Seq<char>) -> Option<int> {
    if exists|i: int| 0 <= i < s.len() && s[i].name@ == name {
        Some(
            choose|i: int|
                0 <= i < s.len() && s[i].name@ == name && forall|j: int|
                    0 <= j < i ==> s[j].name@ != name,
        )
    } else {
        None
    }
}

/// The packages after recording `p`: it replaces the first package of the
/// same name, or is added; then the list is sorted by name.
pub open spec fn upserted(s: Seq<LockedPackage>, p: LockedPackage) -> Seq<LockedPackage> {
    sort_by_name(
        match first_named(s, p.name@) {
            Some(i) => s.update(i, p),
            None => s.push(p),
        },
    )
}

/// Names in non-decreasing order.
pub open spec fn names_sorted(s: Seq<LockedPackage>) -> bool {
    forall|i: int, j: int| 0 <= i < j < s.len() ==> !seq_lt(#[trigger] s[j].name@, #[trigger] s[i].name@)
}

proof fn lemma_insert_at(t: Seq<LockedPackage>, x: LockedPackage, j: int)
    requires
        0 <= j <= t.len(),
        forall|k: int| j <= k < t.len() ==> seq_lt(x.name@, #[trigger] t[k].name@),
        j == 0 || !seq_lt(x.name@, t[j - 1].name@),
    ensures
        insert_by_name(t, x) == t.take(j).push(x) + t.skip(j),
    decreases t.len() - j,
{
    if j == t.len() {
        if t.len() == 0 {
            assert(t.take(j).push(x) + t.skip(j) =~= seq![x]);
        } else {
            assert(t.take(j).push(x) + t.skip(j) =~= t.push(x));
        }
    } else {
        let u = t.drop_last();
        assert(seq_lt(x.name@, t.last().name@));
        assert forall|k: int| j <= k < u.len() implies seq_lt(x.name@, #[trigger] u[k].name@) by {
            assert(u[k] == t[k]);
        }
        if j > 0 {
            assert(u[j - 1] == t[j - 1]);
        }
        lemma_insert_at(u, x, j);
        assert(u.take(j).push(x) + u.skip(j) + seq![t.last()] =~= t.take(j).push(x) + t.skip(j));
    }
}

fn name_lt(a: &LockedPackage, b: &LockedPackage) -> (r: bool)
    ensures
        r == seq_lt(a.name@, b.name@),
{
    let (lt, _eq) = compare_text(a.name.as_str(), b.name.as_str());
    lt
}

/// Inserts `x` into the name-sorted `v`, after every package whose name is
/// not greater.
fn insert_sorted(v: &mut Vec<LockedPackage>, x: LockedPackage)
    ensures
        final(v)@ == insert_by_name(old(v)@, x),
{
    let mut j = v.len();
    while j > 0 && name_lt(&x, &v[j - 1])
        invariant
            j <= v@.len(),
            v@ == old(v)@,
            forall|k: int| j <= k < v@.len() ==> seq_lt(x.name@, #[trigger] v@[k].name@),
        decreases j,
    {
        j = j - 1;
    }
    proof {
        lemma_insert_at(v@, x, j as int);
    }
    let ghost t = v@;
    v.insert(j, x);
    assert(v@ =~= t.take(j as int).push(x) + t.skip(j as int));
}

/// The stable sort of `items` by name.
fn sorted_by_name(items: Vec<LockedPackage>) -> (r: Vec<LockedPackage>)
    ensures
        r@ == sort_by_name(items@),
{
    let ghost target = items@;
    let mut sorted: Vec<LockedPackage> = Vec::new();
    let mut rest = crate::ir::reversed(items);
    let ghost rev = rest@;
    let _ = rest.len();
    let mut k: usize = 0;
    assert(target.take(0) =~= Seq::<LockedPackage>::empty());
    while rest.len() > 0
        invariant
            rest@ == rev.take(rev.len() - k),
            rest@.len() == rev.len() - k,
            rev.len() <= usize::MAX,
            rev == target.reverse(),
            k <= target.len(),
            sorted@ == sort_by_name(target.take(k as int)),
        decreases rest@.len(),
    {
        let x = rest.pop().unwrap();
        proof {
            assert(x == target[k as int]);
            assert(target.take(k + 1).drop_last() =~= target.take(k as int));
        }
        insert_sorted(&mut sorted, x);
        k = k + 1;
        assert(rest@ =~= rev.take(rev.len() - k));
    }
    assert(target.take(k as int) =~= target);
    sorted
}

/// The position of the first package named `name`, or the length.
fn position_of(v: &Vec<LockedPackage>, name: &str) -> (i: usize)
    ensures
        i <= v@.len(),
        first_named(v@, name@) == (if i < v@.len() {
            Some(i as int)
        } else {
            None
        }),
{
    let n = v.len();
    let mut i: usize = 0;
    while i < n && !str_eq(v[i].name.as_str(), name)
        invariant
            n == v@.len(),
            i <= n,
            forall|j: int| 0 <= j < i ==> v@[j].name@ != name@,
        decreases n - i,
    {
        i = i + 1;
    }
    proof {
        let s = v@;
        if i < n {
            assert(s[i as int].name@ == name@);
            assert(exists|k: int| 0 <= k < s.len() && s[k].name@ == name@);
            let c = first_named(s, name@)->Some_0;
            assert(c == i) by {
                if c < i {
                    assert(s[c].name@ != name@);
                }
                if c > i {
                    assert(s[i as int].name@ == name@);
                }
            }
        }
    }
    i
}

impl Lockfile {
    /// Records `package`: it replaces the first package of the same name,
    /// or is added, and the packages are then sorted by name (stable).
    pub fn upsert(&mut self, package: LockedPackage)
        ensures
            final(self).version == old(self).version,
            final(self).packages@ == upserted(old(self).packages@, package),
    {
        let i = position_of(&self.packages, package.name.as_str());
        let mut items: Vec<LockedPackage> = Vec::new();
        std::mem::swap(&mut items, &mut self.packages);
        if i < items.len() {
            items.set(i, package);
        } else {
            items.push(package);
        }
        self.packages = sorted_by_name(items);
    }
}

/// Inserting into a sorted sequence keeps it sorted.
proof fn lemma_insert_keeps_sorted(t: Seq<LockedPackage>, x: LockedPackage)
    requires
        names_sorted(t),
    ensures
        names_sorted(insert_by_name(t, x)),
        insert_by_name(t, x).len() == t.len() + 1,
    decreases t.len(),
{
    if t.len() > 0 {
        let u = t.drop_last();
        if seq_lt(x.name@, t.last().name@) {
            assert(names_sorted(u));
            lemma_insert_keeps_sorted(u, x);
            let w = insert_by_name(u, x);
            lemma_insert_members(u, x);
            let r = w.push(t.last());
            assert forall|i: int, j: int| 0 <= i < j < r.len() implies !seq_lt(
                #[trigger] r[j].name@,
                #[trigger] r[i].name@,
            ) by {
                if j == r.len() - 1 {
                    // r[i] is either x or an element of u.
                    if w[i] == x {
                        lemma_seq_lt_asymmetric(x.name@, t.last().name@);
                    } else {
                        let k = choose|k: int| 0 <= k < u.len() && u[k] == w[i];
                        assert(!seq_lt(t[t.len() - 1].name@, t[k].name@));
                    }
                }
            }
        } else {
            let r = t.push(x);
            assert forall|i: int, j: int| 0 <= i < j < r.len() implies !seq_lt(
                #[trigger] r[j].name@,
                #[trigger] r[i].name@,
            ) by {
                if j == r.len() - 1 && i < t.len() - 1 {
                    assert(!seq_lt(t[t.len() - 1].name@, t[i].name@));
                    if seq_lt(x.name@, t[i].name@) {
                        lemma_seq_lt_total(t[t.len() - 1].name@, t[i].name@);
                        if t[t.len() - 1].name@ == t[i].name@ {
                        } else {
                            lemma_seq_lt_transitive(x.name@, t[i].name@, t[t.len() - 1].name@);
                        }
                    }
                }
            }
        }
    }
}

/// The elements of an insertion: `x` and those of `t`.
proof fn lemma_insert_members(t: Seq<LockedPackage>, x: LockedPackage)
    ensures
        forall|i: int|
            0 <= i < insert_by_name(t, x).len() ==> #[trigger] insert_by_name(t, x)[i] == x || exists|
                k: int,
            | 0 <= k < t.len() && t[k] == insert_by_name(t, x)[i],
        insert_by_name(t, x).len() == t.len() + 1,
    decreases t.len(),
{
    if t.len() > 0 {
        let u = t.drop_last();
        lemma_insert_members(u, x);
        if seq_lt(x.name@, t.last().name@) {
            let w = insert_by_name(u, x);
            assert forall|i: int| 0 <= i < w.push(t.last()).len() implies #[trigger] w.push(
                t.last(),
            )[i] == x || exists|k: int| 0 <= k < t.len() && t[k] == w.push(t.last())[i] by {
                if i == w.len() {
                    assert(t[t.len() - 1] == w.push(t.last())[i]);
                } else if w[i] != x {
                    let k = choose|k: int| 0 <= k < u.len() && u[k] == w[i];
                    assert(t[k] == w.push(t.last())[i]);
                }
            }
        } else {
            assert forall|i: int| 0 <= i < t.push(x).len() implies #[trigger] t.push(x)[i] == x
                || exists|k: int| 0 <= k < t.len() && t[k] == t.push(x)[i] by {
                if i < t.len() {
                    assert(t[i] == t.push(x)[i]);
                }
            }
        }
    }
}

/// After a sort by name, the names are in order.
pub proof fn lemma_sort_by_name_sorted(s: Seq<LockedPackage>)
    ensures
        names_sorted(sort_by_name(s)),
        sort_by_name(s).len() == s.len(),
    decreases s.len(),
{
    if s.len() > 0 {
        lemma_sort_by_name_sorted(s.drop_last());
        lemma_insert_keeps_sorted(sort_by_name(s.drop_last()), s.last());
    }
}

} // verus!

verus! {

proof fn lemma_insert_by_name_contains(t: Seq<LockedPackage>, x: LockedPackage, y: LockedPackage)
    ensures
        insert_by_name(t, x).contains(y) <==> (t.contains(y) || y == x),
    decreases t.len(),
{
    if t.len() == 0 {
        assert(insert_by_name(t, x) =~= seq![x]);
        if insert_by_name(t, x).contains(y) {
            let k = choose|k: int| 0 <= k < 1 && insert_by_name(t, x)[k] == y;
        }
        if y == x {
            assert(insert_by_name(t, x)[0] == y);
        }
    } else if seq_lt(x.name@, t.last().name@) {
        lemma_insert_by_name_contains(t.drop_last(), x, y);
        vstd::seq_lib::lemma_seq_contains_after_push(insert_by_name(t.drop_last(), x), t.last(), y);
        vstd::seq_lib::lemma_seq_contains_after_push(t.drop_last(), t.last(), y);
        assert(t.drop_last().push(t.last()) =~= t);
    } else {
        vstd::seq_lib::lemma_seq_contains_after_push(t, x, y);
    }
}

proof fn lemma_sort_by_name_contains(s: Seq<LockedPackage>, y: LockedPackage)
    ensures
        sort_by_name(s).contains(y) <==> s.contains(y),
    decreases s.len(),
{
    if s.len() > 0 {
        lemma_sort_by_name_contains(s.drop_last(), y);
        lemma_insert_by_name_contains(sort_by_name(s.drop_last()), s.last(), y);
        vstd::seq_lib::lemma_seq_contains_after_push(s.drop_last(), s.last(), y);
        assert(s.drop_last().push(s.last()) =~= s);
    }
}

proof fn first_from(s: Seq<LockedPackage>, name: Seq<char>, from: int) -> (m: int)
    requires
        0 <= from <= s.len(),
        forall|j: int| 0 <= j < from ==> s[j].name@ != name,
        exists|i: int| from <= i < s.len() && s[i].name@ == name,
    ensures
        0 <= m < s.len(),
        s[m].name@ == name,
        forall|j: int| 0 <= j < m ==> s[j].name@ != name,
    decreases s.len() - from,
{
    if s[from].name@ == name {
        from
    } else {
        first_from(s, name, from + 1)
    }
}

proof fn lemma_first_named(s: Seq<LockedPackage>, name: Seq<char>)
    ensures
        match first_named(s, name) {
            Some(i) => 0 <= i < s.len() && s[i].name@ == name && forall|j: int|
                0 <= j < i ==> s[j].name@ != name,
            None => forall|i: int| 0 <= i < s.len() ==> s[i].name@ != name,
        },
{
    if exists|i: int| 0 <= i < s.len() && s[i].name@ == name {
        let m = first_from(s, name, 0);
        assert(0 <= m < s.len() && s[m].name@ == name && forall|j: int|
            0 <= j < m ==> s[j].name@ != name);
    }
}

/// Recording a package keeps the lockfile sorted by name and holds the
/// recorded package; a name already locked is replaced in place of being
/// added again (the list only grows for a new name), and every other
/// package stays.
pub proof fn law_upsert_records_once_in_name_order(s: Seq<LockedPackage>, p: LockedPackage)
    ensures
        names_sorted(upserted(s, p)),
        upserted(s, p).contains(p),
        upserted(s, p).len() == if exists|i: int| 0 <= i < s.len() && s[i].name@ == p.name@ {
            s.len()
        } else {
            s.len() + 1
        },
        forall|q: LockedPackage|
            s.contains(q) && q.name@ != p.name@ ==> #[trigger] upserted(s, p).contains(q),
{
    let t = match first_named(s, p.name@) {
        Some(i) => s.update(i, p),
        None => s.push(p),
    };
    lemma_first_named(s, p.name@);
    lemma_sort_by_name_sorted(t);
    lemma_sort_by_name_contains(t, p);
    match first_named(s, p.name@) {
        Some(i) => {
            assert(t[i] == p);
        },
        None => {
            assert(t[s.len() as int] == p);
        },
    }
    assert forall|q: LockedPackage| s.contains(q) && q.name@ != p.name@ implies #[trigger] upserted(
        s,
        p,
    ).contains(q) by {
        lemma_sort_by_name_contains(t, q);
        let k = choose|k: int| 0 <= k < s.len() && s[k] == q;
        match first_named(s, p.name@) {
            Some(i) => {
                assert(k != i);
                assert(t[k] == q);
            },
            None => {
                assert(t[k] == q);
            },
        }
    }
}


/// Names strictly increasing: sorted, and no name occurs twice.
pub open spec fn names_strictly_sorted(s: Seq<LockedPackage>) -> bool {
    forall|i: int, j: int| 0 <= i < j < s.len() ==> seq_lt(#[trigger] s[i].name@, #[trigger] s[j].name@)
}

/// A sequence already sorted by name is its own sort.
proof fn lemma_sort_of_sorted(t: Seq<LockedPackage>)
    requires
        names_sorted(t),
    ensures
        sort_by_name(t) == t,
    decreases t.len(),
{
    if t.len() > 0 {
        let u = t.drop_last();
        assert(names_sorted(u));
        lemma_sort_of_sorted(u);
        if u.len() > 0 {
            assert(!seq_lt(t[t.len() - 1].name@, t[t.len() - 2].name@));
            assert(u.last() == t[t.len() - 2]);
        }
        assert(u.push(t.last()) =~= t);
    }
}

/// Strictly increasing names are in particular sorted.
proof fn lemma_strict_is_sorted(t: Seq<LockedPackage>)
    requires
        names_strictly_sorted(t),
    ensures
        names_sorted(t),
{
    assert forall|i: int, j: int| 0 <= i < j < t.len() implies !seq_lt(
        #[trigger] t[j].name@,
        #[trigger] t[i].name@,
    ) by {
        lemma_seq_lt_asymmetric(t[i].name@, t[j].name@);
    }
}

/// Inserting a package under a new name into strictly increasing names
/// keeps them strictly increasing.
proof fn lemma_insert_keeps_strict(t: Seq<LockedPackage>, x: LockedPackage)
    requires
        names_strictly_sorted(t),
        forall|k: int| 0 <= k < t.len() ==> #[trigger] t[k].name@ != x.name@,
    ensures
        names_strictly_sorted(insert_by_name(t, x)),
    decreases t.len(),
{
    if t.len() > 0 {
        let u = t.drop_last();
        let last = t.last();
        if seq_lt(x.name@, last.name@) {
            assert forall|k: int| 0 <= k < u.len() implies #[trigger] u[k].name@ != x.name@ by {
                assert(u[k] == t[k]);
            }
            lemma_insert_keeps_strict(u, x);
            lemma_insert_members(u, x);
            let w = insert_by_name(u, x);
            let r = w.push(last);
            assert forall|i: int, j: int| 0 <= i < j < r.len() implies seq_lt(
                #[trigger] r[i].name@,
                #[trigger] r[j].name@,
            ) by {
                if j == r.len() - 1 {
                    if w[i] != x {
                        let k = choose|k: int| 0 <= k < u.len() && u[k] == w[i];
                        assert(u[k] == t[k]);
                        assert(seq_lt(t[k].name@, t[t.len() - 1].name@));
                    }
                } else {
                    assert(r[i] == w[i] && r[j] == w[j]);
                }
            }
        } else {
            lemma_seq_lt_total(x.name@, last.name@);
            assert(last.name@ != x.name@) by {
                assert(t[t.len() - 1] == last);
            }
            let r = t.push(x);
            assert forall|i: int, j: int| 0 <= i < j < r.len() implies seq_lt(
                #[trigger] r[i].name@,
                #[trigger] r[j].name@,
            ) by {
                if j == r.len() - 1 {
                    if i < t.len() - 1 {
                        assert(seq_lt(t[i].name@, t[t.len() - 1].name@));
                        lemma_seq_lt_transitive(t[i].name@, last.name@, x.name@);
                    }
                } else {
                    assert(r[i] == t[i] && r[j] == t[j]);
                }
            }
        }
    }
}

/// A lockfile whose package names are strictly increasing (so no name
/// occurs twice, as in every lockfile built from the default by recording
/// packages) keeps them so when a package is recorded.
pub proof fn law_upsert_keeps_names_distinct(s: Seq<LockedPackage>, p: LockedPackage)
    requires
        names_strictly_sorted(s),
    ensures
        names_strictly_sorted(upserted(s, p)),
{
    lemma_first_named(s, p.name@);
    lemma_strict_is_sorted(s);
    match first_named(s, p.name@) {
        Some(i) => {
            let t = s.update(i, p);
            assert forall|a: int, b: int| 0 <= a < b < t.len() implies seq_lt(
                #[trigger] t[a].name@,
                #[trigger] t[b].name@,
            ) by {
                assert(t[a].name@ == s[a].name@);
                assert(t[b].name@ == s[b].name@);
            }
            lemma_strict_is_sorted(t);
            lemma_sort_of_sorted(t);
        },
        None => {
            lemma_sort_of_sorted(s);
            let t = s.push(p);
            assert(t.drop_last() =~= s);
            assert(sort_by_name(t) == insert_by_name(sort_by_name(s), p));
            lemma_insert_keeps_strict(s, p);
        },
    }
}

} // verus!
