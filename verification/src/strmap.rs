//! Ordered maps and sets keyed by text. Keys are kept strictly increasing
//! in lexicographic character order (the order in which a
//! `BTreeMap<String, _>` walks its keys, and in which JSON serialisation of
//! such a map lists them), so iterating a map by position visits its keys
//! in that order.
use vstd::prelude::*;

use crate::text::{chars_of, owned};

verus! {

/// Strict lexicographic order on character sequences (a proper prefix
/// comes first).
pub open spec fn seq_lt(a: Seq<char>, b: Seq<char>) -> bool
    decreases a.len(),
{
    if a.len() == 0 {
        b.len() > 0
    } else if b.len() == 0 {
        false
    } else if a[0] != b[0] {
        a[0] < b[0]
    } else {
        seq_lt(a.drop_first(), b.drop_first())
    }
}

pub proof fn lemma_seq_lt_irreflexive(a: Seq<char>)
    ensures
        !seq_lt(a, a),
    decreases a.len(),
{
    if a.len() > 0 {
        lemma_seq_lt_irreflexive(a.drop_first());
    }
}

pub proof fn lemma_seq_lt_transitive(a: Seq<char>, b: Seq<char>, c: Seq<char>)
    requires
        seq_lt(a, b),
        seq_lt(b, c),
    ensures
        seq_lt(a, c),
    decreases a.len(),
{
    if a.len() > 0 && b.len() > 0 && c.len() > 0 {
        if a[0] == b[0] && b[0] == c[0] {
            lemma_seq_lt_transitive(a.drop_first(), b.drop_first(), c.drop_first());
        }
    }
}

pub proof fn lemma_seq_lt_total(a: Seq<char>, b: Seq<char>)
    ensures
        a == b || seq_lt(a, b) || seq_lt(b, a),
    decreases a.len(),
{
    if a.len() > 0 && b.len() > 0 {
        if a[0] == b[0] {
            lemma_seq_lt_total(a.drop_first(), b.drop_first());
            if a.drop_first() == b.drop_first() {
                assert(a =~= seq![a[0]] + a.drop_first());
                assert(b =~= seq![b[0]] + b.drop_first());
            }
        }
    } else if a.len() == 0 && b.len() == 0 {
        assert(a =~= b);
    }
}

pub proof fn lemma_seq_lt_asymmetric(a: Seq<char>, b: Seq<char>)
    requires
        seq_lt(a, b),
    ensures
        !seq_lt(b, a),
{
    if seq_lt(b, a) {
        lemma_seq_lt_transitive(a, b, a);
        lemma_seq_lt_irreflexive(a);
    }
}

proof fn lemma_seq_lt_skip(a: Seq<char>, b: Seq<char>, i: int)
    requires
        0 <= i <= a.len(),
        i <= b.len(),
        a.take(i) == b.take(i),
    ensures
        seq_lt(a, b) == seq_lt(a.skip(i), b.skip(i)),
    decreases i,
{
    if i > 0 {
        assert(a[0] == a.take(i)[0]);
        assert(b[0] == b.take(i)[0]);
        assert(a.drop_first().take(i - 1) =~= a.take(i).drop_first());
        assert(b.drop_first().take(i - 1) =~= b.take(i).drop_first());
        lemma_seq_lt_skip(a.drop_first(), b.drop_first(), i - 1);
        assert(a.drop_first().skip(i - 1) =~= a.skip(i));
        assert(b.drop_first().skip(i - 1) =~= b.skip(i));
    } else {
        assert(a.skip(0) =~= a);
        assert(b.skip(0) =~= b);
    }
}

/// Compares two texts: `(a < b, a == b)` in lexicographic character order.
pub fn compare_text(a: &str, b: &str) -> (r: (bool, bool))
    ensures
        r.0 == seq_lt(a@, b@),
        r.1 == (a@ == b@),
{
    let x = chars_of(a);
    let y = chars_of(b);
    let mut i: usize = 0;
    while i < x.len() && i < y.len() && x[i] == y[i]
        invariant
            x@ == a@,
            y@ == b@,
            i <= x@.len(),
            i <= y@.len(),
            x@.take(i as int) == y@.take(i as int),
        decreases x@.len() - i,
    {
        assert(x@.take(i + 1) =~= x@.take(i as int).push(x@[i as int]));
        assert(y@.take(i + 1) =~= y@.take(i as int).push(y@[i as int]));
        i = i + 1;
    }
    proof {
        lemma_seq_lt_skip(x@, y@, i as int);
    }
    if i == x.len() && i == y.len() {
        assert(x@ =~= x@.take(i as int));
        assert(y@ =~= y@.take(i as int));
        proof {
            lemma_seq_lt_irreflexive(x@);
        }
        (false, true)
    } else if i == x.len() {
        assert(x@.skip(i as int).len() == 0);
        assert(x@ != y@);
        (true, false)
    } else if i == y.len() {
        assert(y@.skip(i as int).len() == 0);
        assert(x@[i as int] != y@[i as int] || x@.len() != y@.len());
        assert(x@ != y@);
        (false, false)
    } else {
        assert(x@.skip(i as int)[0] == x@[i as int]);
        assert(y@.skip(i as int)[0] == y@[i as int]);
        assert(x@ != y@);
        let lt = x[i] < y[i];
        (lt, false)
    }
}

/// The keys of a sequence of entries are strictly increasing.
pub open spec fn sorted_keys<V>(s: Seq<(Seq<char>, V)>) -> bool {
    forall|i: int, j: int| 0 <= i < j < s.len() ==> seq_lt(#[trigger] s[i].0, #[trigger] s[j].0)
}

/// The map that a sequence of entries denotes (a later entry wins, though
/// sorted entries never repeat a key).
pub open spec fn map_of<V>(s: Seq<(Seq<char>, V)>) -> Map<Seq<char>, V>
    decreases s.len(),
{
    if s.len() == 0 {
        Map::empty()
    } else {
        map_of(s.drop_last()).insert(s.last().0, s.last().1)
    }
}

/// The position of key `k` in `s`, if any.
pub open spec fn has_key_at<V>(s: Seq<(Seq<char>, V)>, k: Seq<char>, i: int) -> bool {
    0 <= i < s.len() && s[i].0 == k
}

pub proof fn lemma_map_of_sorted<V>(s: Seq<(Seq<char>, V)>)
    requires
        sorted_keys(s),
    ensures
        forall|k: Seq<char>|
            #![trigger map_of(s).contains_key(k)]
            map_of(s).contains_key(k) <==> exists|i: int| has_key_at(s, k, i),
        forall|i: int| 0 <= i < s.len() ==> #[trigger] map_of(s)[s[i].0] == s[i].1,
    decreases s.len(),
{
    if s.len() > 0 {
        let t = s.drop_last();
        assert(sorted_keys(t));
        lemma_map_of_sorted(t);
        assert forall|k: Seq<char>| map_of(s).contains_key(k) <==> exists|i: int|
            has_key_at(s, k, i) by {
            if map_of(s).contains_key(k) {
                if k == s.last().0 {
                    assert(has_key_at(s, k, s.len() - 1));
                } else {
                    assert(map_of(t).contains_key(k));
                    assert(exists|i: int| has_key_at(t, k, i));
                    let i = choose|i: int| has_key_at(t, k, i);
                    assert(t[i] == s[i]);
                    assert(has_key_at(s, k, i));
                }
            }
            if exists|i: int| has_key_at(s, k, i) {
                let i = choose|i: int| has_key_at(s, k, i);
                if i < s.len() - 1 {
                    assert(t[i] == s[i]);
                    assert(has_key_at(t, k, i));
                    assert(map_of(t).contains_key(k));
                }
            }
        }
        assert forall|i: int| 0 <= i < s.len() implies #[trigger] map_of(s)[s[i].0] == s[i].1 by {
            if i < s.len() - 1 {
                assert(seq_lt(s[i].0, s[s.len() - 1].0));
                lemma_seq_lt_irreflexive(s[i].0);
                assert(t[i] == s[i]);
                assert(map_of(t)[t[i].0] == t[i].1);
            }
        }
    }
}

proof fn lemma_map_of_drop_last<V>(s: Seq<(Seq<char>, V)>)
    requires
        sorted_keys(s),
        s.len() > 0,
    ensures
        map_of(s.drop_last()) == map_of(s).remove(s.last().0),
{
    let t = s.drop_last();
    assert(sorted_keys(t));
    lemma_map_of_sorted(t);
    if map_of(t).contains_key(s.last().0) {
        let j = choose|j: int| has_key_at(t, s.last().0, j);
        assert(seq_lt(s[j].0, s[s.len() - 1].0));
        lemma_seq_lt_irreflexive(s.last().0);
    }
    assert(map_of(s).remove(s.last().0) =~= map_of(t));
}

/// Two strictly sorted entry sequences denoting the same map are equal.
pub proof fn lemma_sorted_unique<V>(p: Seq<(Seq<char>, V)>, q: Seq<(Seq<char>, V)>)
    requires
        sorted_keys(p),
        sorted_keys(q),
        map_of(p) == map_of(q),
    ensures
        p == q,
    decreases p.len(),
{
    lemma_map_of_sorted(p);
    lemma_map_of_sorted(q);
    lemma_map_of_len(p);
    lemma_map_of_len(q);
    if p.len() == 0 {
        assert(p =~= q);
    } else {
        let n = p.len() - 1;
        let kp = p[n].0;
        let kq = q[n].0;
        assert(map_of(q).contains_key(kp)) by {
            assert(has_key_at(p, kp, n));
        }
        assert(map_of(p).contains_key(kq)) by {
            assert(has_key_at(q, kq, n));
        }
        let j = choose|j: int| has_key_at(q, kp, j);
        let i = choose|i: int| has_key_at(p, kq, i);
        if kp != kq {
            assert(j != n);
            assert(i != n);
            assert(seq_lt(q[j].0, q[n].0));
            assert(seq_lt(p[i].0, p[n].0));
            lemma_seq_lt_asymmetric(kp, kq);
        }
        assert(map_of(p)[p[n].0] == p[n].1);
        assert(map_of(q)[q[n].0] == q[n].1);
        assert(p[n] == q[n]);
        lemma_map_of_drop_last(p);
        lemma_map_of_drop_last(q);
        assert(sorted_keys(p.drop_last()));
        assert(sorted_keys(q.drop_last()));
        lemma_sorted_unique(p.drop_last(), q.drop_last());
        assert(p =~= p.drop_last().push(p[n]));
        assert(q =~= q.drop_last().push(q[n]));
    }
}

/// The entries of a map in increasing key order (for a map that has
/// them).
pub open spec fn canonical_pairs<V>(m: Map<Seq<char>, V>) -> Seq<(Seq<char>, V)> {
    choose|p: Seq<(Seq<char>, V)>| sorted_keys(p) && map_of(p) == m
}

pub proof fn lemma_canonical<V>(p: Seq<(Seq<char>, V)>)
    requires
        sorted_keys(p),
    ensures
        canonical_pairs(map_of(p)) == p,
{
    let c = canonical_pairs(map_of(p));
    assert(sorted_keys(c) && map_of(c) == map_of(p));
    lemma_sorted_unique(c, p);
}

/// The map of a set of texts, every element to `()`.
pub open spec fn set_map(s: Set<Seq<char>>) -> Map<Seq<char>, ()> {
    Map::new(|k: Seq<char>| s.contains(k), |k: Seq<char>| ())
}

/// The elements of a set of texts in increasing order.
pub open spec fn sorted_elems(s: Set<Seq<char>>) -> Seq<Seq<char>> {
    canonical_pairs(set_map(s)).map_values(|p: (Seq<char>, ())| p.0)
}

/// An ordered map from text keys to values.
pub struct StrMap<V> {
    entries: Vec<(String, V)>,
}

impl<V> StrMap<V> {
    /// The entries, keys by their characters, in increasing key order.
    pub closed spec fn pairs(&self) -> Seq<(Seq<char>, V)> {
        self.entries@.map_values(|e: (String, V)| (e.0@, e.1))
    }

    /// The map these entries denote.
    pub open spec fn view(&self) -> Map<Seq<char>, V> {
        map_of(self.pairs())
    }

    /// The keys in increasing order.
    pub open spec fn keys_seq(&self) -> Seq<Seq<char>> {
        self.pairs().map_values(|e: (Seq<char>, V)| e.0)
    }

    #[verifier::type_invariant]
    closed spec fn inv(&self) -> bool {
        sorted_keys(self.pairs())
    }

    proof fn lemma_shape(&self)
        requires
            sorted_keys(self.pairs()),
        ensures
            forall|k: Seq<char>|
                #![trigger self@.contains_key(k)]
                self@.contains_key(k) <==> exists|i: int| has_key_at(self.pairs(), k, i),
            forall|i: int|
                0 <= i < self.pairs().len() ==> #[trigger] self@[self.pairs()[i].0]
                    == self.pairs()[i].1,
            self@.dom().finite(),
            self@.dom().len() == self.pairs().len(),
    {
        lemma_map_of_sorted(self.pairs());
        lemma_map_of_len(self.pairs());
    }

    /// An empty map.
    pub fn new() -> (m: Self)
        ensures
            m@ == Map::<Seq<char>, V>::empty(),
            m.pairs().len() == 0,
    {
        let m = StrMap { entries: Vec::new() };
        assert(m.pairs() =~= Seq::empty());
        m
    }

    /// Number of entries.
    pub fn len(&self) -> (n: usize)
        ensures
            n == self.pairs().len(),
            n == self@.dom().len(),
            self.pairs() == canonical_pairs(self@),
            self@.dom().finite(),
            sorted_keys(self.pairs()),
            forall|k: Seq<char>|
                #![trigger self@.contains_key(k)]
                self@.contains_key(k) <==> exists|i: int| has_key_at(self.pairs(), k, i),
            forall|i: int|
                0 <= i < self.pairs().len() ==> #[trigger] self@[self.pairs()[i].0]
                    == self.pairs()[i].1,
    {
        proof {
            use_type_invariant(self);
            self.lemma_shape();
            lemma_canonical(self.pairs());
        }
        self.entries.len()
    }

    /// No entries.
    pub fn is_empty(&self) -> (b: bool)
        ensures
            b == (self.pairs().len() == 0),
            b == (self@.dom().len() == 0),
    {
        proof {
            use_type_invariant(self);
            self.lemma_shape();
        }
        self.entries.len() == 0
    }

    /// The key of the `i`-th entry in key order.
    pub fn key_at(&self, i: usize) -> (k: &String)
        requires
            i < self.pairs().len(),
        ensures
            k@ == self.pairs()[i as int].0,
    {
        assert(self.pairs()[i as int] == (self.entries@[i as int].0@, self.entries@[i as int].1));
        &self.entries[i].0
    }

    /// The value of the `i`-th entry in key order.
    pub fn value_at(&self, i: usize) -> (v: &V)
        requires
            i < self.pairs().len(),
        ensures
            *v == self.pairs()[i as int].1,
    {
        assert(self.pairs()[i as int] == (self.entries@[i as int].0@, self.entries@[i as int].1));
        &self.entries[i].1
    }

    /// The position of `k` in key order, if present; otherwise where it
    /// would go.
    fn search(&self, k: &str) -> (r: (usize, bool))
        ensures
            r.0 <= self.pairs().len(),
            r.1 ==> r.0 < self.pairs().len() && self.pairs()[r.0 as int].0 == k@,
            !r.1 ==> forall|j: int| 0 <= j < self.pairs().len() ==> self.pairs()[j].0 != k@,
            forall|j: int| 0 <= j < r.0 ==> seq_lt(#[trigger] self.pairs()[j].0, k@),
            !r.1 ==> forall|j: int|
                r.0 <= j < self.pairs().len() ==> seq_lt(k@, #[trigger] self.pairs()[j].0),
    {
        proof {
            use_type_invariant(self);
        }
        let ghost p = self.pairs();
        let mut i: usize = 0;
        while i < self.entries.len()
            invariant
                p == self.pairs(),
                sorted_keys(p),
                p.len() == self.entries@.len(),
                i <= p.len(),
                forall|j: int| 0 <= j < i ==> seq_lt(#[trigger] p[j].0, k@),
            decreases p.len() - i,
        {
            let (lt, eq) = compare_text(self.entries[i].0.as_str(), k);
            assert(p[i as int].0 == self.entries@[i as int].0@);
            if eq {
                return (i, true);
            }
            if !lt {
                proof {
                    lemma_seq_lt_total(p[i as int].0, k@);
                    assert forall|j: int| i <= j < p.len() implies seq_lt(k@, #[trigger] p[j].0) by {
                        if j > i {
                            lemma_seq_lt_transitive(k@, p[i as int].0, p[j].0);
                        }
                    }
                    assert forall|j: int| 0 <= j < p.len() implies p[j].0 != k@ by {
                        if j < i {
                            lemma_seq_lt_irreflexive(k@);
                        } else {
                            lemma_seq_lt_irreflexive(k@);
                        }
                    }
                }
                return (i, false);
            }
            i = i + 1;
        }
        proof {
            assert forall|j: int| 0 <= j < p.len() implies p[j].0 != k@ by {
                lemma_seq_lt_irreflexive(k@);
            }
        }
        (i, false)
    }

    /// The value stored under `k`.
    pub fn get(&self, k: &str) -> (r: Option<&V>)
        ensures
            match r {
                Some(v) => self@.contains_key(k@) && *v == self@[k@],
                None => !self@.contains_key(k@),
            },
    {
        proof {
            use_type_invariant(self);
            self.lemma_shape();
        }
        let (i, found) = self.search(k);
        if found {
            assert(self.pairs()[i as int] == (self.entries@[i as int].0@, self.entries@[i as int].1));
            assert(has_key_at(self.pairs(), k@, i as int));
            Some(&self.entries[i].1)
        } else {
            assert(forall|j: int| !has_key_at(self.pairs(), k@, j));
            None
        }
    }

    /// `k` has an entry.
    pub fn contains_key(&self, k: &str) -> (b: bool)
        ensures
            b == self@.contains_key(k@),
    {
        proof {
            use_type_invariant(self);
            self.lemma_shape();
        }
        let (i, found) = self.search(k);
        if found {
            assert(has_key_at(self.pairs(), k@, i as int));
        } else {
            assert(forall|j: int| !has_key_at(self.pairs(), k@, j));
        }
        found
    }

    /// Stores `v` under `k`, replacing any previous value.
    pub fn insert(&mut self, k: String, v: V)
        ensures
            final(self)@ == old(self)@.insert(k@, v),
            old(self)@.dom().finite(),
            final(self)@.dom().finite(),
    {
        proof {
            use_type_invariant(&*self);
            self.lemma_shape();
        }
        let ghost old_pairs = self.pairs();
        let ghost kv = k@;
        let (i, found) = self.search(k.as_str());
        if found {
            proof {
                lemma_update_keeps_map(old_pairs, i as int, kv, v);
            }
            self.set_entry(i, k, v);
        } else {
            proof {
                lemma_insert_keeps_map(old_pairs, i as int, kv, v);
            }
            self.insert_entry(i, k, v);
        }
        proof {
            use_type_invariant(&*self);
            self.lemma_shape();
        }
    }

    fn set_entry(&mut self, i: usize, k: String, v: V)
        requires
            i < old(self).pairs().len(),
            sorted_keys(old(self).pairs().update(i as int, (k@, v))),
        ensures
            final(self).pairs() == old(self).pairs().update(i as int, (k@, v)),
    {
        let ghost target = self.pairs().update(i as int, (k@, v));
        let mut entries = Vec::new();
        std::mem::swap(&mut entries, &mut self.entries);
        entries.set(i, (k, v));
        assert(entries@.map_values(|e: (String, V)| (e.0@, e.1)) =~= target);
        self.entries = entries;
    }

    fn insert_entry(&mut self, i: usize, k: String, v: V)
        requires
            i <= old(self).pairs().len(),
            sorted_keys(old(self).pairs().insert(i as int, (k@, v))),
        ensures
            final(self).pairs() == old(self).pairs().insert(i as int, (k@, v)),
    {
        let ghost target = self.pairs().insert(i as int, (k@, v));
        let mut entries = Vec::new();
        std::mem::swap(&mut entries, &mut self.entries);
        entries.insert(i, (k, v));
        assert(entries@.map_values(|e: (String, V)| (e.0@, e.1)) =~= target);
        self.entries = entries;
    }
}

#[verifier::spinoff_prover]
#[verifier::rlimit(40)]
proof fn lemma_update_keeps_map<V>(p: Seq<(Seq<char>, V)>, i: int, k: Seq<char>, v: V)
    requires
        sorted_keys(p),
        0 <= i < p.len(),
        p[i].0 == k,
    ensures
        sorted_keys(p.update(i, (k, v))),
        map_of(p.update(i, (k, v))) == map_of(p).insert(k, v),
{
    let q = p.update(i, (k, v));
    assert(sorted_keys(q)) by {
        assert forall|a: int, b: int| 0 <= a < b < q.len() implies seq_lt(
            #[trigger] q[a].0,
            #[trigger] q[b].0,
        ) by {
            assert(q[a].0 == p[a].0);
            assert(q[b].0 == p[b].0);
        }
    }
    lemma_map_of_sorted(p);
    lemma_map_of_sorted(q);
    assert(map_of(q) =~= map_of(p).insert(k, v)) by {
        assert forall|key: Seq<char>| map_of(q).contains_key(key) <==> map_of(p).insert(
            k,
            v,
        ).contains_key(key) by {
            if map_of(q).contains_key(key) {
                let j = choose|j: int| has_key_at(q, key, j);
                if j != i {
                    assert(has_key_at(p, key, j));
                }
            }
            if map_of(p).contains_key(key) {
                let j = choose|j: int| has_key_at(p, key, j);
                assert(has_key_at(q, key, j));
            }
            if key == k {
                assert(has_key_at(q, key, i));
            }
        }
        assert forall|key: Seq<char>| #[trigger] map_of(q).contains_key(key) implies map_of(q)[key]
            == map_of(p).insert(k, v)[key] by {
            let j = choose|j: int| has_key_at(q, key, j);
            assert(map_of(q)[q[j].0] == q[j].1);
            if j != i {
                assert(q[j] == p[j]);
                assert(has_key_at(p, key, j));
                assert(map_of(p)[p[j].0] == p[j].1);
                lemma_seq_lt_irreflexive(k);
                if j < i {
                    assert(seq_lt(p[j].0, p[i].0));
                } else {
                    assert(seq_lt(p[i].0, p[j].0));
                }
                assert(key != k);
            }
        }
    }
}

#[verifier::spinoff_prover]
#[verifier::rlimit(40)]
proof fn lemma_insert_sorted<V>(p: Seq<(Seq<char>, V)>, i: int, k: Seq<char>, v: V)
    requires
        sorted_keys(p),
        0 <= i <= p.len(),
        forall|j: int| 0 <= j < i ==> seq_lt(#[trigger] p[j].0, k),
        forall|j: int| i <= j < p.len() ==> seq_lt(k, #[trigger] p[j].0),
    ensures
        sorted_keys(p.insert(i, (k, v))),
        forall|j: int| i < j < p.len() + 1 ==> #[trigger] p.insert(i, (k, v))[j] == p[j - 1],
        forall|j: int| 0 <= j < i ==> #[trigger] p.insert(i, (k, v))[j] == p[j],
        p.insert(i, (k, v))[i] == (k, v),
        p.insert(i, (k, v)).len() == p.len() + 1,
{
    let q = p.insert(i, (k, v));
    p.insert_ensures(i, (k, v));
    assert forall|j: int| i < j < q.len() implies #[trigger] q[j] == p[j - 1] by {
        assert(p.insert(i, (k, v))[(j - 1) + 1] == p[j - 1]);
    }
    assert forall|j: int| 0 <= j < i implies #[trigger] q[j] == p[j] by {}
    assert(sorted_keys(q)) by {
        assert forall|a: int, b: int| 0 <= a < b < q.len() implies seq_lt(
            #[trigger] q[a].0,
            #[trigger] q[b].0,
        ) by {
            if a < i && b < i {
                assert(q[a] == p[a]);
                assert(q[b] == p[b]);
            } else if a < i && b == i {
                assert(q[a] == p[a]);
            } else if a < i && b > i {
                assert(q[a] == p[a]);
                assert(q[b] == p[b - 1]);
            } else if a == i {
                assert(q[b] == p[b - 1]);
            } else {
                assert(q[a] == p[a - 1]);
                assert(q[b] == p[b - 1]);
            }
        }
    }
}

#[verifier::spinoff_prover]
#[verifier::rlimit(40)]
proof fn lemma_insert_keeps_map<V>(p: Seq<(Seq<char>, V)>, i: int, k: Seq<char>, v: V)
    requires
        sorted_keys(p),
        0 <= i <= p.len(),
        forall|j: int| 0 <= j < i ==> seq_lt(#[trigger] p[j].0, k),
        forall|j: int| i <= j < p.len() ==> seq_lt(k, #[trigger] p[j].0),
    ensures
        sorted_keys(p.insert(i, (k, v))),
        map_of(p.insert(i, (k, v))) == map_of(p).insert(k, v),
{
    lemma_insert_sorted(p, i, k, v);
    let q = p.insert(i, (k, v));
    lemma_map_of_sorted(p);
    lemma_map_of_sorted(q);
    assert(map_of(q) =~= map_of(p).insert(k, v)) by {
        assert forall|key: Seq<char>| map_of(q).contains_key(key) <==> map_of(p).insert(
            k,
            v,
        ).contains_key(key) by {
            if map_of(q).contains_key(key) {
                let j = choose|j: int| has_key_at(q, key, j);
                if j < i {
                    assert(q[j] == p[j]);
                    assert(has_key_at(p, key, j));
                } else if j > i {
                    assert(q[j] == p[j - 1]);
                    assert(has_key_at(p, key, j - 1));
                }
            }
            if map_of(p).contains_key(key) {
                let j = choose|j: int| has_key_at(p, key, j);
                if j < i {
                    assert(q[j] == p[j]);
                    assert(has_key_at(q, key, j));
                } else {
                    assert(q[j + 1] == p[j]);
                    assert(has_key_at(q, key, j + 1));
                }
            }
            if key == k {
                assert(has_key_at(q, key, i));
            }
        }
        assert forall|key: Seq<char>| #[trigger] map_of(q).contains_key(key) implies map_of(q)[key]
            == map_of(p).insert(k, v)[key] by {
            let j = choose|j: int| has_key_at(q, key, j);
            assert(map_of(q)[q[j].0] == q[j].1);
            if j < i {
                assert(q[j] == p[j]);
                assert(has_key_at(p, key, j));
                assert(map_of(p)[p[j].0] == p[j].1);
                lemma_seq_lt_irreflexive(k);
                assert(key != k);
            } else if j > i {
                assert(q[j] == p[j - 1]);
                assert(has_key_at(p, key, j - 1));
                assert(map_of(p)[p[j - 1].0] == p[j - 1].1);
                lemma_seq_lt_irreflexive(k);
                assert(key != k);
            }
        }
    }
}

proof fn lemma_map_of_len<V>(s: Seq<(Seq<char>, V)>)
    requires
        sorted_keys(s),
    ensures
        map_of(s).dom().finite(),
        map_of(s).dom().len() == s.len(),
    decreases s.len(),
{
    if s.len() > 0 {
        let t = s.drop_last();
        assert(sorted_keys(t));
        lemma_map_of_len(t);
        lemma_map_of_sorted(t);
        if map_of(t).contains_key(s.last().0) {
            let j = choose|j: int| has_key_at(t, s.last().0, j);
            assert(seq_lt(s[j].0, s[s.len() - 1].0));
            lemma_seq_lt_irreflexive(s[j].0);
        }
    } else {
        assert(map_of(s).dom() =~= Set::empty());
    }
}

impl StrMap<String> {
    /// A copy of a map of texts.
    pub fn clone_map(&self) -> (m: Self)
        ensures
            m@ == self@,
            m.pairs() == self.pairs(),
    {
        proof {
            use_type_invariant(self);
        }
        let mut entries: Vec<(String, String)> = Vec::new();
        let mut i: usize = 0;
        while i < self.entries.len()
            invariant
                i <= self.entries@.len(),
                entries@.len() == i,
                forall|j: int|
                    0 <= j < i ==> (#[trigger] entries@[j]).0@ == self.entries@[j].0@
                        && entries@[j].1 == self.entries@[j].1,
            decreases self.entries@.len() - i,
        {
            let k = owned(self.entries[i].0.as_str());
            let v = self.entries[i].1.clone();
            entries.push((k, v));
            i = i + 1;
        }
        let ghost cp = entries@.map_values(|e: (String, String)| (e.0@, e.1));
        assert(cp =~= self.pairs()) by {
            assert forall|j: int| 0 <= j < cp.len() implies cp[j] == self.pairs()[j] by {
                assert(entries@[j].1@ == self.entries@[j].1@);
                assert(entries@[j].1 == self.entries@[j].1);
            }
        }
        let m = StrMap { entries };
        m
    }

    /// Stores every entry of `other`, replacing values of keys already here.
    pub fn extend_from(&mut self, other: &StrMap<String>)
        ensures
            final(self)@ == old(self)@.union_prefer_right(other@),
    {
        let n = other.len();
        let mut i: usize = 0;
        while i < n
            invariant
                n == other.pairs().len(),
                i <= other.pairs().len(),
                self@ == old(self)@.union_prefer_right(map_of(other.pairs().take(i as int))),
                sorted_keys(other.pairs()),
            decreases other.pairs().len() - i,
        {
            let k = owned(other.key_at(i).as_str());
            let v = other.value_at(i).clone();
            self.insert(k, v);
            proof {
                assert(other.pairs().take(i + 1).drop_last() =~= other.pairs().take(i as int));
                assert(other.pairs().take(i + 1).last() == other.pairs()[i as int]);
                assert(self@ =~= old(self)@.union_prefer_right(map_of(other.pairs().take(i + 1))));
            }
            i = i + 1;
        }
        assert(other.pairs().take(i as int) =~= other.pairs());
    }
}

/// An ordered set of texts.
pub struct StrSet {
    map: StrMap<()>,
}

impl StrSet {
    /// The elements.
    pub closed spec fn view(&self) -> Set<Seq<char>> {
        self.map@.dom()
    }

    /// The elements in increasing order.
    pub closed spec fn elems(&self) -> Seq<Seq<char>> {
        self.map.keys_seq()
    }

    /// An empty set.
    pub fn new() -> (s: Self)
        ensures
            s@ == Set::<Seq<char>>::empty(),
            s.elems().len() == 0,
    {
        let s = StrSet { map: StrMap::new() };
        assert(s@ =~= Set::empty());
        s
    }

    /// Adds `k`.
    pub fn insert(&mut self, k: String)
        ensures
            final(self)@ == old(self)@.insert(k@),
    {
        self.map.insert(k, ());
        assert(self@ =~= old(self)@.insert(k@));
    }

    /// `k` is an element.
    pub fn contains(&self, k: &str) -> (b: bool)
        ensures
            b == self@.contains(k@),
    {
        self.map.contains_key(k)
    }

    /// Number of elements.
    pub fn len(&self) -> (n: usize)
        ensures
            n == self.elems().len(),
            n == self@.len(),
            forall|i: int, j: int|
                0 <= i < j < self.elems().len() ==> seq_lt(
                    #[trigger] self.elems()[i],
                    #[trigger] self.elems()[j],
                ),
            forall|k: Seq<char>| #![trigger self@.contains(k)]
                self@.contains(k) <==> self.elems().contains(k),
            self@.finite(),
            self.elems() == sorted_elems(self@),
    {
        let n = self.map.len();
        assert(self.map@ =~= set_map(self@));
        assert forall|k: Seq<char>| #![trigger self@.contains(k)]
            self@.contains(k) <==> self.elems().contains(k) by {
            if self@.contains(k) {
                let i = choose|i: int| has_key_at(self.map.pairs(), k, i);
                assert(self.elems()[i] == k);
            }
            if self.elems().contains(k) {
                let i = choose|i: int| 0 <= i < self.elems().len() && self.elems()[i] == k;
                assert(has_key_at(self.map.pairs(), k, i));
            }
        }
        n
    }

    /// No elements.
    pub fn is_empty(&self) -> (b: bool)
        ensures
            b == (self.elems().len() == 0),
            b == (self@.len() == 0),
    {
        self.map.is_empty()
    }

    /// The `i`-th element in increasing order.
    pub fn elem_at(&self, i: usize) -> (k: &String)
        requires
            i < self.elems().len(),
        ensures
            k@ == self.elems()[i as int],
    {
        self.map.key_at(i)
    }

    /// Adds every element of `other`.
    pub fn extend_from(&mut self, other: &StrSet)
        ensures
            final(self)@ == old(self)@.union(other@),
    {
        let n = other.len();
        let mut i: usize = 0;
        while i < n
            invariant
                n == other.elems().len(),
                forall|k: Seq<char>| #![trigger other@.contains(k)]
                    other@.contains(k) <==> other.elems().contains(k),
                i <= other.elems().len(),
                self@ == old(self)@.union(other.elems().take(i as int).to_set()),
            decreases other.elems().len() - i,
        {
            let k = owned(other.elem_at(i).as_str());
            self.insert(k);
            proof {
                assert(other.elems().take(i + 1) =~= other.elems().take(i as int).push(
                    other.elems()[i as int],
                ));
                Seq::lemma_to_set_insert_commutes(other.elems().take(i as int), other.elems()[i as int]);
                assert(other.elems().take(i as int) + seq![other.elems()[i as int]] =~= other.elems().take(i + 1));
                assert(self@ =~= old(self)@.union(other.elems().take(i + 1).to_set()));
            }
            i = i + 1;
        }
        proof {
            assert(other.elems().take(i as int) =~= other.elems());
            assert(other.elems().to_set() =~= other@) by {
                assert forall|k: Seq<char>| other.elems().to_set().contains(k) <==> other@.contains(k) by {
                }
            }
        }
    }
}

} // verus!
