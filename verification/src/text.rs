//! Character-level text utilities shared by every module of the crate:
//! scanning a `&str` as a sequence of characters, searching, replacing and
//! formatting numbers, each with a specification over `Seq<char>`.
use vstd::prelude::*;
use vstd::string::*;

verus! {

/// `s` holds `p` starting at position `i`.
pub open spec fn occurs_at(s: Seq<char>, p: Seq<char>, i: int) -> bool {
    0 <= i && i + p.len() <= s.len() && s.subrange(i, i + p.len()) == p
}

/// `p` occurs somewhere in `s` (the empty pattern occurs everywhere).
pub open spec fn contains_seq(s: Seq<char>, p: Seq<char>) -> bool {
    exists|i: int| occurs_at(s, p, i)
}

/// `s` begins with `p`.
pub open spec fn starts_with_seq(s: Seq<char>, p: Seq<char>) -> bool {
    p.len() <= s.len() && s.subrange(0, p.len() as int) == p
}

/// `s` ends with `p`.
pub open spec fn ends_with_seq(s: Seq<char>, p: Seq<char>) -> bool {
    p.len() <= s.len() && s.subrange(s.len() - p.len(), s.len() as int) == p
}

/// Every non-overlapping occurrence of `p` in `s`, scanned from the left,
/// replaced by `r` (the behaviour of `str::replace`).
pub open spec fn replace_seq(s: Seq<char>, p: Seq<char>, r: Seq<char>) -> Seq<char>
    decreases s.len(),
{
    if p.len() == 0 || s.len() < p.len() {
        s
    } else if s.subrange(0, p.len() as int) == p {
        r + replace_seq(s.skip(p.len() as int), p, r)
    } else {
        seq![s[0]] + replace_seq(s.skip(1), p, r)
    }
}

/// The digit character for `d < 10`.
pub open spec fn digit_char(d: nat) -> char {
    if d == 0 { '0' }
    else if d == 1 { '1' }
    else if d == 2 { '2' }
    else if d == 3 { '3' }
    else if d == 4 { '4' }
    else if d == 5 { '5' }
    else if d == 6 { '6' }
    else if d == 7 { '7' }
    else if d == 8 { '8' }
    else { '9' }
}

/// The lowercase hexadecimal digit character for `d < 16`.
pub open spec fn hex_char(d: nat) -> char {
    if d < 10 { digit_char(d) }
    else if d == 10 { 'a' }
    else if d == 11 { 'b' }
    else if d == 12 { 'c' }
    else if d == 13 { 'd' }
    else if d == 14 { 'e' }
    else { 'f' }
}

/// Decimal notation of `n`, without leading zeros (`0` is `"0"`).
pub open spec fn decimal(n: nat) -> Seq<char>
    decreases n,
{
    if n < 10 {
        seq![digit_char(n)]
    } else {
        decimal(n / 10).push(digit_char(n % 10))
    }
}

/// The `width` lowest hexadecimal digits of `n`, most significant first,
/// zero-padded (the behaviour of `{:0width$x}` when `n < 16^width`).
pub open spec fn hex_fixed(n: nat, width: nat) -> Seq<char>
    decreases width,
{
    if width == 0 {
        Seq::empty()
    } else {
        hex_fixed(n / 16, (width - 1) as nat).push(hex_char(n % 16))
    }
}

/// A lowercase hexadecimal digit.
pub open spec fn is_lower_hex(c: char) -> bool {
    ('0' <= c && c <= '9') || ('a' <= c && c <= 'f')
}

pub proof fn lemma_hex_fixed_shape(n: nat, width: nat)
    ensures
        hex_fixed(n, width).len() == width,
        forall|i: int| 0 <= i < width ==> is_lower_hex(#[trigger] hex_fixed(n, width)[i]),
    decreases width,
{
    if width > 0 {
        lemma_hex_fixed_shape(n / 16, (width - 1) as nat);
    }
}

pub proof fn lemma_decimal_digits(n: nat)
    ensures
        decimal(n).len() >= 1,
        forall|i: int| 0 <= i < decimal(n).len() ==> '0' <= #[trigger] decimal(n)[i] <= '9',
    decreases n,
{
    if n >= 10 {
        lemma_decimal_digits(n / 10);
    }
}

/// Appends one character to `s`: a wrapper of `String::push`, which adds
/// `c` at the end of the string and changes nothing else.
#[verifier::external_body]
pub fn push_char(s: &mut String, c: char)
    ensures
        final(s)@ == old(s)@.push(c),
{
    s.push(c);
}

/// The characters of `s`, in order.
pub fn chars_of(s: &str) -> (v: Vec<char>)
    ensures
        v@ == s@,
{
    let mut v: Vec<char> = Vec::new();
    for c in it: s.chars()
        invariant
            v@ == it.seq().take(it.index()),
            it.seq() == s@,
    {
        v.push(c);
    }
    v
}

/// A new string holding `s`.
pub fn owned(s: &str) -> (r: String)
    ensures
        r@ == s@,
{
    String::from_str(s)
}

/// Appends `cs[from..to]` to `out`.
pub fn push_range(out: &mut String, cs: &Vec<char>, from: usize, to: usize)
    requires
        from <= to <= cs@.len(),
    ensures
        final(out)@ == old(out)@ + cs@.subrange(from as int, to as int),
{
    let mut i = from;
    while i < to
        invariant
            from <= i <= to <= cs@.len(),
            out@ == old(out)@ + cs@.subrange(from as int, i as int),
        decreases to - i,
    {
        push_char(out, cs[i]);
        i = i + 1;
        assert(cs@.subrange(from as int, i as int) == cs@.subrange(from as int, (i - 1) as int).push(
            cs@[i - 1],
        ));
    }
}

/// The string made of `cs[from..to]`.
pub fn string_of_range(cs: &Vec<char>, from: usize, to: usize) -> (r: String)
    requires
        from <= to <= cs@.len(),
    ensures
        r@ == cs@.subrange(from as int, to as int),
{
    let mut r = String::new();
    push_range(&mut r, cs, from, to);
    r
}

/// `p` occurs in `cs` at `i`.
pub fn matches_at(cs: &Vec<char>, p: &Vec<char>, i: usize) -> (b: bool)
    ensures
        b == occurs_at(cs@, p@, i as int),
{
    let n = cs.len();
    let m = p.len();
    if i > n || m > n - i {
        return false;
    }
    let mut k: usize = 0;
    while k < m
        invariant
            n == cs@.len(),
            m == p@.len(),
            i + m <= n,
            k <= m,
            forall|j: int| 0 <= j < k ==> cs@[i + j] == p@[j],
        decreases m - k,
    {
        if cs[i + k] != p[k] {
            assert(cs@.subrange(i as int, i + p@.len())[k as int] != p@[k as int]);
            return false;
        }
        k = k + 1;
    }
    assert(cs@.subrange(i as int, i + p@.len()) =~= p@);
    true
}

/// The first position at or after `from` where `p` occurs in `cs`.
pub fn find_from(cs: &Vec<char>, p: &Vec<char>, from: usize) -> (r: Option<usize>)
    ensures
        match r {
            Some(i) => from <= i && occurs_at(cs@, p@, i as int) && forall|j: int|
                from <= j < i ==> !occurs_at(cs@, p@, j),
            None => forall|j: int| from <= j ==> !occurs_at(cs@, p@, j),
        },
{
    if p.len() > cs.len() || from > cs.len() - p.len() {
        return None;
    }
    let last = cs.len() - p.len();
    let mut i = from;
    loop
        invariant
            last + p@.len() == cs@.len(),
            from <= i <= last,
            forall|j: int| from <= j < i ==> !occurs_at(cs@, p@, j),
        decreases last - i,
    {
        if matches_at(cs, p, i) {
            return Some(i);
        }
        if i == last {
            return None;
        }
        i = i + 1;
    }
}

/// The last position where `p` occurs in `cs`.
pub fn rfind(cs: &Vec<char>, p: &Vec<char>) -> (r: Option<usize>)
    ensures
        match r {
            Some(i) => occurs_at(cs@, p@, i as int) && forall|j: int|
                i < j ==> !occurs_at(cs@, p@, j),
            None => forall|j: int| !occurs_at(cs@, p@, j),
        },
{
    if p.len() > cs.len() {
        return None;
    }
    let mut i = cs.len() - p.len();
    loop
        invariant
            i + p@.len() <= cs@.len(),
            forall|j: int| i < j ==> !occurs_at(cs@, p@, j),
        decreases i,
    {
        if matches_at(cs, p, i) {
            return Some(i);
        }
        if i == 0 {
            return None;
        }
        i = i - 1;
    }
}

/// `needle` occurs in `hay`.
pub fn contains_str(hay: &str, needle: &str) -> (b: bool)
    ensures
        b == contains_seq(hay@, needle@),
{
    let cs = chars_of(hay);
    let p = chars_of(needle);
    match find_from(&cs, &p, 0) {
        Some(i) => true,
        None => false,
    }
}

/// `s` begins with `p`.
pub fn starts_with_str(s: &str, p: &str) -> (b: bool)
    ensures
        b == starts_with_seq(s@, p@),
{
    let cs = chars_of(s);
    let ps = chars_of(p);
    let b = matches_at(&cs, &ps, 0);
    assert(b == starts_with_seq(s@, p@));
    b
}

/// `s` ends with `p`.
pub fn ends_with_str(s: &str, p: &str) -> (b: bool)
    ensures
        b == ends_with_seq(s@, p@),
{
    let cs = chars_of(s);
    let ps = chars_of(p);
    if ps.len() > cs.len() {
        return false;
    }
    matches_at(&cs, &ps, cs.len() - ps.len())
}

/// `a` and `b` hold the same characters.
pub fn str_eq(a: &str, b: &str) -> (r: bool)
    ensures
        r == (a@ == b@),
{
    let x = chars_of(a);
    let y = chars_of(b);
    if x.len() != y.len() {
        return false;
    }
    let r = matches_at(&x, &y, 0);
    assert(x@.subrange(0, y@.len() as int) =~= x@);
    r
}

proof fn lemma_replace_step(s: Seq<char>, p: Seq<char>, r: Seq<char>, i: int)
    requires
        p.len() > 0,
        0 <= i < s.len(),
    ensures
        occurs_at(s, p, i) ==> replace_seq(s.skip(i), p, r) == r + replace_seq(
            s.skip(i + p.len()),
            p,
            r,
        ),
        !occurs_at(s, p, i) ==> replace_seq(s.skip(i), p, r) == seq![s[i]] + replace_seq(
            s.skip(i + 1),
            p,
            r,
        ),
{
    let t = s.skip(i);
    if occurs_at(s, p, i) {
        assert(t.subrange(0, p.len() as int) =~= s.subrange(i, i + p.len()));
        assert(t.skip(p.len() as int) =~= s.skip(i + p.len()));
    } else {
        if t.len() >= p.len() {
            assert(t.subrange(0, p.len() as int) =~= s.subrange(i, i + p.len()));
        }
        assert(t.skip(1) =~= s.skip(i + 1));
    }
}

/// `s` with every non-overlapping occurrence of `p`, from the left,
/// replaced by `r`.
pub fn replace_str(s: &str, p: &str, r: &str) -> (out: String)
    requires
        p@.len() > 0,
    ensures
        out@ == replace_seq(s@, p@, r@),
{
    let cs = chars_of(s);
    let ps = chars_of(p);
    let mut out = String::new();
    let mut i: usize = 0;
    assert(cs@.skip(0) =~= cs@);
    while i < cs.len()
        invariant
            ps@ == p@,
            cs@ == s@,
            p@.len() > 0,
            i <= cs@.len(),
            out@ + replace_seq(cs@.skip(i as int), p@, r@) == replace_seq(s@, p@, r@),
        decreases cs@.len() - i,
    {
        proof {
            lemma_replace_step(cs@, p@, r@, i as int);
        }
        if matches_at(&cs, &ps, i) {
            let ghost before = out@;
            out.append(r);
            assert(out@ + replace_seq(cs@.skip(i + p@.len()), p@, r@) =~= before + (r@
                + replace_seq(cs@.skip(i + p@.len()), p@, r@)));
            i = i + ps.len();
        } else {
            let ghost before = out@;
            push_char(&mut out, cs[i]);
            assert(out@ + replace_seq(cs@.skip(i + 1), p@, r@) =~= before + (seq![cs@[i as int]]
                + replace_seq(cs@.skip(i + 1), p@, r@)));
            i = i + 1;
        }
    }
    assert(cs@.skip(i as int).len() == 0);
    assert(out@ =~= out@ + replace_seq(cs@.skip(i as int), p@, r@));
    out
}

/// Appends the decimal notation of `n` to `out`.
pub fn push_decimal(out: &mut String, n: u128)
    ensures
        final(out)@ == old(out)@ + decimal(n as nat),
    decreases n,
{
    if n >= 10 {
        push_decimal(out, n / 10);
    }
    push_char(out, digit_of((n % 10) as u8));
    assert(out@ =~= old(out)@ + decimal(n as nat)) by {
        if n < 10 {
            assert(decimal(n as nat) =~= seq![digit_char(n as nat)]);
        }
    };
}

/// The decimal notation of `n`.
pub fn decimal_string(n: u128) -> (r: String)
    ensures
        r@ == decimal(n as nat),
{
    let mut r = String::new();
    push_decimal(&mut r, n);
    assert(r@ =~= decimal(n as nat));
    r
}

/// The digit character of `d`.
pub fn digit_of(d: u8) -> (c: char)
    requires
        d < 10,
    ensures
        c == digit_char(d as nat),
{
    if d == 0 { '0' }
    else if d == 1 { '1' }
    else if d == 2 { '2' }
    else if d == 3 { '3' }
    else if d == 4 { '4' }
    else if d == 5 { '5' }
    else if d == 6 { '6' }
    else if d == 7 { '7' }
    else if d == 8 { '8' }
    else { '9' }
}

/// The lowercase hexadecimal digit character of `d`.
pub fn hex_digit_of(d: u8) -> (c: char)
    requires
        d < 16,
    ensures
        c == hex_char(d as nat),
{
    if d < 10 { digit_of(d) }
    else if d == 10 { 'a' }
    else if d == 11 { 'b' }
    else if d == 12 { 'c' }
    else if d == 13 { 'd' }
    else if d == 14 { 'e' }
    else { 'f' }
}

/// Appends the `width` lowest hexadecimal digits of `n` to `out`.
pub fn push_hex_fixed(out: &mut String, n: u64, width: u8)
    ensures
        final(out)@ == old(out)@ + hex_fixed(n as nat, width as nat),
    decreases width,
{
    if width > 0 {
        push_hex_fixed(out, n / 16, width - 1);
        push_char(out, hex_digit_of((n % 16) as u8));
    }
    assert(out@ =~= old(out)@ + hex_fixed(n as nat, width as nat));
}

/// `s` when `c` holds, nothing otherwise.
pub open spec fn text_if(c: bool, s: Seq<char>) -> Seq<char> {
    if c {
        s
    } else {
        Seq::empty()
    }
}

/// The last position at or before `i` where `p` occurs in `s`.
pub open spec fn last_at_or_before(s: Seq<char>, p: Seq<char>, i: int) -> Option<int>
    decreases i + 1,
{
    if i < 0 {
        None
    } else if occurs_at(s, p, i) {
        Some(i)
    } else {
        last_at_or_before(s, p, i - 1)
    }
}

/// The last position where `p` occurs in `s` (what `str::rfind` finds,
/// counted in characters).
pub open spec fn last_occurrence(s: Seq<char>, p: Seq<char>) -> Option<int> {
    last_at_or_before(s, p, s.len() - p.len())
}

proof fn lemma_last_at_found(s: Seq<char>, p: Seq<char>, top: int, k: int)
    requires
        0 <= k <= top,
        occurs_at(s, p, k),
        forall|j: int| k < j <= top ==> !occurs_at(s, p, j),
    ensures
        last_at_or_before(s, p, top) == Some(k),
    decreases top - k,
{
    if top > k {
        lemma_last_at_found(s, p, top - 1, k);
    }
}

proof fn lemma_last_at_none(s: Seq<char>, p: Seq<char>, top: int)
    requires
        forall|j: int| j <= top ==> !occurs_at(s, p, j),
    ensures
        last_at_or_before(s, p, top) is None,
    decreases top + 1,
{
    if top >= 0 {
        lemma_last_at_none(s, p, top - 1);
    }
}

/// The character position of the last occurrence of `needle` in `hay`.
pub fn rfind_str(hay: &str, needle: &str) -> (r: Option<usize>)
    ensures
        match r {
            Some(i) => last_occurrence(hay@, needle@) == Some(i as int) && occurs_at(
                hay@,
                needle@,
                i as int,
            ),
            None => last_occurrence(hay@, needle@) is None,
        },
{
    let cs = chars_of(hay);
    let p = chars_of(needle);
    let r = rfind(&cs, &p);
    proof {
        let top = hay@.len() - needle@.len();
        match r {
            Some(i) => {
                lemma_last_at_found(hay@, needle@, top, i as int);
            },
            None => {
                lemma_last_at_none(hay@, needle@, top);
            },
        }
    }
    r
}

/// The first position at or after `i` where `p` occurs in `s`.
pub open spec fn first_at_or_after(s: Seq<char>, p: Seq<char>, i: int) -> Option<int>
    decreases s.len() + 1 - i,
{
    if i < 0 || i + p.len() > s.len() {
        None
    } else if occurs_at(s, p, i) {
        Some(i)
    } else {
        first_at_or_after(s, p, i + 1)
    }
}

/// The first position where `p` occurs in `s` (what `str::find` finds,
/// counted in characters).
pub open spec fn first_occurrence(s: Seq<char>, p: Seq<char>) -> Option<int> {
    first_at_or_after(s, p, 0)
}

proof fn lemma_first_at_found(s: Seq<char>, p: Seq<char>, from: int, k: int)
    requires
        0 <= from <= k,
        occurs_at(s, p, k),
        forall|j: int| from <= j < k ==> !occurs_at(s, p, j),
    ensures
        first_at_or_after(s, p, from) == Some(k),
    decreases k - from,
{
    if from < k {
        lemma_first_at_found(s, p, from + 1, k);
    }
}

proof fn lemma_first_at_none(s: Seq<char>, p: Seq<char>, from: int)
    requires
        0 <= from,
        forall|j: int| from <= j ==> !occurs_at(s, p, j),
    ensures
        first_at_or_after(s, p, from) is None,
    decreases s.len() + 1 - from,
{
    if from + p.len() <= s.len() {
        lemma_first_at_none(s, p, from + 1);
    }
}

/// The character position of the first occurrence of `needle` in `hay`.
pub fn find_str(hay: &str, needle: &str) -> (r: Option<usize>)
    ensures
        match r {
            Some(i) => first_occurrence(hay@, needle@) == Some(i as int) && occurs_at(
                hay@,
                needle@,
                i as int,
            ),
            None => first_occurrence(hay@, needle@) is None,
        },
{
    let cs = chars_of(hay);
    let p = chars_of(needle);
    let r = find_from(&cs, &p, 0);
    proof {
        match r {
            Some(i) => {
                lemma_first_at_found(hay@, needle@, 0, i as int);
            },
            None => {
                lemma_first_at_none(hay@, needle@, 0);
            },
        }
    }
    r
}

} // verus!

verus! {

/// The first occurrence found is an occurrence.
pub proof fn lemma_first_at_occurs(s: Seq<char>, p: Seq<char>, i: int)
    ensures
        match first_at_or_after(s, p, i) {
            Some(k) => i <= k && occurs_at(s, p, k),
            None => true,
        },
    decreases s.len() + 1 - i,
{
    if !(i < 0 || i + p.len() > s.len()) && !occurs_at(s, p, i) {
        lemma_first_at_occurs(s, p, i + 1);
    }
}

/// Whatever occurs in `m` occurs in `a + m + b`.
pub proof fn lemma_contains_in_middle(a: Seq<char>, m: Seq<char>, b: Seq<char>, p: Seq<char>)
    requires
        contains_seq(m, p),
    ensures
        contains_seq(a + m + b, p),
{
    let j = choose|j: int| occurs_at(m, p, j);
    let s = a + m + b;
    let k = a.len() + j;
    assert(s.subrange(k, k + p.len()) =~= m.subrange(j, j + p.len()));
    assert(occurs_at(s, p, k));
}

/// Whatever occurs in `a` occurs in `a + b`.
pub proof fn lemma_contains_left(a: Seq<char>, b: Seq<char>, p: Seq<char>)
    requires
        contains_seq(a, p),
    ensures
        contains_seq(a + b, p),
{
    let j = choose|j: int| occurs_at(a, p, j);
    assert((a + b).subrange(j, j + p.len()) =~= a.subrange(j, j + p.len()));
    assert(occurs_at(a + b, p, j));
}

/// Whatever occurs in `b` occurs in `a + b`.
pub proof fn lemma_contains_right(a: Seq<char>, b: Seq<char>, p: Seq<char>)
    requires
        contains_seq(b, p),
    ensures
        contains_seq(a + b, p),
{
    let j = choose|j: int| occurs_at(b, p, j);
    let k = a.len() + j;
    assert((a + b).subrange(k, k + p.len()) =~= b.subrange(j, j + p.len()));
    assert(occurs_at(a + b, p, k));
}

/// A text occurs in itself.
pub proof fn lemma_contains_self(p: Seq<char>)
    ensures
        contains_seq(p, p),
{
    assert(p.subrange(0, p.len() as int) =~= p);
    assert(occurs_at(p, p, 0));
}

/// Decimal notation is injective.
pub proof fn lemma_decimal_injective(n: nat, m: nat)
    requires
        decimal(n) == decimal(m),
    ensures
        n == m,
    decreases n,
{
    if n < 10 && m < 10 {
        assert(decimal(n) == seq![digit_char(n)]);
        assert(decimal(m) == seq![digit_char(m)]);
        assert(decimal(n)[0] == digit_char(n));
        assert(decimal(m)[0] == digit_char(m));
        lemma_digit_char_injective(n, m);
    } else if n < 10 {
        lemma_decimal_digits(m / 10);
        assert(decimal(m).len() >= 2);
    } else if m < 10 {
        lemma_decimal_digits(n / 10);
        assert(decimal(n).len() >= 2);
    } else {
        assert(decimal(n).last() == digit_char(n % 10));
        assert(decimal(m).last() == digit_char(m % 10));
        lemma_digit_char_injective(n % 10, m % 10);
        assert(decimal(n).drop_last() =~= decimal(n / 10));
        assert(decimal(m).drop_last() =~= decimal(m / 10));
        lemma_decimal_injective(n / 10, m / 10);
        assert(n == 10 * (n / 10) + n % 10);
        assert(m == 10 * (m / 10) + m % 10);
    }
}

proof fn lemma_digit_char_injective(a: nat, b: nat)
    requires
        a < 10,
        b < 10,
        digit_char(a) == digit_char(b),
    ensures
        a == b,
{
}


/// A pattern that holds a character missing from `s` does not occur in
/// `s`.
pub proof fn lemma_absent_char(s: Seq<char>, p: Seq<char>, m: int)
    requires
        0 <= m < p.len(),
        !s.contains(p[m]),
    ensures
        !contains_seq(s, p),
{
    if contains_seq(s, p) {
        let k = choose|k: int| occurs_at(s, p, k);
        assert(s.subrange(k, k + p.len())[m] == p[m]);
        assert(s[k + m] == p[m]);
    }
}

/// Three consecutive characters `a`, `b`, `c` occur in `s`.
pub open spec fn has_triple(s: Seq<char>, a: char, b: char, c: char) -> bool {
    exists|k: int| 0 <= k && k + 2 < s.len() && #[trigger] s[k] == a && s[k + 1] == b && s[k + 2] == c
}

/// A pattern that holds three consecutive characters never consecutive
/// in `s` does not occur in `s`.
pub proof fn lemma_absent_triple(s: Seq<char>, p: Seq<char>, m: int)
    requires
        0 <= m && m + 2 < p.len(),
        !has_triple(s, p[m], p[m + 1], p[m + 2]),
    ensures
        !contains_seq(s, p),
{
    if contains_seq(s, p) {
        let k = choose|k: int| occurs_at(s, p, k);
        let w = s.subrange(k, k + p.len());
        assert(w[m] == p[m] && w[m + 1] == p[m + 1] && w[m + 2] == p[m + 2]);
        assert(s[k + m] == p[m] && s[k + m + 1] == p[m + 1] && s[k + m + 2] == p[m + 2]);
    }
}

/// A pattern occurs in `a + b` only inside `a` or inside `b` when it cannot
/// cross the seam: it lacks the last character of `a`, or the first of
/// `b`.
pub proof fn lemma_seam(a: Seq<char>, b: Seq<char>, p: Seq<char>)
    requires
        (a.len() > 0 && !p.contains(a.last())) || (b.len() > 0 && !p.contains(b[0])) || a.len()
            == 0 || b.len() == 0,
    ensures
        contains_seq(a + b, p) <==> (contains_seq(a, p) || contains_seq(b, p)),
{
    if contains_seq(a, p) {
        lemma_contains_left(a, b, p);
    }
    if contains_seq(b, p) {
        lemma_contains_right(a, b, p);
    }
    if contains_seq(a + b, p) {
        let s = a + b;
        let k = choose|k: int| occurs_at(s, p, k);
        let w = s.subrange(k, k + p.len());
        if k + p.len() <= a.len() {
            assert(a.subrange(k, k + p.len()) =~= w);
            assert(occurs_at(a, p, k));
        } else if k >= a.len() {
            assert(b.subrange(k - a.len(), k - a.len() + p.len()) =~= w);
            assert(occurs_at(b, p, k - a.len()));
        } else {
            // The occurrence crosses the seam: it holds both the last
            // character of `a` and the first of `b`.
            let j = a.len() - 1 - k;
            assert(w[j] == s[a.len() - 1]);
            assert(p[j] == a.last());
            assert(w[j + 1] == s[a.len() as int]);
            assert(p[j + 1] == b[0]);
        }
    }
}

/// `s` is empty or ends a line.
pub open spec fn ends_line(s: Seq<char>) -> bool {
    s.len() == 0 || s.last() == '\n'
}

/// Joining two texts that each end a line: a pattern without a line break
/// occurs in the join exactly when it occurs in one of them, and the join
/// ends a line.
pub proof fn lemma_join_lines(a: Seq<char>, b: Seq<char>, p: Seq<char>)
    requires
        ends_line(a),
        ends_line(b),
        !p.contains('\n'),
    ensures
        contains_seq(a + b, p) <==> (contains_seq(a, p) || contains_seq(b, p)),
        ends_line(a + b),
{
    lemma_seam(a, b, p);
    if b.len() > 0 {
        assert((a + b).last() == b.last());
    } else {
        assert(a + b =~= a);
    }
}

/// Containment is transitive.
pub proof fn lemma_contains_trans(s: Seq<char>, m: Seq<char>, p: Seq<char>)
    requires
        contains_seq(s, m),
        contains_seq(m, p),
    ensures
        contains_seq(s, p),
{
    let i = choose|i: int| occurs_at(s, m, i);
    let j = choose|j: int| occurs_at(m, p, j);
    assert(s.subrange(i + j, i + j + p.len()) =~= m.subrange(j, j + p.len()));
    assert(occurs_at(s, p, i + j));
}

/// A text begins with (and so holds) any of its prefixes.
pub proof fn lemma_contains_prefix(s: Seq<char>, p: Seq<char>)
    requires
        p.len() <= s.len(),
        s.subrange(0, p.len() as int) == p,
    ensures
        contains_seq(s, p),
{
    assert(occurs_at(s, p, 0));
}

} // verus!
