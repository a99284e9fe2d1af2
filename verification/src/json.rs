//! JSON text. String literals come from `serde_json` (see [`json_quote`]);
//! objects and arrays are framed here, in the two layouts that
//! `serde_json` prints: compact (`to_string`) and pretty
//! (`to_string_pretty`, two spaces per level).
use vstd::prelude::*;

use crate::text::{contains_seq, owned, push_char};

verus! {

#[verifier::external_type_specification]
#[verifier::external_body]
pub struct ExJsonError(serde_json::Error);

/// How JSON writes one character inside a string literal: `"` and `\` are
/// backslash-escaped, the control characters below U+0020 become `\b`,
/// `\t`, `\n`, `\f`, `\r` or `\u00XX` (lowercase hex), and every other
/// character stands as it is.
pub open spec fn json_escape_char(c: char) -> Seq<char> {
    if c == '"' {
        seq!['\\', '"']
    } else if c == '\\' {
        seq!['\\', '\\']
    } else if c == '\x08' {
        seq!['\\', 'b']
    } else if c == '\t' {
        seq!['\\', 't']
    } else if c == '\n' {
        seq!['\\', 'n']
    } else if c == '\x0c' {
        seq!['\\', 'f']
    } else if c == '\r' {
        seq!['\\', 'r']
    } else if (c as u32) < 0x20 {
        seq!['\\', 'u', '0', '0', crate::text::hex_char((c as u32 / 16) as nat),
            crate::text::hex_char((c as u32 % 16) as nat)]
    } else {
        seq![c]
    }
}

/// The escaped body of a JSON string literal.
pub open spec fn json_escape(s: Seq<char>) -> Seq<char>
    decreases s.len(),
{
    if s.len() == 0 {
        Seq::empty()
    } else {
        json_escape(s.drop_last()) + json_escape_char(s.last())
    }
}

/// The JSON string literal of `s`.
pub open spec fn json_string_literal(s: Seq<char>) -> Seq<char> {
    seq!['"'] + json_escape(s) + seq!['"']
}

/// `n` levels of two-space indentation.
pub open spec fn indent(n: nat) -> Seq<char>
    decreases n,
{
    if n == 0 {
        Seq::empty()
    } else {
        indent((n - 1) as nat) + seq![' ', ' ']
    }
}

/// The items, each preceded by `prefix`, separated by `sep`.
pub open spec fn join_items(items: Seq<Seq<char>>, sep: Seq<char>, prefix: Seq<char>) -> Seq<
    char,
>
    decreases items.len(),
{
    if items.len() == 0 {
        Seq::empty()
    } else if items.len() == 1 {
        prefix + items[0]
    } else {
        join_items(items.drop_last(), sep, prefix) + sep + prefix + items.last()
    }
}

/// A pretty-printed container at nesting depth `depth`: `open` and
/// `close` alone when empty, otherwise one item per line, indented one
/// level deeper, with the closing bracket on its own line.
pub open spec fn pretty_container(open: char, close: char, items: Seq<Seq<char>>, depth: nat) -> Seq<
    char,
> {
    if items.len() == 0 {
        seq![open, close]
    } else {
        seq![open] + join_items(items, seq![','], seq!['\n'] + indent(depth + 1)) + seq!['\n']
            + indent(depth) + seq![close]
    }
}

/// A compact container: items separated by commas, no whitespace.
pub open spec fn compact_container(open: char, close: char, items: Seq<Seq<char>>) -> Seq<char> {
    seq![open] + join_items(items, seq![','], Seq::empty()) + seq![close]
}

/// A pretty object member: `"key": value`.
pub open spec fn pretty_member(key: Seq<char>, value: Seq<char>) -> Seq<char> {
    json_string_literal(key) + seq![':', ' '] + value
}

/// A compact object member: `"key":value`.
pub open spec fn compact_member(key: Seq<char>, value: Seq<char>) -> Seq<char> {
    json_string_literal(key) + seq![':'] + value
}

/// Serialises a string with `serde_json::to_string`, which writes the
/// string as a JSON literal: the text between double quotes, escaped as
/// [`json_escape_char`] says (its escape table), into an in-memory buffer
/// that cannot fail to take the bytes, so the call always succeeds.
#[verifier::external_body]
fn serde_quote(s: &str) -> (r: Result<String, serde_json::Error>)
    ensures
        r is Ok,
        r matches Ok(q) ==> q@ == json_string_literal(s@),
{
    serde_json::to_string(s)
}

/// The JSON string literal of `s`.
pub fn json_quote(s: &str) -> (r: String)
    ensures
        r@ == json_string_literal(s@),
{
    match serde_quote(s) {
        Ok(q) => q,
        Err(_) => {
            assert(false);
            String::new()
        },
    }
}

/// Appends `n` levels of indentation.
pub fn push_indent(out: &mut String, n: usize)
    ensures
        final(out)@ == old(out)@ + indent(n as nat),
    decreases n,
{
    if n > 0 {
        push_indent(out, n - 1);
        out.append("  ");
        assert(out@ =~= old(out)@ + indent(n as nat)) by {
            reveal_strlit("  ");
        }
    } else {
        assert(out@ =~= old(out)@ + indent(n as nat));
    }
}

/// Appends the items, each preceded by `prefix`, separated by `sep`.
pub fn push_joined(out: &mut String, items: &Vec<String>, sep: &str, prefix: &str)
    ensures
        final(out)@ == old(out)@ + join_items(items@.map_values(|x: String| x@), sep@, prefix@),
{
    let ghost views = items@.map_values(|x: String| x@);
    let mut i: usize = 0;
    while i < items.len()
        invariant
            views == items@.map_values(|x: String| x@),
            i <= items@.len(),
            out@ == old(out)@ + join_items(views.take(i as int), sep@, prefix@),
        decreases items@.len() - i,
    {
        let ghost before = out@;
        if i > 0 {
            out.append(sep);
        }
        out.append(prefix);
        out.append(items[i].as_str());
        proof {
            let t = views.take(i + 1);
            assert(t.drop_last() =~= views.take(i as int));
            assert(t.last() == items@[i as int]@);
            if i == 0 {
                assert(join_items(views.take(0), sep@, prefix@) =~= Seq::<char>::empty());
                assert(out@ =~= old(out)@ + join_items(t, sep@, prefix@));
            } else {
                assert(out@ =~= old(out)@ + join_items(t, sep@, prefix@));
            }
        }
        i = i + 1;
    }
    assert(views.take(i as int) =~= views);
}

/// A pretty-printed container of already-rendered items.
pub fn pretty_container_of(open: char, close: char, items: &Vec<String>, depth: usize) -> (r: String)
    requires
        depth < usize::MAX,
    ensures
        r@ == pretty_container(open, close, items@.map_values(|x: String| x@), depth as nat),
{
    let mut r = String::new();
    push_char(&mut r, open);
    if items.len() == 0 {
        push_char(&mut r, close);
        assert(r@ =~= seq![open, close]);
        return r;
    }
    let mut prefix = owned("\n");
    push_indent(&mut prefix, depth + 1);
    push_joined(&mut r, items, ",", prefix.as_str());
    push_char(&mut r, '\n');
    push_indent(&mut r, depth);
    push_char(&mut r, close);
    proof {
        reveal_strlit("\n");
        reveal_strlit(",");
        assert(","@ =~= seq![',']);
        assert("\n"@ =~= seq!['\n']);
        assert(r@ =~= pretty_container(open, close, items@.map_values(|x: String| x@), depth as nat));
    }
    r
}

/// A compact container of already-rendered items.
pub fn compact_container_of(open: char, close: char, items: &Vec<String>) -> (r: String)
    ensures
        r@ == compact_container(open, close, items@.map_values(|x: String| x@)),
{
    let mut r = String::new();
    push_char(&mut r, open);
    push_joined(&mut r, items, ",", "");
    push_char(&mut r, close);
    proof {
        reveal_strlit(",");
        reveal_strlit("");
        assert(","@ =~= seq![',']);
        assert(""@ =~= Seq::<char>::empty());
        assert(r@ =~= compact_container(open, close, items@.map_values(|x: String| x@)));
    }
    r
}

/// `"key": value` for a value already rendered.
pub fn pretty_member_of(key: &str, value: &str) -> (r: String)
    ensures
        r@ == pretty_member(key@, value@),
{
    let mut r = json_quote(key);
    r.append(": ");
    r.append(value);
    proof {
        reveal_strlit(": ");
    }
    assert(r@ =~= pretty_member(key@, value@));
    r
}

/// `"key":value` for a value already rendered.
pub fn compact_member_of(key: &str, value: &str) -> (r: String)
    ensures
        r@ == compact_member(key@, value@),
{
    let mut r = json_quote(key);
    r.append(":");
    r.append(value);
    proof {
        reveal_strlit(":");
    }
    assert(r@ =~= compact_member(key@, value@));
    r
}

/// Every item occurs in the items joined.
pub proof fn lemma_join_items_has(items: Seq<Seq<char>>, sep: Seq<char>, prefix: Seq<char>, k: int)
    requires
        0 <= k < items.len(),
    ensures
        contains_seq(join_items(items, sep, prefix), items[k]),
    decreases items.len(),
{
    crate::text::lemma_contains_self(items[k]);
    if items.len() == 1 {
        crate::text::lemma_contains_right(prefix, items[0], items[k]);
    } else {
        let rest = join_items(items.drop_last(), sep, prefix);
        if k == items.len() - 1 {
            crate::text::lemma_contains_right(rest + sep + prefix, items.last(), items[k]);
        } else {
            lemma_join_items_has(items.drop_last(), sep, prefix, k);
            assert(items.drop_last()[k] == items[k]);
            crate::text::lemma_contains_left(rest, sep, items[k]);
            crate::text::lemma_contains_left(rest + sep, prefix, items[k]);
            crate::text::lemma_contains_left(rest + sep + prefix, items.last(), items[k]);
        }
    }
}

/// Every item occurs in a pretty container of them.
pub proof fn lemma_pretty_container_has(open: char, close: char, items: Seq<Seq<char>>, depth: nat, k: int)
    requires
        0 <= k < items.len(),
    ensures
        contains_seq(pretty_container(open, close, items, depth), items[k]),
{
    let j = join_items(items, seq![','], seq!['\n'] + indent(depth + 1));
    lemma_join_items_has(items, seq![','], seq!['\n'] + indent(depth + 1), k);
    crate::text::lemma_contains_right(seq![open], j, items[k]);
    crate::text::lemma_contains_left(seq![open] + j, seq!['\n'], items[k]);
    crate::text::lemma_contains_left(seq![open] + j + seq!['\n'], indent(depth), items[k]);
    crate::text::lemma_contains_left(seq![open] + j + seq!['\n'] + indent(depth), seq![close], items[k]);
}

} // verus!
