//! What the project scaffolds share: characters kept or replaced when a
//! project name becomes a package name or an app id, and the prefix for a
//! name that does not start with a letter.
use vstd::prelude::*;

use crate::text::{chars_of, owned, push_char};

verus! {

/// An ASCII letter.
pub open spec fn ascii_alpha(c: char) -> bool {
    ('a' <= c && c <= 'z') || ('A' <= c && c <= 'Z')
}

/// An ASCII letter or digit.
pub open spec fn ascii_alnum(c: char) -> bool {
    ascii_alpha(c) || ('0' <= c && c <= '9')
}

/// A lowercase ASCII letter.
pub open spec fn ascii_lower(c: char) -> bool {
    'a' <= c && c <= 'z'
}

/// A lowercase ASCII letter or an ASCII digit.
pub open spec fn ascii_lower_alnum(c: char) -> bool {
    ascii_lower(c) || ('0' <= c && c <= '9')
}

/// A Cargo package name keeps ASCII letters, digits, `-` and `_`.
pub open spec fn package_char(c: char) -> char {
    if ascii_alnum(c) || c == '-' || c == '_' {
        c
    } else {
        '-'
    }
}

/// A Java-style app id segment keeps ASCII letters, digits and `_` (no
/// dash).
pub open spec fn app_id_char(c: char) -> char {
    if ascii_alnum(c) {
        c
    } else {
        '_'
    }
}

/// `body`, or `prefix + body` when `body` is empty or does not start with
/// a letter.
pub open spec fn prefixed_unless_letter(body: Seq<char>, prefix: Seq<char>) -> Seq<char> {
    if body.len() == 0 || !ascii_alpha(body[0]) {
        prefix + body
    } else {
        body
    }
}

pub fn map_chars(s: &str, dash: bool) -> (r: String)
    ensures
        dash ==> r@ == s@.map_values(|c: char| package_char(c)),
        !dash ==> r@ == s@.map_values(|c: char| app_id_char(c)),
{
    let cs = chars_of(s);
    let mut r = String::new();
    let mut i: usize = 0;
    while i < cs.len()
        invariant
            cs@ == s@,
            i <= cs@.len(),
            dash ==> r@ == s@.take(i as int).map_values(|c: char| package_char(c)),
            !dash ==> r@ == s@.take(i as int).map_values(|c: char| app_id_char(c)),
        decreases cs@.len() - i,
    {
        let c = cs[i];
        let alnum = ('a' <= c && c <= 'z') || ('A' <= c && c <= 'Z') || ('0' <= c && c <= '9');
        let k = if alnum || (dash && (c == '-' || c == '_')) {
            c
        } else if dash {
            '-'
        } else {
            '_'
        };
        push_char(&mut r, k);
        assert(s@.take(i + 1).map_values(|c: char| package_char(c)) =~= s@.take(
            i as int,
        ).map_values(|c: char| package_char(c)).push(package_char(c)));
        assert(s@.take(i + 1).map_values(|c: char| app_id_char(c)) =~= s@.take(
            i as int,
        ).map_values(|c: char| app_id_char(c)).push(app_id_char(c)));
        i = i + 1;
    }
    assert(s@.take(i as int) =~= s@);
    r
}

pub fn prefix_unless_letter(body: String, prefix: &str) -> (r: String)
    ensures
        r@ == prefixed_unless_letter(body@, prefix@),
{
    let cs = chars_of(body.as_str());
    if cs.len() == 0 || !(('a' <= cs[0] && cs[0] <= 'z') || ('A' <= cs[0] && cs[0] <= 'Z')) {
        let mut r = owned(prefix);
        r.append(body.as_str());
        r
    } else {
        body
    }
}

} // verus!
