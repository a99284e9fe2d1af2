//! Just enough JavaScript scanning to tell whether a handler's source
//! really refers to a name: the text of string literals and comments is
//! masked out (a name that only appears there is no use of it), while the
//! `${...}` interpolations of template literals stay code. A use is then
//! an occurrence of the name that no identifier character touches on
//! either side. This is no JavaScript parser (regular expression literals,
//! for one, are read as code), only a cheap and sufficient signal.
use vstd::prelude::*;

use crate::text::{chars_of, matches_at, occurs_at};

verus! {

/// Where the scanner stands in the source.
#[derive(Debug, Clone, Copy, PartialEq, Eq, Structural)]
pub enum ScanMode {
    /// Plain code.
    Code,
    /// Code, right after a `/` (which may open a comment).
    Slash,
    /// Inside a `//` comment.
    LineComment,
    /// Inside a `/* */` comment.
    BlockComment,
    /// Inside a `/* */` comment, right after a `*`.
    BlockStar,
    /// Inside a string literal opened by the given quote.
    Quoted(char),
    /// Inside a string literal, right after a backslash.
    QuotedEscape(char),
    /// Inside the text of a template literal.
    Template,
    /// Inside a template literal, right after a backslash.
    TemplateEscape,
    /// Inside a template literal, right after a `$`.
    TemplateDollar,
}

/// One step in code. `frames` holds, for each template interpolation
/// the scanner is inside of (innermost last), how many `{` opened in it
/// are still open; the `}` that closes the interpolation itself resumes
/// the template's text. The character is kept, except quotes and
/// backquotes, which are masked.
pub open spec fn code_step(frames: Seq<nat>, c: char) -> (ScanMode, Seq<nat>, char) {
    if c == '/' {
        (ScanMode::Slash, frames, '/')
    } else if c == '\'' || c == '"' {
        (ScanMode::Quoted(c), frames, ' ')
    } else if c == '`' {
        (ScanMode::Template, frames, ' ')
    } else if c == '{' {
        (
            ScanMode::Code,
            if frames.len() > 0 {
                frames.update(frames.len() - 1, frames.last() + 1)
            } else {
                frames
            },
            '{',
        )
    } else if c == '}' {
        if frames.len() == 0 {
            (ScanMode::Code, frames, '}')
        } else if frames.last() == 0 {
            (ScanMode::Template, frames.drop_last(), ' ')
        } else {
            (ScanMode::Code, frames.update(frames.len() - 1, (frames.last() - 1) as nat), '}')
        }
    } else {
        (ScanMode::Code, frames, c)
    }
}

/// One step in a template literal's text (masked).
pub open spec fn template_step(frames: Seq<nat>, c: char) -> (ScanMode, Seq<nat>, char) {
    if c == '\\' {
        (ScanMode::TemplateEscape, frames, ' ')
    } else if c == '`' {
        (ScanMode::Code, frames, ' ')
    } else if c == '$' {
        (ScanMode::TemplateDollar, frames, ' ')
    } else {
        (ScanMode::Template, frames, ' ')
    }
}

/// One step of the scanner: the next mode, the next frames, and the
/// character that the code view holds for `c` (`c` itself in code, a
/// space in a literal or a comment, the line break that ends a `//`
/// comment kept).
pub open spec fn scan_step(mode: ScanMode, frames: Seq<nat>, c: char) -> (ScanMode, Seq<nat>, char) {
    match mode {
        ScanMode::Code => code_step(frames, c),
        ScanMode::Slash => if c == '/' {
            (ScanMode::LineComment, frames, ' ')
        } else if c == '*' {
            (ScanMode::BlockComment, frames, ' ')
        } else {
            code_step(frames, c)
        },
        ScanMode::LineComment => if c == '\n' {
            (ScanMode::Code, frames, '\n')
        } else {
            (ScanMode::LineComment, frames, ' ')
        },
        ScanMode::BlockComment => if c == '*' {
            (ScanMode::BlockStar, frames, ' ')
        } else {
            (ScanMode::BlockComment, frames, ' ')
        },
        ScanMode::BlockStar => if c == '/' {
            (ScanMode::Code, frames, ' ')
        } else if c == '*' {
            (ScanMode::BlockStar, frames, ' ')
        } else {
            (ScanMode::BlockComment, frames, ' ')
        },
        ScanMode::Quoted(q) => if c == '\\' {
            (ScanMode::QuotedEscape(q), frames, ' ')
        } else if c == q {
            (ScanMode::Code, frames, ' ')
        } else {
            (ScanMode::Quoted(q), frames, ' ')
        },
        ScanMode::QuotedEscape(q) => (ScanMode::Quoted(q), frames, ' '),
        ScanMode::Template => template_step(frames, c),
        ScanMode::TemplateEscape => (ScanMode::Template, frames, ' '),
        ScanMode::TemplateDollar => if c == '{' {
            (ScanMode::Code, frames.push(0), ' ')
        } else {
            template_step(frames, c)
        },
    }
}

/// The scanner's mode and frames after `s`, and the code view of `s`.
pub open spec fn scan(s: Seq<char>) -> (ScanMode, Seq<nat>, Seq<char>)
    decreases s.len(),
{
    if s.len() == 0 {
        (ScanMode::Code, Seq::empty(), Seq::empty())
    } else {
        let prev = scan(s.drop_last());
        let next = scan_step(prev.0, prev.1, s.last());
        (next.0, next.1, prev.2.push(next.2))
    }
}

/// `s` with the text of its string literals and comments masked by
/// spaces: one character for each character of `s`.
pub open spec fn code_view(s: Seq<char>) -> Seq<char> {
    scan(s).2
}

/// A character that can continue a JavaScript identifier (ASCII letters,
/// digits, `_` and `$`).
pub open spec fn is_ident_char(c: char) -> bool {
    ('a' <= c && c <= 'z') || ('A' <= c && c <= 'Z') || ('0' <= c && c <= '9') || c == '_'
        || c == '$'
}

/// `name` occurs in `code` at `i`, with no identifier character right
/// before or right after it.
pub open spec fn name_at(code: Seq<char>, name: Seq<char>, i: int) -> bool {
    &&& occurs_at(code, name, i)
    &&& (i == 0 || !is_ident_char(code[i - 1]))
    &&& (i + name.len() == code.len() || !is_ident_char(code[i + name.len()]))
}

/// The source `src` refers to `name` outside its literals and comments.
pub open spec fn uses_name(src: Seq<char>, name: Seq<char>) -> bool {
    exists|i: int| name_at(code_view(src), name, i)
}

pub open spec fn frames_view(v: Seq<usize>) -> Seq<nat> {
    v.map_values(|x: usize| x as nat)
}

/// Every frame is at most `b`.
pub open spec fn frames_bounded(f: Seq<nat>, b: nat) -> bool {
    forall|j: int| 0 <= j < f.len() ==> #[trigger] f[j] <= b
}

proof fn lemma_step_bound(mode: ScanMode, f: Seq<nat>, c: char, b: nat)
    requires
        frames_bounded(f, b),
    ensures
        frames_bounded(scan_step(mode, f, c).1, b + 1),
{
    let g = scan_step(mode, f, c).1;
    assert forall|j: int| 0 <= j < g.len() implies #[trigger] g[j] <= b + 1 by {
        if j < f.len() {
            assert(f[j] <= b);
        }
    }
}

pub fn is_ident_char_exec(c: char) -> (b: bool)
    ensures
        b == is_ident_char(c),
{
    ('a' <= c && c <= 'z') || ('A' <= c && c <= 'Z') || ('0' <= c && c <= '9') || c == '_'
        || c == '$'
}

/// One step in code, on the frames held in `frames`.
fn code_step_exec(frames: &mut Vec<usize>, c: char) -> (r: (ScanMode, char))
    requires
        forall|j: int| 0 <= j < old(frames)@.len() ==> #[trigger] old(frames)@[j] < usize::MAX,
    ensures
        (r.0, frames_view(final(frames)@), r.1) == code_step(frames_view(old(frames)@), c),
{
    let ghost f = frames_view(frames@);
    let n = frames.len();
    if c == '/' {
        (ScanMode::Slash, '/')
    } else if c == '\'' || c == '"' {
        (ScanMode::Quoted(c), ' ')
    } else if c == '`' {
        (ScanMode::Template, ' ')
    } else if c == '{' {
        if n > 0 {
            let top = frames[n - 1];
            frames.set(n - 1, top + 1);
            assert(frames_view(frames@) =~= f.update(f.len() - 1, f.last() + 1));
        }
        (ScanMode::Code, '{')
    } else if c == '}' {
        if n == 0 {
            (ScanMode::Code, '}')
        } else {
            let top = frames[n - 1];
            if top == 0 {
                frames.pop();
                assert(frames_view(frames@) =~= f.drop_last());
                (ScanMode::Template, ' ')
            } else {
                frames.set(n - 1, top - 1);
                assert(frames_view(frames@) =~= f.update(f.len() - 1, (f.last() - 1) as nat));
                (ScanMode::Code, '}')
            }
        }
    } else {
        (ScanMode::Code, c)
    }
}

fn template_step_exec(c: char) -> (r: (ScanMode, char))
    ensures
        forall|f: Seq<nat>| #[trigger] template_step(f, c) == (r.0, f, r.1),
{
    if c == '\\' {
        (ScanMode::TemplateEscape, ' ')
    } else if c == '`' {
        (ScanMode::Code, ' ')
    } else if c == '$' {
        (ScanMode::TemplateDollar, ' ')
    } else {
        (ScanMode::Template, ' ')
    }
}

/// One step of the scanner.
fn scan_step_exec(mode: ScanMode, frames: &mut Vec<usize>, c: char) -> (r: (ScanMode, char))
    requires
        forall|j: int| 0 <= j < old(frames)@.len() ==> #[trigger] old(frames)@[j] < usize::MAX,
    ensures
        (r.0, frames_view(final(frames)@), r.1) == scan_step(mode, frames_view(old(frames)@), c),
{
    let ghost f = frames_view(frames@);
    match mode {
        ScanMode::Code => code_step_exec(frames, c),
        ScanMode::Slash => if c == '/' {
            (ScanMode::LineComment, ' ')
        } else if c == '*' {
            (ScanMode::BlockComment, ' ')
        } else {
            code_step_exec(frames, c)
        },
        ScanMode::LineComment => if c == '\n' {
            (ScanMode::Code, '\n')
        } else {
            (ScanMode::LineComment, ' ')
        },
        ScanMode::BlockComment => if c == '*' {
            (ScanMode::BlockStar, ' ')
        } else {
            (ScanMode::BlockComment, ' ')
        },
        ScanMode::BlockStar => if c == '/' {
            (ScanMode::Code, ' ')
        } else if c == '*' {
            (ScanMode::BlockStar, ' ')
        } else {
            (ScanMode::BlockComment, ' ')
        },
        ScanMode::Quoted(q) => if c == '\\' {
            (ScanMode::QuotedEscape(q), ' ')
        } else if c == q {
            (ScanMode::Code, ' ')
        } else {
            (ScanMode::Quoted(q), ' ')
        },
        ScanMode::QuotedEscape(q) => (ScanMode::Quoted(q), ' '),
        ScanMode::Template => template_step_exec(c),
        ScanMode::TemplateEscape => (ScanMode::Template, ' '),
        ScanMode::TemplateDollar => if c == '{' {
            frames.push(0);
            assert(frames_view(frames@) =~= f.push(0));
            (ScanMode::Code, ' ')
        } else {
            template_step_exec(c)
        },
    }
}

/// The code view of `src`: its characters, with the text of string
/// literals and comments replaced by spaces.
pub fn code_view_of(src: &str) -> (r: Vec<char>)
    ensures
        r@ == code_view(src@),
{
    let cs = chars_of(src);
    let n = cs.len();
    let mut mode = ScanMode::Code;
    let mut frames: Vec<usize> = Vec::new();
    let mut out: Vec<char> = Vec::new();
    let mut i: usize = 0;
    assert(cs@.take(0) =~= Seq::<char>::empty());
    assert(frames_view(frames@) =~= Seq::<nat>::empty());
    while i < n
        invariant
            n == cs@.len(),
            cs@ == src@,
            i <= n,
            scan(cs@.take(i as int)) == (mode, frames_view(frames@), out@),
            frames_bounded(frames_view(frames@), i as nat),
        decreases n - i,
    {
        let ghost f = frames_view(frames@);
        proof {
            assert forall|j: int| 0 <= j < frames@.len() implies #[trigger] frames@[j] < usize::MAX by {
                assert(f[j] <= i);
            }
            lemma_step_bound(mode, f, cs@[i as int], i as nat);
            assert(cs@.take(i + 1).drop_last() =~= cs@.take(i as int));
        }
        let (next, c) = scan_step_exec(mode, &mut frames, cs[i]);
        mode = next;
        out.push(c);
        i = i + 1;
    }
    assert(cs@.take(n as int) =~= cs@);
    out
}

/// `src` refers to `name` outside its string literals and comments.
pub fn uses_name_in(src: &str, name: &str) -> (b: bool)
    ensures
        b == uses_name(src@, name@),
{
    let code = code_view_of(src);
    let p = chars_of(name);
    let n = code.len();
    let m = p.len();
    if m > n {
        assert forall|i: int| !name_at(code@, name@, i) by {}
        return false;
    }
    let mut i: usize = 0;
    while i <= n - m
        invariant
            n == code@.len(),
            m == p@.len(),
            p@ == name@,
            m <= n,
            code@ == code_view(src@),
            forall|j: int| 0 <= j < i ==> !name_at(code@, name@, j),
        decreases n - m + 1 - i,
    {
        if matches_at(&code, &p, i) {
            let before_ok = i == 0 || !is_ident_char_exec(code[i - 1]);
            let after_ok = i + m == n || !is_ident_char_exec(code[i + m]);
            if before_ok && after_ok {
                assert(name_at(code@, name@, i as int));
                return true;
            }
        }
        if i == n - m {
            assert forall|j: int| !name_at(code@, name@, j) by {
                if j > i {
                    assert(!occurs_at(code@, name@, j));
                }
            }
            return false;
        }
        i = i + 1;
    }
    false
}

} // verus!
