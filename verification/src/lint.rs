//! `nexa lint`: every page is compiled as `nexa build` would, nothing is
//! written, and the SEO and package warnings of the whole site are
//! gathered; the command fails when there is any. This module holds what
//! it reports of each page and the error it gives for a page that cannot
//! be compiled.
use vstd::prelude::*;

use crate::devtools::{pkg_views, seo_views};
use crate::pipeline::{PageError, SeoWarning};
use crate::pkg_warnings::PackageWarning;
use crate::text::owned;

verus! {

/// `  [<code>] <message>`
pub open spec fn warning_line(code: Seq<char>, message: Seq<char>) -> Seq<char> {
    "  ["@ + code + "] "@ + message
}

/// What `nexa lint` prints for one page: nothing when it has no warning,
/// else its pattern and then one line per warning, SEO ones first.
pub open spec fn report_lines_of(
    pattern: Seq<char>,
    seo: Seq<(Seq<char>, Seq<char>)>,
    pkg: Seq<(Seq<char>, Seq<char>)>,
) -> Seq<Seq<char>> {
    if seo.len() + pkg.len() == 0 {
        seq![]
    } else {
        seq![pattern + ":"@] + seo.map_values(|w: (Seq<char>, Seq<char>)| warning_line(w.0, w.1))
            + pkg.map_values(|w: (Seq<char>, Seq<char>)| warning_line(w.0, w.1))
    }
}

/// The number of warnings of one page, which `nexa lint` adds up over
/// the site.
pub fn report(pattern: &str, seo_warnings: &[SeoWarning], pkg_warnings: &[PackageWarning]) -> (n:
    usize)
    requires
        seo_warnings@.len() + pkg_warnings@.len() <= usize::MAX,
    ensures
        n == seo_warnings@.len() + pkg_warnings@.len(),
{
    seo_warnings.len() + pkg_warnings.len()
}

fn line(code: &str, message: &str) -> (r: String)
    ensures
        r@ == warning_line(code@, message@),
{
    let mut r = owned("  [");
    r.append(code);
    r.append("] ");
    r.append(message);
    r
}

/// The lines `nexa lint` prints for one page.
pub fn report_lines(
    pattern: &str,
    seo_warnings: &[SeoWarning],
    pkg_warnings: &[PackageWarning],
) -> (r: Vec<String>)
    ensures
        r@.map_values(|s: String| s@) == report_lines_of(
            pattern@,
            seo_views(seo_warnings@),
            pkg_views(pkg_warnings@),
        ),
{
    let mut out: Vec<String> = Vec::new();
    if seo_warnings.len() == 0 && pkg_warnings.len() == 0 {
        assert(out@.map_values(|s: String| s@) =~= Seq::<Seq<char>>::empty());
        return out;
    }
    let mut head = owned(pattern);
    head.append(":");
    out.push(head);
    let ghost seo = seo_views(seo_warnings@);
    let ghost pkg = pkg_views(pkg_warnings@);
    let ghost head_seq = seq![pattern@ + ":"@];
    assert(out@.map_values(|s: String| s@) =~= head_seq);
    let mut i: usize = 0;
    while i < seo_warnings.len()
        invariant
            i <= seo_warnings@.len(),
            seo == seo_views(seo_warnings@),
            out@.map_values(|s: String| s@) == head_seq + seo.take(i as int).map_values(
                |w: (Seq<char>, Seq<char>)| warning_line(w.0, w.1),
            ),
        decreases seo_warnings@.len() - i,
    {
        let ghost before = out@.map_values(|s: String| s@);
        out.push(line(seo_warnings[i].code.as_str(), seo_warnings[i].message.as_str()));
        proof {
            assert(seo[i as int] == (seo_warnings@[i as int].code@, seo_warnings@[i as int].message@));
            assert(seo.take(i + 1) =~= seo.take(i as int).push(seo[i as int]));
            assert(out@.map_values(|s: String| s@) =~= before.push(
                warning_line(seo_warnings@[i as int].code@, seo_warnings@[i as int].message@),
            ));
            assert(out@.map_values(|s: String| s@) =~= head_seq + seo.take(i + 1).map_values(
                |w: (Seq<char>, Seq<char>)| warning_line(w.0, w.1),
            ));
        }
        i = i + 1;
    }
    assert(seo.take(i as int) =~= seo);
    let ghost mid = head_seq + seo.map_values(|w: (Seq<char>, Seq<char>)| warning_line(w.0, w.1));
    assert(out@.map_values(|s: String| s@) =~= mid);
    let mut j: usize = 0;
    assert(mid + pkg.take(0).map_values(|w: (Seq<char>, Seq<char>)| warning_line(w.0, w.1))
        =~= mid);
    while j < pkg_warnings.len()
        invariant
            j <= pkg_warnings@.len(),
            pkg == pkg_views(pkg_warnings@),
            out@.map_values(|s: String| s@) == mid + pkg.take(j as int).map_values(
                |w: (Seq<char>, Seq<char>)| warning_line(w.0, w.1),
            ),
        decreases pkg_warnings@.len() - j,
    {
        let ghost before = out@.map_values(|s: String| s@);
        out.push(line(pkg_warnings[j].code, pkg_warnings[j].message.as_str()));
        proof {
            assert(pkg[j as int] == (pkg_warnings@[j as int].code@, pkg_warnings@[j as int].message@));
            assert(pkg.take(j + 1) =~= pkg.take(j as int).push(pkg[j as int]));
            assert(out@.map_values(|s: String| s@) =~= before.push(
                warning_line(pkg_warnings@[j as int].code@, pkg_warnings@[j as int].message@),
            ));
            assert(out@.map_values(|s: String| s@) =~= mid + pkg.take(j + 1).map_values(
                |w: (Seq<char>, Seq<char>)| warning_line(w.0, w.1),
            ));
        }
        j = j + 1;
    }
    assert(pkg.take(j as int) =~= pkg);
    out
}

/// The error `nexa lint` stops with when the page matched by `pattern`
/// cannot be compiled: a `load()` that answered 404 is named as such.
pub fn lint_error(pattern: &str, err: PageError) -> (r: String)
    ensures
        r@ == match err {
            PageError::NotFound => pattern@ + ": su `load()` respondió 404"@,
            PageError::Other(m) => m@,
        },
{
    match err {
        PageError::NotFound => {
            let mut r = owned(pattern);
            r.append(": su `load()` respondió 404");
            r
        },
        PageError::Other(m) => m,
    }
}

} // verus!
