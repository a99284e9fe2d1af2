//! Performance budgets: `[performance]` in `nexa.toml` declares optional
//! limits, in bytes. Nothing is checked unless declared; a page over a
//! declared limit fails the build.
use vstd::prelude::*;

use crate::manifest::PerformanceSection;
use crate::text::{decimal, owned, push_decimal};

verus! {

/// What a compiled page weighs, for the budgets.
pub struct PageUsage {
    pub pattern: String,
    pub initial_js_bytes: u64,
    /// `None` when the page links no `@nexa/ui` stylesheet.
    pub css_bytes: Option<u64>,
    /// The heaviest static image the page references, if one resolved.
    pub largest_image: Option<(String, u64)>,
}

/// A page over one of its budgets.
pub struct Violation {
    pub pattern: String,
    pub budget: &'static str,
    pub limit: u64,
    pub actual: u64,
    /// What went over (the image's path).
    pub detail: Option<String>,
}

/// A violation by its texts: pattern, budget, limit, actual, detail.
pub struct ViolationView {
    pub pattern: Seq<char>,
    pub budget: Seq<char>,
    pub limit: u64,
    pub actual: u64,
    pub detail: Option<Seq<char>>,
}

impl Violation {
    pub open spec fn view(&self) -> ViolationView {
        ViolationView {
            pattern: self.pattern@,
            budget: self.budget@,
            limit: self.limit,
            actual: self.actual,
            detail: match self.detail {
                Some(d) => Some(d@),
                None => None,
            },
        }
    }
}

/// The violations of one page: initial JS, then CSS (only when the page
/// links it), then its largest image (only when one resolved).
pub open spec fn page_violations(b: PerformanceSection, p: PageUsage) -> Seq<ViolationView> {
    (match b.max_initial_js {
        Some(limit) => if p.initial_js_bytes > limit {
            seq![
                ViolationView {
                    pattern: p.pattern@,
                    budget: "maxInitialJS"@,
                    limit,
                    actual: p.initial_js_bytes,
                    detail: None,
                },
            ]
        } else {
            Seq::empty()
        },
        None => Seq::empty(),
    }) + (match (b.max_css, p.css_bytes) {
        (Some(limit), Some(actual)) => if actual > limit {
            seq![
                ViolationView {
                    pattern: p.pattern@,
                    budget: "maxCSS"@,
                    limit,
                    actual,
                    detail: None,
                },
            ]
        } else {
            Seq::empty()
        },
        _ => Seq::empty(),
    }) + match (b.max_image, p.largest_image) {
        (Some(limit), Some((src, actual))) => if actual > limit {
            seq![
                ViolationView {
                    pattern: p.pattern@,
                    budget: "maxImage"@,
                    limit,
                    actual,
                    detail: Some(src@),
                },
            ]
        } else {
            Seq::empty()
        },
        _ => Seq::empty(),
    }
}

/// The violations of every page, page by page.
pub open spec fn budget_violations(b: PerformanceSection, pages: Seq<PageUsage>) -> Seq<ViolationView>
    decreases pages.len(),
{
    if pages.len() == 0 {
        Seq::empty()
    } else {
        budget_violations(b, pages.drop_last()) + page_violations(b, pages.last())
    }
}

pub open spec fn violation_views(v: Seq<Violation>) -> Seq<ViolationView> {
    v.map_values(|x: Violation| x@)
}

fn push_violation(out: &mut Vec<Violation>, v: Violation)
    ensures
        violation_views(final(out)@) == violation_views(old(out)@).push(v@),
{
    let ghost before = violation_views(out@);
    let ghost w = v;
    out.push(v);
    assert(violation_views(out@) =~= before.push(w@));
}

fn check_page(b: &PerformanceSection, page: &PageUsage, out: &mut Vec<Violation>)
    ensures
        violation_views(final(out)@) == violation_views(old(out)@) + page_violations(*b, *page),
{
    let ghost v0 = violation_views(out@);
    match b.max_initial_js {
        Some(limit) => {
            if page.initial_js_bytes > limit {
                push_violation(
                    out,
                    Violation {
                        pattern: owned(page.pattern.as_str()),
                        budget: "maxInitialJS",
                        limit,
                        actual: page.initial_js_bytes,
                        detail: None,
                    },
                );
            }
        },
        None => {},
    }
    let ghost v1 = violation_views(out@);
    match (b.max_css, page.css_bytes) {
        (Some(limit), Some(actual)) => {
            if actual > limit {
                push_violation(
                    out,
                    Violation {
                        pattern: owned(page.pattern.as_str()),
                        budget: "maxCSS",
                        limit,
                        actual,
                        detail: None,
                    },
                );
            }
        },
        _ => {},
    }
    let ghost v2 = violation_views(out@);
    match (b.max_image, &page.largest_image) {
        (Some(limit), Some((src, actual))) => {
            if *actual > limit {
                push_violation(
                    out,
                    Violation {
                        pattern: owned(page.pattern.as_str()),
                        budget: "maxImage",
                        limit,
                        actual: *actual,
                        detail: Some(owned(src.as_str())),
                    },
                );
            }
        },
        _ => {},
    }
    proof {
        let p = *page;
        let bb = *b;
        let a: Seq<ViolationView> = match bb.max_initial_js {
            Some(limit) => if p.initial_js_bytes > limit {
                seq![
                    ViolationView {
                        pattern: p.pattern@,
                        budget: "maxInitialJS"@,
                        limit,
                        actual: p.initial_js_bytes,
                        detail: None,
                    },
                ]
            } else {
                Seq::empty()
            },
            None => Seq::empty(),
        };
        assert(v1 =~= v0 + a);
    }
    assert(violation_views(out@) =~= v0 + page_violations(*b, *page));
}

/// The pages over their declared budgets, page by page, each in the order
/// initial JS, CSS, image.
pub fn check(budget: &PerformanceSection, pages: &[PageUsage]) -> (r: Vec<Violation>)
    ensures
        violation_views(r@) == budget_violations(*budget, pages@),
{
    let mut violations: Vec<Violation> = Vec::new();
    let mut i: usize = 0;
    assert(violation_views(violations@) =~= Seq::<ViolationView>::empty());
    while i < pages.len()
        invariant
            i <= pages@.len(),
            violation_views(violations@) == budget_violations(*budget, pages@.take(i as int)),
        decreases pages@.len() - i,
    {
        proof {
            assert(pages@.take(i + 1).drop_last() =~= pages@.take(i as int));
        }
        check_page(budget, &pages[i], &mut violations);
        i = i + 1;
    }
    assert(pages@.take(i as int) =~= pages@);
    violations
}

/// How a violation is told to the user.
pub open spec fn violation_message(v: ViolationView) -> Seq<char> {
    v.pattern + ": "@ + v.budget + match v.detail {
        Some(d) => " ("@ + d + ")"@,
        None => Seq::empty(),
    } + " usa "@ + decimal(v.actual as nat) + " bytes, supera el presupuesto "@ + v.budget + " de "@
        + decimal(v.limit as nat) + " bytes"@
}

impl Violation {
    /// `pattern: budget (detail) usa N bytes, supera el presupuesto budget
    /// de L bytes`.
    pub fn to_message(&self) -> (r: String)
        ensures
            r@ == violation_message(self@),
    {
        let mut r = owned(self.pattern.as_str());
        r.append(": ");
        r.append(self.budget);
        match &self.detail {
            Some(d) => {
                r.append(" (");
                r.append(d.as_str());
                r.append(")");
            },
            None => {},
        }
        r.append(" usa ");
        push_decimal(&mut r, self.actual as u128);
        r.append(" bytes, supera el presupuesto ");
        r.append(self.budget);
        r.append(" de ");
        push_decimal(&mut r, self.limit as u128);
        r.append(" bytes");
        r
    }
}

} // verus!

verus! {

/// A project that declares no limit has nothing checked: no page is ever
/// over budget.
pub proof fn law_no_budget_no_violation(b: PerformanceSection, pages: Seq<PageUsage>)
    requires
        b.max_initial_js is None,
        b.max_css is None,
        b.max_image is None,
    ensures
        budget_violations(b, pages) == Seq::<ViolationView>::empty(),
    decreases pages.len(),
{
    if pages.len() > 0 {
        law_no_budget_no_violation(b, pages.drop_last());
        assert(page_violations(b, pages.last()) =~= Seq::<ViolationView>::empty());
        assert(budget_violations(b, pages) =~= Seq::<ViolationView>::empty());
    }
}

/// Pages are checked independently: the violations of two lists of pages
/// are those of the first followed by those of the second.
pub proof fn law_pages_checked_independently(
    b: PerformanceSection,
    first: Seq<PageUsage>,
    second: Seq<PageUsage>,
)
    ensures
        budget_violations(b, first + second) == budget_violations(b, first) + budget_violations(
            b,
            second,
        ),
    decreases second.len(),
{
    if second.len() == 0 {
        assert(first + second =~= first);
        assert(budget_violations(b, first) + budget_violations(b, second) =~= budget_violations(
            b,
            first,
        ));
    } else {
        law_pages_checked_independently(b, first, second.drop_last());
        assert((first + second).drop_last() =~= first + second.drop_last());
        assert((first + second).last() == second.last());
        assert(budget_violations(b, first + second) =~= budget_violations(b, first)
            + budget_violations(b, second));
    }
}

/// Every budget that page `p` goes over has its violation in `vs`: the
/// page's pattern, the budget, its declared limit and the page's size.
pub open spec fn reported_when_over(b: PerformanceSection, p: PageUsage, vs: Seq<ViolationView>) -> bool {
    &&& (b.max_initial_js is Some && p.initial_js_bytes > b.max_initial_js->0 ==> vs.contains(
        ViolationView {
            pattern: p.pattern@,
            budget: "maxInitialJS"@,
            limit: b.max_initial_js->0,
            actual: p.initial_js_bytes,
            detail: None,
        },
    ))
    &&& (b.max_css is Some && p.css_bytes is Some && p.css_bytes->0 > b.max_css->0 ==> vs.contains(
        ViolationView {
            pattern: p.pattern@,
            budget: "maxCSS"@,
            limit: b.max_css->0,
            actual: p.css_bytes->0,
            detail: None,
        },
    ))
    &&& (b.max_image is Some && p.largest_image is Some && (p.largest_image->0).1 > b.max_image->0
        ==> vs.contains(
        ViolationView {
            pattern: p.pattern@,
            budget: "maxImage"@,
            limit: b.max_image->0,
            actual: (p.largest_image->0).1,
            detail: Some((p.largest_image->0).0@),
        },
    ))
}

/// `v` reports page `p` over one of the declared budgets: the budget's
/// declared limit as its limit, and what the page measured as its size.
pub open spec fn reports_over(b: PerformanceSection, p: PageUsage, v: ViolationView) -> bool {
    &&& v.pattern == p.pattern@
    &&& v.actual > v.limit
    &&& {
        ||| v.budget == "maxInitialJS"@ && b.max_initial_js == Some(v.limit) && p.initial_js_bytes
            == v.actual && v.detail is None
        ||| v.budget == "maxCSS"@ && b.max_css == Some(v.limit) && p.css_bytes == Some(v.actual)
            && v.detail is None
        ||| v.budget == "maxImage"@ && b.max_image == Some(v.limit) && p.largest_image is Some && (
        p.largest_image->0).1 == v.actual && v.detail == Some((p.largest_image->0).0@)
    }
}

proof fn lemma_page_violations_report(b: PerformanceSection, p: PageUsage)
    ensures
        forall|k: int|
            0 <= k < page_violations(b, p).len() ==> reports_over(b, p, #[trigger] page_violations(b, p)[k]),
        b.max_initial_js is Some && p.initial_js_bytes > b.max_initial_js->0 ==> page_violations(
            b,
            p,
        ).contains(
            ViolationView {
                pattern: p.pattern@,
                budget: "maxInitialJS"@,
                limit: b.max_initial_js->0,
                actual: p.initial_js_bytes,
                detail: None,
            },
        ),
        b.max_css is Some && p.css_bytes is Some && p.css_bytes->0 > b.max_css->0 ==> page_violations(
            b,
            p,
        ).contains(
            ViolationView {
                pattern: p.pattern@,
                budget: "maxCSS"@,
                limit: b.max_css->0,
                actual: p.css_bytes->0,
                detail: None,
            },
        ),
        b.max_image is Some && p.largest_image is Some && (p.largest_image->0).1 > b.max_image->0
            ==> page_violations(b, p).contains(
            ViolationView {
                pattern: p.pattern@,
                budget: "maxImage"@,
                limit: b.max_image->0,
                actual: (p.largest_image->0).1,
                detail: Some((p.largest_image->0).0@),
            },
        ),
{
    let pv = page_violations(b, p);
    let js: Seq<ViolationView> = match b.max_initial_js {
        Some(limit) => if p.initial_js_bytes > limit {
            seq![
                ViolationView {
                    pattern: p.pattern@,
                    budget: "maxInitialJS"@,
                    limit,
                    actual: p.initial_js_bytes,
                    detail: None,
                },
            ]
        } else {
            Seq::empty()
        },
        None => Seq::empty(),
    };
    let css: Seq<ViolationView> = match (b.max_css, p.css_bytes) {
        (Some(limit), Some(actual)) => if actual > limit {
            seq![ViolationView { pattern: p.pattern@, budget: "maxCSS"@, limit, actual, detail: None }]
        } else {
            Seq::empty()
        },
        _ => Seq::empty(),
    };
    let img: Seq<ViolationView> = match (b.max_image, p.largest_image) {
        (Some(limit), Some((src, actual))) => if actual > limit {
            seq![
                ViolationView {
                    pattern: p.pattern@,
                    budget: "maxImage"@,
                    limit,
                    actual,
                    detail: Some(src@),
                },
            ]
        } else {
            Seq::empty()
        },
        _ => Seq::empty(),
    };
    assert(pv == js + css + img);
    assert forall|k: int| 0 <= k < pv.len() implies reports_over(b, p, #[trigger] pv[k]) by {
        if k < js.len() {
            assert(pv[k] == js[k]);
        } else if k < js.len() + css.len() {
            assert(pv[k] == css[k - js.len()]);
        } else {
            assert(pv[k] == img[k - js.len() - css.len()]);
        }
    }
    if js.len() > 0 {
        assert(pv[0] == js[0]);
    }
    if css.len() > 0 {
        assert(pv[js.len() as int] == css[0]);
    }
    if img.len() > 0 {
        assert(pv[(js.len() + css.len()) as int] == img[0]);
    }
}

/// Every violation reports one page over one declared budget, with the
/// budget's declared limit as its limit and the page's measured size as
/// its size (so its size is over its limit); and every page over a
/// declared budget is reported so.
pub proof fn law_violations_report_limit_and_size(b: PerformanceSection, pages: Seq<PageUsage>)
    ensures
        forall|k: int|
            0 <= k < budget_violations(b, pages).len() ==> exists|j: int|
                0 <= j < pages.len() && reports_over(
                    b,
                    #[trigger] pages[j],
                    #[trigger] budget_violations(b, pages)[k],
                ),
        forall|k: int|
            0 <= k < budget_violations(b, pages).len() ==> #[trigger] budget_violations(b, pages)[k].actual
                > budget_violations(b, pages)[k].limit,
        forall|j: int| 0 <= j < pages.len() ==> #[trigger] reported_when_over(b, pages[j], budget_violations(b, pages)),
    decreases pages.len(),
{
    if pages.len() > 0 {
        let rest = pages.drop_last();
        let last = pages.last();
        law_violations_report_limit_and_size(b, rest);
        lemma_page_violations_report(b, last);
        let bv = budget_violations(b, pages);
        let rv = budget_violations(b, rest);
        let pv = page_violations(b, last);
        assert(bv == rv + pv);
        assert forall|k: int| 0 <= k < bv.len() implies exists|j: int|
            0 <= j < pages.len() && reports_over(b, #[trigger] pages[j], #[trigger] bv[k]) by {
            if k < rv.len() {
                assert(bv[k] == rv[k]);
                let j = choose|j: int| 0 <= j < rest.len() && reports_over(b, #[trigger] rest[j], rv[k]);
                assert(pages[j] == rest[j]);
            } else {
                assert(bv[k] == pv[k - rv.len()]);
                assert(reports_over(b, last, bv[k]));
                assert(pages[pages.len() - 1] == last);
            }
        }
        assert forall|k: int| 0 <= k < bv.len() implies #[trigger] bv[k].actual > bv[k].limit by {
            let j = choose|j: int| 0 <= j < pages.len() && reports_over(b, #[trigger] pages[j], bv[k]);
        }
        assert forall|j: int| 0 <= j < pages.len() implies #[trigger] reported_when_over(b, pages[j], bv)
        by {
            if j < rest.len() {
                assert(pages[j] == rest[j]);
                assert(reported_when_over(b, rest[j], rv));
                assert forall|v: ViolationView| rv.contains(v) implies bv.contains(v) by {
                    let i = choose|i: int| 0 <= i < rv.len() && rv[i] == v;
                    assert(bv[i] == rv[i]);
                }
            } else {
                assert(pages[j] == last);
                assert(reported_when_over(b, last, pv));
                assert forall|v: ViolationView| pv.contains(v) implies bv.contains(v) by {
                    let i = choose|i: int| 0 <= i < pv.len() && pv[i] == v;
                    assert(bv[rv.len() + i] == pv[i]);
                }
            }
        }
    }
}

} // verus!
