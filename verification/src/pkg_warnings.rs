//! `NEXA-PKG-*` warnings: a page uses an official module (`@nexa/ui`
//! classes, `@nexa/forms`, `platform.`) that `nexa.toml` does not
//! declare, or an island whose specifier the import map cannot resolve.
//! They never fail a build.
use vstd::prelude::*;

use crate::manifest::Manifest;
use crate::strmap::{StrMap, StrSet};
use crate::text::owned;

verus! {

/// A warning: its stable code and its message.
pub struct PackageWarning {
    pub code: &'static str,
    pub message: String,
}

pub const UI_WARNING: &'static str = "usa clases `nx-*` de @nexa/ui pero no está declarado en nexa.toml — corre `nexa add ui`.";

pub const FORMS_WARNING: &'static str = "usa <form data-nexa-form> de @nexa/forms pero no está declarado en nexa.toml — corre `nexa add forms`.";

pub const PLATFORM_WARNING: &'static str = "un handler usa `platform.` (@nexa/platform) pero no está declarado en nexa.toml — corre `nexa add platform`.";

/// The message of an island whose specifier the import map lacks.
pub open spec fn island_warning(specifier: Seq<char>) -> Seq<char> {
    "usa data-nexa-island=\""@ + specifier + "\" pero \""@ + specifier
        + "\" no está declarado en nexa.toml [imports] — el navegador no podrá resolverlo."@
}

/// The island warnings, one per undeclared specifier, in order.
pub open spec fn island_warnings(specifiers: Seq<Seq<char>>, imports: Set<Seq<char>>) -> Seq<
    (Seq<char>, Seq<char>),
>
    decreases specifiers.len(),
{
    if specifiers.len() == 0 {
        Seq::empty()
    } else {
        let rest = island_warnings(specifiers.drop_last(), imports);
        let s = specifiers.last();
        if imports.contains(s) {
            rest
        } else {
            rest.push(("NEXA-PKG-004"@, island_warning(s)))
        }
    }
}

/// A warning when `c` holds.
pub open spec fn warning_if(c: bool, code: Seq<char>, message: Seq<char>) -> Seq<(Seq<char>, Seq<char>)> {
    if c {
        seq![(code, message)]
    } else {
        Seq::empty()
    }
}

/// The warnings of a page, as (code, message), in order: `ui`, `forms`,
/// `platform`, then each island specifier missing from the resolved
/// imports.
pub open spec fn package_warnings(
    dependencies: Set<Seq<char>>,
    uses_ui: bool,
    has_forms: bool,
    has_platform: bool,
    island_specifiers: Seq<Seq<char>>,
    imports: Set<Seq<char>>,
) -> Seq<(Seq<char>, Seq<char>)> {
    warning_if(uses_ui && !dependencies.contains("ui"@), "NEXA-PKG-001"@, UI_WARNING@) + warning_if(
        has_forms && !dependencies.contains("forms"@),
        "NEXA-PKG-002"@,
        FORMS_WARNING@,
    ) + warning_if(
        has_platform && !dependencies.contains("platform"@),
        "NEXA-PKG-003"@,
        PLATFORM_WARNING@,
    ) + island_warnings(island_specifiers, imports)
}

pub open spec fn warning_views(w: Seq<PackageWarning>) -> Seq<(Seq<char>, Seq<char>)> {
    w.map_values(|x: PackageWarning| (x.code@, x.message@))
}

fn push_warning(out: &mut Vec<PackageWarning>, code: &'static str, message: String)
    ensures
        warning_views(final(out)@) == warning_views(old(out)@).push((code@, message@)),
{
    let ghost before = warning_views(out@);
    out.push(PackageWarning { code, message });
    assert(warning_views(out@) =~= before.push((code@, message@)));
}

/// The package warnings of a page.
pub fn check(
    manifest: &Manifest,
    ui_used_classes: &StrSet,
    has_forms: bool,
    has_platform: bool,
    island_specifiers: &StrSet,
    resolved_imports: &StrMap<String>,
) -> (r: Vec<PackageWarning>)
    ensures
        warning_views(r@) == package_warnings(
            manifest.dependencies@.dom(),
            ui_used_classes@.len() > 0,
            has_forms,
            has_platform,
            island_specifiers.elems(),
            resolved_imports@.dom(),
        ),
{
    let mut warnings: Vec<PackageWarning> = Vec::new();
    let ghost deps = manifest.dependencies@.dom();
    let uses_ui = !ui_used_classes.is_empty();
    let w1 = uses_ui && !manifest.has_dependency("ui");
    if w1 {
        push_warning(&mut warnings, "NEXA-PKG-001", owned(UI_WARNING));
    }
    let ghost v1 = warning_views(warnings@);
    let w2 = has_forms && !manifest.has_dependency("forms");
    if w2 {
        push_warning(&mut warnings, "NEXA-PKG-002", owned(FORMS_WARNING));
    }
    let ghost v2 = warning_views(warnings@);
    let w3 = has_platform && !manifest.has_dependency("platform");
    if w3 {
        push_warning(&mut warnings, "NEXA-PKG-003", owned(PLATFORM_WARNING));
    }
    let ghost v3 = warning_views(warnings@);
    proof {
        assert(v1 =~= warning_if(w1, "NEXA-PKG-001"@, UI_WARNING@));
        assert(v2 =~= v1 + warning_if(w2, "NEXA-PKG-002"@, FORMS_WARNING@));
        assert(v3 =~= v2 + warning_if(w3, "NEXA-PKG-003"@, PLATFORM_WARNING@));
    }
    let n = island_specifiers.len();
    let mut i: usize = 0;
    while i < n
        invariant
            n == island_specifiers.elems().len(),
            i <= n,
            warning_views(warnings@) == v3 + island_warnings(
                island_specifiers.elems().take(i as int),
                resolved_imports@.dom(),
            ),
        decreases n - i,
    {
        let s = island_specifiers.elem_at(i);
        let ghost before = warning_views(warnings@);
        proof {
            let t = island_specifiers.elems().take(i + 1);
            assert(t.drop_last() =~= island_specifiers.elems().take(i as int));
        }
        if !resolved_imports.contains_key(s.as_str()) {
            let mut msg = owned("usa data-nexa-island=\"");
            msg.append(s.as_str());
            msg.append("\" pero \"");
            msg.append(s.as_str());
            msg.append("\" no está declarado en nexa.toml [imports] — el navegador no podrá resolverlo.");
            push_warning(&mut warnings, "NEXA-PKG-004", msg);
        }
        i = i + 1;
    }
    assert(island_specifiers.elems().take(i as int) =~= island_specifiers.elems());
    warnings
}

} // verus!

verus! {

proof fn lemma_island_warnings_shape(specifiers: Seq<Seq<char>>, imports: Set<Seq<char>>)
    ensures
        forall|i: int|
            0 <= i < island_warnings(specifiers, imports).len() ==> {
                let w = #[trigger] island_warnings(specifiers, imports)[i];
                &&& w.0 == "NEXA-PKG-004"@
                &&& exists|k: int|
                    0 <= k < specifiers.len() && !imports.contains(specifiers[k]) && w.1
                        == island_warning(specifiers[k])
            },
    decreases specifiers.len(),
{
    if specifiers.len() > 0 {
        let rest = specifiers.drop_last();
        lemma_island_warnings_shape(rest, imports);
        let all = island_warnings(specifiers, imports);
        let prev = island_warnings(rest, imports);
        assert forall|i: int| 0 <= i < all.len() implies {
            let w = #[trigger] all[i];
            &&& w.0 == "NEXA-PKG-004"@
            &&& exists|k: int|
                0 <= k < specifiers.len() && !imports.contains(specifiers[k]) && w.1
                    == island_warning(specifiers[k])
        } by {
            if i < prev.len() {
                assert(all[i] == prev[i]);
                let k = choose|k: int|
                    0 <= k < rest.len() && !imports.contains(rest[k]) && prev[i].1 == island_warning(
                        rest[k],
                    );
                assert(specifiers[k] == rest[k]);
            } else {
                let k = specifiers.len() - 1;
                assert(specifiers[k] == specifiers.last());
            }
        }
    }
}

/// A module the project declared is never warned about (`ui`, `forms`
/// and `platform` each have their own code), and an island is reported
/// only for a specifier of the page missing from the import map.
pub proof fn law_declared_packages_are_not_warned(
    dependencies: Set<Seq<char>>,
    uses_ui: bool,
    has_forms: bool,
    has_platform: bool,
    island_specifiers: Seq<Seq<char>>,
    imports: Set<Seq<char>>,
)
    ensures
        ({
            let w = package_warnings(
                dependencies,
                uses_ui,
                has_forms,
                has_platform,
                island_specifiers,
                imports,
            );
            forall|i: int|
                0 <= i < w.len() ==> {
                    &&& (dependencies.contains("ui"@) ==> (#[trigger] w[i]).0 != "NEXA-PKG-001"@)
                    &&& (dependencies.contains("forms"@) ==> w[i].0 != "NEXA-PKG-002"@)
                    &&& (dependencies.contains("platform"@) ==> w[i].0 != "NEXA-PKG-003"@)
                    &&& (w[i].0 == "NEXA-PKG-004"@ ==> exists|k: int|
                        0 <= k < island_specifiers.len() && !imports.contains(island_specifiers[k])
                            && w[i].1 == island_warning(island_specifiers[k]))
                }
        }),
{
    reveal_strlit("NEXA-PKG-001");
    reveal_strlit("NEXA-PKG-002");
    reveal_strlit("NEXA-PKG-003");
    reveal_strlit("NEXA-PKG-004");
    assert("NEXA-PKG-001"@[11] == '1' && "NEXA-PKG-002"@[11] == '2');
    assert("NEXA-PKG-003"@[11] == '3' && "NEXA-PKG-004"@[11] == '4');
    assert("NEXA-PKG-001"@ != "NEXA-PKG-004"@ && "NEXA-PKG-002"@ != "NEXA-PKG-004"@);
    assert("NEXA-PKG-003"@ != "NEXA-PKG-004"@ && "NEXA-PKG-002"@ != "NEXA-PKG-001"@);
    assert("NEXA-PKG-003"@ != "NEXA-PKG-001"@ && "NEXA-PKG-003"@ != "NEXA-PKG-002"@);
    assert("NEXA-PKG-004"@ != "NEXA-PKG-001"@ && "NEXA-PKG-004"@ != "NEXA-PKG-002"@);
    assert("NEXA-PKG-004"@ != "NEXA-PKG-003"@ && "NEXA-PKG-001"@ != "NEXA-PKG-002"@);
    lemma_island_warnings_shape(island_specifiers, imports);
    let a = warning_if(uses_ui && !dependencies.contains("ui"@), "NEXA-PKG-001"@, UI_WARNING@);
    let b = warning_if(
        has_forms && !dependencies.contains("forms"@),
        "NEXA-PKG-002"@,
        FORMS_WARNING@,
    );
    let c = warning_if(
        has_platform && !dependencies.contains("platform"@),
        "NEXA-PKG-003"@,
        PLATFORM_WARNING@,
    );
    let d = island_warnings(island_specifiers, imports);
    let w = package_warnings(dependencies, uses_ui, has_forms, has_platform, island_specifiers, imports);
    assert(w == a + b + c + d);
    assert forall|i: int| 0 <= i < w.len() implies {
        &&& (dependencies.contains("ui"@) ==> (#[trigger] w[i]).0 != "NEXA-PKG-001"@)
        &&& (dependencies.contains("forms"@) ==> w[i].0 != "NEXA-PKG-002"@)
        &&& (dependencies.contains("platform"@) ==> w[i].0 != "NEXA-PKG-003"@)
        &&& (w[i].0 == "NEXA-PKG-004"@ ==> exists|k: int|
            0 <= k < island_specifiers.len() && !imports.contains(island_specifiers[k]) && w[i].1
                == island_warning(island_specifiers[k]))
    } by {
        if i < a.len() {
            assert(w[i] == a[i]);
        } else if i < a.len() + b.len() {
            assert(w[i] == b[i - a.len()]);
        } else if i < a.len() + b.len() + c.len() {
            assert(w[i] == c[i - a.len() - b.len()]);
        } else {
            assert(w[i] == d[i - a.len() - b.len() - c.len()]);
        }
    }
}

} // verus!
