//! `nexa add <module>`: declaring an official module in `nexa.toml` and
//! `nexa.lock`. This module decides what the command does with a name (an
//! error for an internal or unknown module, nothing when it is already
//! declared at its version, an install otherwise), how the manifest
//! changes, and which package the lockfile records.
use vstd::prelude::*;

use crate::lockfile::LockedPackage;
use crate::manifest::{Manifest, PwaSection};
use crate::modules::{
    addable_modules, content_hash, content_hash_of, find, find_internal, internal_modules,
    module_description, stability_name, ModuleInfo, ModuleSources,
};
use crate::strmap::StrMap;
use crate::text::{owned, str_eq};

verus! {

/// What `nexa add` does with a name it accepted.
pub enum AddPlan {
    /// The module is already declared at its version: nothing to do.
    AlreadyDeclared(ModuleInfo),
    /// The module is to be declared (and scaffolded, for those that are).
    Install(ModuleInfo),
}

/// `name` is an addable module, with that stability.
pub open spec fn is_addable(name: Seq<char>, stability: crate::modules::Stability) -> bool {
    exists|i: int| 0 <= i < addable_modules().len() && addable_modules()[i] == (name, stability)
}

/// No addable module is called `name`.
pub open spec fn not_addable(name: Seq<char>) -> bool {
    forall|i: int| 0 <= i < addable_modules().len() ==> #[trigger] addable_modules()[i].0 != name
}

/// The error for an internal module.
pub open spec fn internal_error(name: Seq<char>) -> Seq<char> {
    "`"@ + name + "` es un módulo interno ("@ + "internal"@ + ") — "@ + module_description(name)
        + " No se declara con `nexa add`."@
}

/// The error for a name that is no module at all, listing the addable
/// ones.
pub open spec fn unknown_error(name: Seq<char>) -> Seq<char> {
    "`"@ + name
        + "` no es un módulo oficial de Nexa. Disponibles: ui, forms, tauri, capacitor, platform, telemetry, pwa, nginx"@
}

/// The project declares `name` at exactly `version`.
pub open spec fn declared_at(project: Manifest, name: Seq<char>, version: Seq<char>) -> bool {
    project.dependencies@.contains_key(name) && project.dependencies@[name]@ == version
}

/// The registry's data for the addable module `name`.
pub open spec fn registry_entry(m: ModuleInfo, name: Seq<char>) -> bool {
    &&& m.name@ == name
    &&& m.version@ == "0.1.0"@
    &&& m.description@ == module_description(name)
    &&& is_addable(name, m.stability)
}

/// What `nexa add name` does for `project`.
pub fn plan_add(name: &str, project: &Manifest) -> (r: Result<AddPlan, String>)
    ensures
        match r {
            Ok(AddPlan::AlreadyDeclared(m)) => registry_entry(m, name@) && declared_at(
                *project,
                name@,
                m.version@,
            ),
            Ok(AddPlan::Install(m)) => registry_entry(m, name@) && !declared_at(
                *project,
                name@,
                m.version@,
            ),
            Err(e) => not_addable(name@) && e@ == (if internal_modules().contains(name@) {
                internal_error(name@)
            } else {
                unknown_error(name@)
            }),
        },
{
    match find(name) {
        Some(m) => {
            let already = match project.dependencies.get(name) {
                Some(v) => str_eq(v.as_str(), m.version),
                None => false,
            };
            if already {
                Ok(AddPlan::AlreadyDeclared(m))
            } else {
                Ok(AddPlan::Install(m))
            }
        },
        None => match find_internal(name) {
            Some(internal) => {
                let mut e = owned("`");
                e.append(name);
                e.append("` es un módulo interno (");
                e.append(internal.stability.as_str());
                e.append(") — ");
                e.append(internal.description);
                e.append(" No se declara con `nexa add`.");
                proof {
                    assert(stability_name(internal.stability) == "internal"@);
                    assert(e@ =~= internal_error(name@));
                }
                Err(e)
            },
            None => {
                let mut e = owned("`");
                e.append(name);
                e.append(
                    "` no es un módulo oficial de Nexa. Disponibles: ui, forms, tauri, capacitor, platform, telemetry, pwa, nginx",
                );
                assert(e@ =~= unknown_error(name@));
                Err(e)
            },
        },
    }
}

/// The `[pwa]` section `nexa add pwa` writes for a project named `name`:
/// the app's name and a standalone display, the rest left to fill in.
pub open spec fn pwa_prefilled(s: PwaSection, name: Seq<char>) -> bool {
    &&& s.name@ == name
    &&& s.short_name is None
    &&& s.display is Some && s.display->0@ == "standalone"@
    &&& s.theme_color is None
    &&& s.background_color is None
    &&& s.icon is None
    &&& s.cache@ == Map::<Seq<char>, String>::empty()
}

/// Declares `module` in the project: its version under its name among the
/// dependencies and, for `pwa` in a project without a `[pwa]` section, a
/// prefilled one. Nothing else changes.
pub fn declare_module(project: &mut Manifest, module: &ModuleInfo)
    ensures
        final(project).dependencies@.dom() == old(project).dependencies@.dom().insert(
            module.name@,
        ),
        final(project).dependencies@[module.name@]@ == module.version@,
        forall|k: Seq<char>|
            k != module.name@ && old(project).dependencies@.contains_key(k) ==> #[trigger] final(project).dependencies@[k]
                == old(project).dependencies@[k],
        final(project).project == old(project).project,
        final(project).performance == old(project).performance,
        final(project).telemetry == old(project).telemetry,
        final(project).imports == old(project).imports,
        if module.name@ == "pwa"@ && old(project).pwa is None {
            final(project).pwa is Some && pwa_prefilled(
                final(project).pwa->0,
                old(project).project.name@,
            )
        } else {
            final(project).pwa == old(project).pwa
        },
{
    if str_eq(module.name, "pwa") && project.pwa.is_none() {
        project.pwa = Some(
            PwaSection {
                name: owned(project.project.name.as_str()),
                short_name: None,
                display: Some(owned("standalone")),
                theme_color: None,
                background_color: None,
                icon: None,
                cache: StrMap::new(),
            },
        );
    }
    project.dependencies.insert(owned(module.name), owned(module.version));
}

/// The package `nexa.lock` records for `module`: its name, version and
/// stability, embedded in the tool, with the hash of its embedded content
/// (empty for a module that has none).
pub fn locked_package(module: &ModuleInfo, sources: &ModuleSources) -> (p: LockedPackage)
    ensures
        p.name@ == module.name@,
        p.version@ == module.version@,
        p.stability@ == stability_name(module.stability),
        p.source@ == "builtin"@,
        p.content_hash@ == match content_hash_of(*sources, module.name@) {
            Some(h) => h,
            None => Seq::<char>::empty(),
        },
{
    let hash = match content_hash(module.name, sources) {
        Some(h) => h,
        None => String::new(),
    };
    LockedPackage {
        name: owned(module.name),
        version: owned(module.version),
        stability: owned(module.stability.as_str()),
        source: owned("builtin"),
        content_hash: hash,
    }
}

} // verus!
