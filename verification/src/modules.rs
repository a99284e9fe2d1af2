//! The official Nexa modules a project can declare with `nexa add`, and
//! the internal ones that exist but are never declared (the core router
//! and runtime, the development client): knowing those gives a useful
//! error message for `nexa add router`.
use vstd::prelude::*;

use crate::hash::{fnv1a_hex, fnv1a_hex_of};
use crate::text::str_eq;

verus! {

/// The compatibility promise of a module: `Stable` follows SemVer,
/// `Experimental` may break in a minor version, `Internal` promises
/// nothing and is never declared by hand.
#[derive(Debug, Clone, Copy, PartialEq, Eq, Structural)]
pub enum Stability {
    Stable,
    Experimental,
    Internal,
}

pub open spec fn stability_name(s: Stability) -> Seq<char> {
    match s {
        Stability::Stable => "stable"@,
        Stability::Experimental => "experimental"@,
        Stability::Internal => "internal"@,
    }
}

impl Stability {
    /// The lowercase name of the stability level.
    pub fn as_str(self) -> (r: &'static str)
        ensures
            r@ == stability_name(self),
    {
        match self {
            Stability::Stable => "stable",
            Stability::Experimental => "experimental",
            Stability::Internal => "internal",
        }
    }
}

/// A module of the registry.
#[derive(Debug, Clone, Copy)]
pub struct ModuleInfo {
    pub name: &'static str,
    pub version: &'static str,
    pub stability: Stability,
    pub description: &'static str,
}

/// The modules `nexa add` accepts, in the order error messages list them,
/// with their stability.
pub open spec fn addable_modules() -> Seq<(Seq<char>, Stability)> {
    seq![
        ("ui"@, Stability::Stable),
        ("forms"@, Stability::Stable),
        ("tauri"@, Stability::Experimental),
        ("capacitor"@, Stability::Experimental),
        ("platform"@, Stability::Experimental),
        ("telemetry"@, Stability::Experimental),
        ("pwa"@, Stability::Experimental),
        ("nginx"@, Stability::Experimental),
    ]
}

/// The modules that exist but are never declared.
pub open spec fn internal_modules() -> Seq<Seq<char>> {
    seq!["router"@, "runtime"@, "dev-client"@]
}

/// What a module is for, as `nexa add` and its errors describe it.
pub open spec fn module_description(name: Seq<char>) -> Seq<char> {
    if name == "ui"@ {
        "Design tokens + Button/Input/Card/Dialog en CSS, con tree-shaking real."@
    } else if name == "forms"@ {
        "Validación con progressive enhancement sobre la Constraint Validation API nativa."@
    } else if name == "tauri"@ {
        "Genera src-tauri/ para empaquetar dist/ como app de escritorio nativa."@
    } else if name == "capacitor"@ {
        "Genera capacitor.config.json para empaquetar dist/ como app móvil (Android/iOS)."@
    } else if name == "platform"@ {
        "isTauri/isCapacitor/isWeb + notifications/storage/share/camera, con un solo código para los tres."@
    } else if name == "telemetry"@ {
        "Core Web Vitals + errores sin capturar — solo se inyecta si nexa.toml declara [telemetry] endpoint."@
    } else if name == "pwa"@ {
        "manifest.webmanifest + service worker real generados por nexa build a partir de [pwa] en nexa.toml."@
    } else if name == "nginx"@ {
        "Genera deploy/nginx.conf para servir dist/ — gzip, cabeceras de seguridad, fallback de rutas dinámicas."@
    } else if name == "router"@ {
        "Navegación SPA + prefetch — siempre activo, no se declara."@
    } else if name == "runtime"@ {
        "Progressive Activation — siempre activo, no se declara."@
    } else if name == "dev-client"@ {
        "Auto-reload de `nexa dev` — nunca se declara a mano."@
    } else {
        Seq::empty()
    }
}

/// Where `name` stands among `names`.
pub open spec fn index_in(names: Seq<Seq<char>>, name: Seq<char>) -> Option<int> {
    if names.contains(name) {
        Some(names.index_of(name))
    } else {
        None
    }
}

fn module(
    name: &'static str,
    stability: Stability,
    description: &'static str,
) -> (m: ModuleInfo)
    ensures
        m.name@ == name@,
        m.version@ == "0.1.0"@,
        m.stability == stability,
        m.description@ == description@,
{
    ModuleInfo { name, version: "0.1.0", stability, description }
}

/// The addable module named `name`.
pub fn find(name: &str) -> (r: Option<ModuleInfo>)
    ensures
        match r {
            Some(m) => m.name@ == name@ && m.version@ == "0.1.0"@ && m.description@
                == module_description(name@) && exists|i: int|
                0 <= i < addable_modules().len() && addable_modules()[i] == (name@, m.stability),
            None => forall|i: int|
                0 <= i < addable_modules().len() ==> #[trigger] addable_modules()[i].0 != name@,
        },
{
    proof {
        reveal_strlit("ui");
        reveal_strlit("forms");
        reveal_strlit("tauri");
        reveal_strlit("capacitor");
        reveal_strlit("platform");
        reveal_strlit("telemetry");
        reveal_strlit("pwa");
        reveal_strlit("nginx");
        assert(addable_modules()[0] == ("ui"@, Stability::Stable));
        assert(addable_modules()[1] == ("forms"@, Stability::Stable));
        assert(addable_modules()[2] == ("tauri"@, Stability::Experimental));
        assert(addable_modules()[3] == ("capacitor"@, Stability::Experimental));
        assert(addable_modules()[4] == ("platform"@, Stability::Experimental));
        assert(addable_modules()[5] == ("telemetry"@, Stability::Experimental));
        assert(addable_modules()[6] == ("pwa"@, Stability::Experimental));
        assert(addable_modules()[7] == ("nginx"@, Stability::Experimental));
    }
    if str_eq(name, "ui") {
        Some(module("ui", Stability::Stable, "Design tokens + Button/Input/Card/Dialog en CSS, con tree-shaking real."))
    } else if str_eq(name, "forms") {
        Some(module("forms", Stability::Stable, "Validación con progressive enhancement sobre la Constraint Validation API nativa."))
    } else if str_eq(name, "tauri") {
        Some(module("tauri", Stability::Experimental, "Genera src-tauri/ para empaquetar dist/ como app de escritorio nativa."))
    } else if str_eq(name, "capacitor") {
        Some(module("capacitor", Stability::Experimental, "Genera capacitor.config.json para empaquetar dist/ como app móvil (Android/iOS)."))
    } else if str_eq(name, "platform") {
        Some(module("platform", Stability::Experimental, "isTauri/isCapacitor/isWeb + notifications/storage/share/camera, con un solo código para los tres."))
    } else if str_eq(name, "telemetry") {
        Some(module("telemetry", Stability::Experimental, "Core Web Vitals + errores sin capturar — solo se inyecta si nexa.toml declara [telemetry] endpoint."))
    } else if str_eq(name, "pwa") {
        Some(module("pwa", Stability::Experimental, "manifest.webmanifest + service worker real generados por nexa build a partir de [pwa] en nexa.toml."))
    } else if str_eq(name, "nginx") {
        Some(module("nginx", Stability::Experimental, "Genera deploy/nginx.conf para servir dist/ — gzip, cabeceras de seguridad, fallback de rutas dinámicas."))
    } else {
        None
    }
}

/// The internal module named `name`.
pub fn find_internal(name: &str) -> (r: Option<ModuleInfo>)
    ensures
        match r {
            Some(m) => m.name@ == name@ && m.version@ == "0.1.0"@ && m.description@
                == module_description(name@) && m.stability == Stability::Internal && internal_modules().contains(name@),
            None => !internal_modules().contains(name@),
        },
{
    proof {
        reveal_strlit("router");
        reveal_strlit("runtime");
        reveal_strlit("dev-client");
        reveal_strlit("ui");
        reveal_strlit("forms");
        reveal_strlit("tauri");
        reveal_strlit("capacitor");
        reveal_strlit("platform");
        reveal_strlit("telemetry");
        reveal_strlit("pwa");
        reveal_strlit("nginx");
        assert("ui"@.len() == 2 && "forms"@.len() == 5 && "tauri"@.len() == 5);
        assert("capacitor"@.len() == 9 && "platform"@.len() == 8 && "telemetry"@.len() == 9);
        assert("pwa"@.len() == 3 && "nginx"@.len() == 5 && "router"@.len() == 6);
        assert("runtime"@.len() == 7 && "dev-client"@.len() == 10);
        assert(internal_modules()[0] == "router"@);
        assert(internal_modules()[1] == "runtime"@);
        assert(internal_modules()[2] == "dev-client"@);
    }
    if str_eq(name, "router") {
        Some(module("router", Stability::Internal, "Navegación SPA + prefetch — siempre activo, no se declara."))
    } else if str_eq(name, "runtime") {
        Some(module("runtime", Stability::Internal, "Progressive Activation — siempre activo, no se declara."))
    } else if str_eq(name, "dev-client") {
        Some(module("dev-client", Stability::Internal, "Auto-reload de `nexa dev` — nunca se declara a mano."))
    } else {
        None
    }
}

/// The embedded contents that module hashes are taken of.
pub struct ModuleSources {
    /// The whole `@nexa/ui` source.
    pub ui: String,
    pub forms_js: String,
    pub platform_js: String,
    pub telemetry_js: String,
    /// The Tauri template, as `tauri::template_bytes` concatenates it.
    pub tauri_template: Vec<u8>,
    /// The shape of the Capacitor configuration template.
    pub capacitor_template: Vec<u8>,
}

/// The lockfile content hash of module `name`: that of its embedded
/// content, for the modules that have one.
pub open spec fn content_hash_of(sources: ModuleSources, name: Seq<char>) -> Option<Seq<char>> {
    if name == "ui"@ {
        Some(fnv1a_hex_of(vstd::utf8::encode_utf8(sources.ui@)))
    } else if name == "forms"@ {
        Some(fnv1a_hex_of(vstd::utf8::encode_utf8(sources.forms_js@)))
    } else if name == "tauri"@ {
        Some(fnv1a_hex_of(sources.tauri_template@))
    } else if name == "capacitor"@ {
        Some(fnv1a_hex_of(sources.capacitor_template@))
    } else if name == "platform"@ {
        Some(fnv1a_hex_of(vstd::utf8::encode_utf8(sources.platform_js@)))
    } else if name == "telemetry"@ {
        Some(fnv1a_hex_of(vstd::utf8::encode_utf8(sources.telemetry_js@)))
    } else {
        None
    }
}

/// The content hash `nexa.lock` records for module `name`, so that it can
/// notice when a module's embedded content changed between two versions of
/// the tool.
pub fn content_hash(name: &str, sources: &ModuleSources) -> (r: Option<String>)
    ensures
        match r {
            Some(h) => content_hash_of(*sources, name@) == Some(h@),
            None => content_hash_of(*sources, name@) is None,
        },
{
    if str_eq(name, "ui") {
        Some(fnv1a_hex(sources.ui.as_str().as_bytes()))
    } else if str_eq(name, "forms") {
        Some(fnv1a_hex(sources.forms_js.as_str().as_bytes()))
    } else if str_eq(name, "tauri") {
        Some(fnv1a_hex(sources.tauri_template.as_slice()))
    } else if str_eq(name, "capacitor") {
        Some(fnv1a_hex(sources.capacitor_template.as_slice()))
    } else if str_eq(name, "platform") {
        Some(fnv1a_hex(sources.platform_js.as_str().as_bytes()))
    } else if str_eq(name, "telemetry") {
        Some(fnv1a_hex(sources.telemetry_js.as_str().as_bytes()))
    } else {
        None
    }
}

} // verus!
