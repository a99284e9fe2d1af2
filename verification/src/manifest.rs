//! `nexa.toml`, the project manifest: its `[project]`, the official
//! modules declared with `nexa add` (`[dependencies]`), the optional
//! performance budgets, telemetry endpoint and PWA settings, and the
//! third-party identifiers a handler may import (`[imports]`). Reading and
//! writing the file is the command line's business; this is its content.
use vstd::prelude::*;

use crate::strmap::StrMap;

verus! {

/// `[project]`.
pub struct ProjectSection {
    pub name: String,
    pub version: String,
}

impl Default for ProjectSection {
    fn default() -> (s: Self)
        ensures
            s.name@.len() == 0,
            s.version@.len() == 0,
    {
        ProjectSection { name: String::new(), version: String::new() }
    }
}

/// `[performance]`: limits in bytes, each optional on its own
/// (`maxInitialJS`, `maxCSS`, `maxImage` in the file).
#[derive(Debug, Clone, Copy)]
pub struct PerformanceSection {
    pub max_initial_js: Option<u64>,
    pub max_css: Option<u64>,
    pub max_image: Option<u64>,
}

impl Default for PerformanceSection {
    fn default() -> (s: Self)
        ensures
            s.max_initial_js is None,
            s.max_css is None,
            s.max_image is None,
    {
        PerformanceSection { max_initial_js: None, max_css: None, max_image: None }
    }
}

/// `[telemetry]`: without an endpoint, nothing is sent nor loaded.
pub struct TelemetrySection {
    pub endpoint: Option<String>,
}

impl Default for TelemetrySection {
    fn default() -> (s: Self)
        ensures
            s.endpoint is None,
    {
        TelemetrySection { endpoint: None }
    }
}

/// `[pwa]`, with its `[pwa.cache]` rules (path prefix to caching
/// strategy).
pub struct PwaSection {
    pub name: String,
    pub short_name: Option<String>,
    pub display: Option<String>,
    pub theme_color: Option<String>,
    pub background_color: Option<String>,
    pub icon: Option<String>,
    pub cache: StrMap<String>,
}

impl Default for PwaSection {
    fn default() -> (s: Self)
        ensures
            s.name@.len() == 0,
            s.short_name is None,
            s.display is None,
            s.theme_color is None,
            s.background_color is None,
            s.icon is None,
            s.cache@ == Map::<Seq<char>, String>::empty(),
    {
        PwaSection {
            name: String::new(),
            short_name: None,
            display: None,
            theme_color: None,
            background_color: None,
            icon: None,
            cache: StrMap::new(),
        }
    }
}

/// The whole manifest; every section may be missing from the file.
pub struct Manifest {
    pub project: ProjectSection,
    pub dependencies: StrMap<String>,
    pub performance: Option<PerformanceSection>,
    pub telemetry: Option<TelemetrySection>,
    pub imports: StrMap<String>,
    pub pwa: Option<PwaSection>,
}

impl Default for Manifest {
    fn default() -> (m: Self)
        ensures
            m.project.name@.len() == 0,
            m.dependencies@ == Map::<Seq<char>, String>::empty(),
            m.performance is None,
            m.telemetry is None,
            m.imports@ == Map::<Seq<char>, String>::empty(),
            m.pwa is None,
    {
        Manifest {
            project: ProjectSection::default(),
            dependencies: StrMap::new(),
            performance: None,
            telemetry: None,
            imports: StrMap::new(),
            pwa: None,
        }
    }
}

impl Manifest {
    /// The project declared the module `name`.
    pub fn has_dependency(&self, name: &str) -> (b: bool)
        ensures
            b == self.dependencies@.contains_key(name@),
    {
        self.dependencies.contains_key(name)
    }
}

} // verus!
