//! Verified core of the Nexa web framework toolchain.
use vstd::prelude::*;

pub mod activation;
pub mod add;
pub mod assets;
pub mod ast;
pub mod bootstrap;
pub mod capacitor_scaffold;
pub mod dev;
pub mod dev_watch;
pub mod devtools;
pub mod document;
pub mod hash;
pub mod i18n;
pub mod image_pipeline;
pub mod image_scan;
pub mod import_map;
pub mod ir;
pub mod layout;
pub mod lint;
pub mod lockfile;
pub mod manifest;
pub mod js;
pub mod json;
pub mod modules;
pub mod nginx_scaffold;
pub mod page_resolver;
pub mod performance_budget;
pub mod pipeline;
pub mod pkg_warnings;
pub mod preview;
pub mod pwa;
pub mod scaffold;
pub mod serve;
pub mod site_build;
pub mod strmap;
pub mod tauri_scaffold;
pub mod text;

verus! {
} // verus!
