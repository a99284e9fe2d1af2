//! `nexa add tauri`: the `src-tauri/` project generated from its
//! templates, with the project's name and identifier substituted, and a
//! valid Cargo package name derived from the project name.
use vstd::prelude::*;

use crate::scaffold::{
    ascii_alpha, ascii_lower, ascii_lower_alnum, map_chars, package_char, prefix_unless_letter,
    prefixed_unless_letter,
};
use crate::serve::{lowercase, unicode_lowercase};
use crate::text::{owned, replace_seq, replace_str};
use vstd::utf8::encode_utf8;

verus! {

/// A valid Cargo package name made from a project name.
pub open spec fn package_name_of(name: Seq<char>) -> Seq<char> {
    prefixed_unless_letter(
        unicode_lowercase(name).map_values(|c: char| package_char(c)),
        "app-"@,
    )
}

/// A valid Cargo package name: lowercase ASCII letters, digits, `-` and
/// `_`, starting with a letter.
pub fn sanitize_package_name(name: &str) -> (r: String)
    ensures
        r@ == package_name_of(name@),
        r@.len() > 0,
        ascii_lower(r@[0]),
        forall|i: int|
            0 <= i < r@.len() ==> ascii_lower_alnum(#[trigger] r@[i]) || r@[i] == '-' || r@[i]
                == '_',
{
    let lower = lowercase(name);
    let r = prefix_unless_letter(map_chars(lower.as_str(), true), "app-");
    proof {
        let l = unicode_lowercase(name@);
        let body = l.map_values(|c: char| package_char(c));
        reveal_strlit("app-");
        assert(forall|j: int| 0 <= j < body.len() ==> #[trigger] body[j] == package_char(l[j]));
        assert forall|j: int| 0 <= j < body.len() implies ascii_lower_alnum(#[trigger] body[j])
            || body[j] == '-' || body[j] == '_' by {
            assert(!('A' <= l[j] && l[j] <= 'Z'));
        }
        if body.len() == 0 || !ascii_alpha(body[0]) {
            let p = "app-"@ + body;
            assert forall|i: int| 0 <= i < p.len() implies ascii_lower_alnum(#[trigger] p[i])
                || p[i] == '-' || p[i] == '_' by {
                if i >= 4 {
                    assert(p[i] == body[i - 4]);
                }
            }
        } else {
            assert(!('A' <= l[0] && l[0] <= 'Z'));
        }
    }
    r
}

/// The texts of the Tauri project template, and its one icon.
pub struct TauriTemplates {
    pub cargo_toml: String,
    pub tauri_conf: String,
    pub gitignore: String,
    pub main_rs: String,
    pub lib_rs: String,
    pub build_rs: String,
    pub capabilities_default_json: String,
    pub icon_png: Vec<u8>,
}

/// All the template's content, for its lockfile hash: the texts' bytes in
/// order, then the icon.
pub open spec fn template_content(t: TauriTemplates) -> Seq<u8> {
    encode_utf8(t.cargo_toml@) + encode_utf8(t.tauri_conf@) + encode_utf8(t.gitignore@)
        + encode_utf8(t.main_rs@) + encode_utf8(t.lib_rs@) + encode_utf8(t.build_rs@)
        + encode_utf8(t.capabilities_default_json@) + t.icon_png@
}

fn extend_bytes(out: &mut Vec<u8>, bytes: &[u8])
    ensures
        final(out)@ == old(out)@ + bytes@,
{
    let mut i: usize = 0;
    while i < bytes.len()
        invariant
            i <= bytes@.len(),
            out@ == old(out)@ + bytes@.take(i as int),
        decreases bytes@.len() - i,
    {
        out.push(bytes[i]);
        assert(bytes@.take(i + 1) =~= bytes@.take(i as int).push(bytes@[i as int]));
        i = i + 1;
    }
    assert(bytes@.take(i as int) =~= bytes@);
}

/// The whole Tauri template as bytes.
pub fn template_bytes(t: &TauriTemplates) -> (r: Vec<u8>)
    ensures
        r@ == template_content(*t),
{
    let mut bytes: Vec<u8> = Vec::new();
    extend_bytes(&mut bytes, t.cargo_toml.as_str().as_bytes());
    extend_bytes(&mut bytes, t.tauri_conf.as_str().as_bytes());
    extend_bytes(&mut bytes, t.gitignore.as_str().as_bytes());
    extend_bytes(&mut bytes, t.main_rs.as_str().as_bytes());
    extend_bytes(&mut bytes, t.lib_rs.as_str().as_bytes());
    extend_bytes(&mut bytes, t.build_rs.as_str().as_bytes());
    extend_bytes(&mut bytes, t.capabilities_default_json.as_str().as_bytes());
    extend_bytes(&mut bytes, t.icon_png.as_slice());
    assert(bytes@ =~= template_content(*t));
    bytes
}

/// A template with `{{NAME_UNDERSCORE}}` (the name with `_` for `-`),
/// `{{NAME}}` and `{{IDENTIFIER}}` substituted, in that order.
pub open spec fn substituted(template: Seq<char>, name: Seq<char>, identifier: Seq<char>) -> Seq<
    char,
> {
    replace_seq(
        replace_seq(
            replace_seq(template, "{{NAME_UNDERSCORE}}"@, replace_seq(name, "-"@, "_"@)),
            "{{NAME}}"@,
            name,
        ),
        "{{IDENTIFIER}}"@,
        identifier,
    )
}

/// Substitutes the project's name and identifier into a template.
pub fn substitute(template: &str, name: &str, identifier: &str) -> (r: String)
    ensures
        r@ == substituted(template@, name@, identifier@),
{
    proof {
        reveal_strlit("{{NAME_UNDERSCORE}}");
        reveal_strlit("{{NAME}}");
        reveal_strlit("{{IDENTIFIER}}");
        reveal_strlit("-");
    }
    let underscored = replace_str(name, "-", "_");
    let a = replace_str(template, "{{NAME_UNDERSCORE}}", underscored.as_str());
    let b = replace_str(a.as_str(), "{{NAME}}", name);
    replace_str(b.as_str(), "{{IDENTIFIER}}", identifier)
}

/// The text files of `src-tauri/` for a project, as (path under
/// `src-tauri/`, content), in the order they are written; the icon goes
/// to `icons/icon.png`.
pub open spec fn tauri_text_files(t: TauriTemplates, project_name: Seq<char>) -> Seq<
    (Seq<char>, Seq<char>),
> {
    let name = package_name_of(project_name);
    let identifier = "com.nexa."@ + name;
    seq![
        ("Cargo.toml"@, substituted(t.cargo_toml@, name, identifier)),
        ("tauri.conf.json"@, substituted(t.tauri_conf@, name, identifier)),
        (".gitignore"@, t.gitignore@),
        ("build.rs"@, t.build_rs@),
        ("src/main.rs"@, substituted(t.main_rs@, name, identifier)),
        ("src/lib.rs"@, t.lib_rs@),
        ("capabilities/default.json"@, t.capabilities_default_json@),
    ]
}

/// The text files of `src-tauri/` for a project.
pub fn tauri_files(t: &TauriTemplates, project_name: &str) -> (r: Vec<(String, String)>)
    ensures
        r@.map_values(|f: (String, String)| (f.0@, f.1@)) == tauri_text_files(*t, project_name@),
{
    let name = sanitize_package_name(project_name);
    let mut identifier = owned("com.nexa.");
    identifier.append(name.as_str());
    let mut files: Vec<(String, String)> = Vec::new();
    files.push((owned("Cargo.toml"), substitute(t.cargo_toml.as_str(), name.as_str(), identifier.as_str())));
    files.push((owned("tauri.conf.json"), substitute(t.tauri_conf.as_str(), name.as_str(), identifier.as_str())));
    files.push((owned(".gitignore"), owned(t.gitignore.as_str())));
    files.push((owned("build.rs"), owned(t.build_rs.as_str())));
    files.push((owned("src/main.rs"), substitute(t.main_rs.as_str(), name.as_str(), identifier.as_str())));
    files.push((owned("src/lib.rs"), owned(t.lib_rs.as_str())));
    files.push((owned("capabilities/default.json"), owned(t.capabilities_default_json.as_str())));
    assert(files@.map_values(|f: (String, String)| (f.0@, f.1@)) =~= tauri_text_files(
        *t,
        project_name@,
    ));
    files
}

} // verus!
