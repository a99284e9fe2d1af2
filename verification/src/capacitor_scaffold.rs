//! `nexa add capacitor`: the minimal `capacitor.config.json`, with the
//! app's Java-style id (no dash allowed) derived from its name.
use vstd::prelude::*;

use crate::scaffold::{
    app_id_char, ascii_lower, ascii_lower_alnum, map_chars, prefix_unless_letter, prefixed_unless_letter,
};
use crate::serve::{lowercase, unicode_lowercase};
use crate::text::owned;
use vstd::utf8::encode_utf8;

verus! {

/// A valid Capacitor app id segment made from a project name.
pub open spec fn app_id_of(name: Seq<char>) -> Seq<char> {
    prefixed_unless_letter(unicode_lowercase(name).map_values(|c: char| app_id_char(c)), "app_"@)
}

/// A valid Capacitor app id segment: lowercase ASCII letters, digits and
/// `_` (never a dash), starting with a letter.
pub fn sanitize_app_id(name: &str) -> (r: String)
    ensures
        r@ == app_id_of(name@),
        r@.len() > 0,
        ascii_lower(r@[0]),
        forall|i: int| 0 <= i < r@.len() ==> ascii_lower_alnum(#[trigger] r@[i]) || r@[i] == '_',
{
    let lower = lowercase(name);
    let r = prefix_unless_letter(map_chars(lower.as_str(), false), "app_");
    proof {
        law_app_id_is_valid(name@);
        let l = unicode_lowercase(name@);
        let body = l.map_values(|c: char| app_id_char(c));
        reveal_strlit("app_");
        assert(forall|j: int| 0 <= j < body.len() ==> #[trigger] body[j] == app_id_char(l[j]));
        assert forall|j: int| 0 <= j < body.len() implies !('A' <= #[trigger] body[j] && body[j]
            <= 'Z') by {
            assert(!('A' <= l[j] && l[j] <= 'Z'));
        }
        if body.len() == 0 || !crate::scaffold::ascii_alpha(body[0]) {
            let p = "app_"@ + body;
            assert forall|i: int| 0 <= i < p.len() implies !('A' <= #[trigger] p[i] && p[i] <= 'Z') by {
                if i >= 4 {
                    assert(p[i] == body[i - 4]);
                }
            }
        }
    }
    r
}

pub const TEMPLATE_SHAPE: &'static str = "{\n  \"appId\": \"com.nexa.{{APP_ID}}\",\n  \"appName\": \"{{APP_NAME}}\",\n  \"webDir\": \"dist\"\n}\n";

/// The shape of the Capacitor configuration, for its lockfile hash (the
/// real file depends on the project's name).
pub fn template_bytes() -> (r: &'static [u8])
    ensures
        r@ == encode_utf8(TEMPLATE_SHAPE@),
{
    TEMPLATE_SHAPE.as_bytes()
}

/// `capacitor.config.json` for an app.
pub open spec fn capacitor_config(app_name: Seq<char>) -> Seq<char> {
    "{\n  \"appId\": \"com.nexa."@ + app_id_of(app_name) + "\",\n  \"appName\": \""@ + app_name
        + "\",\n  \"webDir\": \"dist\"\n}\n"@
}

/// `capacitor.config.json` for an app: its Java-style id, its name, and
/// `dist/` as the web directory.
pub fn render(app_name: &str) -> (r: String)
    ensures
        r@ == capacitor_config(app_name@),
{
    let mut r = owned("{\n  \"appId\": \"com.nexa.");
    r.append(sanitize_app_id(app_name).as_str());
    r.append("\",\n  \"appName\": \"");
    r.append(app_name);
    r.append("\",\n  \"webDir\": \"dist\"\n}\n");
    r
}

} // verus!

verus! {

/// Whatever the project's name, its app id holds only ASCII letters,
/// digits and `_` (never a dash, which Java-style ids refuse) and starts
/// with a letter.
pub proof fn law_app_id_is_valid(name: Seq<char>)
    ensures
        app_id_of(name).len() > 0,
        crate::scaffold::ascii_alpha(app_id_of(name)[0]),
        forall|i: int|
            0 <= i < app_id_of(name).len() ==> (crate::scaffold::ascii_alnum(
                #[trigger] app_id_of(name)[i],
            ) || app_id_of(name)[i] == '_'),
{
    reveal_strlit("app_");
    let body = unicode_lowercase(name).map_values(|c: char| app_id_char(c));
    assert(forall|j: int| 0 <= j < body.len() ==> #[trigger] body[j] == app_id_char(unicode_lowercase(name)[j]));
    if body.len() == 0 || !crate::scaffold::ascii_alpha(body[0]) {
        let r = "app_"@ + body;
        assert forall|i: int| 0 <= i < r.len() implies (crate::scaffold::ascii_alnum(#[trigger] r[i])
            || r[i] == '_') by {
            if i >= 4 {
                assert(r[i] == body[i - 4]);
            }
        }
    }
}

} // verus!
