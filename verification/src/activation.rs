//! Progressive activation: from the classified tree to the activation
//! manifest (which interactive node, which event, which JS module, which
//! strategy) and to one independent JS chunk per interactive node.
//!
//! A chunk holds the handler's own source when the page declared it,
//! preceded by the imports and the top-level constants it really uses;
//! otherwise an explicit placeholder. Its file name carries the short hash
//! of its content, so that it changes when (and only when) the content
//! does.
use vstd::prelude::*;

use crate::ast::{Event, Node, TopLevelConst};
use crate::hash::{short_hash, short_hash_of};
use crate::ir::{
    ir_class_count, ir_of, irs_class_count, irs_of, Classification, IrComponent, IrNode, IrNodeKind,
};
use crate::json::{
    join_items, json_string_literal, pretty_container, pretty_container_of, pretty_member,
    pretty_member_of, push_joined,
};
use crate::strmap::{has_key_at, seq_lt, sorted_keys, StrMap, StrSet};
use crate::js::uses_name;
use crate::text::{contains_seq, contains_str, decimal, decimal_string, owned, str_eq};

verus! {

/// When an interactive node is activated.
#[derive(Debug, Clone, Copy, PartialEq, Eq, Structural)]
pub enum Strategy {
    /// On the user's first real interaction (the default: no JS is loaded
    /// before it is needed).
    Interaction,
    /// When the element enters the viewport.
    Visible,
    /// When the browser is idle.
    Idle,
    /// As soon as the page loads.
    Load,
    /// Never by itself: something else asks for it.
    Manual,
}

impl Default for Strategy {
    fn default() -> (s: Self)
        ensures
            s == Strategy::Interaction,
    {
        Strategy::Interaction
    }
}

/// The strategy that a raw `data-nexa-strategy` value names; an unknown or
/// missing value falls back to `Interaction`.
pub open spec fn strategy_of(raw: Option<Seq<char>>) -> Strategy {
    match raw {
        Some(s) => if s == "interaction"@ {
            Strategy::Interaction
        } else if s == "visible"@ {
            Strategy::Visible
        } else if s == "idle"@ {
            Strategy::Idle
        } else if s == "load"@ {
            Strategy::Load
        } else if s == "manual"@ {
            Strategy::Manual
        } else {
            Strategy::Interaction
        },
        None => Strategy::Interaction,
    }
}

/// The lowercase name of a strategy, as the manifest writes it.
pub open spec fn strategy_name_of(s: Strategy) -> Seq<char> {
    match s {
        Strategy::Interaction => "interaction"@,
        Strategy::Visible => "visible"@,
        Strategy::Idle => "idle"@,
        Strategy::Load => "load"@,
        Strategy::Manual => "manual"@,
    }
}

impl Strategy {
    /// Reads a raw `data-nexa-strategy` value.
    pub fn parse(raw: Option<&str>) -> (s: Self)
        ensures
            s == strategy_of(
                match raw {
                    Some(r) => Some(r@),
                    None => None,
                },
            ),
    {
        match raw {
            Some(r) => {
                if str_eq(r, "interaction") {
                    Strategy::Interaction
                } else if str_eq(r, "visible") {
                    Strategy::Visible
                } else if str_eq(r, "idle") {
                    Strategy::Idle
                } else if str_eq(r, "load") {
                    Strategy::Load
                } else if str_eq(r, "manual") {
                    Strategy::Manual
                } else {
                    Strategy::default()
                }
            },
            None => Strategy::default(),
        }
    }

    /// The lowercase name of the strategy.
    pub fn name(&self) -> (r: &'static str)
        ensures
            r@ == strategy_name_of(*self),
    {
        match self {
            Strategy::Interaction => "interaction",
            Strategy::Visible => "visible",
            Strategy::Idle => "idle",
            Strategy::Load => "load",
            Strategy::Manual => "manual",
        }
    }
}

/// What to do with one interactive node: the DOM event, the handler's
/// path, the JS module to load and when to load it.
#[derive(Debug, Clone, PartialEq)]
pub struct ActivationEntry {
    pub event: String,
    pub handler: String,
    pub module: String,
    pub strategy: Strategy,
}

/// An entry by its texts.
pub struct EntryView {
    pub event: Seq<char>,
    pub handler: Seq<char>,
    pub module: Seq<char>,
    pub strategy: Strategy,
}

impl ActivationEntry {
    pub open spec fn view(&self) -> EntryView {
        EntryView {
            event: self.event@,
            handler: self.handler@,
            module: self.module@,
            strategy: self.strategy,
        }
    }
}

/// The pretty JSON object of an entry, at nesting depth 1 (inside the
/// manifest object).
pub open spec fn entry_json(e: EntryView) -> Seq<char> {
    pretty_container(
        '{',
        '}',
        seq![
            pretty_member("event"@, json_string_literal(e.event)),
            pretty_member("handler"@, json_string_literal(e.handler)),
            pretty_member("module"@, json_string_literal(e.module)),
            pretty_member("strategy"@, json_string_literal(strategy_name_of(e.strategy))),
        ],
        1,
    )
}

/// The activation manifest: node id, written in decimal so that it is a
/// valid JSON key, to the entry of that node. Keys are kept in increasing
/// text order.
pub struct ActivationManifest {
    entries: StrMap<ActivationEntry>,
}

impl ActivationManifest {
    /// Decimal node id to entry.
    pub closed spec fn view(&self) -> Map<Seq<char>, EntryView> {
        self.entries@.map_values(|e: ActivationEntry| e@)
    }

    /// The entries in increasing key order.
    pub closed spec fn pairs(&self) -> Seq<(Seq<char>, EntryView)> {
        self.entries.pairs().map_values(|p: (Seq<char>, ActivationEntry)| (p.0, p.1@))
    }

    /// An empty manifest.
    pub fn new() -> (m: Self)
        ensures
            m@ == Map::<Seq<char>, EntryView>::empty(),
            m.pairs().len() == 0,
    {
        let m = ActivationManifest { entries: StrMap::new() };
        assert(m@ =~= Map::<Seq<char>, EntryView>::empty());
        assert(m.pairs() =~= Seq::empty());
        m
    }

    /// Records (or replaces) the entry of node `node_id`.
    pub fn insert(&mut self, node_id: usize, entry: ActivationEntry)
        ensures
            final(self)@ == old(self)@.insert(decimal(node_id as nat), entry@),
            final(self)@.dom().finite(),
            final(self)@.dom().len() == old(self)@.dom().len() + (if old(self)@.contains_key(
                decimal(node_id as nat),
            ) {
                0int
            } else {
                1int
            }),
    {
        let key = decimal_string(node_id as u128);
        let ghost e = entry;
        self.entries.insert(key, entry);
        assert(self@ =~= old(self)@.insert(decimal(node_id as nat), e@));
        assert(old(self)@.dom() =~= old(self).entries@.dom());
        assert(self@.dom() =~= self.entries@.dom());
    }

    /// The entry of node `node_id`.
    pub fn get(&self, node_id: usize) -> (r: Option<&ActivationEntry>)
        ensures
            match r {
                Some(e) => self@.contains_key(decimal(node_id as nat)) && e@ == self@[decimal(
                    node_id as nat,
                )],
                None => !self@.contains_key(decimal(node_id as nat)),
            },
    {
        let key = decimal_string(node_id as u128);
        self.entries.get(key.as_str())
    }

    /// No node is activated.
    pub fn is_empty(&self) -> (b: bool)
        ensures
            b == (self@.dom().len() == 0),
    {
        assert(self@.dom() =~= self.entries@.dom());
        self.entries.is_empty()
    }

    /// Number of activated nodes.
    pub fn len(&self) -> (n: usize)
        ensures
            n == self@.dom().len(),
    {
        assert(self@.dom() =~= self.entries@.dom());
        self.entries.len()
    }

    /// Every entry with its key (the node id as text), in increasing key
    /// order.
    pub fn entries(&self) -> (r: Vec<(&str, &ActivationEntry)>)
        ensures
            r@.map_values(|p: (&str, &ActivationEntry)| (p.0@, p.1@)) == self.pairs(),
            sorted_keys(self.pairs()),
            self@.dom().finite(),
            self.pairs().len() == self@.dom().len(),
            forall|k: Seq<char>|
                #![trigger self@.contains_key(k)]
                self@.contains_key(k) <==> exists|i: int| has_key_at(self.pairs(), k, i),
            forall|i: int|
                0 <= i < self.pairs().len() ==> #[trigger] self@[self.pairs()[i].0]
                    == self.pairs()[i].1,
    {
        let n = self.entries.len();
        proof {
            let ep = self.entries.pairs();
            let pp = self.pairs();
            assert(self@.dom() =~= self.entries@.dom());
            assert forall|i: int, j: int| 0 <= i < j < pp.len() implies seq_lt(
                #[trigger] pp[i].0,
                #[trigger] pp[j].0,
            ) by {
                assert(ep[i].0 == pp[i].0 && ep[j].0 == pp[j].0);
            }
            assert forall|k: Seq<char>| #[trigger]
                self@.contains_key(k) <==> exists|i: int| has_key_at(pp, k, i) by {
                if self@.contains_key(k) {
                    assert(self.entries@.contains_key(k));
                    let i = choose|i: int| has_key_at(ep, k, i);
                    assert(has_key_at(pp, k, i));
                }
                if exists|i: int| has_key_at(pp, k, i) {
                    let i = choose|i: int| has_key_at(pp, k, i);
                    assert(has_key_at(ep, k, i));
                    assert(self.entries@.contains_key(k));
                }
            }
            assert forall|i: int| 0 <= i < pp.len() implies #[trigger] self@[pp[i].0] == pp[i].1 by {
                assert(self.entries@[ep[i].0] == ep[i].1);
                assert(self.entries@.contains_key(ep[i].0)) by {
                    assert(has_key_at(ep, ep[i].0, i));
                }
            }
        }
        let mut r: Vec<(&str, &ActivationEntry)> = Vec::new();
        let mut i: usize = 0;
        while i < n
            invariant
                n == self.entries.pairs().len(),
                i <= n,
                r@.map_values(|p: (&str, &ActivationEntry)| (p.0@, p.1@)) == self.pairs().take(
                    i as int,
                ),
            decreases n - i,
        {
            let ghost before = r@;
            let k = self.entries.key_at(i);
            let v = self.entries.value_at(i);
            r.push((k.as_str(), v));
            assert(self.pairs()[i as int] == (k@, v@));
            assert(self.pairs().take(i + 1) =~= self.pairs().take(i as int).push((k@, v@)));
            assert(r@.map_values(|p: (&str, &ActivationEntry)| (p.0@, p.1@)) =~= self.pairs().take(
                i + 1,
            ));
            i = i + 1;
        }
        assert(self.pairs().take(i as int) =~= self.pairs());
        r
    }
}

/// The pretty JSON text of a manifest's entries: one member per node id,
/// in key order, each an object of the entry's four fields.
pub open spec fn manifest_json(pairs: Seq<(Seq<char>, EntryView)>) -> Seq<char> {
    pretty_container(
        '{',
        '}',
        pairs.map_values(|p: (Seq<char>, EntryView)| pretty_member(p.0, entry_json(p.1))),
        0,
    )
}

/// One `"key": "text"` line's member, quoted.
fn text_member(key: &str, value: &str) -> (r: String)
    ensures
        r@ == pretty_member(key@, json_string_literal(value@)),
{
    let q = crate::json::json_quote(value);
    pretty_member_of(key, q.as_str())
}

fn entry_json_of(e: &ActivationEntry) -> (r: String)
    ensures
        r@ == entry_json(e@),
{
    let mut items: Vec<String> = Vec::new();
    items.push(text_member("event", e.event.as_str()));
    items.push(text_member("handler", e.handler.as_str()));
    items.push(text_member("module", e.module.as_str()));
    items.push(text_member("strategy", e.strategy.name()));
    let r = pretty_container_of('{', '}', &items, 1);
    assert(items@.map_values(|x: String| x@) =~= seq![
        pretty_member("event"@, json_string_literal(e.event@)),
        pretty_member("handler"@, json_string_literal(e.handler@)),
        pretty_member("module"@, json_string_literal(e.module@)),
        pretty_member("strategy"@, json_string_literal(strategy_name_of(e.strategy))),
    ]);
    r
}

impl ActivationManifest {
    /// The manifest as pretty-printed JSON (two spaces per level), keyed by
    /// node id; the browser runtime reads it to know what to load and
    /// when.
    pub fn to_json_pretty(&self) -> (r: Result<String, serde_json::Error>)
        ensures
            r matches Ok(s) && s@ == manifest_json(self.pairs()),
    {
        let n = self.entries.len();
        let mut items: Vec<String> = Vec::new();
        let mut i: usize = 0;
        while i < n
            invariant
                n == self.entries.pairs().len(),
                i <= n,
                items@.map_values(|x: String| x@) == self.pairs().take(i as int).map_values(
                    |p: (Seq<char>, EntryView)| pretty_member(p.0, entry_json(p.1)),
                ),
            decreases n - i,
        {
            let k = self.entries.key_at(i);
            let v = self.entries.value_at(i);
            let body = entry_json_of(v);
            let ghost before = items@;
            items.push(pretty_member_of(k.as_str(), body.as_str()));
            assert(items@.map_values(|x: String| x@) =~= before.map_values(|x: String| x@).push(
                pretty_member(k@, entry_json(v@)),
            ));
            assert(self.pairs()[i as int] == (k@, v@));
            assert(self.pairs().take(i + 1) =~= self.pairs().take(i as int).push((k@, v@)));
            assert(items@.map_values(|x: String| x@) =~= self.pairs().take(i + 1).map_values(
                |p: (Seq<char>, EntryView)| pretty_member(p.0, entry_json(p.1)),
            ));
            i = i + 1;
        }
        assert(self.pairs().take(i as int) =~= self.pairs());
        Ok(pretty_container_of('{', '}', &items, 0))
    }
}

/// A JS chunk: its file name, its content, and the strategy of the
/// manifest entry it serves.
pub struct Chunk {
    pub filename: String,
    pub content: String,
    pub strategy: Strategy,
}

/// Names a chunk.
pub fn generate(filename: String, content: String, strategy: Strategy) -> (c: Chunk)
    ensures
        c.filename == filename,
        c.content == content,
        c.strategy == strategy,
{
    Chunk { filename, content, strategy }
}


// ---------------------------------------------------------------------
// Chunk contents

/// A text result by its characters.
pub open spec fn text_result(r: Result<String, String>) -> Result<Seq<char>, Seq<char>> {
    match r {
        Ok(s) => Ok(s@),
        Err(e) => Err(e@),
    }
}

/// Lines joined by line breaks.
pub open spec fn join_lines(lines: Seq<Seq<char>>) -> Seq<char> {
    join_items(lines, "\n"@, ""@)
}

/// `import { name } from "name";`
pub open spec fn import_line(name: Seq<char>) -> Seq<char> {
    "import { "@ + name + " } from \""@ + name + "\";"@
}

/// A handler uses an importable identifier when its source holds the
/// identifier followed by a dot (`platform.share(...)`).
pub open spec fn uses_import(src: Seq<char>, name: Seq<char>) -> bool {
    contains_seq(src, name + "."@)
}

/// The import lines a handler needs: one per importable name it uses, in
/// the order of `names`.
pub open spec fn import_lines(names: Seq<Seq<char>>, src: Seq<char>) -> Seq<Seq<char>>
    decreases names.len(),
{
    if names.len() == 0 {
        Seq::empty()
    } else {
        let rest = import_lines(names.drop_last(), src);
        if uses_import(src, names.last()) {
            rest.push(import_line(names.last()))
        } else {
            rest
        }
    }
}

/// The declarations of the simple top-level constants that a handler
/// uses, in the order of `consts`.
pub open spec fn const_lines(consts: Seq<(Seq<char>, TopLevelConst)>, src: Seq<char>) -> Seq<
    Seq<char>,
>
    decreases consts.len(),
{
    if consts.len() == 0 {
        Seq::empty()
    } else {
        let rest = const_lines(consts.drop_last(), src);
        let (name, c) = consts.last();
        if uses_name(src, name) && c.is_simple {
            rest.push(c.source@)
        } else {
            rest
        }
    }
}

/// The first constant, in the order of `consts`, that a handler uses and
/// whose value is not simple enough to be copied.
pub open spec fn bad_const(consts: Seq<(Seq<char>, TopLevelConst)>, src: Seq<char>) -> Option<
    Seq<char>,
>
    decreases consts.len(),
{
    if consts.len() == 0 {
        None
    } else {
        match bad_const(consts.drop_last(), src) {
            Some(name) => Some(name),
            None => {
                let (name, c) = consts.last();
                if uses_name(src, name) && !c.is_simple {
                    Some(name)
                } else {
                    None
                }
            },
        }
    }
}

proof fn lemma_bad_const_prefix(s: Seq<(Seq<char>, TopLevelConst)>, k: int, src: Seq<char>)
    requires
        0 <= k <= s.len(),
        bad_const(s.take(k), src) is Some,
    ensures
        bad_const(s, src) == bad_const(s.take(k), src),
    decreases s.len(),
{
    if k < s.len() {
        assert(s.drop_last().take(k) =~= s.take(k));
        lemma_bad_const_prefix(s.drop_last(), k, src);
    } else {
        assert(s.take(k) =~= s);
    }
}

/// The message of a build that fails because `handler` uses the
/// constant `name`, whose value cannot be copied into a chunk.
pub open spec fn const_error(handler: Seq<char>, name: Seq<char>) -> Seq<char> {
    "el handler `"@ + handler + "` usa la constante `"@ + name
        + "`, cuyo valor no es un literal simple: no se puede copiar a su chunk JS"@
}

/// `    el.addEventListener("event", handler);`
pub open spec fn listener_line(event: Seq<char>, handler: Seq<char>) -> Seq<char> {
    "    el.addEventListener(\""@ + event + "\", "@ + handler + ");"@
}

/// The lines of a chunk built from the handler's own source.
pub open spec fn real_chunk_lines(
    event: Seq<char>,
    handler: Seq<char>,
    src: Seq<char>,
    imports: Seq<Seq<char>>,
    consts: Seq<(Seq<char>, TopLevelConst)>,
) -> Seq<Seq<char>> {
    seq!["// Generado por Nexa: handler extraído tal cual del código fuente de la página."@]
        + import_lines(imports, src) + const_lines(consts, src) + seq![
        src,
        ""@,
        "export default function activate(el) {"@,
        listener_line(event, handler),
        "}"@,
        ""@,
    ]
}

/// The lines of a chunk whose handler source is unknown: it only warns.
pub open spec fn placeholder_lines(event: Seq<char>, handler: Seq<char>) -> Seq<Seq<char>> {
    seq![
        "// Generado por Nexa."@,
        "// No se encontró el código fuente de `"@ + handler
            + "` en este archivo (¿viene de un"@,
        "// import, o de un patrón que nexa-parser todavía no reconoce?) — placeholder."@,
        "export default function activate(el) {"@,
        "    el.addEventListener(\""@ + event + "\", () => {"@,
        "        console.warn(\"[nexa] `"@ + handler + "` no se pudo resolver a código real.\");"@,
        "    });"@,
        "}"@,
        ""@,
    ]
}

/// The content of the chunk of a handler: its own source, with what it
/// imports and the simple constants it uses, when the page declared it;
/// a placeholder otherwise; an error when it uses a constant whose value
/// is not simple.
pub open spec fn chunk_content(
    event: Seq<char>,
    handler: Seq<char>,
    source: Option<Seq<char>>,
    imports: Seq<Seq<char>>,
    consts: Seq<(Seq<char>, TopLevelConst)>,
) -> Result<Seq<char>, Seq<char>> {
    match source {
        None => Ok(join_lines(placeholder_lines(event, handler))),
        Some(src) => match bad_const(consts, src) {
            Some(name) => Err(const_error(handler, name)),
            None => Ok(join_lines(real_chunk_lines(event, handler, src, imports, consts))),
        },
    }
}

/// `handler_source` uses the importable identifier `name`.
pub fn uses_identifier(handler_source: &str, name: &str) -> (b: bool)
    ensures
        b == uses_import(handler_source@, name@),
{
    let mut needle = owned(name);
    needle.append(".");
    contains_str(handler_source, needle.as_str())
}

fn join_lines_of(lines: &Vec<String>) -> (r: String)
    ensures
        r@ == join_lines(lines@.map_values(|x: String| x@)),
{
    let mut r = String::new();
    push_joined(&mut r, lines, "\n", "");
    assert(r@ =~= join_lines(lines@.map_values(|x: String| x@)));
    r
}

/// Appends `items` to `lines`.
fn push_all(lines: &mut Vec<String>, items: Vec<String>)
    ensures
        final(lines)@.map_values(|x: String| x@) == old(lines)@.map_values(|x: String| x@)
            + items@.map_values(|x: String| x@),
{
    let ghost start = lines@.map_values(|x: String| x@);
    let ghost views = items@.map_values(|x: String| x@);
    let mut rest = crate::ir::reversed(items);
    let ghost rev = rest@;
    let _ = rest.len();
    let mut k: usize = 0;
    while rest.len() > 0
        invariant
            rest@ == rev.take(rev.len() - k),
            rest@.len() == rev.len() - k,
            rev.len() <= usize::MAX,
            rev.len() == views.len(),
            k <= rev.len(),
            forall|j: int| 0 <= j < rev.len() ==> #[trigger] rev[j]@ == views[views.len() - 1 - j],
            lines@.map_values(|x: String| x@) == start + views.take(k as int),
        decreases rest@.len(),
    {
        let ghost before = lines@.map_values(|x: String| x@);
        let x = rest.pop().unwrap();
        proof {
            assert(x@ == views[k as int]);
        }
        lines.push(x);
        assert(lines@.map_values(|x: String| x@) =~= before.push(views[k as int]));
        assert(views.take(k + 1) =~= views.take(k as int).push(views[k as int]));
        k = k + 1;
        assert(rest@ =~= rev.take(rev.len() - k));
    }
    assert(views.take(k as int) =~= views);
}

/// The import lines of a handler.
fn import_lines_of(src: &str, import_names: &StrSet) -> (r: Vec<String>)
    ensures
        r@.map_values(|x: String| x@) == import_lines(import_names.elems(), src@),
{
    let n = import_names.len();
    let mut r: Vec<String> = Vec::new();
    let mut i: usize = 0;
    while i < n
        invariant
            n == import_names.elems().len(),
            i <= n,
            r@.map_values(|x: String| x@) == import_lines(import_names.elems().take(i as int), src@),
        decreases n - i,
    {
        let name = import_names.elem_at(i);
        let ghost before = r@.map_values(|x: String| x@);
        proof {
            let t = import_names.elems().take(i + 1);
            assert(t.drop_last() =~= import_names.elems().take(i as int));
            assert(t.last() == name@);
        }
        if uses_identifier(src, name.as_str()) {
            let mut line = owned("import { ");
            line.append(name.as_str());
            line.append(" } from \"");
            line.append(name.as_str());
            line.append("\";");
            r.push(line);
            assert(r@.map_values(|x: String| x@) =~= before.push(import_line(name@)));
        }
        i = i + 1;
    }
    assert(import_names.elems().take(i as int) =~= import_names.elems());
    r
}

/// The declarations of the simple constants a handler uses, or the first
/// constant it uses whose value is not simple.
fn const_lines_of(src: &str, consts: &StrMap<TopLevelConst>) -> (r: Result<Vec<String>, String>)
    ensures
        match r {
            Ok(lines) => bad_const(consts.pairs(), src@) is None && lines@.map_values(
                |x: String| x@,
            ) == const_lines(consts.pairs(), src@),
            Err(name) => bad_const(consts.pairs(), src@) == Some(name@),
        },
{
    let n = consts.len();
    let mut r: Vec<String> = Vec::new();
    let mut i: usize = 0;
    while i < n
        invariant
            n == consts.pairs().len(),
            i <= n,
            bad_const(consts.pairs().take(i as int), src@) is None,
            r@.map_values(|x: String| x@) == const_lines(consts.pairs().take(i as int), src@),
        decreases n - i,
    {
        let name = consts.key_at(i);
        let c = consts.value_at(i);
        let ghost before = r@.map_values(|x: String| x@);
        proof {
            let t = consts.pairs().take(i + 1);
            assert(t.drop_last() =~= consts.pairs().take(i as int));
            assert(t.last() == (name@, *c));
        }
        if crate::js::uses_name_in(src, name.as_str()) {
            if !c.is_simple {
                proof {
                    lemma_bad_const_prefix(consts.pairs(), i + 1, src@);
                }
                return Err(owned(name.as_str()));
            }
            r.push(owned(c.source.as_str()));
            assert(r@.map_values(|x: String| x@) =~= before.push(c.source@));
        }
        i = i + 1;
    }
    assert(consts.pairs().take(i as int) =~= consts.pairs());
    Ok(r)
}

/// `    el.addEventListener("event", handler);`
fn listener_line_of(event: &str, handler: &str) -> (r: String)
    ensures
        r@ == listener_line(event@, handler@),
{
    let mut line = owned("    el.addEventListener(\"");
    line.append(event);
    line.append("\", ");
    line.append(handler);
    line.append(");");
    line
}

/// The chunk of a handler whose source the page declared: the source,
/// preceded by the imports and the simple constants it uses, and the
/// activation function that binds it to the event. Fails when the
/// handler uses a constant whose value is not simple.
pub fn real_chunk(
    entry: &ActivationEntry,
    handler_source: &str,
    import_names: &StrSet,
    consts: &StrMap<TopLevelConst>,
) -> (r: Result<String, String>)
    ensures
        text_result(r) == chunk_content(
            entry.event@,
            entry.handler@,
            Some(handler_source@),
            import_names.elems(),
            consts.pairs(),
        ),
{
    let const_part = match const_lines_of(handler_source, consts) {
        Ok(lines) => lines,
        Err(name) => {
            let mut msg = owned("el handler `");
            msg.append(entry.handler.as_str());
            msg.append("` usa la constante `");
            msg.append(name.as_str());
            msg.append("`, cuyo valor no es un literal simple: no se puede copiar a su chunk JS");
            return Err(msg);
        },
    };
    let mut lines: Vec<String> = Vec::new();
    lines.push(owned("// Generado por Nexa: handler extraído tal cual del código fuente de la página."));
    push_all(&mut lines, import_lines_of(handler_source, import_names));
    push_all(&mut lines, const_part);
    let mut tail: Vec<String> = Vec::new();
    tail.push(owned(handler_source));
    tail.push(owned(""));
    tail.push(owned("export default function activate(el) {"));
    tail.push(listener_line_of(entry.event.as_str(), entry.handler.as_str()));
    tail.push(owned("}"));
    tail.push(owned(""));
    assert(tail@.map_values(|x: String| x@) =~= seq![
        handler_source@,
        ""@,
        "export default function activate(el) {"@,
        listener_line(entry.event@, entry.handler@),
        "}"@,
        ""@,
    ]);
    push_all(&mut lines, tail);
    assert(lines@.map_values(|x: String| x@) =~= real_chunk_lines(
        entry.event@,
        entry.handler@,
        handler_source@,
        import_names.elems(),
        consts.pairs(),
    ));
    Ok(join_lines_of(&lines))
}

/// The chunk of a handler whose source is unknown (it comes from an
/// import, or from a pattern the parser does not recognise): it only warns
/// in the browser's console.
pub fn placeholder_chunk(entry: &ActivationEntry) -> (r: String)
    ensures
        r@ == join_lines(placeholder_lines(entry.event@, entry.handler@)),
{
    let mut lines: Vec<String> = Vec::new();
    lines.push(owned("// Generado por Nexa."));
    let mut l2 = owned("// No se encontró el código fuente de `");
    l2.append(entry.handler.as_str());
    l2.append("` en este archivo (¿viene de un");
    lines.push(l2);
    lines.push(owned("// import, o de un patrón que nexa-parser todavía no reconoce?) — placeholder."));
    lines.push(owned("export default function activate(el) {"));
    let mut l5 = owned("    el.addEventListener(\"");
    l5.append(entry.event.as_str());
    l5.append("\", () => {");
    lines.push(l5);
    let mut l6 = owned("        console.warn(\"[nexa] `");
    l6.append(entry.handler.as_str());
    l6.append("` no se pudo resolver a código real.\");");
    lines.push(l6);
    lines.push(owned("    });"));
    lines.push(owned("}"));
    lines.push(owned(""));
    assert(lines@.map_values(|x: String| x@) =~= placeholder_lines(entry.event@, entry.handler@));
    join_lines_of(&lines)
}

/// The content of the chunk of `entry`'s handler, given its source if the
/// page declared it.
pub fn content_for(
    entry: &ActivationEntry,
    handler_source: Option<&str>,
    import_names: &StrSet,
    consts: &StrMap<TopLevelConst>,
) -> (r: Result<String, String>)
    ensures
        text_result(r) == chunk_content(
            entry.event@,
            entry.handler@,
            match handler_source {
                Some(h) => Some(h@),
                None => None,
            },
            import_names.elems(),
            consts.pairs(),
        ),
{
    match handler_source {
        Some(source) => real_chunk(entry, source, import_names, consts),
        None => Ok(placeholder_chunk(entry)),
    }
}


// ---------------------------------------------------------------------
// Building the manifest and the chunks

/// A chunk by its texts.
pub struct ChunkView {
    pub filename: Seq<char>,
    pub content: Seq<char>,
    pub strategy: Strategy,
}

impl Chunk {
    pub open spec fn view(&self) -> ChunkView {
        ChunkView { filename: self.filename@, content: self.content@, strategy: self.strategy }
    }
}

/// What a build works from besides the tree: the component's name (for
/// file names), the handler sources the page declared, the importable
/// identifiers in increasing order, and the page's top-level constants in
/// increasing name order.
pub struct BuildContext {
    pub name: Seq<char>,
    pub handlers: Map<Seq<char>, String>,
    pub imports: Seq<Seq<char>>,
    pub consts: Seq<(Seq<char>, TopLevelConst)>,
}

/// The node's own activation: an interactive element is activated by its
/// first event (one event per node in this model).
pub open spec fn own_activation(n: IrNode) -> Seq<(nat, Event)> {
    match n.kind {
        IrNodeKind::Element { events, .. } => if n.classification == Classification::Interactive
            && events@.len() > 0 {
            seq![(n.id as nat, events@[0])]
        } else {
            Seq::empty()
        },
        _ => Seq::empty(),
    }
}

/// The activations of a tree in pre-order: element children and the body
/// of a `<For>` (classified once, as a template) included.
pub open spec fn activations(n: IrNode) -> Seq<(nat, Event)>
    decreases n,
{
    own_activation(n) + match n.kind {
        IrNodeKind::Element { children, .. } => activations_all(children@),
        IrNodeKind::For { body, .. } => activations(*body),
        _ => Seq::empty(),
    }
}

/// The activations of sibling trees, in order.
pub open spec fn activations_all(s: Seq<IrNode>) -> Seq<(nat, Event)>
    decreases s,
{
    if s.len() == 0 {
        Seq::empty()
    } else {
        activations_all(s.drop_last()) + activations(s.last())
    }
}

/// The handler source the page declared for `handler`, if any.
pub open spec fn source_of(ctx: BuildContext, handler: Seq<char>) -> Option<Seq<char>> {
    if ctx.handlers.contains_key(handler) {
        Some(ctx.handlers[handler]@)
    } else {
        None
    }
}

/// The raw strategy text of an event.
pub open spec fn raw_strategy(e: Event) -> Option<Seq<char>> {
    match e.strategy {
        Some(s) => Some(s@),
        None => None,
    }
}

/// `Name-id.hash.js`: the chunk's file name, with the short hash of its
/// content.
pub open spec fn chunk_filename(name: Seq<char>, id: nat, content: Seq<char>) -> Seq<char> {
    name + "-"@ + decimal(id) + "."@ + short_hash_of(content) + ".js"@
}

/// The manifest entry and the chunk of node `id` activated by `e`, or the
/// reason the build fails.
pub open spec fn activation_of(ctx: BuildContext, id: nat, e: Event) -> Result<
    (EntryView, ChunkView),
    Seq<char>,
> {
    let handler = e.handler.path_view();
    let strategy = strategy_of(raw_strategy(e));
    match chunk_content(e.name@, handler, source_of(ctx, handler), ctx.imports, ctx.consts) {
        Err(msg) => Err(msg),
        Ok(content) => {
            let filename = chunk_filename(ctx.name, id, content);
            Ok(
                (
                    EntryView {
                        event: e.name@,
                        handler,
                        module: "/assets/"@ + filename,
                        strategy,
                    },
                    ChunkView { filename, content, strategy },
                ),
            )
        },
    }
}

/// The results of a sequence of activations, in order, or the failure of
/// the first one that fails.
pub open spec fn outcome(ctx: BuildContext, acts: Seq<(nat, Event)>) -> Result<
    Seq<(nat, EntryView, ChunkView)>,
    Seq<char>,
>
    decreases acts.len(),
{
    if acts.len() == 0 {
        Ok(Seq::empty())
    } else {
        match outcome(ctx, acts.drop_last()) {
            Err(msg) => Err(msg),
            Ok(done) => {
                let (id, e) = acts.last();
                match activation_of(ctx, id, e) {
                    Err(msg) => Err(msg),
                    Ok((entry, chunk)) => Ok(done.push((id, entry, chunk))),
                }
            },
        }
    }
}

/// The manifest after recording `done` in order (a later entry for the
/// same node replaces an earlier one).
pub open spec fn record_all(m: Map<Seq<char>, EntryView>, done: Seq<(nat, EntryView, ChunkView)>) -> Map<
    Seq<char>,
    EntryView,
>
    decreases done.len(),
{
    if done.len() == 0 {
        m
    } else {
        record_all(m, done.drop_last()).insert(decimal(done.last().0), done.last().1)
    }
}

/// The chunks of `done`, in order.
pub open spec fn chunks_of(done: Seq<(nat, EntryView, ChunkView)>) -> Seq<ChunkView> {
    done.map_values(|t: (nat, EntryView, ChunkView)| t.2)
}

proof fn lemma_outcome_concat(ctx: BuildContext, a: Seq<(nat, Event)>, b: Seq<(nat, Event)>)
    ensures
        outcome(ctx, a + b) == match outcome(ctx, a) {
            Err(msg) => Err(msg),
            Ok(x) => match outcome(ctx, b) {
                Err(msg) => Err(msg),
                Ok(y) => Ok(x + y),
            },
        },
    decreases b.len(),
{
    if b.len() == 0 {
        assert(a + b =~= a);
        if let Ok(x) = outcome(ctx, a) {
            assert(x + Seq::<(nat, EntryView, ChunkView)>::empty() =~= x);
        }
    } else {
        assert((a + b).drop_last() =~= a + b.drop_last());
        assert((a + b).last() == b.last());
        lemma_outcome_concat(ctx, a, b.drop_last());
        if let Ok(x) = outcome(ctx, a) {
            if let Ok(y) = outcome(ctx, b.drop_last()) {
                let (id, e) = b.last();
                if let Ok((entry, chunk)) = activation_of(ctx, id, e) {
                    assert((x + y).push((id, entry, chunk)) =~= x + y.push((id, entry, chunk)));
                }
            }
        }
    }
}

proof fn lemma_record_all_concat(
    m: Map<Seq<char>, EntryView>,
    x: Seq<(nat, EntryView, ChunkView)>,
    y: Seq<(nat, EntryView, ChunkView)>,
)
    ensures
        record_all(m, x + y) == record_all(record_all(m, x), y),
    decreases y.len(),
{
    if y.len() == 0 {
        assert(x + y =~= x);
    } else {
        assert((x + y).drop_last() =~= x + y.drop_last());
        lemma_record_all_concat(m, x, y.drop_last());
    }
}

proof fn lemma_activations_split(s: Seq<IrNode>, k: int)
    requires
        0 <= k <= s.len(),
    ensures
        activations_all(s) == activations_all(s.take(k)) + activations_all(s.skip(k)),
    decreases s.len(),
{
    if k == s.len() {
        assert(s.take(k) =~= s);
        assert(s.skip(k) =~= Seq::<IrNode>::empty());
        assert(activations_all(s) + Seq::empty() =~= activations_all(s));
    } else {
        lemma_activations_split(s.drop_last(), k);
        assert(s.drop_last().take(k) =~= s.take(k));
        assert(s.skip(k).drop_last() =~= s.drop_last().skip(k));
        assert(s.skip(k).last() == s.last());
        assert(activations_all(s.take(k)) + activations_all(s.skip(k)) =~= activations_all(
            s.take(k),
        ) + activations_all(s.drop_last().skip(k)) + activations(s.last()));
    }
}

pub proof fn lemma_irs_count_elem(s: Seq<IrNode>, i: int)
    requires
        0 <= i < s.len(),
    ensures
        crate::ir::ir_count(s[i]) <= crate::ir::irs_count(s),
    decreases s.len(),
{
    if i < s.len() - 1 {
        lemma_irs_count_elem(s.drop_last(), i);
    }
}

/// Records the activation of an interactive element: builds its chunk,
/// names it by the hash of its content, and adds the manifest entry.
fn activate_node(
    id: usize,
    e: &Event,
    component_name: &str,
    handlers: &StrMap<String>,
    consts: &StrMap<TopLevelConst>,
    import_names: &StrSet,
    manifest: &mut ActivationManifest,
    chunks: &mut Vec<Chunk>,
) -> (r: Result<(), String>)
    ensures
        ({
            let ctx = BuildContext {
                name: component_name@,
                handlers: handlers@,
                imports: import_names.elems(),
                consts: consts.pairs(),
            };
            match activation_of(ctx, id as nat, *e) {
                Err(msg) => r matches Err(x) && x@ == msg,
                Ok((entry, chunk)) => r is Ok && final(manifest)@ == old(manifest)@.insert(
                    decimal(id as nat),
                    entry,
                ) && final(chunks)@.map_values(|c: Chunk| c@) == old(chunks)@.map_values(
                    |c: Chunk| c@,
                ).push(chunk),
            }
        }),
{
    let handler = e.handler.path();
    let handler_source: Option<&str> = match handlers.get(handler.as_str()) {
        Some(s) => Some(s.as_str()),
        None => None,
    };
    let strategy = match &e.strategy {
        Some(s) => Strategy::parse(Some(s.as_str())),
        None => Strategy::parse(None),
    };
    let draft = ActivationEntry {
        event: owned(e.name.as_str()),
        handler,
        module: String::new(),
        strategy,
    };
    let content = match content_for(&draft, handler_source, import_names, consts) {
        Ok(c) => c,
        Err(msg) => return Err(msg),
    };
    let hash = short_hash(content.as_str());
    let mut filename = owned(component_name);
    filename.append("-");
    let id_text = decimal_string(id as u128);
    filename.append(id_text.as_str());
    filename.append(".");
    filename.append(hash.as_str());
    filename.append(".js");
    let mut module = owned("/assets/");
    module.append(filename.as_str());
    let ActivationEntry { event, handler, .. } = draft;
    let entry = ActivationEntry { event, handler, module, strategy };
    let ghost chunks_before = chunks@.map_values(|c: Chunk| c@);
    chunks.push(generate(filename, content, strategy));
    assert(chunks@.map_values(|c: Chunk| c@) =~= chunks_before.push(chunks@.last()@));
    manifest.insert(id, entry);
    Ok(())
}

/// What running the activations `acts` does to the manifest (`m0` to
/// `m1`) and to the chunks (`c0` to `c1`), given the result `r`: on
/// success, every activation is recorded in order; on failure, `r` holds
/// the message of the first activation that fails.
pub open spec fn build_step(
    ctx: BuildContext,
    acts: Seq<(nat, Event)>,
    r: Result<(), String>,
    m0: Map<Seq<char>, EntryView>,
    m1: Map<Seq<char>, EntryView>,
    c0: Seq<ChunkView>,
    c1: Seq<ChunkView>,
) -> bool {
    match outcome(ctx, acts) {
        Err(msg) => r matches Err(x) && x@ == msg,
        Ok(done) => r is Ok && m1 == record_all(m0, done) && c1 == c0 + chunks_of(done),
    }
}

proof fn lemma_step_seq(
    ctx: BuildContext,
    a: Seq<(nat, Event)>,
    b: Seq<(nat, Event)>,
    r: Result<(), String>,
    m0: Map<Seq<char>, EntryView>,
    m1: Map<Seq<char>, EntryView>,
    m2: Map<Seq<char>, EntryView>,
    c0: Seq<ChunkView>,
    c1: Seq<ChunkView>,
    c2: Seq<ChunkView>,
)
    requires
        build_step(ctx, a, Ok(()), m0, m1, c0, c1),
        build_step(ctx, b, r, m1, m2, c1, c2),
    ensures
        build_step(ctx, a + b, r, m0, m2, c0, c2),
{
    lemma_outcome_concat(ctx, a, b);
    let x = outcome(ctx, a)->Ok_0;
    if let Ok(y) = outcome(ctx, b) {
        lemma_record_all_concat(m0, x, y);
        assert(chunks_of(x + y) =~= chunks_of(x) + chunks_of(y));
        assert(c2 =~= c0 + chunks_of(x + y));
    }
}

proof fn lemma_step_err(
    ctx: BuildContext,
    a: Seq<(nat, Event)>,
    b: Seq<(nat, Event)>,
    r: Result<(), String>,
    m0: Map<Seq<char>, EntryView>,
    m1: Map<Seq<char>, EntryView>,
    c0: Seq<ChunkView>,
    c1: Seq<ChunkView>,
)
    requires
        r is Err,
        build_step(ctx, a, r, m0, m1, c0, c1),
    ensures
        build_step(ctx, a + b, r, m0, m1, c0, c1),
{
    lemma_outcome_concat(ctx, a, b);
}

/// Records the node's own activation, if it has one.
fn activate_own(
    node: &IrNode,
    component_name: &str,
    handlers: &StrMap<String>,
    consts: &StrMap<TopLevelConst>,
    import_names: &StrSet,
    manifest: &mut ActivationManifest,
    chunks: &mut Vec<Chunk>,
) -> (r: Result<(), String>)
    ensures
        build_step(
            BuildContext {
                name: component_name@,
                handlers: handlers@,
                imports: import_names.elems(),
                consts: consts.pairs(),
            },
            own_activation(*node),
            r,
            old(manifest)@,
            final(manifest)@,
            old(chunks)@.map_values(|c: Chunk| c@),
            final(chunks)@.map_values(|c: Chunk| c@),
        ),
{
    let ghost ctx = BuildContext {
        name: component_name@,
        handlers: handlers@,
        imports: import_names.elems(),
        consts: consts.pairs(),
    };
    let ghost c0 = chunks@.map_values(|c: Chunk| c@);
    match &node.kind {
        IrNodeKind::Element { events, .. } => {
            if node.classification == Classification::Interactive && events.len() > 0 {
                let r = activate_node(
                    node.id,
                    &events[0],
                    component_name,
                    handlers,
                    consts,
                    import_names,
                    manifest,
                    chunks,
                );
                proof {
                    let own = own_activation(*node);
                    assert(own =~= seq![(node.id as nat, events@[0])]);
                    assert(own.drop_last() =~= Seq::<(nat, Event)>::empty());
                    assert(own.last() == (node.id as nat, events@[0]));
                    assert(outcome(ctx, own.drop_last()) == Ok::<
                        Seq<(nat, EntryView, ChunkView)>,
                        Seq<char>,
                    >(Seq::empty()));
                    if let Ok((entry, chunk)) = activation_of(ctx, node.id as nat, events@[0]) {
                        let done = seq![(node.id as nat, entry, chunk)];
                        assert(Seq::<(nat, EntryView, ChunkView)>::empty().push(
                            (node.id as nat, entry, chunk),
                        ) =~= done);
                        assert(done.drop_last() =~= Seq::<(nat, EntryView, ChunkView)>::empty());
                        assert(chunks_of(done) =~= seq![chunk]);
                        assert(c0.push(chunk) =~= c0 + chunks_of(done));
                        assert(outcome(ctx, own) == Ok::<
                            Seq<(nat, EntryView, ChunkView)>,
                            Seq<char>,
                        >(done));
                        assert(record_all(old(manifest)@, done.drop_last()) == old(manifest)@);
                        assert(done.last() == (node.id as nat, entry, chunk));
                        assert(record_all(old(manifest)@, done) == old(manifest)@.insert(
                            decimal(node.id as nat),
                            entry,
                        ));
                    }
                }
                return r;
            }
        },
        _ => {},
    }
    assert(own_activation(*node) =~= Seq::<(nat, Event)>::empty());
    assert(c0 + chunks_of(Seq::empty()) =~= c0);
    Ok(())
}

/// Walks `node` in pre-order, recording the activation of each
/// interactive element (inside `<For>` bodies too).
fn collect(
    node: &IrNode,
    component_name: &str,
    handlers: &StrMap<String>,
    consts: &StrMap<TopLevelConst>,
    import_names: &StrSet,
    manifest: &mut ActivationManifest,
    chunks: &mut Vec<Chunk>,
) -> (r: Result<(), String>)
    ensures
        build_step(
            BuildContext {
                name: component_name@,
                handlers: handlers@,
                imports: import_names.elems(),
                consts: consts.pairs(),
            },
            activations(*node),
            r,
            old(manifest)@,
            final(manifest)@,
            old(chunks)@.map_values(|c: Chunk| c@),
            final(chunks)@.map_values(|c: Chunk| c@),
        ),
    decreases crate::ir::ir_count(*node), 0nat,
{
    let ghost ctx = BuildContext {
        name: component_name@,
        handlers: handlers@,
        imports: import_names.elems(),
        consts: consts.pairs(),
    };
    let ghost m0 = manifest@;
    let ghost c0 = chunks@.map_values(|c: Chunk| c@);
    let r = activate_own(node, component_name, handlers, consts, import_names, manifest, chunks);
    let ghost m1 = manifest@;
    let ghost c1 = chunks@.map_values(|c: Chunk| c@);
    let ghost own = own_activation(*node);
    if r.is_err() {
        proof {
            lemma_step_err(ctx, own, activations(*node).skip(own.len() as int), r, m0, m1, c0, c1);
            assert(activations(*node) =~= own + activations(*node).skip(own.len() as int));
        }
        return r;
    }
    match &node.kind {
        IrNodeKind::Element { children, .. } => {
            let r2 = collect_children(
                children,
                component_name,
                handlers,
                consts,
                import_names,
                manifest,
                chunks,
            );
            proof {
                lemma_step_seq(
                    ctx,
                    own,
                    activations_all(children@),
                    r2,
                    m0,
                    m1,
                    manifest@,
                    c0,
                    c1,
                    chunks@.map_values(|c: Chunk| c@),
                );
            }
            r2
        },
        IrNodeKind::For { body, .. } => {
            let r2 = collect(body, component_name, handlers, consts, import_names, manifest, chunks);
            proof {
                lemma_step_seq(
                    ctx,
                    own,
                    activations(**body),
                    r2,
                    m0,
                    m1,
                    manifest@,
                    c0,
                    c1,
                    chunks@.map_values(|c: Chunk| c@),
                );
            }
            r2
        },
        _ => {
            proof {
                assert(activations(*node) =~= own);
            }
            r
        },
    }
}

/// Walks sibling trees in order.
fn collect_children(
    children: &Vec<IrNode>,
    component_name: &str,
    handlers: &StrMap<String>,
    consts: &StrMap<TopLevelConst>,
    import_names: &StrSet,
    manifest: &mut ActivationManifest,
    chunks: &mut Vec<Chunk>,
) -> (r: Result<(), String>)
    ensures
        build_step(
            BuildContext {
                name: component_name@,
                handlers: handlers@,
                imports: import_names.elems(),
                consts: consts.pairs(),
            },
            activations_all(children@),
            r,
            old(manifest)@,
            final(manifest)@,
            old(chunks)@.map_values(|c: Chunk| c@),
            final(chunks)@.map_values(|c: Chunk| c@),
        ),
    decreases crate::ir::irs_count(children@), 1nat,
{
    let ghost ctx = BuildContext {
        name: component_name@,
        handlers: handlers@,
        imports: import_names.elems(),
        consts: consts.pairs(),
    };
    let ghost m0 = manifest@;
    let ghost c0 = chunks@.map_values(|c: Chunk| c@);
    let ghost kids = children@;
    let mut i: usize = 0;
    proof {
        assert(kids.take(0) =~= Seq::<IrNode>::empty());
        assert(c0 + chunks_of(Seq::empty()) =~= c0);
    }
    while i < children.len()
        invariant
            kids == children@,
            ctx == (BuildContext {
                name: component_name@,
                handlers: handlers@,
                imports: import_names.elems(),
                consts: consts.pairs(),
            }),
            i <= kids.len(),
            build_step(
                ctx,
                activations_all(kids.take(i as int)),
                Ok(()),
                m0,
                manifest@,
                c0,
                chunks@.map_values(|c: Chunk| c@),
            ),
        decreases kids.len() - i,
    {
        let ghost m1 = manifest@;
        let ghost c1 = chunks@.map_values(|c: Chunk| c@);
        proof {
            lemma_irs_count_elem(kids, i as int);
            assert(kids.take(i + 1).drop_last() =~= kids.take(i as int));
        }
        let r = collect(&children[i], component_name, handlers, consts, import_names, manifest, chunks);
        proof {
            lemma_step_seq(
                ctx,
                activations_all(kids.take(i as int)),
                activations(kids[i as int]),
                r,
                m0,
                m1,
                manifest@,
                c0,
                c1,
                chunks@.map_values(|c: Chunk| c@),
            );
        }
        if r.is_err() {
            proof {
                lemma_activations_split(kids, i + 1);
                lemma_step_err(
                    ctx,
                    activations_all(kids.take(i + 1)),
                    activations_all(kids.skip(i + 1)),
                    r,
                    m0,
                    manifest@,
                    c0,
                    chunks@.map_values(|c: Chunk| c@),
                );
            }
            return r;
        }
        i = i + 1;
    }
    assert(kids.take(i as int) =~= kids);
    Ok(())
}

/// The activation manifest and the JS chunks of a classified component:
/// one entry and one chunk per interactive element, in pre-order (the
/// body of a `<For>` included), or the error of the first one whose
/// handler uses a top-level constant that cannot be copied.
pub fn build(
    component: &IrComponent,
    component_name: &str,
    handlers: &StrMap<String>,
    consts: &StrMap<TopLevelConst>,
    import_names: &StrSet,
) -> (r: Result<(ActivationManifest, Vec<Chunk>), String>)
    ensures
        ({
            let ctx = BuildContext {
                name: component_name@,
                handlers: handlers@,
                imports: import_names.elems(),
                consts: consts.pairs(),
            };
            match r {
                Ok((manifest, chunks)) => outcome(ctx, activations(component.root)) matches Ok(
                    done,
                ) && manifest@ == record_all(Map::empty(), done) && chunks@.map_values(
                    |c: Chunk| c@,
                ) == chunks_of(done),
                Err(msg) => outcome(ctx, activations(component.root)) == Err::<
                    Seq<(nat, EntryView, ChunkView)>,
                    Seq<char>,
                >(msg@),
            }
        }),
{
    let mut manifest = ActivationManifest::new();
    let mut chunks: Vec<Chunk> = Vec::new();
    let ghost empty_chunks = chunks@.map_values(|c: Chunk| c@);
    match collect(
        &component.root,
        component_name,
        handlers,
        consts,
        import_names,
        &mut manifest,
        &mut chunks,
    ) {
        Ok(()) => {
            assert(empty_chunks =~= Seq::<ChunkView>::empty());
            proof {
                let ctx = BuildContext {
                    name: component_name@,
                    handlers: handlers@,
                    imports: import_names.elems(),
                    consts: consts.pairs(),
                };
                let done = outcome(ctx, activations(component.root))->Ok_0;
                assert(empty_chunks + chunks_of(done) =~= chunks_of(done));
            }
            Ok((manifest, chunks))
        },
        Err(msg) => Err(msg),
    }
}

} // verus!

verus! {

/// Every successful build records one manifest entry and one chunk per
/// activation, in order: each entry is for its node and event, names the
/// module `/assets/` plus its chunk's file name, and both carry the same
/// loading strategy.
pub proof fn law_entries_name_their_chunks(ctx: BuildContext, acts: Seq<(nat, Event)>)
    requires
        outcome(ctx, acts) is Ok,
    ensures
        ({
            let done = outcome(ctx, acts)->Ok_0;
            &&& done.len() == acts.len()
            &&& forall|i: int|
                0 <= i < done.len() ==> {
                    &&& (#[trigger] done[i]).0 == acts[i].0
                    &&& done[i].1.module == "/assets/"@ + done[i].2.filename
                    &&& done[i].1.strategy == done[i].2.strategy
                    &&& done[i].1.event == acts[i].1.name@
                    &&& done[i].1.handler == acts[i].1.handler.path_view()
                }
        }),
    decreases acts.len(),
{
    if acts.len() > 0 {
        law_entries_name_their_chunks(ctx, acts.drop_last());
        let prev = outcome(ctx, acts.drop_last())->Ok_0;
        let done = outcome(ctx, acts)->Ok_0;
        let (id, e) = acts.last();
        assert(done == prev.push((id, activation_of(ctx, id, e)->Ok_0.0, activation_of(ctx, id, e)->Ok_0.1)));
        assert forall|i: int| 0 <= i < done.len() implies {
            &&& (#[trigger] done[i]).0 == acts[i].0
            &&& done[i].1.module == "/assets/"@ + done[i].2.filename
            &&& done[i].1.strategy == done[i].2.strategy
            &&& done[i].1.event == acts[i].1.name@
            &&& done[i].1.handler == acts[i].1.handler.path_view()
        } by {
            if i < prev.len() {
                assert(done[i] == prev[i]);
                assert(acts[i] == acts.drop_last()[i]);
            }
        }
    }
}

proof fn lemma_activations_bounded(n: IrNode)
    ensures
        activations(n).len() <= ir_class_count(n, Classification::Interactive),
    decreases n,
{
    match n.kind {
        IrNodeKind::Element { children, .. } => {
            lemma_activations_all_bounded(children@);
        },
        IrNodeKind::For { body, .. } => {
            lemma_activations_bounded(*body);
        },
        _ => {},
    }
}

proof fn lemma_activations_all_bounded(s: Seq<IrNode>)
    ensures
        activations_all(s).len() <= irs_class_count(s, Classification::Interactive),
    decreases s,
{
    if s.len() > 0 {
        lemma_activations_all_bounded(s.drop_last());
        lemma_activations_bounded(s.last());
    }
}

/// A page with nothing interactive ships no activation JS: its build
/// succeeds with an empty manifest and no chunk, whatever its handlers,
/// constants and imports.
pub proof fn law_static_tree_ships_no_js(ctx: BuildContext, root: IrNode)
    requires
        ir_class_count(root, Classification::Interactive) == 0,
    ensures
        activations(root) == Seq::<(nat, Event)>::empty(),
        outcome(ctx, activations(root)) == Ok::<Seq<(nat, EntryView, ChunkView)>, Seq<char>>(
            Seq::empty(),
        ),
        record_all(Map::empty(), Seq::empty()) == Map::<Seq<char>, EntryView>::empty(),
        chunks_of(Seq::empty()) == Seq::<ChunkView>::empty(),
{
    lemma_activations_bounded(root);
    assert(activations(root) =~= Seq::<(nat, Event)>::empty());
    assert(chunks_of(Seq::empty()) =~= Seq::<ChunkView>::empty());
}

} // verus!

verus! {

proof fn lemma_one_activation_per_interactive(ir: IrNode, n: Node, first: nat)
    requires
        ir_of(ir, n, first),
    ensures
        activations(ir).len() == ir_class_count(ir, Classification::Interactive),
    decreases n,
{
    match n {
        Node::Element(el) => {
            match ir.kind {
                IrNodeKind::Element { children, .. } => {
                    lemma_activations_per_interactive(children@, el.children@, first + 1);
                },
                _ => {},
            }
        },
        Node::For(f) => {
            match ir.kind {
                IrNodeKind::For { body, .. } => {
                    lemma_one_activation_per_interactive(*body, *f.body, first + 1);
                },
                _ => {},
            }
        },
        _ => {},
    }
}

proof fn lemma_activations_per_interactive(irs: Seq<IrNode>, ns: Seq<Node>, first: nat)
    requires
        irs_of(irs, ns, first),
    ensures
        activations_all(irs).len() == irs_class_count(irs, Classification::Interactive),
    decreases ns,
{
    if ns.len() > 0 {
        lemma_activations_per_interactive(irs.drop_last(), ns.drop_last(), first);
        lemma_one_activation_per_interactive(
            irs.last(),
            ns.last(),
            first + crate::ir::nodes_count(ns.drop_last()),
        );
    }
}

/// A page classified from its source gets exactly one manifest entry and
/// one chunk per interactive element (the body of a `<For>` counted once),
/// whenever its build succeeds.
pub proof fn law_one_chunk_per_interactive_element(
    ctx: BuildContext,
    ir: IrNode,
    n: Node,
    first: nat,
)
    requires
        ir_of(ir, n, first),
        outcome(ctx, activations(ir)) is Ok,
    ensures
        outcome(ctx, activations(ir))->Ok_0.len() == ir_class_count(ir, Classification::Interactive),
        chunks_of(outcome(ctx, activations(ir))->Ok_0).len() == ir_class_count(
            ir,
            Classification::Interactive,
        ),
{
    lemma_one_activation_per_interactive(ir, n, first);
    law_entries_name_their_chunks(ctx, activations(ir));
}

} // verus!

verus! {

/// The node ids of some activations, strictly increasing and within
/// `[lo, hi)`.
pub open spec fn ids_in_order(acts: Seq<(nat, Event)>, lo: nat, hi: nat) -> bool {
    &&& forall|i: int| 0 <= i < acts.len() ==> lo <= (#[trigger] acts[i]).0 < hi
    &&& forall|i: int, j: int| 0 <= i < j < acts.len() ==> (#[trigger] acts[i]).0 < (#[trigger] acts[j]).0
}

proof fn lemma_ids_concat(a: Seq<(nat, Event)>, b: Seq<(nat, Event)>, lo: nat, mid: nat, hi: nat)
    requires
        lo <= mid <= hi,
        ids_in_order(a, lo, mid),
        ids_in_order(b, mid, hi),
    ensures
        ids_in_order(a + b, lo, hi),
{
    let c = a + b;
    assert forall|i: int| 0 <= i < c.len() implies lo <= (#[trigger] c[i]).0 < hi by {
        if i < a.len() {
            assert(c[i] == a[i]);
        } else {
            assert(c[i] == b[i - a.len()]);
        }
    }
    assert forall|i: int, j: int| 0 <= i < j < c.len() implies (#[trigger] c[i]).0 < (
    #[trigger] c[j]).0 by {
        if j < a.len() {
            assert(c[i] == a[i] && c[j] == a[j]);
        } else if i < a.len() {
            assert(c[i] == a[i] && c[j] == b[j - a.len()]);
        } else {
            assert(c[i] == b[i - a.len()] && c[j] == b[j - a.len()]);
        }
    }
}

proof fn lemma_activation_ids(ir: IrNode, n: Node, first: nat)
    requires
        ir_of(ir, n, first),
    ensures
        ids_in_order(activations(ir), first, first + crate::ir::node_count(n)),
    decreases n,
{
    let own = own_activation(ir);
    assert(ids_in_order(own, first, first + 1));
    match n {
        Node::Element(el) => {
            match ir.kind {
                IrNodeKind::Element { children, .. } => {
                    lemma_activation_ids_all(children@, el.children@, first + 1);
                    lemma_ids_concat(
                        own,
                        activations_all(children@),
                        first,
                        first + 1,
                        first + crate::ir::node_count(n),
                    );
                },
                _ => {},
            }
        },
        Node::For(f) => {
            match ir.kind {
                IrNodeKind::For { body, .. } => {
                    lemma_activation_ids(*body, *f.body, first + 1);
                    lemma_ids_concat(
                        own,
                        activations(*body),
                        first,
                        first + 1,
                        first + crate::ir::node_count(n),
                    );
                },
                _ => {},
            }
        },
        _ => {
            assert(activations(ir) =~= own + Seq::<(nat, Event)>::empty());
        },
    }
}

proof fn lemma_activation_ids_all(irs: Seq<IrNode>, ns: Seq<Node>, first: nat)
    requires
        irs_of(irs, ns, first),
    ensures
        ids_in_order(activations_all(irs), first, first + crate::ir::nodes_count(ns)),
    decreases ns,
{
    if ns.len() > 0 {
        let mid = first + crate::ir::nodes_count(ns.drop_last());
        lemma_activation_ids_all(irs.drop_last(), ns.drop_last(), first);
        lemma_activation_ids(irs.last(), ns.last(), mid);
        lemma_ids_concat(
            activations_all(irs.drop_last()),
            activations(irs.last()),
            first,
            mid,
            first + crate::ir::nodes_count(ns),
        );
    }
}

proof fn lemma_outcome_ids(ctx: BuildContext, acts: Seq<(nat, Event)>)
    requires
        outcome(ctx, acts) is Ok,
    ensures
        forall|i: int|
            0 <= i < acts.len() ==> #[trigger] outcome(ctx, acts)->Ok_0[i].0 == acts[i].0,
{
    law_entries_name_their_chunks(ctx, acts);
}

proof fn lemma_record_all_distinct(done: Seq<(nat, EntryView, ChunkView)>)
    requires
        forall|i: int, j: int| 0 <= i < j < done.len() ==> (#[trigger] done[i]).0 < (#[trigger] done[j]).0,
    ensures
        record_all(Map::empty(), done).dom().finite(),
        record_all(Map::empty(), done).dom().len() == done.len(),
        forall|i: int|
            0 <= i < done.len() ==> #[trigger] record_all(Map::empty(), done).contains_key(
                decimal(done[i].0),
            ),
        forall|k: Seq<char>|
            #[trigger] record_all(Map::empty(), done).contains_key(k) ==> exists|i: int|
                0 <= i < done.len() && k == decimal(done[i].0),
    decreases done.len(),
{
    if done.len() > 0 {
        let prev = done.drop_last();
        lemma_record_all_distinct(prev);
        let m = record_all(Map::<Seq<char>, EntryView>::empty(), prev);
        let key = decimal(done.last().0);
        if m.contains_key(key) {
            let i = choose|i: int| 0 <= i < prev.len() && key == decimal(prev[i].0);
            crate::text::lemma_decimal_injective(prev[i].0, done.last().0);
            assert(done[i].0 < done[done.len() - 1].0);
        }
        assert(m.insert(key, done.last().1).dom() =~= m.dom().insert(key));
        assert forall|i: int| 0 <= i < done.len() implies #[trigger] record_all(
            Map::empty(),
            done,
        ).contains_key(decimal(done[i].0)) by {
            if i < prev.len() {
                assert(prev[i] == done[i]);
            }
        }
        assert forall|k: Seq<char>| #[trigger]
            record_all(Map::empty(), done).contains_key(k) implies exists|i: int|
            0 <= i < done.len() && k == decimal(done[i].0) by {
            if k != key {
                let i = choose|i: int| 0 <= i < prev.len() && k == decimal(prev[i].0);
                assert(prev[i] == done[i]);
            } else {
                assert(k == decimal(done[done.len() - 1].0));
            }
        }
    }
}

/// A page classified from its source gets exactly one manifest entry per
/// interactive element, keyed by the element's node id, whenever its
/// build succeeds: no two elements share an entry.
pub proof fn law_one_entry_per_interactive_element(
    ctx: BuildContext,
    ir: IrNode,
    n: Node,
    first: nat,
)
    requires
        ir_of(ir, n, first),
        outcome(ctx, activations(ir)) is Ok,
    ensures
        record_all(Map::empty(), outcome(ctx, activations(ir))->Ok_0).dom().len() == ir_class_count(
            ir,
            Classification::Interactive,
        ),
{
    let acts = activations(ir);
    let done = outcome(ctx, acts)->Ok_0;
    lemma_activation_ids(ir, n, first);
    lemma_one_activation_per_interactive(ir, n, first);
    law_entries_name_their_chunks(ctx, acts);
    lemma_outcome_ids(ctx, acts);
    assert forall|i: int, j: int| 0 <= i < j < done.len() implies (#[trigger] done[i]).0 < (
    #[trigger] done[j]).0 by {
        assert(done[i].0 == acts[i].0);
        assert(done[j].0 == acts[j].0);
    }
    lemma_record_all_distinct(done);
}


/// A chunk and a framework bundle are named by one content hash: for equal
/// content, the eight hex digits in a bundle's name (`stem.hash.js`) and
/// in a chunk's name (`Name-id.hash.js`) are the same, and they are the
/// folded form of the FNV-1a hash that the lockfile writes in full for
/// the same bytes.
pub proof fn law_chunks_and_bundles_share_the_content_hash(
    stem: Seq<char>,
    name: Seq<char>,
    id: nat,
    content: Seq<char>,
)
    ensures
        crate::assets::bundle_filename(stem, content).subrange(stem.len() + 1int, stem.len() + 9int)
            == short_hash_of(content),
        chunk_filename(name, id, content).subrange(
            name.len() + decimal(id).len() + 2int,
            name.len() + decimal(id).len() + 10int,
        ) == short_hash_of(content),
        short_hash_of(content) == crate::text::hex_fixed(
            crate::hash::fold32(crate::hash::fnv1a(vstd::utf8::encode_utf8(content))) as nat,
            8,
        ),
        crate::hash::fnv1a_hex_of(vstd::utf8::encode_utf8(content)) == "fnv1a:"@
            + crate::text::hex_fixed(crate::hash::fnv1a(vstd::utf8::encode_utf8(content)) as nat, 16),
{
    crate::hash::law_short_hash_is_eight_lowercase_hex_digits(content);
    reveal_strlit(".");
    reveal_strlit("-");
    let h = short_hash_of(content);
    let b = crate::assets::bundle_filename(stem, content);
    assert(b == stem + "."@ + h + ".js"@);
    assert(b.subrange(stem.len() + 1int, stem.len() + 9int) =~= h);
    let c = chunk_filename(name, id, content);
    let d = decimal(id);
    assert(c == name + "-"@ + d + "."@ + h + ".js"@);
    assert(c.subrange(name.len() + d.len() + 2int, name.len() + d.len() + 10int) =~= h);
}

proof fn lemma_placeholder_listens(ev: Seq<char>, h: Seq<char>)
    ensures
        contains_seq(join_lines(placeholder_lines(ev, h)), "    el.addEventListener(\""@ + ev + "\", "@),
{
    let head = "    el.addEventListener(\""@ + ev + "\", "@;
    let lines = placeholder_lines(ev, h);
    let line = "    el.addEventListener(\""@ + ev + "\", () => {"@;
    assert(lines[4] == line);
    reveal_strlit("\", ");
    reveal_strlit("\", () => {");
    reveal_strlit("() => {");
    assert("\", () => {"@ =~= "\", "@ + "() => {"@);
    assert(line =~= head + "() => {"@);
    crate::json::lemma_join_items_has(lines, "\n"@, ""@, 4);
    assert(line.subrange(0, head.len() as int) =~= head);
    crate::text::lemma_contains_prefix(line, head);
    crate::text::lemma_contains_trans(join_lines(lines), line, head);
}

proof fn lemma_real_chunk_listens(
    ev: Seq<char>,
    h: Seq<char>,
    src: Seq<char>,
    imports: Seq<Seq<char>>,
    consts: Seq<(Seq<char>, TopLevelConst)>,
)
    ensures
        contains_seq(
            join_lines(real_chunk_lines(ev, h, src, imports, consts)),
            "    el.addEventListener(\""@ + ev + "\", "@ + h + ");"@,
        ),
        contains_seq(
            join_lines(real_chunk_lines(ev, h, src, imports, consts)),
            "    el.addEventListener(\""@ + ev + "\", "@,
        ),
        contains_seq(join_lines(real_chunk_lines(ev, h, src, imports, consts)), src),
{
    let head = "    el.addEventListener(\""@ + ev + "\", "@;
    let lines = real_chunk_lines(ev, h, src, imports, consts);
    let k = lines.len() - 3;
    let line = listener_line(ev, h);
    assert(lines[k] == line);
    crate::json::lemma_join_items_has(lines, "\n"@, ""@, k);
    assert(line =~= head + h + ");"@);
    assert(line.subrange(0, head.len() as int) =~= head);
    crate::text::lemma_contains_prefix(line, head);
    crate::text::lemma_contains_trans(join_lines(lines), line, head);
    assert(lines[lines.len() - 6] == src);
    crate::json::lemma_join_items_has(lines, "\n"@, ""@, lines.len() - 6);
}

/// A chunk binds its handler to the element's own event: the entry
/// records the event and handler the element declared, and the chunk's
/// `activate` listens for that event (a placeholder chunk too); a chunk
/// made from the handler's own source holds that source and passes the
/// handler itself.
pub proof fn law_chunk_listens_to_its_own_event(ctx: BuildContext, id: nat, e: Event)
    ensures
        activation_of(ctx, id, e) matches Ok((entry, chunk)) ==> {
            &&& entry.event == e.name@
            &&& entry.handler == e.handler.path_view()
            &&& contains_seq(chunk.content, "    el.addEventListener(\""@ + e.name@ + "\", "@)
            &&& (source_of(ctx, entry.handler) is Some ==> contains_seq(
                chunk.content,
                "    el.addEventListener(\""@ + e.name@ + "\", "@ + entry.handler + ");"@,
            ))
            &&& (source_of(ctx, entry.handler) matches Some(src) ==> contains_seq(chunk.content, src))
        },
{
    let ev = e.name@;
    let h = e.handler.path_view();
    match source_of(ctx, h) {
        None => lemma_placeholder_listens(ev, h),
        Some(src) => lemma_real_chunk_listens(ev, h, src, ctx.imports, ctx.consts),
    }
}

} // verus!
