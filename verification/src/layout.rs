//! Shared layouts: an optional `src/layout.tsx` wraps the HTML of every
//! page. This is no component composition: the layout is compiled like
//! any page, and its already rendered HTML gets the page's HTML spliced
//! into its one, empty, `data-nexa-slot` element. A layout may have no
//! interactive node nor island (its node ids would collide with the
//! page's in one activation manifest); its `nx-*` classes do count.
use vstd::prelude::*;

use crate::ast::Attr;
use crate::ir::{ir_count, irs_count, Classification, IrNode, IrNodeKind};
use crate::serve::{find_char, lemma_find_char};
use crate::strmap::StrSet;
use crate::text::{
    contains_seq, decimal, find_str, first_occurrence, lemma_first_at_occurs, occurs_at, owned,
    push_decimal, str_eq,
};
use vstd::string::*;

verus! {

pub const SLOT_ATTR: &'static str = "data-nexa-slot";

/// A layout rendered around a page: its HTML with the page inside, the
/// `nx-*` classes it uses, and the `<head>` HTML it declares.
pub struct RenderedLayout {
    pub html: String,
    pub ui_used_classes: StrSet,
    pub head_html: String,
}

/// One of `attrs` is named `name`.
pub open spec fn has_attr(attrs: Seq<Attr>, name: Seq<char>) -> bool {
    exists|i: int| 0 <= i < attrs.len() && #[trigger] attrs[i].name@ == name
}

/// An element marked as the slot.
pub open spec fn is_slot(n: IrNode) -> bool {
    match n.kind {
        IrNodeKind::Element { attrs, .. } => has_attr(attrs@, SLOT_ATTR@),
        _ => false,
    }
}

/// A slot element with children.
pub open spec fn is_filled_slot(n: IrNode) -> bool {
    match n.kind {
        IrNodeKind::Element { attrs, children, .. } => has_attr(attrs@, SLOT_ATTR@)
            && children@.len() > 0,
        _ => false,
    }
}

/// An interactive node or an island.
pub open spec fn is_active(n: IrNode) -> bool {
    n.classification == Classification::Interactive || n.classification == Classification::Island
}

/// Some node of the tree is interactive or an island.
pub open spec fn any_active(n: IrNode) -> bool
    decreases n,
{
    is_active(n) || match n.kind {
        IrNodeKind::Element { children, .. } => any_active_all(children@),
        IrNodeKind::For { body, .. } => any_active(*body),
        _ => false,
    }
}

pub open spec fn any_active_all(s: Seq<IrNode>) -> bool
    decreases s,
{
    s.len() > 0 && (any_active_all(s.drop_last()) || any_active(s.last()))
}

/// Number of slot elements in the tree.
pub open spec fn slot_count(n: IrNode) -> nat
    decreases n,
{
    (if is_slot(n) {
        1nat
    } else {
        0nat
    }) + match n.kind {
        IrNodeKind::Element { children, .. } => slot_count_all(children@),
        IrNodeKind::For { body, .. } => slot_count(*body),
        _ => 0,
    }
}

pub open spec fn slot_count_all(s: Seq<IrNode>) -> nat
    decreases s,
{
    if s.len() == 0 {
        0
    } else {
        slot_count_all(s.drop_last()) + slot_count(s.last())
    }
}

/// Some slot element of the tree has children.
pub open spec fn any_filled_slot(n: IrNode) -> bool
    decreases n,
{
    is_filled_slot(n) || match n.kind {
        IrNodeKind::Element { children, .. } => any_filled_slot_all(children@),
        IrNodeKind::For { body, .. } => any_filled_slot(*body),
        _ => false,
    }
}

pub open spec fn any_filled_slot_all(s: Seq<IrNode>) -> bool
    decreases s,
{
    s.len() > 0 && (any_filled_slot_all(s.drop_last()) || any_filled_slot(s.last()))
}

pub const ACTIVE_LAYOUT_MESSAGE: &'static str = "src/layout.tsx tiene un evento interactivo o una isla — un layout no lo admite (los ids de nodo del layout y los de cada página compartirían el mismo manifiesto de activación).";

pub const SLOT_COUNT_HEAD: &'static str = "src/layout.tsx debe tener exactamente un elemento con `data-nexa-slot` (tiene ";

pub const FILLED_SLOT_MESSAGE: &'static str = "el elemento `data-nexa-slot` de src/layout.tsx debe estar vacío — ahí se inserta el HTML de cada página";

/// Why a layout tree is refused, if it is: an interactive node or an
/// island anywhere, then a number of slots other than one, then a slot
/// with children.
pub open spec fn layout_error(root: IrNode) -> Option<Seq<char>> {
    if any_active(root) {
        Some(ACTIVE_LAYOUT_MESSAGE@)
    } else if slot_count(root) != 1 {
        Some(SLOT_COUNT_HEAD@ + decimal(slot_count(root)) + ")"@)
    } else if any_filled_slot(root) {
        Some(FILLED_SLOT_MESSAGE@)
    } else {
        None
    }
}

fn has_slot_attr(attrs: &Vec<Attr>) -> (b: bool)
    ensures
        b == has_attr(attrs@, SLOT_ATTR@),
{
    let mut i: usize = 0;
    while i < attrs.len()
        invariant
            i <= attrs@.len(),
            forall|j: int| 0 <= j < i ==> attrs@[j].name@ != SLOT_ATTR@,
        decreases attrs@.len() - i,
    {
        if str_eq(attrs[i].name.as_str(), SLOT_ATTR) {
            return true;
        }
        i = i + 1;
    }
    false
}

proof fn lemma_slot_count_bound(n: IrNode)
    ensures
        slot_count(n) <= ir_count(n),
    decreases n,
{
    match n.kind {
        IrNodeKind::Element { children, .. } => {
            lemma_slot_count_all_bound(children@);
        },
        IrNodeKind::For { body, .. } => {
            lemma_slot_count_bound(*body);
        },
        _ => {},
    }
}

proof fn lemma_slot_count_all_bound(s: Seq<IrNode>)
    ensures
        slot_count_all(s) <= irs_count(s),
    decreases s,
{
    if s.len() > 0 {
        lemma_slot_count_all_bound(s.drop_last());
        lemma_slot_count_bound(s.last());
    }
}

/// What a walk of a layout tree found.
pub struct LayoutScan {
    pub active: bool,
    pub slots: usize,
    pub filled_slot: bool,
}

/// Walks the tree, counting slots and noting interactive nodes, islands
/// and filled slots.
fn scan_layout(node: &IrNode) -> (r: LayoutScan)
    requires
        ir_count(*node) <= usize::MAX,
    ensures
        r.active == any_active(*node),
        r.slots == slot_count(*node),
        r.filled_slot == any_filled_slot(*node),
    decreases ir_count(*node), 0nat,
{
    proof {
        lemma_slot_count_bound(*node);
    }
    let active = node.classification == Classification::Interactive || node.classification
        == Classification::Island;
    match &node.kind {
        IrNodeKind::Element { attrs, children, .. } => {
            let slot = has_slot_attr(attrs);
            let sub = scan_layout_all(children);
            LayoutScan {
                active: active || sub.active,
                slots: if slot {
                    1 + sub.slots
                } else {
                    sub.slots
                },
                filled_slot: (slot && children.len() > 0) || sub.filled_slot,
            }
        },
        IrNodeKind::For { body, .. } => {
            let sub = scan_layout(body);
            LayoutScan { active: active || sub.active, slots: sub.slots, filled_slot: sub.filled_slot }
        },
        _ => LayoutScan { active, slots: 0, filled_slot: false },
    }
}

fn scan_layout_all(children: &Vec<IrNode>) -> (r: LayoutScan)
    requires
        irs_count(children@) <= usize::MAX,
    ensures
        r.active == any_active_all(children@),
        r.slots == slot_count_all(children@),
        r.filled_slot == any_filled_slot_all(children@),
    decreases irs_count(children@), 1nat,
{
    proof {
        lemma_slot_count_all_bound(children@);
    }
    let mut acc = LayoutScan { active: false, slots: 0, filled_slot: false };
    let mut i: usize = 0;
    while i < children.len()
        invariant
            i <= children@.len(),
            irs_count(children@) <= usize::MAX,
            acc.active == any_active_all(children@.take(i as int)),
            acc.slots == slot_count_all(children@.take(i as int)),
            acc.filled_slot == any_filled_slot_all(children@.take(i as int)),
        decreases children@.len() - i,
    {
        proof {
            let t = children@.take(i + 1);
            assert(t.drop_last() =~= children@.take(i as int));
            crate::activation::lemma_irs_count_elem(children@, i as int);
            crate::ir::lemma_irs_count_take(children@, i + 1);
            lemma_slot_count_all_bound(t);
        }
        let sub = scan_layout(&children[i]);
        acc = LayoutScan {
            active: acc.active || sub.active,
            slots: acc.slots + sub.slots,
            filled_slot: acc.filled_slot || sub.filled_slot,
        };
        i = i + 1;
    }
    assert(children@.take(i as int) =~= children@);
    acc
}

/// Checks that a layout tree has exactly one slot element, empty, and no
/// interactive node nor island.
pub fn validate(root: &IrNode) -> (r: Result<(), String>)
    requires
        ir_count(*root) <= usize::MAX,
    ensures
        match r {
            Ok(()) => layout_error(*root) is None,
            Err(msg) => layout_error(*root) == Some(msg@),
        },
{
    let scan = scan_layout(root);
    if scan.active {
        return Err(owned(ACTIVE_LAYOUT_MESSAGE));
    }
    if scan.slots != 1 {
        let mut msg = owned(SLOT_COUNT_HEAD);
        push_decimal(&mut msg, scan.slots as u128);
        msg.append(")");
        return Err(msg);
    }
    if scan.filled_slot {
        return Err(owned(FILLED_SLOT_MESSAGE));
    }
    Ok(())
}

pub const NO_SLOT_MESSAGE: &'static str = "src/layout.tsx no tiene ningún elemento con `data-nexa-slot`";

pub const UNCLOSED_SLOT_MESSAGE: &'static str = "no se pudo encontrar el cierre de la etiqueta con `data-nexa-slot`";

/// The layout's HTML with `body` right after the opening tag that holds
/// the first `data-nexa-slot`, or why that cannot be done.
pub open spec fn spliced(layout: Seq<char>, body: Seq<char>) -> Result<Seq<char>, Seq<char>> {
    match first_occurrence(layout, SLOT_ATTR@) {
        None => Err(NO_SLOT_MESSAGE@),
        Some(m) => match find_char(layout.skip(m), '>') {
            None => Err(UNCLOSED_SLOT_MESSAGE@),
            Some(i) => Ok(layout.take(m + i + 1) + body + layout.skip(m + i + 1)),
        },
    }
}

/// Inserts the page's HTML into the layout's slot element.
pub fn splice_slot(layout_html: &str, body: &str) -> (r: Result<String, String>)
    ensures
        match r {
            Ok(s) => spliced(layout_html@, body@) == Ok::<Seq<char>, Seq<char>>(s@),
            Err(e) => spliced(layout_html@, body@) == Err::<Seq<char>, Seq<char>>(e@),
        },
{
    let m = match find_str(layout_html, SLOT_ATTR) {
        Some(m) => m,
        None => return Err(owned(NO_SLOT_MESSAGE)),
    };
    let cs = crate::text::chars_of(layout_html);
    let n = cs.len();
    let mut j = m;
    while j < n && cs[j] != '>'
        invariant
            m <= j <= n,
            n == cs@.len(),
            cs@ == layout_html@,
            forall|k: int| m <= k < j ==> cs@[k] != '>',
        decreases n - j,
    {
        j = j + 1;
    }
    proof {
        let rest = layout_html@.skip(m as int);
        lemma_find_char(rest, '>');
        assert forall|k: int| 0 <= k < j - m implies rest[k] != '>' by {
            assert(rest[k] == cs@[m + k]);
        }
        if j < n {
            assert(rest[j - m] == cs@[j as int]);
        }
        crate::serve::lemma_find_char_is(rest, '>', j - m);
    }
    if j >= n {
        return Err(owned(UNCLOSED_SLOT_MESSAGE));
    }
    let open_end = j + 1;
    let mut r = owned(layout_html.substring_char(0, open_end));
    r.append(body);
    r.append(layout_html.substring_char(open_end, n));
    assert(r@ =~= layout_html@.take(open_end as int) + body@ + layout_html@.skip(open_end as int));
    Ok(r)
}

} // verus!

verus! {

/// The page's HTML lands right after the `>` that ends the opening tag
/// holding `data-nexa-slot`, and the layout around it is kept whole.
pub proof fn law_body_lands_inside_the_slot(layout: Seq<char>, body: Seq<char>)
    requires
        spliced(layout, body) is Ok,
    ensures
        exists|k: int|
            0 < k <= layout.len() && layout[k - 1] == '>' && contains_seq(
                layout.take(k),
                SLOT_ATTR@,
            ) && spliced(layout, body)->Ok_0 == layout.take(k) + body + layout.skip(k),
{
    let m = first_occurrence(layout, SLOT_ATTR@)->Some_0;
    lemma_first_at_occurs(layout, SLOT_ATTR@, 0);
    let rest = layout.skip(m);
    lemma_find_char(rest, '>');
    let i = find_char(rest, '>')->Some_0;
    let k = m + i + 1;
    reveal_strlit("data-nexa-slot");
    let n = SLOT_ATTR@.len() as int;
    assert(n == 14);
    assert(layout.subrange(m, m + n) == SLOT_ATTR@);
    if i < n {
        assert(rest[i] == layout[m + i]);
        assert(layout[m + i] == layout.subrange(m, m + n)[i]);
        assert(SLOT_ATTR@[i] != '>');
    }
    assert(layout[k - 1] == rest[i]);
    assert(layout.take(k).subrange(m, m + n) =~= layout.subrange(m, m + n));
    assert(occurs_at(layout.take(k), SLOT_ATTR@, m));
}

} // verus!
