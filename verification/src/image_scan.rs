//! The static `src` of the `<img>` elements of a page's tree (for the
//! `maxImage` budget): only values known at build time (`src="/logo.png"`),
//! never `src={expr}`.
use vstd::prelude::*;

use crate::ast::{Attr, AttrValue};
use crate::ir::{IrNode, IrNodeKind};
use crate::text::{owned, str_eq};

verus! {

/// The static `src` values among an element's attributes, in order.
pub open spec fn static_srcs(attrs: Seq<Attr>) -> Seq<Seq<char>>
    decreases attrs.len(),
{
    if attrs.len() == 0 {
        Seq::empty()
    } else {
        let rest = static_srcs(attrs.drop_last());
        let a = attrs.last();
        match a.value {
            Some(AttrValue::Static(v)) => if a.name@ == "src"@ {
                rest.push(v@)
            } else {
                rest
            },
            _ => rest,
        }
    }
}

/// The image sources of a tree in pre-order, descending through elements
/// only.
pub open spec fn image_srcs(n: IrNode) -> Seq<Seq<char>>
    decreases n,
{
    match n.kind {
        IrNodeKind::Element { tag, attrs, children, .. } => (if tag@ == "img"@ {
            static_srcs(attrs@)
        } else {
            Seq::empty()
        }) + image_srcs_all(children@),
        _ => Seq::empty(),
    }
}

pub open spec fn image_srcs_all(s: Seq<IrNode>) -> Seq<Seq<char>>
    decreases s,
{
    if s.len() == 0 {
        Seq::empty()
    } else {
        image_srcs_all(s.drop_last()) + image_srcs(s.last())
    }
}

pub open spec fn texts(v: Seq<String>) -> Seq<Seq<char>> {
    v.map_values(|s: String| s@)
}

fn push_text(out: &mut Vec<String>, s: &str)
    ensures
        texts(final(out)@) == texts(old(out)@).push(s@),
{
    let ghost before = texts(out@);
    out.push(owned(s));
    assert(texts(out@) =~= before.push(s@));
}

fn visit(node: &IrNode, out: &mut Vec<String>)
    ensures
        texts(final(out)@) == texts(old(out)@) + image_srcs(*node),
    decreases crate::ir::ir_count(*node), 0nat,
{
    match &node.kind {
        IrNodeKind::Element { tag, attrs, children, .. } => {
            let ghost start = texts(out@);
            if str_eq(tag.as_str(), "img") {
                let mut i: usize = 0;
                while i < attrs.len()
                    invariant
                        i <= attrs@.len(),
                        texts(out@) == start + static_srcs(attrs@.take(i as int)),
                    decreases attrs@.len() - i,
                {
                    proof {
                        assert(attrs@.take(i + 1).drop_last() =~= attrs@.take(i as int));
                    }
                    if str_eq(attrs[i].name.as_str(), "src") {
                        match &attrs[i].value {
                            Some(AttrValue::Static(v)) => {
                                push_text(out, v.as_str());
                            },
                            _ => {},
                        }
                    }
                    i = i + 1;
                }
                assert(attrs@.take(i as int) =~= attrs@);
            }
            let ghost mid = texts(out@);
            assert(mid == start + (if tag@ == "img"@ {
                static_srcs(attrs@)
            } else {
                Seq::empty()
            })) by {
                if tag@ != "img"@ {
                    assert(mid =~= start + Seq::<Seq<char>>::empty());
                }
            }
            visit_all(children, out);
            assert(texts(out@) =~= start + image_srcs(*node));
        },
        _ => {
            assert(texts(out@) =~= texts(old(out)@) + image_srcs(*node));
        },
    }
}

fn visit_all(children: &Vec<IrNode>, out: &mut Vec<String>)
    ensures
        texts(final(out)@) == texts(old(out)@) + image_srcs_all(children@),
    decreases crate::ir::irs_count(children@), 1nat,
{
    let ghost start = texts(out@);
    let mut i: usize = 0;
    assert(children@.take(0) =~= Seq::<IrNode>::empty());
    assert(start + image_srcs_all(children@.take(0)) =~= start);
    while i < children.len()
        invariant
            i <= children@.len(),
            texts(out@) == start + image_srcs_all(children@.take(i as int)),
        decreases children@.len() - i,
    {
        proof {
            crate::activation::lemma_irs_count_elem(children@, i as int);
            assert(children@.take(i + 1).drop_last() =~= children@.take(i as int));
        }
        visit(&children[i], out);
        assert(texts(out@) =~= start + image_srcs_all(children@.take(i + 1)));
        i = i + 1;
    }
    assert(children@.take(i as int) =~= children@);
}

/// The static image sources of a page's tree, in pre-order.
pub fn collect_image_srcs(root: &IrNode) -> (r: Vec<String>)
    ensures
        texts(r@) == image_srcs(*root),
{
    let mut out: Vec<String> = Vec::new();
    assert(texts(out@) =~= Seq::<Seq<char>>::empty());
    visit(root, &mut out);
    assert(texts(out@) =~= image_srcs(*root));
    out
}

} // verus!
