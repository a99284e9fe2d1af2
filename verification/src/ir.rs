//! The classified tree (IR) and the analyzer that builds it. Every node of
//! a component gets an id in pre-order and a classification:
//! - text is `Static`;
//! - `{expr}` and `t(...)` are `Dynamic`, and depend on the root
//!   identifier of the expression (or on `t`);
//! - an element with an island is `Island`, with at least one event it is
//!   `Interactive` and depends on each handler's root identifier, and
//!   otherwise it is `Static`, whatever its children are;
//! - a `<For>` is `Dynamic` and depends on the root of `each`; its body is
//!   classified once, as a template.
use vstd::prelude::*;

use crate::ast::{Attr, Component, Event, Expr, ForLoop, Island, Node, Translate};
use crate::strmap::StrMap;
use crate::text::owned;

verus! {

pub type NodeId = usize;

/// How a node behaves at run time.
#[derive(Debug, Clone, Copy, PartialEq, Eq, Structural)]
pub enum Classification {
    Static,
    Dynamic,
    Interactive,
    Async,
    Island,
}

/// What an IR node is, with the source node's contents.
#[derive(Debug, PartialEq)]
pub enum IrNodeKind {
    Text(String),
    Expression(Expr),
    Translate(Translate),
    Element {
        tag: String,
        attrs: Vec<Attr>,
        events: Vec<Event>,
        island: Option<Island>,
        children: Vec<IrNode>,
    },
    For { each: Expr, item_name: String, body: Box<IrNode> },
}

/// A classified node.
#[derive(Debug, PartialEq)]
pub struct IrNode {
    pub id: NodeId,
    pub classification: Classification,
    pub kind: IrNodeKind,
}

/// Which nodes depend on each identifier, in the order they were
/// registered.
pub struct DependencyGraph {
    map: StrMap<Vec<NodeId>>,
}

/// A classified component.
pub struct IrComponent {
    pub name: String,
    pub root: IrNode,
    pub dependencies: DependencyGraph,
}

/// How many nodes of a tree fall in each classification.
#[derive(Debug, Clone, Copy, PartialEq, Eq)]
pub struct ClassificationCounts {
    pub static_count: usize,
    pub dynamic_count: usize,
    pub interactive_count: usize,
    pub async_count: usize,
    pub island_count: usize,
}

// ---------------------------------------------------------------------
// Specification of the analysis

/// Number of nodes of a source tree.
pub open spec fn node_count(n: Node) -> nat
    decreases n,
{
    match n {
        Node::Element(el) => 1 + nodes_count(el.children@),
        Node::For(f) => 1 + node_count(*f.body),
        _ => 1,
    }
}

/// Number of nodes of a sequence of source trees.
pub open spec fn nodes_count(s: Seq<Node>) -> nat
    decreases s,
{
    if s.len() == 0 {
        0
    } else {
        nodes_count(s.drop_last()) + node_count(s.last())
    }
}

/// The classification rule for one source node.
pub open spec fn classification_of(n: Node) -> Classification {
    match n {
        Node::Text(_) => Classification::Static,
        Node::Expression(_) => Classification::Dynamic,
        Node::Translate(_) => Classification::Dynamic,
        Node::For(_) => Classification::Dynamic,
        Node::Element(el) => if el.island is Some {
            Classification::Island
        } else if el.events@.len() == 0 {
            Classification::Static
        } else {
            Classification::Interactive
        },
    }
}

/// `ir` is the classification of source node `n` whose id is `first`:
/// ids run in pre-order from `first`, each node has the classification of
/// its source node, and holds that node's contents.
pub open spec fn ir_of(ir: IrNode, n: Node, first: nat) -> bool
    decreases n,
{
    &&& ir.id == first
    &&& ir.classification == classification_of(n)
    &&& match n {
        Node::Text(t) => ir.kind == IrNodeKind::Text(t),
        Node::Expression(e) => ir.kind == IrNodeKind::Expression(e),
        Node::Translate(t) => ir.kind == IrNodeKind::Translate(t),
        Node::Element(el) => match ir.kind {
            IrNodeKind::Element { tag, attrs, events, island, children } => {
                &&& tag == el.tag
                &&& attrs == el.attrs
                &&& events == el.events
                &&& island == el.island
                &&& irs_of(children@, el.children@, first + 1)
            },
            _ => false,
        },
        Node::For(f) => match ir.kind {
            IrNodeKind::For { each, item_name, body } => {
                &&& each == f.each
                &&& item_name == f.item_name
                &&& ir_of(*body, *f.body, first + 1)
            },
            _ => false,
        },
    }
}

/// `irs` are the classifications of the sibling source nodes `ns`, the
/// first of them with id `first`.
pub open spec fn irs_of(irs: Seq<IrNode>, ns: Seq<Node>, first: nat) -> bool
    decreases ns,
{
    &&& irs.len() == ns.len()
    &&& ns.len() > 0 ==> {
        &&& irs_of(irs.drop_last(), ns.drop_last(), first)
        &&& ir_of(irs.last(), ns.last(), first + nodes_count(ns.drop_last()))
    }
}

/// The dependencies that classifying `n` (first id `first`) registers,
/// in order: `(identifier, node id)`.
pub open spec fn deps_of(n: Node, first: nat) -> Seq<(Seq<char>, nat)>
    decreases n,
{
    match n {
        Node::Text(_) => Seq::empty(),
        Node::Expression(e) => seq![(e.root_view(), first)],
        Node::Translate(_) => seq![("t"@, first)],
        Node::Element(el) => deps_of_all(el.children@, first + 1) + el.events@.map_values(
            |e: Event| (e.handler.root_view(), first),
        ),
        Node::For(f) => seq![(f.each.root_view(), first)] + deps_of(*f.body, first + 1),
    }
}

/// The dependencies that classifying the siblings `ns` registers.
pub open spec fn deps_of_all(ns: Seq<Node>, first: nat) -> Seq<(Seq<char>, nat)>
    decreases ns,
{
    if ns.len() == 0 {
        Seq::empty()
    } else {
        deps_of_all(ns.drop_last(), first) + deps_of(
            ns.last(),
            first + nodes_count(ns.drop_last()),
        )
    }
}

/// The graph after registering `log` in order: each identifier's list of
/// dependents grows at its end.
pub open spec fn apply_deps(g: Map<Seq<char>, Seq<nat>>, log: Seq<(Seq<char>, nat)>) -> Map<
    Seq<char>,
    Seq<nat>,
>
    decreases log.len(),
{
    if log.len() == 0 {
        g
    } else {
        let h = apply_deps(g, log.drop_last());
        let (k, id) = log.last();
        h.insert(k, (if h.contains_key(k) { h[k] } else { Seq::empty() }).push(id))
    }
}

/// Number of nodes of an IR tree.
pub open spec fn ir_count(n: IrNode) -> nat
    decreases n,
{
    match n.kind {
        IrNodeKind::Element { children, .. } => 1 + irs_count(children@),
        IrNodeKind::For { body, .. } => 1 + ir_count(*body),
        _ => 1,
    }
}

/// Number of nodes of a sequence of IR trees.
pub open spec fn irs_count(s: Seq<IrNode>) -> nat
    decreases s,
{
    if s.len() == 0 {
        0
    } else {
        irs_count(s.drop_last()) + ir_count(s.last())
    }
}

/// Number of nodes of an IR tree with classification `c`.
pub open spec fn ir_class_count(n: IrNode, c: Classification) -> nat
    decreases n,
{
    (if n.classification == c { 1nat } else { 0nat }) + match n.kind {
        IrNodeKind::Element { children, .. } => irs_class_count(children@, c),
        IrNodeKind::For { body, .. } => ir_class_count(*body, c),
        _ => 0,
    }
}

/// Number of nodes with classification `c` in a sequence of IR trees.
pub open spec fn irs_class_count(s: Seq<IrNode>, c: Classification) -> nat
    decreases s,
{
    if s.len() == 0 {
        0
    } else {
        irs_class_count(s.drop_last(), c) + ir_class_count(s.last(), c)
    }
}

// ---------------------------------------------------------------------
// Dependency graph

impl DependencyGraph {
    /// Identifier to the ids of the nodes that depend on it, in order.
    pub closed spec fn view(&self) -> Map<Seq<char>, Seq<nat>> {
        self.map@.map_values(|v: Vec<NodeId>| v@.map_values(|x: NodeId| x as nat))
    }

    /// An empty graph.
    pub fn new() -> (g: Self)
        ensures
            g@ == Map::<Seq<char>, Seq<nat>>::empty(),
    {
        let g = DependencyGraph { map: StrMap::new() };
        assert(g@ =~= Map::<Seq<char>, Seq<nat>>::empty());
        g
    }

    /// Records that node `id` depends on `identifier`.
    pub fn add(&mut self, identifier: &str, id: NodeId)
        ensures
            final(self)@ == old(self)@.insert(
                identifier@,
                (if old(self)@.contains_key(identifier@) {
                    old(self)@[identifier@]
                } else {
                    Seq::empty()
                }).push(id as nat),
            ),
    {
        let mut ids: Vec<NodeId> = Vec::new();
        match self.map.get(identifier) {
            Some(v) => {
                let mut i: usize = 0;
                while i < v.len()
                    invariant
                        i <= v@.len(),
                        ids@ == v@.take(i as int),
                    decreases v@.len() - i,
                {
                    ids.push(v[i]);
                    i = i + 1;
                    assert(ids@ =~= v@.take(i as int));
                }
                assert(v@.take(i as int) =~= v@);
            },
            None => {},
        }
        let ghost prev = ids@;
        let ghost old_map = self.map@;
        ids.push(id);
        let ghost new_ids = ids@;
        self.map.insert(owned(identifier), ids);
        proof {
            let f = |v: Vec<NodeId>| v@.map_values(|x: NodeId| x as nat);
            let k = identifier@;
            let expected = old(self)@.insert(
                k,
                (if old(self)@.contains_key(k) {
                    old(self)@[k]
                } else {
                    Seq::empty()
                }).push(id as nat),
            );
            assert(new_ids == prev.push(id));
            assert(new_ids.map_values(|x: NodeId| x as nat) =~= prev.map_values(
                |x: NodeId| x as nat,
            ).push(id as nat));
            assert(old_map.contains_key(k) ==> prev == old_map[k]@);
            assert(!old_map.contains_key(k) ==> prev =~= Seq::<NodeId>::empty());
            assert forall|key: Seq<char>| #[trigger] self@.contains_key(key) <==> expected.contains_key(key) by {
                assert(self@.contains_key(key) == self.map@.contains_key(key));
                assert(old(self)@.contains_key(key) == old_map.contains_key(key));
            }
            assert forall|key: Seq<char>| #[trigger] self@.contains_key(key) implies self@[key] == expected[key] by {
                assert(self@[key] == f(self.map@[key]));
                if key != k {
                    assert(old(self)@[key] == f(old_map[key]));
                } else {
                    assert(self.map@[key] == self.map@[k]);
                    if old_map.contains_key(k) {
                        assert(old(self)@[k] == f(old_map[k]));
                    }
                }
            }
            assert(self@ =~= expected);
        }
    }

    /// The nodes that depend on `identifier`, in registration order (none
    /// if nothing does).
    pub fn dependents_of(&self, identifier: &str) -> (r: Vec<NodeId>)
        ensures
            r@.map_values(|x: NodeId| x as nat) == (if self@.contains_key(identifier@) {
                self@[identifier@]
            } else {
                Seq::empty()
            }),
    {
        let mut ids: Vec<NodeId> = Vec::new();
        match self.map.get(identifier) {
            Some(v) => {
                let mut i: usize = 0;
                while i < v.len()
                    invariant
                        i <= v@.len(),
                        ids@ == v@.take(i as int),
                    decreases v@.len() - i,
                {
                    ids.push(v[i]);
                    i = i + 1;
                    assert(ids@ =~= v@.take(i as int));
                }
                assert(v@.take(i as int) =~= v@);
            },
            None => {},
        }
        assert(ids@.map_values(|x: NodeId| x as nat) =~= (if self@.contains_key(identifier@) {
            self@[identifier@]
        } else {
            Seq::empty()
        }));
        ids
    }

    /// No identifier has dependents.
    pub fn is_empty(&self) -> (b: bool)
        ensures
            b == (self@.dom().len() == 0),
    {
        let b = self.map.is_empty();
        assert(self@.dom() =~= self.map@.dom());
        b
    }

    /// The identifiers that have dependents, in increasing order.
    pub fn identifiers(&self) -> (r: Vec<String>)
        ensures
            r@.map_values(|s: String| s@).to_set() == self@.dom(),
    {
        let n = self.map.len();
        let mut r: Vec<String> = Vec::new();
        let mut i: usize = 0;
        while i < n
            invariant
                n == self.map.pairs().len(),
                i <= n,
                r@.map_values(|s: String| s@) == self.map.pairs().take(i as int).map_values(
                    |e: (Seq<char>, Vec<NodeId>)| e.0,
                ),
            decreases n - i,
        {
            let ghost before = r@;
            let key = owned(self.map.key_at(i).as_str());
            r.push(key);
            assert(r@.map_values(|s: String| s@) =~= before.map_values(|s: String| s@).push(
                self.map.pairs()[i as int].0,
            ));
            assert(self.map.pairs().take(i + 1).map_values(|e: (Seq<char>, Vec<NodeId>)| e.0)
                =~= self.map.pairs().take(i as int).map_values(|e: (Seq<char>, Vec<NodeId>)| e.0).push(
                self.map.pairs()[i as int].0,
            ));
            i = i + 1;
        }
        proof {
            let keys = r@.map_values(|s: String| s@);
            assert(self.map.pairs().take(i as int) =~= self.map.pairs());
            assert forall|k: Seq<char>| keys.to_set().contains(k) <==> self@.dom().contains(k) by {
                if keys.to_set().contains(k) {
                    let j = choose|j: int| 0 <= j < keys.len() && keys[j] == k;
                    assert(crate::strmap::has_key_at(self.map.pairs(), k, j));
                }
                if self@.dom().contains(k) {
                    assert(self.map@.contains_key(k));
                    let j = choose|j: int| crate::strmap::has_key_at(self.map.pairs(), k, j);
                    assert(keys[j] == k);
                }
            }
            assert(keys.to_set() =~= self@.dom());
        }
        r
    }
}

// ---------------------------------------------------------------------
// The analysis

proof fn lemma_deps_all_push(ns: Seq<Node>, n: Node, first: nat)
    ensures
        deps_of_all(ns.push(n), first) == deps_of_all(ns, first) + deps_of(
            n,
            first + nodes_count(ns),
        ),
        nodes_count(ns.push(n)) == nodes_count(ns) + node_count(n),
{
    assert(ns.push(n).drop_last() =~= ns);
}

/// Registering one more dependency extends that identifier's list.
pub open spec fn add_dep(h: Map<Seq<char>, Seq<nat>>, k: Seq<char>, id: nat) -> Map<Seq<char>, Seq<nat>> {
    h.insert(k, (if h.contains_key(k) { h[k] } else { Seq::empty() }).push(id))
}

proof fn lemma_apply_deps_push(
    g: Map<Seq<char>, Seq<nat>>,
    log: Seq<(Seq<char>, nat)>,
    k: Seq<char>,
    id: nat,
)
    ensures
        apply_deps(g, log.push((k, id))) == add_dep(apply_deps(g, log), k, id),
{
    assert(log.push((k, id)).drop_last() =~= log);
}

proof fn lemma_apply_deps_empty(g: Map<Seq<char>, Seq<nat>>)
    ensures
        apply_deps(g, Seq::empty()) == g,
{
}

proof fn lemma_apply_deps_concat(
    g: Map<Seq<char>, Seq<nat>>,
    a: Seq<(Seq<char>, nat)>,
    b: Seq<(Seq<char>, nat)>,
)
    ensures
        apply_deps(g, a + b) == apply_deps(apply_deps(g, a), b),
    decreases b.len(),
{
    if b.len() == 0 {
        assert(a + b =~= a);
    } else {
        assert((a + b).drop_last() =~= a + b.drop_last());
        lemma_apply_deps_concat(g, a, b.drop_last());
    }
}

/// Classifies `node`, giving it and its descendants ids from `*next_id` in
/// pre-order, and registers the dependencies it finds.
#[verifier::loop_isolation(false)]
pub fn classify_node(node: Node, next_id: &mut NodeId, deps: &mut DependencyGraph) -> (ir: IrNode)
    requires
        *old(next_id) + node_count(node) <= usize::MAX,
    ensures
        ir_of(ir, node, *old(next_id) as nat),
        *final(next_id) == *old(next_id) + node_count(node),
        final(deps)@ == apply_deps(old(deps)@, deps_of(node, *old(next_id) as nat)),
    decreases node_count(node),
{
    let ghost src = node;
    let ghost first = *next_id as nat;
    let ghost g0 = deps@;
    match node {
        Node::Text(text) => {
            let id = *next_id;
            *next_id = *next_id + 1;
            assert(deps_of(src, first) =~= Seq::empty());
            proof {
                lemma_apply_deps_empty(g0);
            }
            IrNode { id, classification: Classification::Static, kind: IrNodeKind::Text(text) }
        },
        Node::Expression(expr) => {
            let id = *next_id;
            *next_id = *next_id + 1;
            deps.add(expr.root_identifier(), id);
            proof {
                lemma_apply_deps_empty(g0);
                lemma_apply_deps_push(g0, Seq::empty(), expr.root_view(), first);
                assert(deps_of(src, first) =~= Seq::<(Seq<char>, nat)>::empty().push(
                    (expr.root_view(), first),
                ));
            }
            IrNode { id, classification: Classification::Dynamic, kind: IrNodeKind::Expression(expr) }
        },
        Node::Translate(t) => {
            let id = *next_id;
            *next_id = *next_id + 1;
            deps.add("t", id);
            proof {
                lemma_apply_deps_empty(g0);
                lemma_apply_deps_push(g0, Seq::empty(), "t"@, first);
                assert(deps_of(src, first) =~= Seq::<(Seq<char>, nat)>::empty().push(("t"@, first)));
            }
            IrNode { id, classification: Classification::Dynamic, kind: IrNodeKind::Translate(t) }
        },
        Node::For(f) => {
            let id = *next_id;
            *next_id = *next_id + 1;
            let ghost fg = f;
            let ForLoop { each, item_name, body } = f;
            deps.add(each.root_identifier(), id);
            let ghost g1 = deps@;
            proof {
                lemma_apply_deps_empty(g0);
                lemma_apply_deps_push(g0, Seq::empty(), each.root_view(), first);
                assert(seq![(each.root_view(), first)] =~= Seq::<(Seq<char>, nat)>::empty().push(
                    (each.root_view(), first),
                ));
                assert(g1 == apply_deps(g0, seq![(each.root_view(), first)]));
                assert(decreases_to!(src => fg));
                assert(decreases_to!(fg => fg.body));
            }
            let body_ir = classify_node(*body, next_id, deps);
            proof {
                lemma_apply_deps_concat(
                    g0,
                    seq![(each.root_view(), first)],
                    deps_of(*body, first + 1),
                );
            }
            IrNode {
                id,
                classification: Classification::Dynamic,
                kind: IrNodeKind::For { each, item_name, body: Box::new(body_ir) },
            }
        },
        Node::Element(el) => {
            let id = *next_id;
            *next_id = *next_id + 1;
            let ghost elg = el;
            proof {
                assert(decreases_to!(src => elg));
                assert(decreases_to!(elg => elg.children));
                assert(decreases_to!(elg.children => elg.children@));
                assert forall|i: int| 0 <= i < elg.children@.len() implies decreases_to!(
                    src => #[trigger] elg.children@[i]) by {
                    assert(decreases_to!(elg.children@ => elg.children@[i]));
                }
            }
            let crate::ast::Element { tag, attrs, events, island, children } = el;
            let ghost kids = children@;
            let mut irs: Vec<IrNode> = Vec::new();
            let mut k: usize = 0;
            let n_kids = children.len();
            let mut rest = reversed(children);
            proof {
                assert(nodes_count(kids.take(0)) == 0);
            }
            while rest.len() > 0
                invariant
                    rest@ == kids.skip(k as int).reverse(),
                    kids == elg.children@,
                    kids.len() == n_kids,
                    node_count(src) == 1 + nodes_count(kids),
                    forall|i: int| 0 <= i < elg.children@.len() ==> decreases_to!(
                        src => #[trigger] elg.children@[i]),
                    k <= kids.len(),
                    first + 1 + nodes_count(kids) <= usize::MAX,
                    *next_id == first + 1 + nodes_count(kids.take(k as int)),
                    irs_of(irs@, kids.take(k as int), first + 1),
                    deps@ == apply_deps(g0, deps_of_all(kids.take(k as int), first + 1)),
                decreases rest@.len(),
            {
                let ghost before = kids.take(k as int);
                let child = rest.pop().unwrap();
                proof {
                    assert(child == kids[k as int]);
                    assert(kids.take(k + 1) =~= before.push(child));
                    lemma_deps_all_push(before, child, first + 1);
                    lemma_nodes_count_take(kids, k + 1);
                    assert(node_count(child) < node_count(src));
                }
                let ghost g_before = deps@;
                let child_ir = classify_node(child, next_id, deps);
                proof {
                    lemma_apply_deps_concat(
                        g0,
                        deps_of_all(before, first + 1),
                        deps_of(child, first + 1 + nodes_count(before)),
                    );
                    let irs1 = irs@.push(child_ir);
                    assert(irs1.drop_last() =~= irs@);
                    assert(kids.take(k + 1).drop_last() =~= before);
                }
                irs.push(child_ir);
                k = k + 1;
                proof {
                    assert(rest@ =~= kids.skip(k as int).reverse());
                }
            }
            proof {
                assert(kids.take(k as int) =~= kids);
            }
            let ghost g2 = deps@;
            let mut j: usize = 0;
            while j < events.len()
                invariant
                    j <= events@.len(),
                    id as nat == first,
                    deps@ == apply_deps(
                        g2,
                        events@.take(j as int).map_values(|e: Event| (e.handler.root_view(), first)),
                    ),
                decreases events@.len() - j,
            {
                deps.add(events[j].handler.root_identifier(), id);
                proof {
                    let prev = events@.take(j as int).map_values(
                        |e: Event| (e.handler.root_view(), first),
                    );
                    let t = events@.take(j + 1).map_values(|e: Event| (e.handler.root_view(), first));
                    assert(t =~= prev.push((events@[j as int].handler.root_view(), first)));
                    lemma_apply_deps_push(g2, prev, events@[j as int].handler.root_view(), first);
                }
                j = j + 1;
            }
            proof {
                assert(events@.take(j as int) =~= events@);
                lemma_apply_deps_concat(
                    g0,
                    deps_of_all(kids, first + 1),
                    events@.map_values(|e: Event| (e.handler.root_view(), first)),
                );
            }
            let classification = if island.is_some() {
                Classification::Island
            } else if events.len() == 0 {
                Classification::Static
            } else {
                Classification::Interactive
            };
            IrNode {
                id,
                classification,
                kind: IrNodeKind::Element { tag, attrs, events, island, children: irs },
            }
        },
    }
}

/// The elements of `v` in reverse order.
pub fn reversed<T>(v: Vec<T>) -> (r: Vec<T>)
    ensures
        r@ == v@.reverse(),
{
    let ghost orig = v@;
    let mut v = v;
    let mut r: Vec<T> = Vec::new();
    while v.len() > 0
        invariant
            orig == v@ + r@.reverse(),
        decreases v@.len(),
    {
        let ghost before_v = v@;
        let ghost before_r = r@;
        let x = v.pop().unwrap();
        r.push(x);
        assert(orig =~= v@ + r@.reverse()) by {
            assert(r@.reverse() =~= seq![x] + before_r.reverse());
        }
    }
    assert(r@ =~= orig.reverse()) by {
        assert(orig =~= r@.reverse());
        assert(r@.reverse().reverse() =~= r@);
    }
    r
}

proof fn lemma_nodes_count_take(s: Seq<Node>, k: int)
    requires
        0 <= k <= s.len(),
    ensures
        nodes_count(s.take(k)) <= nodes_count(s),
    decreases s.len(),
{
    if k < s.len() {
        assert(s.drop_last().take(k) =~= s.take(k));
        lemma_nodes_count_take(s.drop_last(), k);
    } else {
        assert(s.take(k) =~= s);
    }
}

/// Classifies a component: its tree, with ids from 0 in pre-order, and
/// its dependency graph.
pub fn analyze(component: Component) -> (ir: IrComponent)
    requires
        node_count(component.root) <= usize::MAX,
    ensures
        ir.name == component.name,
        ir_of(ir.root, component.root, 0),
        ir.dependencies@ == apply_deps(Map::empty(), deps_of(component.root, 0)),
{
    let mut dependencies = DependencyGraph::new();
    let mut next_id: NodeId = 0;
    let Component { name, root, .. } = component;
    let root = classify_node(root, &mut next_id, &mut dependencies);
    IrComponent { name, root, dependencies }
}

// ---------------------------------------------------------------------
// Counting

impl ClassificationCounts {
    /// All zero.
    pub fn zero() -> (c: Self)
        ensures
            c.static_count == 0,
            c.dynamic_count == 0,
            c.interactive_count == 0,
            c.async_count == 0,
            c.island_count == 0,
    {
        ClassificationCounts {
            static_count: 0,
            dynamic_count: 0,
            interactive_count: 0,
            async_count: 0,
            island_count: 0,
        }
    }

    /// The count for classification `c`.
    pub open spec fn count_of(self, c: Classification) -> nat {
        match c {
            Classification::Static => self.static_count as nat,
            Classification::Dynamic => self.dynamic_count as nat,
            Classification::Interactive => self.interactive_count as nat,
            Classification::Async => self.async_count as nat,
            Classification::Island => self.island_count as nat,
        }
    }

    /// Sum of the five counts.
    pub open spec fn sum(self) -> nat {
        (self.static_count + self.dynamic_count + self.interactive_count + self.async_count
            + self.island_count) as nat
    }

    /// Number of nodes counted.
    pub fn total(&self) -> (n: usize)
        requires
            self.sum() <= usize::MAX,
        ensures
            n == self.sum(),
    {
        self.static_count + self.dynamic_count + self.interactive_count + self.async_count
            + self.island_count
    }
}

/// The five classifications.
pub open spec fn class_sum(n: IrNode) -> nat {
    ir_class_count(n, Classification::Static) + ir_class_count(n, Classification::Dynamic)
        + ir_class_count(n, Classification::Interactive) + ir_class_count(n, Classification::Async)
        + ir_class_count(n, Classification::Island)
}

/// The five classifications over siblings.
pub open spec fn classes_sum(s: Seq<IrNode>) -> nat {
    irs_class_count(s, Classification::Static) + irs_class_count(s, Classification::Dynamic)
        + irs_class_count(s, Classification::Interactive) + irs_class_count(
        s,
        Classification::Async,
    ) + irs_class_count(s, Classification::Island)
}

/// Every IR node has exactly one classification: the counts per
/// classification add up to the number of nodes.
pub proof fn lemma_class_counts_add_up(n: IrNode)
    ensures
        class_sum(n) == ir_count(n),
    decreases n,
{
    match n.kind {
        IrNodeKind::Element { children, .. } => {
            lemma_classes_add_up(children@);
        },
        IrNodeKind::For { body, .. } => {
            lemma_class_counts_add_up(*body);
        },
        _ => {},
    }
}

/// The sibling form of [`lemma_class_counts_add_up`].
pub proof fn lemma_classes_add_up(s: Seq<IrNode>)
    ensures
        classes_sum(s) == irs_count(s),
    decreases s,
{
    if s.len() > 0 {
        lemma_classes_add_up(s.drop_last());
        lemma_class_counts_add_up(s.last());
    }
}

/// An IR built from a source tree has as many nodes as the source.
pub proof fn lemma_ir_count_matches(ir: IrNode, n: Node, first: nat)
    requires
        ir_of(ir, n, first),
    ensures
        ir_count(ir) == node_count(n),
    decreases n,
{
    match n {
        Node::Element(el) => {
            if let IrNodeKind::Element { children, .. } = ir.kind {
                lemma_irs_count_matches(children@, el.children@, first + 1);
            }
        },
        Node::For(f) => {
            if let IrNodeKind::For { body, .. } = ir.kind {
                lemma_ir_count_matches(*body, *f.body, first + 1);
            }
        },
        _ => {},
    }
}

/// The sibling form of [`lemma_ir_count_matches`].
pub proof fn lemma_irs_count_matches(irs: Seq<IrNode>, ns: Seq<Node>, first: nat)
    requires
        irs_of(irs, ns, first),
    ensures
        irs_count(irs) == nodes_count(ns),
    decreases ns,
{
    if ns.len() > 0 {
        lemma_irs_count_matches(irs.drop_last(), ns.drop_last(), first);
        lemma_ir_count_matches(irs.last(), ns.last(), first + nodes_count(ns.drop_last()));
    }
}

/// Classifying a tree accounts for every source node exactly once: over
/// the IR, the counts per classification add up to the number of nodes of
/// the source tree.
pub proof fn law_classification_covers_every_node(ir: IrNode, n: Node, first: nat)
    requires
        ir_of(ir, n, first),
    ensures
        class_sum(ir) == node_count(n),
{
    lemma_class_counts_add_up(ir);
    lemma_ir_count_matches(ir, n, first);
}

/// A node is dynamic exactly when it is no element and depends, at its
/// own id, on a name: the expression's data, the loop's list, or `t` for
/// a translation. A translation always depends on `t`, and so is always
/// dynamic; a text never depends on anything, and is never dynamic.
pub proof fn law_dynamic_nodes_are_those_that_depend_on_a_name(ir: IrNode, n: Node, first: nat)
    requires
        ir_of(ir, n, first),
    ensures
        (ir.classification == Classification::Dynamic) <==> (!(n is Element) && exists|k: int|
            0 <= k < deps_of(n, first).len() && #[trigger] deps_of(n, first)[k].1 == first),
        n is Translate ==> ir.classification == Classification::Dynamic && deps_of(n, first) == seq![
            ("t"@, first),
        ],
        n is Text ==> ir.classification == Classification::Static,
        n matches Node::Element(el) ==> (ir.classification == Classification::Island
            <==> el.island is Some),
        n matches Node::Element(el) ==> (ir.classification == Classification::Interactive
            <==> (el.island is None && el.events@.len() > 0)),
        n matches Node::Element(el) ==> (ir.classification == Classification::Static
            <==> (el.island is None && el.events@.len() == 0)),
{
    let d = deps_of(n, first);
    match n {
        Node::Text(_) => {},
        Node::Expression(_) => {
            assert(d[0].1 == first);
        },
        Node::Translate(_) => {
            assert(d[0].1 == first);
        },
        Node::For(f) => {
            assert(d[0].1 == first);
        },
        Node::Element(_) => {},
    }
}

impl ClassificationCounts {
    fn bump(&mut self, c: Classification)
        requires
            old(self).count_of(c) < usize::MAX,
        ensures
            forall|d: Classification| #[trigger] final(self).count_of(d) == old(self).count_of(d)
                + if d == c { 1nat } else { 0nat },
            final(self).sum() == old(self).sum() + 1,
    {
        match c {
            Classification::Static => self.static_count = self.static_count + 1,
            Classification::Dynamic => self.dynamic_count = self.dynamic_count + 1,
            Classification::Interactive => self.interactive_count = self.interactive_count + 1,
            Classification::Async => self.async_count = self.async_count + 1,
            Classification::Island => self.island_count = self.island_count + 1,
        }
    }

    fn add_all(&mut self, other: &ClassificationCounts)
        requires
            old(self).sum() + other.sum() <= usize::MAX,
        ensures
            forall|d: Classification| #[trigger] final(self).count_of(d) == old(self).count_of(d)
                + other.count_of(d),
            final(self).sum() == old(self).sum() + other.sum(),
    {
        self.static_count = self.static_count + other.static_count;
        self.dynamic_count = self.dynamic_count + other.dynamic_count;
        self.interactive_count = self.interactive_count + other.interactive_count;
        self.async_count = self.async_count + other.async_count;
        self.island_count = self.island_count + other.island_count;
    }
}

impl IrNode {
    /// How many nodes of this tree (itself included) fall in each
    /// classification.
    #[verifier::loop_isolation(false)]
    pub fn classification_counts(&self) -> (c: ClassificationCounts)
        requires
            ir_count(*self) <= usize::MAX,
        ensures
            forall|d: Classification| #[trigger] c.count_of(d) == ir_class_count(*self, d),
            c.sum() == ir_count(*self),
        decreases ir_count(*self),
    {
        proof {
            lemma_class_counts_add_up(*self);
        }
        let mut c = ClassificationCounts::zero();
        c.bump(self.classification);
        match &self.kind {
            IrNodeKind::Element { children, .. } => {
                assert(children@.take(0) =~= Seq::<IrNode>::empty());
                let mut i: usize = 0;
                while i < children.len()
                    invariant
                        i <= children@.len(),
                        forall|d: Classification| #[trigger] c.count_of(d) == (if self.classification
                            == d { 1nat } else { 0nat }) + irs_class_count(children@.take(i as int), d),
                        c.sum() == 1 + irs_count(children@.take(i as int)),
                    decreases children@.len() - i,
                {
                    proof {
                        let t = children@.take(i + 1);
                        assert(t.drop_last() =~= children@.take(i as int));
                        lemma_irs_count_take(children@, i + 1);
                        lemma_classes_add_up(t);
                        lemma_class_counts_add_up(children@[i as int]);
                    }
                    let sub = children[i].classification_counts();
                    c.add_all(&sub);
                    i = i + 1;
                }
                assert(children@.take(i as int) =~= children@);
            },
            IrNodeKind::For { body, .. } => {
                let sub = body.classification_counts();
                c.add_all(&sub);
            },
            _ => {},
        }
        c
    }
}

pub proof fn lemma_irs_count_take(s: Seq<IrNode>, k: int)
    requires
        0 <= k <= s.len(),
    ensures
        irs_count(s.take(k)) <= irs_count(s),
    decreases s.len(),
{
    if k < s.len() {
        assert(s.drop_last().take(k) =~= s.take(k));
        lemma_irs_count_take(s.drop_last(), k);
    } else {
        assert(s.take(k) =~= s);
    }
}

} // verus!
