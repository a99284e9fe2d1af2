use nexa::ast::{Component, Element, Event, Expr, ForLoop, Node};
use nexa::ir::{analyze, Classification, IrNodeKind};
use nexa::strmap::StrMap;

fn product_name_expr() -> Expr {
    Expr::Member { object: Box::new(Expr::Identifier("product".into())), property: "name".into() }
}

fn component(name: &str, root: Node) -> Component {
    Component { name: name.into(), loader: None, paths: None, handlers: StrMap::new(), seo: None, schema: None, root }
}

#[test]
fn classifies_text_as_static() {
    let ir = analyze(component("Home", Node::Text("Hello Nexa".into())));
    assert_eq!(ir.root.classification, Classification::Static);
}

#[test]
fn classifies_expression_as_dynamic_and_tracks_dependency() {
    let ir = analyze(component("Home", Node::Expression(product_name_expr())));
    assert_eq!(ir.root.classification, Classification::Dynamic);
    assert_eq!(ir.dependencies.dependents_of("product"), vec![ir.root.id]);
}

#[test]
fn classifies_element_with_event_as_interactive() {
    let ir = analyze(component(
        "Home",
        Node::Element(Element {
            tag: "button".into(),
            attrs: vec![],
            events: vec![Event { name: "click".into(), handler: Expr::Identifier("buy".into()), strategy: None }],
            island: None,
            children: vec![Node::Text("Comprar".into())],
        }),
    ));
    assert_eq!(ir.root.classification, Classification::Interactive);
    assert_eq!(ir.dependencies.dependents_of("buy"), vec![ir.root.id]);
}

#[test]
fn distinguishes_static_dynamic_and_interactive_siblings() {
    let ir = analyze(component(
        "ProductPage",
        Node::Element(Element {
            tag: "article".into(),
            attrs: vec![],
            events: vec![],
            island: None,
            children: vec![
                Node::Element(Element {
                    tag: "h1".into(),
                    attrs: vec![],
                    events: vec![],
                    island: None,
                    children: vec![Node::Expression(product_name_expr())],
                }),
                Node::Element(Element {
                    tag: "button".into(),
                    attrs: vec![],
                    events: vec![Event { name: "click".into(), handler: Expr::Identifier("buy".into()), strategy: None }],
                    island: None,
                    children: vec![Node::Text("Comprar".into())],
                }),
            ],
        }),
    ));
    assert_eq!(ir.root.classification, Classification::Static);

    let IrNodeKind::Element { children, .. } = &ir.root.kind else { panic!("expected root element") };

    assert_eq!(children[0].classification, Classification::Static);
    let IrNodeKind::Element { children: h1_children, .. } = &children[0].kind else { panic!("expected h1 element") };
    assert_eq!(h1_children[0].classification, Classification::Dynamic);

    assert_eq!(children[1].classification, Classification::Interactive);

    let counts = ir.root.classification_counts();
    assert_eq!(counts.static_count, 3);
    assert_eq!(counts.dynamic_count, 1);
    assert_eq!(counts.interactive_count, 1);
    assert_eq!(counts.total(), 5);

    assert_eq!(ir.dependencies.dependents_of("product"), vec![h1_children[0].id]);
    assert_eq!(ir.dependencies.dependents_of("buy"), vec![children[1].id]);
}

#[test]
fn classifies_a_for_loop_as_dynamic_and_tracks_its_each_dependency() {
    let each = Expr::Member { object: Box::new(Expr::Identifier("data".into())), property: "items".into() };
    let item_title = Expr::Member { object: Box::new(Expr::Identifier("item".into())), property: "title".into() };

    let ir = analyze(component(
        "Articles",
        Node::For(ForLoop { each: each.clone(), item_name: "item".into(), body: Box::new(Node::Expression(item_title)) }),
    ));
    assert_eq!(ir.root.classification, Classification::Dynamic);
    assert_eq!(ir.dependencies.dependents_of("data"), vec![ir.root.id]);

    let IrNodeKind::For { each: ir_each, item_name, body } = &ir.root.kind else { panic!("expected an IrNodeKind::For") };
    assert_eq!(ir_each.path(), each.path());
    assert_eq!(item_name, "item");
    assert_eq!(body.classification, Classification::Dynamic);
    assert_eq!(ir.dependencies.dependents_of("item"), vec![body.id]);
}

#[test]
fn every_node_gets_exactly_one_classification_and_a_distinct_id() {
    let ir = analyze(component(
        "Page",
        Node::Element(Element {
            tag: "div".into(),
            attrs: vec![],
            events: vec![],
            island: None,
            children: vec![Node::Text("a".into()), Node::Expression(product_name_expr()), Node::Text("b".into())],
        }),
    ));
    let counts = ir.root.classification_counts();
    assert_eq!(counts.total(), 4);
    assert_eq!(counts.static_count + counts.dynamic_count, 4);
    let IrNodeKind::Element { children, .. } = &ir.root.kind else { panic!("expected element") };
    let mut ids = vec![ir.root.id, children[0].id, children[1].id, children[2].id];
    ids.sort();
    ids.dedup();
    assert_eq!(ids.len(), 4);
}
