//! The component tree of a Nexa page: elements, text, symbolic
//! references (`product.name`), translations and `<For>` loops, as the
//! parser hands them over. Nothing here is evaluated: it records what to
//! copy and what to resolve later.
use vstd::prelude::*;

use crate::strmap::StrMap;
use crate::text::{owned, push_char};

verus! {

/// A symbolic reference: a variable, or a property of one
/// (`product`, `product.name`).
#[derive(Debug, PartialEq)]
pub enum Expr {
    Identifier(String),
    Member { object: Box<Expr>, property: String },
}

impl Expr {
    /// `product.name`: the identifiers joined by dots.
    pub open spec fn path_view(&self) -> Seq<char>
        decreases self,
    {
        match self {
            Expr::Identifier(name) => name@,
            Expr::Member { object, property } => object.path_view() + seq!['.'] + property@,
        }
    }

    /// The root identifier that the expression depends on.
    pub open spec fn root_view(&self) -> Seq<char>
        decreases self,
    {
        match self {
            Expr::Identifier(name) => name@,
            Expr::Member { object, .. } => object.root_view(),
        }
    }

    /// The property names after the root identifier.
    pub open spec fn properties_view(&self) -> Seq<Seq<char>>
        decreases self,
    {
        match self {
            Expr::Identifier(_) => Seq::empty(),
            Expr::Member { object, property } => object.properties_view().push(property@),
        }
    }

    /// Readable form of the expression: `product.name`.
    pub fn path(&self) -> (r: String)
        ensures
            r@ == self.path_view(),
        decreases self,
    {
        match self {
            Expr::Identifier(name) => owned(name.as_str()),
            Expr::Member { object, property } => {
                let mut r = object.path();
                push_char(&mut r, '.');
                r.append(property.as_str());
                r
            },
        }
    }

    /// The root identifier this expression depends on: `product` in
    /// `product.name`.
    pub fn root_identifier(&self) -> (r: &str)
        ensures
            r@ == self.root_view(),
        decreases self,
    {
        match self {
            Expr::Identifier(name) => name.as_str(),
            Expr::Member { object, .. } => object.root_identifier(),
        }
    }

    /// The property segments after the root identifier: `data.name` gives
    /// `["name"]`, `data.price.amount` gives `["price", "amount"]`, `data`
    /// gives nothing.
    pub fn property_path(&self) -> (r: Vec<&str>)
        ensures
            r@.map_values(|s: &str| s@) == self.properties_view(),
        decreases self,
    {
        match self {
            Expr::Identifier(_) => {
                let r: Vec<&str> = Vec::new();
                assert(r@.map_values(|s: &str| s@) =~= Seq::<Seq<char>>::empty());
                r
            },
            Expr::Member { object, property } => {
                let mut r = object.property_path();
                let ghost before = r@;
                r.push(property.as_str());
                assert(r@.map_values(|s: &str| s@) =~= before.map_values(|s: &str| s@).push(
                    property@,
                ));
                r
            },
        }
    }
}


/// A piece of a text template: literal text, a reference resolved later,
/// or a translation key (`t("home.title")`).
#[derive(Debug, Clone, PartialEq)]
pub enum TemplatePart {
    Text(String),
    Expr(Expr),
    Translate(String),
}

/// Text made of parts concatenated in order (a `<title>`, a dynamic
/// `href`).
#[derive(Debug, Clone, PartialEq)]
pub struct Template(pub Vec<TemplatePart>);

impl Template {
    /// A template of a single literal text.
    pub fn literal(text: String) -> (t: Self)
        ensures
            t.0@ == seq![TemplatePart::Text(text)],
    {
        let mut parts = Vec::new();
        parts.push(TemplatePart::Text(text));
        Template(parts)
    }

    /// A template of a single reference (`href={data.image}`).
    pub fn from_expr(expr: Expr) -> (t: Self)
        ensures
            t.0@ == seq![TemplatePart::Expr(expr)],
    {
        let mut parts = Vec::new();
        parts.push(TemplatePart::Expr(expr));
        Template(parts)
    }
}

/// A JSON value in which any position may be a reference to resolve
/// later (`export const schema = {...}`). A number is kept as the text
/// the page wrote for it.
#[derive(Debug, PartialEq)]
pub enum JsonTemplate {
    Null,
    Bool(bool),
    Number(String),
    String(String),
    Expr(Expr),
    Translate(String),
    TextTemplate(Template),
    Array(Vec<JsonTemplate>),
    Object(Vec<(String, JsonTemplate)>),
}


/// A JSX attribute; no value means a boolean attribute (`disabled`).
#[derive(Debug, Clone, PartialEq)]
pub struct Attr {
    pub name: String,
    pub value: Option<AttrValue>,
}

/// An attribute value known when parsing, or resolved at render time.
#[derive(Debug, Clone, PartialEq)]
pub enum AttrValue {
    Static(String),
    Dynamic(Template),
}

/// An event handler (`onClick={buy}`): the DOM event name without the
/// `on` prefix, the handler, and the activation strategy requested with
/// `data-nexa-strategy`, unvalidated.
#[derive(Debug, Clone, PartialEq)]
pub struct Event {
    pub name: String,
    pub handler: Expr,
    pub strategy: Option<String>,
}

impl Clone for Expr {
    fn clone(&self) -> (r: Self)
        ensures
            r == *self,
        decreases self,
    {
        match self {
            Expr::Identifier(name) => Expr::Identifier(name.clone()),
            Expr::Member { object, property } => Expr::Member {
                object: Box::new((**object).clone()),
                property: property.clone(),
            },
        }
    }
}

/// Mount point of an interactive island (`data-nexa-island="..."`).
#[derive(Debug, PartialEq)]
pub struct Island {
    pub specifier: String,
    pub props: Option<JsonTemplate>,
    pub strategy: Option<String>,
}

/// `t("key", { name: data.x })`: a translation key and its named
/// arguments, unresolved.
#[derive(Debug, Clone, PartialEq)]
pub struct Translate {
    pub key: String,
    pub args: Vec<(String, Expr)>,
}

/// An HTML element of the tree.
#[derive(Debug, PartialEq)]
pub struct Element {
    pub tag: String,
    pub attrs: Vec<Attr>,
    pub events: Vec<Event>,
    pub island: Option<Island>,
    pub children: Vec<Node>,
}

/// `<For each={data.items}>{(item) => (...)}</For>`.
#[derive(Debug, PartialEq)]
pub struct ForLoop {
    pub each: Expr,
    pub item_name: String,
    pub body: Box<Node>,
}

/// A node of the render tree.
#[derive(Debug, PartialEq)]
pub enum Node {
    Element(Element),
    Text(String),
    Expression(Expr),
    Translate(Translate),
    For(ForLoop),
}

/// `export const load = { url: "/api/products/:slug" }`.
#[derive(Debug, Clone, PartialEq)]
pub struct Loader {
    pub url_template: String,
}

/// `export const seo = { title: ..., ... }`: every field optional.
#[derive(Debug, Clone, PartialEq)]
pub struct SeoConfig {
    pub title: Option<Template>,
    pub description: Option<Template>,
    pub canonical: Option<Template>,
    pub og_title: Option<Template>,
    pub og_description: Option<Template>,
    pub og_image: Option<Template>,
    pub twitter_card: Option<Template>,
}

/// A top-level `const NAME = <value>;` of a page file: its exact source
/// text, and whether its value is simple enough (a literal, or an array or
/// object of literals) to be copied into a chunk on its own.
#[derive(Debug, Clone, PartialEq)]
pub struct TopLevelConst {
    pub source: String,
    pub is_simple: bool,
}

/// A Nexa component: one root tree, plus what the page file declares
/// around it.
pub struct Component {
    pub name: String,
    pub root: Node,
    pub loader: Option<Loader>,
    pub paths: Option<Loader>,
    pub handlers: StrMap<String>,
    pub seo: Option<SeoConfig>,
    pub schema: Option<JsonTemplate>,
}

} // verus!
