//! The parsed document: a tree of nodes that is read and never changed.
//!
//! Parsing and the tree itself are the work of the `scraper` crate. What the library reads of
//! a tree is named here, node by node, and every function that reads it says which part of
//! that description it returns.

use vstd::prelude::*;

verus! {

/// The tree that `scraper::Html::parse_document` builds. Nothing of its inside is visible
/// here: it is read through the functions of this file.
#[verifier::external_type_specification]
#[verifier::external_body]
pub struct ExHtml(scraper::Html);

/// What a node of the tree is.
#[derive(Debug, Clone, Copy, PartialEq, Eq, Structural)]
pub enum NodeKind {
    /// The root of a document.
    Document,
    /// The root of a fragment.
    Fragment,
    /// A doctype.
    Doctype,
    /// A comment.
    Comment,
    /// A run of text.
    Text,
    /// An element.
    Element,
    /// A processing instruction.
    ProcessingInstruction,
}

/// One node of a tree, as plain values. Nodes are numbered in the order in which the parser
/// made them, from zero; a link to another node is that node's number.
pub struct NodeModel {
    /// What the node is.
    pub kind: NodeKind,
    /// The local name of an element; empty for other nodes.
    pub name: Seq<char>,
    /// The namespace of an element; empty for other nodes.
    pub namespace: Seq<char>,
    /// The attributes of an element that have no namespace, by local name.
    pub attrs: Map<Seq<char>, Seq<char>>,
    /// The characters of a text node; empty for other nodes.
    pub text: Seq<char>,
    /// The parent, if there is one.
    pub parent: Option<int>,
    /// The children, first to last.
    pub children: Seq<int>,
}

/// The nodes of a tree, in the order in which the parser made them.
pub uninterp spec fn nodes_of(tree: scraper::Html) -> Seq<NodeModel>;

/// The tree that parsing a text as an HTML document gives.
pub uninterp spec fn parsed(text: Seq<char>) -> scraper::Html;

/// The tree that parsing a text as a fragment of HTML gives.
pub uninterp spec fn parsed_fragment(text: Seq<char>) -> scraper::Html;

/// The markup of a whole tree, as the serializer of `html5ever` writes it.
pub uninterp spec fn tree_markup(tree: scraper::Html) -> Seq<char>;

/// The markup of element `node` with what is inside it, as the serializer of `html5ever`
/// writes it.
pub uninterp spec fn outer_markup(tree: scraper::Html, node: int) -> Seq<char>;

/// The markup of what is inside element `node`, as the serializer of `html5ever` writes it.
pub uninterp spec fn inner_markup(tree: scraper::Html, node: int) -> Seq<char>;

/// The text nodes among element `node` and what is below it, each as its characters, in
/// tree order.
pub uninterp spec fn texts_below(tree: scraper::Html, node: int) -> Seq<Seq<char>>;

/// Whether node `scope` stands above node `node`, at most `fuel` steps up: it is the parent
/// of `node`, or the parent of its parent, and so on.
pub open spec fn is_below(nodes: Seq<NodeModel>, node: int, scope: int, fuel: nat) -> bool
    decreases fuel,
{
    &&& fuel > 0
    &&& 0 <= node < nodes.len()
    &&& nodes[node].parent is Some
    &&& (nodes[node].parent->0 == scope || is_below(
        nodes,
        nodes[node].parent->0,
        scope,
        (fuel - 1) as nat,
    ))
}

/// Whether `node` is the number of an element of the tree.
pub open spec fn is_element(tree: scraper::Html, node: int) -> bool {
    0 <= node < nodes_of(tree).len() && nodes_of(tree)[node].kind == NodeKind::Element
}

/// Parses `text` as an HTML document with `scraper::Html::parse_document`, which never fails:
/// what cannot be read is mended as HTML5 prescribes.
#[verifier::external_body]
pub(crate) fn parse_tree(text: &str) -> (tree: scraper::Html)
    ensures
        tree == parsed(text@),
{
    scraper::Html::parse_document(text)
}

/// Parses `text` as a fragment of HTML, as the content of a `body` element, with
/// `scraper::Html::parse_fragment`, which never fails.
#[verifier::external_body]
pub(crate) fn parse_fragment_tree(text: &str) -> (tree: scraper::Html)
    ensures
        tree == parsed_fragment(text@),
{
    scraper::Html::parse_fragment(text)
}

/// The markup of the whole tree, from `scraper::Html::html`.
#[verifier::external_body]
pub(crate) fn tree_html(tree: &scraper::Html) -> (markup: String)
    ensures
        markup@ == tree_markup(*tree),
{
    tree.html()
}

/// The markup of an element with what is inside it, from `scraper::ElementRef::html`.
#[verifier::external_body]
pub(crate) fn tree_outer_html(tree: &scraper::Html, node: usize) -> (markup: String)
    requires
        is_element(*tree, node as int),
    ensures
        markup@ == outer_markup(*tree, node as int),
{
    scraper::ElementRef::wrap(tree.tree.nodes().nth(node).unwrap()).unwrap().html()
}

/// The number of nodes, from `ego_tree::Tree::nodes`. A tree always holds its root.
#[verifier::external_body]
pub(crate) fn tree_len(tree: &scraper::Html) -> (n: usize)
    ensures
        n == nodes_of(*tree).len(),
        n >= 1,
{
    tree.tree.nodes().len()
}

/// Which variant of `scraper::Node` the node holds.
#[verifier::external_body]
pub(crate) fn tree_kind(tree: &scraper::Html, node: usize) -> (kind: NodeKind)
    requires
        node < nodes_of(*tree).len(),
    ensures
        kind == nodes_of(*tree)[node as int].kind,
{
    match tree.tree.nodes().nth(node).unwrap().value() {
        scraper::Node::Document => NodeKind::Document,
        scraper::Node::Fragment => NodeKind::Fragment,
        scraper::Node::Doctype(_) => NodeKind::Doctype,
        scraper::Node::Comment(_) => NodeKind::Comment,
        scraper::Node::Text(_) => NodeKind::Text,
        scraper::Node::Element(_) => NodeKind::Element,
        scraper::Node::ProcessingInstruction(_) => NodeKind::ProcessingInstruction,
    }
}

/// The local name of an element, from `scraper::node::Element::name`.
#[verifier::external_body]
pub(crate) fn tree_name(tree: &scraper::Html, node: usize) -> (name: String)
    requires
        is_element(*tree, node as int),
    ensures
        name@ == nodes_of(*tree)[node as int].name,
{
    tree.tree.nodes().nth(node).unwrap().value().as_element().unwrap().name().to_owned()
}

/// The namespace of an element, from the qualified name that `scraper::node::Element` holds.
#[verifier::external_body]
pub(crate) fn tree_namespace(tree: &scraper::Html, node: usize) -> (namespace: String)
    requires
        is_element(*tree, node as int),
    ensures
        namespace@ == nodes_of(*tree)[node as int].namespace,
{
    tree.tree.nodes().nth(node).unwrap().value().as_element().unwrap().name.ns.to_string()
}

/// The value of an attribute of an element, from `scraper::node::Element::attr`, which looks
/// the name up among the attributes without a namespace.
#[verifier::external_body]
pub(crate) fn tree_attr(tree: &scraper::Html, node: usize, name: &str) -> (value: Option<String>)
    requires
        is_element(*tree, node as int),
    ensures
        value is Some <==> nodes_of(*tree)[node as int].attrs.contains_key(name@),
        value is Some ==> value->0@ == nodes_of(*tree)[node as int].attrs[name@],
{
    let element = tree.tree.nodes().nth(node).unwrap().value().as_element().unwrap();
    element.attr(name).map(|value| value.to_owned())
}

/// The parent of a node, from `ego_tree::NodeRef::parent`, as its number.
#[verifier::external_body]
pub(crate) fn tree_parent(tree: &scraper::Html, node: usize) -> (parent: Option<usize>)
    requires
        node < nodes_of(*tree).len(),
    ensures
        parent is Some <==> nodes_of(*tree)[node as int].parent is Some,
        parent is Some ==> parent->0 == nodes_of(*tree)[node as int].parent->0,
        parent is Some ==> parent->0 < nodes_of(*tree).len(),
{
    let parent = tree.tree.nodes().nth(node).unwrap().parent();
    parent.map(|p| tree.tree.nodes().position(|n| n.id() == p.id()).unwrap())
}

/// The children of a node, from `ego_tree::NodeRef::children`, as their numbers.
#[verifier::external_body]
pub(crate) fn tree_children(tree: &scraper::Html, node: usize) -> (children: Vec<usize>)
    requires
        node < nodes_of(*tree).len(),
    ensures
        children@.len() == nodes_of(*tree)[node as int].children.len(),
        forall|i: int|
            0 <= i < children@.len() ==> #[trigger] children@[i]
                == nodes_of(*tree)[node as int].children[i],
        forall|i: int| 0 <= i < children@.len() ==> #[trigger] children@[i] < nodes_of(*tree).len(),
{
    let children = tree.tree.nodes().nth(node).unwrap().children();
    children.map(|c| tree.tree.nodes().position(|n| n.id() == c.id()).unwrap()).collect()
}

/// The characters of a text node, from `scraper::node::Text`.
#[verifier::external_body]
pub(crate) fn tree_text(tree: &scraper::Html, node: usize) -> (text: String)
    requires
        node < nodes_of(*tree).len(),
        nodes_of(*tree)[node as int].kind == NodeKind::Text,
    ensures
        text@ == nodes_of(*tree)[node as int].text,
{
    tree.tree.nodes().nth(node).unwrap().value().as_text().unwrap().to_string()
}

/// The markup inside an element, from `scraper::ElementRef::inner_html`.
#[verifier::external_body]
pub(crate) fn tree_inner_html(tree: &scraper::Html, node: usize) -> (markup: String)
    requires
        is_element(*tree, node as int),
    ensures
        markup@ == inner_markup(*tree, node as int),
{
    scraper::ElementRef::wrap(tree.tree.nodes().nth(node).unwrap()).unwrap().inner_html()
}

/// The text nodes at and below an element, from `scraper::ElementRef::text`.
#[verifier::external_body]
pub(crate) fn tree_texts(tree: &scraper::Html, node: usize) -> (texts: Vec<String>)
    requires
        is_element(*tree, node as int),
    ensures
        crate::text::views(texts@) == texts_below(*tree, node as int),
{
    let element = scraper::ElementRef::wrap(tree.tree.nodes().nth(node).unwrap()).unwrap();
    element.text().map(|t| t.to_owned()).collect()
}

} // verus!
