//! What the rules ask of elements, and the selectors that name offending elements.

use vstd::prelude::*;
use vstd::string::*;
use crate::dom::document::{
    attr_of, attr_or_empty, has_attr, place_among_elements, Document, ElementRef,
};
use crate::dom::html::{inner_markup, is_element, NodeModel};
use crate::dom::selector::{read_selector, selected_below, CssSelector};
use crate::engine::rules::rule::{Validation, ValidationModel};
use crate::text::{
    blank, decimal, decimal_string, escape_identifier, escaped, is_blank, str_eq, views,
};

verus! {

/// The elements of one tag, in document order, each with the handle of its layout box
/// where boxes were laid out.
pub type ElementNodes = Vec<(ElementRef, Option<u64>)>;

/// Whether every entry of `nodes` is an element of `doc`.
pub open spec fn nodes_wf(doc: &Document, nodes: Seq<(ElementRef, Option<u64>)>) -> bool {
    forall|i: int| 0 <= i < nodes.len() ==> (#[trigger] nodes[i]).0.wf(doc)
}

/// Whether a node needs no text alternative or has one: its role is `presentation`, or it
/// has an `alt` attribute.
pub open spec fn alt_given(node: NodeModel) -> bool {
    attr_of(node, "role"@) == Some("presentation"@) || node.attrs.contains_key("alt"@)
}

/// Whether the element needs no text alternative or has one.
pub fn has_alt(doc: &Document, ele: ElementRef) -> (has: bool)
    requires
        ele.wf(doc),
    ensures
        has == alt_given(ele.model(doc)),
{
    match ele.attr(doc, "role") {
        Some(role) => {
            if str_eq(role.as_str(), "presentation") {
                return true;
            }
        },
        None => {},
    }
    has_alt_prop(doc, ele)
}

/// Whether the element has an `alt` attribute.
pub fn has_alt_prop(doc: &Document, ele: ElementRef) -> (has: bool)
    requires
        ele.wf(doc),
    ensures
        has == ele.model(doc).attrs.contains_key("alt"@),
{
    has_prop(doc, ele, "alt")
}

/// Whether the element has the attribute.
pub fn has_prop(doc: &Document, ele: ElementRef, attr: &str) -> (has: bool)
    requires
        ele.wf(doc),
    ensures
        has == ele.model(doc).attrs.contains_key(attr@),
{
    ele.attr(doc, attr).is_some()
}

/// Whether the element has the attribute with a value that is not empty.
pub fn has_prop_value(doc: &Document, ele: ElementRef, attr: &str) -> (has: bool)
    requires
        ele.wf(doc),
    ensures
        has == (attr_or_empty(ele.model(doc), attr@).len() > 0),
{
    !ele.attr_or_default(doc, attr).as_str().is_empty()
}

/// Whether the selector `selector` finds exactly one element below the first child of the
/// root node. A first child that is no element, and a text that is no selector, give no.
pub open spec fn is_single(doc: &Document, selector: Seq<char>) -> bool {
    let top = doc.nodes()[0].children;
    &&& top.len() > 0
    &&& is_element(doc.tree, top[0])
    &&& read_selector(selector) is Ok
    &&& selected_below(doc.tree, top[0], read_selector(selector)->Ok_0).len() == 1
}

/// Whether the selector finds exactly one element below the first child of the root node.
pub fn single_selector(doc: &Document, node_selector: &str) -> (single: bool)
    ensures
        single == is_single(doc, node_selector@),
{
    let len = doc.len();
    let top = doc.children(0);
    if top.len() == 0 {
        return false;
    }
    match ElementRef::wrap(doc, top[0]) {
        Some(element) => match CssSelector::parse(node_selector) {
            Ok(s) => element.select(doc, &s).len() == 1,
            Err(_) => false,
        },
        None => false,
    }
}

/// The selector that names element `node`, looking at most `fuel` parents up.
///
/// An element with an id is named by `#` and the id; `body` and `html` by their names; an
/// element whose tag name finds it alone by that name. Any other is named by the selector of
/// its parent element (by its own tag name where it has none), `>:nth-child(`, its place
/// among the elements that are children of its parent, and `)`. Ids and tag names are
/// written as CSS identifiers, so that a selector reads them as these names.
pub open spec fn unique_selector_within(doc: &Document, node: int, fuel: nat) -> Seq<char>
    decreases fuel,
{
    let n = doc.nodes()[node];
    if has_attr(n, "id"@) {
        "#"@ + escaped(n.attrs["id"@])
    } else if n.name == "body"@ || n.name == "html"@ {
        n.name
    } else if is_single(doc, escaped(n.name)) {
        escaped(n.name)
    } else {
        let base = if fuel > 0 && n.parent is Some && is_element(doc.tree, n.parent->0) {
            unique_selector_within(doc, n.parent->0, (fuel - 1) as nat)
        } else {
            escaped(n.name)
        };
        base + ">:nth-child("@ + decimal(place_among_elements(doc.nodes(), node)) + ")"@
    }
}

/// The selector that names element `node` of `doc`.
pub open spec fn unique_selector(doc: &Document, node: int) -> Seq<char> {
    unique_selector_within(doc, node, doc.nodes().len())
}

/// The selector that names the element, looking at most `fuel` parents up.
fn unique_selector_bounded(doc: &Document, ele: &ElementRef, fuel: usize) -> (selector: String)
    requires
        ele.wf(doc),
    ensures
        selector@ == unique_selector_within(doc, ele.node as int, fuel as nat),
    decreases fuel,
{
    if ele.has_attribute(doc, "id") {
        let id = escape_identifier(ele.attr_or_default(doc, "id").as_str());
        return "#".to_owned().concat(id.as_str());
    }
    let node_name = ele.name(doc);
    if str_eq(node_name.as_str(), "body") || str_eq(node_name.as_str(), "html") {
        return node_name;
    }
    let written = escape_identifier(node_name.as_str());
    if single_selector(doc, written.as_str()) {
        return written;
    }
    let pos = get_sibling_position(doc, ele);
    let base = if fuel > 0 {
        match ele.parent_element(doc) {
            Some(p) => unique_selector_bounded(doc, &p, fuel - 1),
            None => written,
        }
    } else {
        written
    };
    base.concat(">:nth-child(").concat(decimal_string(pos).as_str()).concat(")")
}

/// The selector that names the element.
pub fn get_unique_selector(doc: &Document, ele: &ElementRef) -> (selector: String)
    requires
        ele.wf(doc),
    ensures
        selector@ == unique_selector(doc, ele.node as int),
{
    unique_selector_bounded(doc, ele, doc.len())
}

/// The place of the element among the elements that are children of its parent, counted
/// from one.
pub fn get_sibling_position(doc: &Document, ele: &ElementRef) -> (position: usize)
    requires
        ele.wf(doc),
    ensures
        position == place_among_elements(doc.nodes(), ele.node as int),
{
    ele.element_position(doc)
}

/// The selectors of the elements among `nodes` that hold nothing but white space, in order.
pub open spec fn empty_selectors(doc: &Document, nodes: Seq<(ElementRef, Option<u64>)>) -> Seq<
    Seq<char>,
>
    decreases nodes.len(),
{
    if nodes.len() == 0 {
        Seq::empty()
    } else {
        let before = empty_selectors(doc, nodes.drop_last());
        let node = nodes.last().0.node as int;
        if blank(inner_markup(doc.tree, node)) {
            before.push(unique_selector(doc, node))
        } else {
            before
        }
    }
}

/// Whether none of the elements is empty, and the selectors of those that are.
pub fn is_empty(doc: &Document, nodes: &ElementNodes) -> (r: (bool, Vec<String>))
    requires
        nodes_wf(doc, nodes@),
    ensures
        views(r.1@) == empty_selectors(doc, nodes@),
        r.0 == (empty_selectors(doc, nodes@).len() == 0),
{
    let mut valid = true;
    let mut elements: Vec<String> = Vec::new();
    let mut i: usize = 0;
    assert(views(elements@) =~= empty_selectors(doc, nodes@.take(0)));
    while i < nodes.len()
        invariant
            i <= nodes.len(),
            nodes_wf(doc, nodes@),
            views(elements@) == empty_selectors(doc, nodes@.take(i as int)),
            valid == (elements@.len() == 0),
        decreases nodes.len() - i,
    {
        let ele = nodes[i].0;
        let ghost before = views(elements@);
        proof {
            assert(nodes@.take(i + 1).drop_last() =~= nodes@.take(i as int));
            assert(nodes@.take(i + 1).last() == nodes@[i as int]);
        }
        if is_blank(ele.inner_html(doc).as_str()) {
            valid = false;
            elements.push(get_unique_selector(doc, &ele));
            assert(views(elements@) =~= before.push(unique_selector(doc, ele.node as int)));
        }
        i += 1;
    }
    assert(nodes@.take(nodes@.len() as int) =~= nodes@);
    (valid, elements)
}

/// The verdict on empty elements, under the given sub-identifier.
pub fn validate_empty_nodes(doc: &Document, nodes: &ElementNodes, id: &'static str) -> (v:
    Validation)
    requires
        nodes_wf(doc, nodes@),
    ensures
        v@ == (ValidationModel {
            valid: empty_selectors(doc, nodes@).len() == 0,
            id: id@,
            elements: empty_selectors(doc, nodes@),
            message: Seq::empty(),
        }),
{
    let (valid, elements) = is_empty(doc, nodes);
    Validation::new(valid, id, elements, String::new())
}

/// The selectors of the elements among `nodes` that lack the attribute or have it empty.
pub open spec fn missing_attr_selectors(
    doc: &Document,
    nodes: Seq<(ElementRef, Option<u64>)>,
    attr: Seq<char>,
) -> Seq<Seq<char>>
    decreases nodes.len(),
{
    if nodes.len() == 0 {
        Seq::empty()
    } else {
        let before = missing_attr_selectors(doc, nodes.drop_last(), attr);
        let node = nodes.last().0.node as int;
        if attr_or_empty(doc.nodes()[node], attr).len() == 0 {
            before.push(unique_selector(doc, node))
        } else {
            before
        }
    }
}

/// The verdict on elements that lack an attribute or have it empty.
pub fn validate_missing_attr(
    doc: &Document,
    nodes: &ElementNodes,
    attr: &'static str,
    id: &'static str,
) -> (v: Validation)
    requires
        nodes_wf(doc, nodes@),
    ensures
        v@ == (ValidationModel {
            valid: missing_attr_selectors(doc, nodes@, attr@).len() == 0,
            id: id@,
            elements: missing_attr_selectors(doc, nodes@, attr@),
            message: Seq::empty(),
        }),
{
    let mut elements: Vec<String> = Vec::new();
    let mut valid = true;
    let mut i: usize = 0;
    assert(views(elements@) =~= missing_attr_selectors(doc, nodes@.take(0), attr@));
    while i < nodes.len()
        invariant
            i <= nodes.len(),
            nodes_wf(doc, nodes@),
            views(elements@) == missing_attr_selectors(doc, nodes@.take(i as int), attr@),
            valid == (elements@.len() == 0),
        decreases nodes.len() - i,
    {
        let ele = nodes[i].0;
        let ghost before = views(elements@);
        proof {
            assert(nodes@.take(i + 1).drop_last() =~= nodes@.take(i as int));
            assert(nodes@.take(i + 1).last() == nodes@[i as int]);
        }
        if ele.attr_or_default(doc, attr).as_str().is_empty() {
            valid = false;
            elements.push(get_unique_selector(doc, &ele));
            assert(views(elements@) =~= before.push(unique_selector(doc, ele.node as int)));
        }
        i += 1;
    }
    assert(nodes@.take(nodes@.len() as int) =~= nodes@);
    Validation::new(valid, id, elements, String::new())
}

} // verus!
