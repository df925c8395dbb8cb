//! What to lay out: for each node of a document the layout leaf to build for it.
//!
//! The library plans the leaves; building them and solving the layout is the work of the
//! caller, who hands back one handle for each node.

use vstd::prelude::*;
use crate::dom::document::{attr_of, Document, ElementRef};
use crate::dom::html::NodeKind;
use crate::engine::styles::cascade::{style_for_element_ref, style_of, ComputedValues};
use crate::engine::styles::scan::{trim_range, trimmed};
use crate::engine::styles::style_set::{EntryModel, StyleSet};
use crate::engine::styles::values::{number_milli, parse_number, LengthOrPercentageOrAuto};
use crate::text::{str_eq, to_chars};

verus! {

/// The box style of a layout leaf. Lengths are in thousandths of a pixel.
#[derive(Debug, Clone, Copy, PartialEq, Eq, Structural)]
pub struct BoxStyle {
    pub width: LengthOrPercentageOrAuto,
    pub height: LengthOrPercentageOrAuto,
    pub margin_top: LengthOrPercentageOrAuto,
    pub margin_right: LengthOrPercentageOrAuto,
    pub margin_bottom: LengthOrPercentageOrAuto,
    pub margin_left: LengthOrPercentageOrAuto,
    pub padding_top: LengthOrPercentageOrAuto,
    pub padding_right: LengthOrPercentageOrAuto,
    pub padding_bottom: LengthOrPercentageOrAuto,
    pub padding_left: LengthOrPercentageOrAuto,
    pub border_top: LengthOrPercentageOrAuto,
    pub border_right: LengthOrPercentageOrAuto,
    pub border_bottom: LengthOrPercentageOrAuto,
    pub border_left: LengthOrPercentageOrAuto,
}

/// The leaf to build for a node.
#[derive(Debug, Clone, Copy, PartialEq, Eq, Structural)]
pub enum Leaf {
    /// No leaf: the node is no element.
    Nothing,
    /// An empty leaf, for an element that has no box of its own.
    Placeholder,
    /// A leaf with the box style of the element.
    Styled(BoxStyle),
}

/// The leaf to build for a node, and the nodes whose leaves are its children.
pub struct LeafRequest {
    pub leaf: Leaf,
    /// The numbers of the child nodes whose leaves go below this leaf, first to last.
    pub children: Vec<usize>,
}

/// A leaf request as plain values.
pub struct LeafModel {
    pub leaf: Leaf,
    pub children: Seq<int>,
}

impl View for LeafRequest {
    type V = LeafModel;

    open spec fn view(&self) -> LeafModel {
        LeafModel { leaf: self.leaf, children: Seq::new(self.children@.len(), |i: int| self.children@[i] as int) }
    }
}

/// Whether elements with this tag name have no box of their own.
pub open spec fn ignored(name: Seq<char>) -> bool {
    ||| name == "meta"@
    ||| name == "style"@
    ||| name == "link"@
    ||| name == "script"@
    ||| name == "head"@
    ||| name == "html"@
    ||| name == "body"@
}

/// Whether a size is no length, or a length of zero.
pub open spec fn unset(size: LengthOrPercentageOrAuto) -> bool {
    match size {
        LengthOrPercentageOrAuto::Length(l) => l == 0,
        _ => true,
    }
}

/// The size that an attribute of an image gives where the style gives none: the number
/// that the attribute writes, in pixels. An attribute that writes no number gives nothing.
pub open spec fn attribute_size(
    size: LengthOrPercentageOrAuto,
    attr: Option<Seq<char>>,
) -> LengthOrPercentageOrAuto {
    if unset(size) && attr is Some && number_milli(trimmed(attr->0)) is Some {
        LengthOrPercentageOrAuto::Length(number_milli(trimmed(attr->0))->0 as i64)
    } else {
        size
    }
}

/// The box style of an element with the values `style`. An image whose style gives no
/// width or height takes them from its `width` and `height` attributes.
pub open spec fn box_style(style: ComputedValues, doc: &Document, node: int) -> BoxStyle {
    let n = doc.nodes()[node];
    let image = n.name == "img"@;
    BoxStyle {
        width: if image {
            attribute_size(style.width, attr_of(n, "width"@))
        } else {
            style.width
        },
        height: if image {
            attribute_size(style.height, attr_of(n, "height"@))
        } else {
            style.height
        },
        margin_top: style.margin_top,
        margin_right: style.margin_right,
        margin_bottom: style.margin_bottom,
        margin_left: style.margin_left,
        padding_top: style.padding_top,
        padding_right: style.padding_right,
        padding_bottom: style.padding_bottom,
        padding_left: style.padding_left,
        border_top: style.border_top_width,
        border_right: style.border_right_width,
        border_bottom: style.border_bottom_width,
        border_left: style.border_left_width,
    }
}

/// Whether node `node` is an element that has a box of its own.
pub open spec fn has_box(doc: &Document, node: int) -> bool {
    0 <= node < doc.nodes().len() && doc.nodes()[node].kind == NodeKind::Element && !ignored(
        doc.nodes()[node].name,
    )
}

/// Those of the first `upto` of `children` that have a box of their own, in order.
pub open spec fn boxed_children(doc: &Document, children: Seq<int>, upto: int) -> Seq<int>
    decreases upto,
{
    if upto <= 0 {
        Seq::empty()
    } else {
        let before = boxed_children(doc, children, upto - 1);
        if has_box(doc, children[upto - 1]) {
            before.push(children[upto - 1])
        } else {
            before
        }
    }
}

/// The leaf to build for node `node`: none for a node that is no element, an empty one for
/// an element without a box of its own, and for any other element a leaf with its box style
/// and, below it, the leaves of its children that have a box.
pub open spec fn request_of(author: Seq<EntryModel>, doc: &Document, node: int) -> LeafModel {
    let n = doc.nodes()[node];
    if n.kind != NodeKind::Element {
        LeafModel { leaf: Leaf::Nothing, children: Seq::empty() }
    } else if ignored(n.name) {
        LeafModel { leaf: Leaf::Placeholder, children: Seq::empty() }
    } else {
        LeafModel {
            leaf: Leaf::Styled(box_style(style_of(author, doc, node), doc, node)),
            children: boxed_children(doc, n.children, n.children.len() as int),
        }
    }
}

/// Whether elements with this tag name have no box of their own.
pub fn is_ignored(name: &str) -> (i: bool)
    ensures
        i == ignored(name@),
{
    str_eq(name, "meta") || str_eq(name, "style") || str_eq(name, "link") || str_eq(name, "script")
        || str_eq(name, "head") || str_eq(name, "html") || str_eq(name, "body")
}

/// The size that an attribute of an image gives where the style gives none.
fn size_from_attribute(size: LengthOrPercentageOrAuto, attr: Option<String>) -> (r:
    LengthOrPercentageOrAuto)
    ensures
        r == attribute_size(size, crate::text::opt_view(attr)),
{
    let is_unset = match size {
        LengthOrPercentageOrAuto::Length(l) => l == 0,
        _ => true,
    };
    if !is_unset {
        return size;
    }
    match attr {
        Some(text) => {
            let chars = to_chars(text.as_str());
            let trimmed_text = trim_range(&chars, 0, chars.len());
            assert(chars@.subrange(0, chars.len() as int) =~= chars@);
            match parse_number(&trimmed_text) {
                Some(v) => LengthOrPercentageOrAuto::Length(v),
                None => size,
            }
        },
        None => size,
    }
}

/// The box style of an element with the values `style`.
pub fn node_layout_style(style: &ComputedValues, element: &ElementRef, document: &Document) -> (r:
    BoxStyle)
    requires
        element.wf(document),
    ensures
        r == box_style(*style, document, element.node as int),
{
    let image = str_eq(element.name(document).as_str(), "img");
    let width = if image {
        size_from_attribute(style.width, element.attr(document, "width"))
    } else {
        style.width
    };
    let height = if image {
        size_from_attribute(style.height, element.attr(document, "height"))
    } else {
        style.height
    };
    BoxStyle {
        width,
        height,
        margin_top: style.margin_top,
        margin_right: style.margin_right,
        margin_bottom: style.margin_bottom,
        margin_left: style.margin_left,
        padding_top: style.padding_top,
        padding_right: style.padding_right,
        padding_bottom: style.padding_bottom,
        padding_left: style.padding_left,
        border_top: style.border_top_width,
        border_right: style.border_right_width,
        border_bottom: style.border_bottom_width,
        border_left: style.border_left_width,
    }
}

/// The children of node `node` that have a box of their own.
fn children_with_box(document: &Document, node: usize) -> (boxed: Vec<usize>)
    requires
        node < document.nodes().len(),
    ensures
        boxed@.len() == boxed_children(
            document,
            document.nodes()[node as int].children,
            document.nodes()[node as int].children.len() as int,
        ).len(),
        forall|i: int|
            0 <= i < boxed@.len() ==> #[trigger] boxed@[i] == boxed_children(
                document,
                document.nodes()[node as int].children,
                document.nodes()[node as int].children.len() as int,
            )[i],
{
    let children = document.children(node);
    let ghost list = document.nodes()[node as int].children;
    let mut boxed: Vec<usize> = Vec::new();
    let mut k: usize = 0;
    while k < children.len()
        invariant
            k <= children@.len(),
            children@.len() == list.len(),
            forall|j: int| 0 <= j < children@.len() ==> #[trigger] children@[j] == list[j],
            forall|j: int|
                0 <= j < children@.len() ==> #[trigger] children@[j] < document.nodes().len(),
            boxed@.len() == boxed_children(document, list, k as int).len(),
            forall|i: int|
                0 <= i < boxed@.len() ==> #[trigger] boxed@[i] == boxed_children(
                    document,
                    list,
                    k as int,
                )[i],
        decreases children@.len() - k,
    {
        let child = children[k];
        assert(list[k as int] == child);
        let with_box = match ElementRef::wrap(document, child) {
            Some(element) => !is_ignored(element.name(document).as_str()),
            None => false,
        };
        if with_box {
            boxed.push(child);
        }
        k += 1;
    }
    boxed
}

/// The leaf to build for the element, with the leaves that go below it.
pub fn leaf(element: &ElementRef, author: &StyleSet, document: &Document) -> (request: LeafRequest)
    requires
        element.wf(document),
        author.wf(),
    ensures
        request@ == request_of(author@, document, element.node as int),
{
    if is_ignored(element.name(document).as_str()) {
        let request = LeafRequest { leaf: Leaf::Placeholder, children: Vec::new() };
        assert(request@.children =~= Seq::<int>::empty());
        request
    } else {
        let style = style_for_element_ref(element, author, document);
        let children = children_with_box(document, element.node);
        let request = LeafRequest {
            leaf: Leaf::Styled(node_layout_style(&style, element, document)),
            children,
        };
        assert(request@.children =~= request_of(author@, document, element.node as int).children);
        request
    }
}

/// The leaves to build for a document: one request for each node, in the order of the
/// nodes.
pub fn layout_plan(document: &Document, author: &StyleSet) -> (plan: Vec<LeafRequest>)
    requires
        author.wf(),
    ensures
        plan@.len() == document.nodes().len(),
        forall|i: int|
            0 <= i < plan@.len() ==> (#[trigger] plan@[i])@ == request_of(author@, document, i),
{
    let len = document.len();
    let mut plan: Vec<LeafRequest> = Vec::new();
    let mut i: usize = 0;
    while i < len
        invariant
            i <= len,
            len == document.nodes().len(),
            author.wf(),
            plan@.len() == i,
            forall|j: int|
                0 <= j < plan@.len() ==> (#[trigger] plan@[j])@ == request_of(author@, document, j),
        decreases len - i,
    {
        let request = match ElementRef::wrap(document, i) {
            Some(element) => leaf(&element, author, document),
            None => {
                let request = LeafRequest { leaf: Leaf::Nothing, children: Vec::new() };
                assert(request@.children =~= Seq::<int>::empty());
                request
            },
        };
        plan.push(request);
        i += 1;
    }
    plan
}

} // verus!
