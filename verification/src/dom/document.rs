//! Documents and the elements in them.

use vstd::prelude::*;
use crate::dom::html::{
    inner_markup, is_below, is_element, nodes_of, outer_markup, parse_fragment_tree, parse_tree,
    parsed, parsed_fragment, texts_below, tree_attr, tree_children, tree_html, tree_inner_html,
    tree_kind, tree_len, tree_markup, tree_name, tree_namespace, tree_outer_html, tree_parent,
    tree_text, tree_texts, NodeKind, NodeModel,
};
use vstd::string::*;
use crate::dom::selector::{
    select_below, select_in, selected_below, selected_in, selector_matches,
    selector_matches_scoped, CssSelector,
};
use crate::text::{blank, is_blank, opt_view, views};

verus! {

/// A parsed document. It is read, never changed.
pub struct Document {
    /// The tree as the parser built it.
    pub tree: scraper::Html,
}

/// An element of a document: the number of its node.
#[derive(Debug, Clone, Copy, PartialEq, Eq, Structural)]
pub struct ElementRef {
    /// The number of the node.
    pub node: usize,
}

/// The value of the attribute `name` of a node, if the node has it.
pub open spec fn attr_of(node: NodeModel, name: Seq<char>) -> Option<Seq<char>> {
    if node.attrs.contains_key(name) {
        Some(node.attrs[name])
    } else {
        None
    }
}

/// The value of the attribute `name` of a node, empty where the node has none.
pub open spec fn attr_or_empty(node: NodeModel, name: Seq<char>) -> Seq<char> {
    if node.attrs.contains_key(name) {
        node.attrs[name]
    } else {
        Seq::empty()
    }
}

/// Whether a node has the attribute `name` with a value that is more than white space.
pub open spec fn has_attr(node: NodeModel, name: Seq<char>) -> bool {
    node.attrs.contains_key(name) && !blank(node.attrs[name])
}

/// The first of `list` that is an element of `nodes`, if there is one.
pub open spec fn first_element(nodes: Seq<NodeModel>, list: Seq<int>) -> Option<int>
    decreases list.len(),
{
    if list.len() == 0 {
        None
    } else if 0 <= list[0] < nodes.len() && nodes[list[0]].kind == NodeKind::Element {
        Some(list[0])
    } else {
        first_element(nodes, list.skip(1))
    }
}

/// Whether one of `list` is an element or a text node of `nodes`.
pub open spec fn any_content(nodes: Seq<NodeModel>, list: Seq<int>) -> bool {
    exists|i: int|
        0 <= i < list.len() && 0 <= #[trigger] list[i] < nodes.len() && (nodes[list[i]].kind
            == NodeKind::Element || nodes[list[i]].kind == NodeKind::Text)
}

/// How many elements stand among `children` from index `from` on before `node`; nothing
/// where `node` is not among them.
pub open spec fn elements_before(nodes: Seq<NodeModel>, children: Seq<int>, node: int, from: int) -> Option<
    nat,
>
    decreases children.len() - from,
{
    if from < 0 || from >= children.len() {
        None
    } else if children[from] == node {
        Some(0nat)
    } else {
        match elements_before(nodes, children, node, from + 1) {
            Some(k) => if 0 <= children[from] < nodes.len() && nodes[children[from]].kind
                == NodeKind::Element {
                Some(k + 1)
            } else {
                Some(k)
            },
            None => None,
        }
    }
}

/// The place of node `node` among the elements that are children of its parent, counted
/// from one: one more than the number of elements that stand before it there. A node
/// without a parent is the first.
pub open spec fn place_among_elements(nodes: Seq<NodeModel>, node: int) -> nat {
    match nodes[node].parent {
        Some(p) => match elements_before(nodes, nodes[p].children, node, 0) {
            Some(k) => k + 1,
            None => 1,
        },
        None => 1,
    }
}

/// The text of those of the first `upto` of `children` that are text nodes, one behind the
/// other.
pub open spec fn text_of_children(nodes: Seq<NodeModel>, children: Seq<int>, upto: int) -> Seq<char>
    decreases upto,
{
    if upto <= 0 {
        Seq::empty()
    } else {
        let before = text_of_children(nodes, children, upto - 1);
        let child = children[upto - 1];
        if 0 <= child < nodes.len() && nodes[child].kind == NodeKind::Text {
            before + nodes[child].text
        } else {
            before
        }
    }
}

/// Whether `c` is white space of ASCII: a space, a tab, a line feed, a form feed or a
/// carriage return.
pub open spec fn ascii_space(c: char) -> bool {
    c == ' ' || c == '\t' || c == '\n' || c == '\u{c}' || c == '\r'
}

/// Whether `word` stands in `s` at index `at` with white space or an end of `s` on either
/// side.
pub open spec fn stands_alone(s: Seq<char>, word: Seq<char>, at: int) -> bool {
    &&& crate::text::occurs_at(s, word, at)
    &&& (at == 0 || ascii_space(s[at - 1]))
    &&& (at + word.len() == s.len() || ascii_space(s[at + word.len()]))
}

/// Whether `word` is one of the words of `s`: it is not empty, holds no white space, and
/// stands in `s` between white space.
pub open spec fn is_word_of(s: Seq<char>, word: Seq<char>) -> bool {
    &&& word.len() > 0
    &&& forall|j: int| 0 <= j < word.len() ==> !ascii_space(#[trigger] word[j])
    &&& exists|at: int| stands_alone(s, word, at)
}

/// Whether `c` is white space of ASCII.
fn is_ascii_space(c: char) -> (w: bool)
    ensures
        w == ascii_space(c),
{
    c == ' ' || c == '\t' || c == '\n' || c == '\u{c}' || c == '\r'
}

/// Whether `word` stands in `s` at index `at`.
fn same_at(s: &Vec<char>, word: &Vec<char>, at: usize) -> (m: bool)
    requires
        at + word.len() <= s.len(),
    ensures
        m == crate::text::occurs_at(s@, word@, at as int),
{
    let mut k: usize = 0;
    while k < word.len()
        invariant
            k <= word.len(),
            at + word.len() <= s.len(),
            forall|j: int| 0 <= j < k ==> s@[at + j] == word@[j],
        decreases word.len() - k,
    {
        if s[at + k] != word[k] {
            assert(s@.subrange(at as int, at + word.len())[k as int] == s@[at + k]);
            return false;
        }
        k += 1;
    }
    assert(s@.subrange(at as int, at + word.len()) =~= word@);
    true
}

/// The pseudo-classes that say something of the state of an element rather than of its
/// place in the tree.
#[derive(Debug, Clone, Copy, PartialEq, Eq, Structural, Hash)]
pub enum NonTSPseudoClass {
    /// A link, visited or not.
    AnyLink,
    /// A link that was not visited.
    Link,
    /// A link that was visited.
    Visited,
    /// An element that is being activated.
    Active,
    /// An element that has the focus.
    Focus,
    /// An element under the pointer.
    Hover,
    /// A control that is enabled.
    Enabled,
    /// A control that is disabled.
    Disabled,
    /// A control that is checked.
    Checked,
    /// A control that is neither checked nor unchecked.
    Indeterminate,
}

impl NonTSPseudoClass {
    /// The pseudo-class as selectors write it.
    pub open spec fn css(self) -> Seq<char> {
        match self {
            NonTSPseudoClass::AnyLink => ":any-link"@,
            NonTSPseudoClass::Link => ":link"@,
            NonTSPseudoClass::Visited => ":visited"@,
            NonTSPseudoClass::Active => ":active"@,
            NonTSPseudoClass::Focus => ":focus"@,
            NonTSPseudoClass::Hover => ":hover"@,
            NonTSPseudoClass::Enabled => ":enabled"@,
            NonTSPseudoClass::Disabled => ":disabled"@,
            NonTSPseudoClass::Checked => ":checked"@,
            NonTSPseudoClass::Indeterminate => ":indeterminate"@,
        }
    }

    /// The pseudo-class as selectors write it.
    pub fn to_css(&self) -> (s: &'static str)
        ensures
            s@ == self.css(),
    {
        match self {
            NonTSPseudoClass::AnyLink => ":any-link",
            NonTSPseudoClass::Link => ":link",
            NonTSPseudoClass::Visited => ":visited",
            NonTSPseudoClass::Active => ":active",
            NonTSPseudoClass::Focus => ":focus",
            NonTSPseudoClass::Hover => ":hover",
            NonTSPseudoClass::Enabled => ":enabled",
            NonTSPseudoClass::Disabled => ":disabled",
            NonTSPseudoClass::Checked => ":checked",
            NonTSPseudoClass::Indeterminate => ":indeterminate",
        }
    }
}

/// Whether a node is an HTML element that links somewhere: an `a`, `area` or `link` with
/// a `href` attribute that is more than white space.
pub open spec fn links(node: NodeModel) -> bool {
    &&& node.namespace == "http://www.w3.org/1999/xhtml"@
    &&& (node.name == "a"@ || node.name == "area"@ || node.name == "link"@)
    &&& has_attr(node, "href"@)
}

/// Whether a node is in the state that a pseudo-class names. A document that is audited
/// has no visitor: no element is visited, active, focused, hovered, enabled, disabled,
/// checked or indeterminate, and a link is a link that was not visited.
pub open spec fn in_state(node: NodeModel, pseudo_class: NonTSPseudoClass) -> bool {
    match pseudo_class {
        NonTSPseudoClass::AnyLink => links(node),
        NonTSPseudoClass::Link => links(node),
        _ => false,
    }
}

impl Document {
    /// The nodes of the document, in the order in which the parser made them.
    pub open spec fn nodes(&self) -> Seq<NodeModel> {
        nodes_of(self.tree)
    }

    /// The root element: the first child of the root node that is an element.
    pub open spec fn root(&self) -> Option<int> {
        first_element(self.nodes(), self.nodes()[0].children)
    }

    /// Parses a text as an HTML document. Parsing never fails.
    pub fn parse_document(document: &str) -> (doc: Document)
        ensures
            doc.tree == parsed(document@),
    {
        Document { tree: parse_tree(document) }
    }

    /// Parses a text as a fragment of HTML: as what stands inside a `body` element. Parsing
    /// never fails.
    pub fn parse_fragment(fragment: &str) -> (doc: Document)
        ensures
            doc.tree == parsed_fragment(fragment@),
    {
        Document { tree: parse_fragment_tree(fragment) }
    }

    /// The markup of the whole document.
    pub fn html(&self) -> (markup: String)
        ensures
            markup@ == tree_markup(self.tree),
    {
        tree_html(&self.tree)
    }

    /// The number of nodes.
    pub fn len(&self) -> (n: usize)
        ensures
            n == self.nodes().len(),
            n >= 1,
    {
        tree_len(&self.tree)
    }

    /// What node `node` is.
    pub fn kind(&self, node: usize) -> (kind: NodeKind)
        requires
            node < self.nodes().len(),
        ensures
            kind == self.nodes()[node as int].kind,
    {
        tree_kind(&self.tree, node)
    }

    /// The parent of node `node`.
    pub fn parent(&self, node: usize) -> (parent: Option<usize>)
        requires
            node < self.nodes().len(),
        ensures
            parent is Some <==> self.nodes()[node as int].parent is Some,
            parent is Some ==> parent->0 == self.nodes()[node as int].parent->0,
            parent is Some ==> parent->0 < self.nodes().len(),
    {
        tree_parent(&self.tree, node)
    }

    /// The children of node `node`, first to last.
    pub fn children(&self, node: usize) -> (children: Vec<usize>)
        requires
            node < self.nodes().len(),
        ensures
            children@.len() == self.nodes()[node as int].children.len(),
            forall|i: int|
                0 <= i < children@.len() ==> #[trigger] children@[i]
                    == self.nodes()[node as int].children[i],
            forall|i: int|
                0 <= i < children@.len() ==> #[trigger] children@[i] < self.nodes().len(),
    {
        tree_children(&self.tree, node)
    }

    /// The text of the text nodes among the children of node `node`, one behind the other.
    pub fn child_text_content(&self, node: usize) -> (text: String)
        requires
            node < self.nodes().len(),
        ensures
            text@ == text_of_children(
                self.nodes(),
                self.nodes()[node as int].children,
                self.nodes()[node as int].children.len() as int,
            ),
    {
        let children = self.children(node);
        let ghost list = self.nodes()[node as int].children;
        let mut text = String::new();
        let mut i: usize = 0;
        while i < children.len()
            invariant
                i <= children@.len(),
                children@.len() == list.len(),
                forall|j: int| 0 <= j < children@.len() ==> #[trigger] children@[j] == list[j],
                forall|j: int|
                    0 <= j < children@.len() ==> #[trigger] children@[j] < self.nodes().len(),
                text@ == text_of_children(self.nodes(), list, i as int),
            decreases children@.len() - i,
        {
            let child = children[i];
            assert(list[i as int] == child);
            if self.kind(child) == NodeKind::Text {
                text.append(tree_text(&self.tree, child).as_str());
            }
            i += 1;
        }
        text
    }

    /// The root element, if the root node has an element among its children.
    pub fn root_element(&self) -> (root: Option<ElementRef>)
        ensures
            root is Some <==> self.root() is Some,
            root matches Some(e) ==> e.node == self.root()->0 && e.wf(self),
    {
        let len = self.len();
        let children = self.children(0);
        let ghost list = self.nodes()[0].children;
        let mut i: usize = 0;
        assert(list.skip(0) =~= list);
        while i < children.len()
            invariant
                i <= children.len(),
                children@.len() == list.len(),
                self.nodes().len() >= 1,
                list == self.nodes()[0].children,
                forall|j: int| 0 <= j < children@.len() ==> #[trigger] children@[j] == list[j],
                forall|j: int|
                    0 <= j < children@.len() ==> #[trigger] children@[j] < self.nodes().len(),
                first_element(self.nodes(), list) == first_element(
                    self.nodes(),
                    list.skip(i as int),
                ),
            decreases children.len() - i,
        {
            let child = children[i];
            proof {
                let rest = list.skip(i as int);
                assert(rest[0] == list[i as int]);
                assert(rest.skip(1) =~= list.skip(i + 1));
            }
            if self.kind(child) == NodeKind::Element {
                return Some(ElementRef { node: child });
            }
            i += 1;
        }
        assert(list.skip(children.len() as int).len() == 0);
        None
    }

    /// The elements of the document that have a parent and match `selector`, in the order
    /// in which the parser made them.
    pub fn select(&self, selector: &CssSelector) -> (found: Vec<ElementRef>)
        ensures
            found@.len() == selected_in(self.tree, selector.group).len(),
            forall|i: int|
                0 <= i < found@.len() ==> (#[trigger] found@[i]).node == selected_in(
                    self.tree,
                    selector.group,
                )[i],
            forall|i: int| 0 <= i < found@.len() ==> (#[trigger] found@[i]).wf(self),
            forall|i: int|
                0 <= i < found@.len() ==> selector_matches(
                    self.tree,
                    (#[trigger] found@[i]).node as int,
                    selector.group,
                ),
            forall|i: int|
                0 <= i < found@.len() ==> (#[trigger] found@[i]).model(self).parent is Some,
    {
        let raw = select_in(&self.tree, &selector.group);
        to_elements(self, &raw)
    }
}

/// The element references for a list of element numbers.
fn to_elements(doc: &Document, raw: &Vec<usize>) -> (found: Vec<ElementRef>)
    requires
        forall|i: int| 0 <= i < raw@.len() ==> is_element(doc.tree, #[trigger] raw@[i] as int),
    ensures
        found@.len() == raw@.len(),
        forall|i: int| 0 <= i < found@.len() ==> (#[trigger] found@[i]).node == raw@[i],
        forall|i: int| 0 <= i < found@.len() ==> (#[trigger] found@[i]).wf(doc),
{
    let mut found: Vec<ElementRef> = Vec::new();
    let mut i: usize = 0;
    while i < raw.len()
        invariant
            i <= raw.len(),
            found@.len() == i,
            forall|j: int| 0 <= j < raw@.len() ==> is_element(doc.tree, #[trigger] raw@[j] as int),
            forall|j: int| 0 <= j < i ==> (#[trigger] found@[j]).node == raw@[j],
            forall|j: int| 0 <= j < i ==> (#[trigger] found@[j]).wf(doc),
        decreases raw.len() - i,
    {
        found.push(ElementRef { node: raw[i] });
        i += 1;
    }
    found
}

impl ElementRef {
    /// Whether this is an element of `doc`.
    pub open spec fn wf(&self, doc: &Document) -> bool {
        is_element(doc.tree, self.node as int)
    }

    /// The node of the element in `doc`.
    pub open spec fn model(&self, doc: &Document) -> NodeModel {
        doc.nodes()[self.node as int]
    }

    /// A reference to node `node`, if that node is an element.
    pub fn wrap(doc: &Document, node: usize) -> (element: Option<ElementRef>)
        requires
            node < doc.nodes().len(),
        ensures
            element is Some <==> doc.nodes()[node as int].kind == NodeKind::Element,
            element matches Some(e) ==> e.node == node && e.wf(doc),
    {
        if doc.kind(node) == NodeKind::Element {
            Some(ElementRef { node })
        } else {
            None
        }
    }

    /// The tag name of the element.
    pub fn name(&self, doc: &Document) -> (name: String)
        requires
            self.wf(doc),
        ensures
            name@ == self.model(doc).name,
    {
        tree_name(&doc.tree, self.node)
    }

    /// The value of an attribute.
    pub fn attr(&self, doc: &Document, attr: &str) -> (value: Option<String>)
        requires
            self.wf(doc),
        ensures
            opt_view(value) == attr_of(self.model(doc), attr@),
    {
        tree_attr(&doc.tree, self.node, attr)
    }

    /// The value of an attribute, empty where the element has none.
    pub fn attr_or_default(&self, doc: &Document, attr: &str) -> (value: String)
        requires
            self.wf(doc),
        ensures
            value@ == attr_or_empty(self.model(doc), attr@),
    {
        match tree_attr(&doc.tree, self.node, attr) {
            Some(value) => value,
            None => String::new(),
        }
    }

    /// Whether the element has the attribute with a value that is more than white space.
    pub fn has_attribute(&self, doc: &Document, attr: &str) -> (has: bool)
        requires
            self.wf(doc),
        ensures
            has == has_attr(self.model(doc), attr@),
    {
        match tree_attr(&doc.tree, self.node, attr) {
            Some(value) => !is_blank(value.as_str()),
            None => false,
        }
    }

    /// The markup of the element with what is inside it.
    pub fn html(&self, doc: &Document) -> (markup: String)
        requires
            self.wf(doc),
        ensures
            markup@ == outer_markup(doc.tree, self.node as int),
    {
        tree_outer_html(&doc.tree, self.node)
    }

    /// Whether the element has the id `id`. Letters of ASCII count as the same in either
    /// case where `case_sensitive` is not set.
    pub fn has_id(&self, doc: &Document, id: &str, case_sensitive: bool) -> (has: bool)
        requires
            self.wf(doc),
        ensures
            has == match attr_of(self.model(doc), "id"@) {
                Some(value) => if case_sensitive {
                    value == id@
                } else {
                    crate::text::same_ignoring_ascii_case(value, id@)
                },
                None => false,
            },
    {
        match self.attr(doc, "id") {
            Some(value) => if case_sensitive {
                crate::text::str_eq(value.as_str(), id)
            } else {
                crate::text::eq_ignore_ascii_case(value.as_str(), id)
            },
            None => false,
        }
    }

    /// Whether the element has the class `name`: whether `name` is one of the words of its
    /// `class` attribute.
    pub fn has_class(&self, doc: &Document, name: &str) -> (has: bool)
        requires
            self.wf(doc),
        ensures
            has == is_word_of(attr_or_empty(self.model(doc), "class"@), name@),
    {
        let classes = crate::text::to_chars(self.attr_or_default(doc, "class").as_str());
        let word = crate::text::to_chars(name);
        if word.len() == 0 || word.len() > classes.len() {
            return false;
        }
        let mut k: usize = 0;
        while k < word.len()
            invariant
                k <= word.len(),
                word@ == name@,
                forall|j: int| 0 <= j < k ==> !ascii_space(#[trigger] word@[j]),
            decreases word.len() - k,
        {
            if is_ascii_space(word[k]) {
                assert(ascii_space(name@[k as int]));
                return false;
            }
            k += 1;
        }
        let last: usize = classes.len() - word.len();
        let mut at: usize = 0;
        loop
            invariant
                at <= last,
                last == classes.len() - word.len(),
                0 < word.len() <= classes.len(),
                classes@ == attr_or_empty(self.model(doc), "class"@),
                word@ == name@,
                forall|j: int| 0 <= j < word@.len() ==> !ascii_space(#[trigger] word@[j]),
                forall|j: int| 0 <= j < at ==> !stands_alone(classes@, word@, j),
            decreases last - at,
        {
            let before = at == 0 || is_ascii_space(classes[at - 1]);
            let after = at + word.len() == classes.len() || is_ascii_space(
                classes[at + word.len()],
            );
            if before && after && same_at(&classes, &word, at) {
                assert(stands_alone(classes@, word@, at as int));
                return true;
            }
            if at == last {
                assert forall|j: int| !stands_alone(classes@, word@, j) by {}
                return false;
            }
            at += 1;
        }
    }

    /// The markup of what is inside the element.
    pub fn inner_html(&self, doc: &Document) -> (markup: String)
        requires
            self.wf(doc),
        ensures
            markup@ == inner_markup(doc.tree, self.node as int),
    {
        tree_inner_html(&doc.tree, self.node)
    }

    /// The text nodes at and below the element, in tree order.
    pub fn text(&self, doc: &Document) -> (texts: Vec<String>)
        requires
            self.wf(doc),
        ensures
            views(texts@) == texts_below(doc.tree, self.node as int),
    {
        tree_texts(&doc.tree, self.node)
    }

    /// The elements below this one that match `selector`, in tree order.
    pub fn select(&self, doc: &Document, selector: &CssSelector) -> (found: Vec<ElementRef>)
        requires
            self.wf(doc),
        ensures
            found@.len() == selected_below(doc.tree, self.node as int, selector.group).len(),
            forall|i: int|
                0 <= i < found@.len() ==> (#[trigger] found@[i]).node == selected_below(
                    doc.tree,
                    self.node as int,
                    selector.group,
                )[i],
            forall|i: int| 0 <= i < found@.len() ==> (#[trigger] found@[i]).wf(doc),
            forall|i: int|
                0 <= i < found@.len() ==> selector_matches_scoped(
                    doc.tree,
                    (#[trigger] found@[i]).node as int,
                    Some(self.node as int),
                    selector.group,
                ),
            forall|i: int|
                0 <= i < found@.len() ==> is_below(
                    doc.nodes(),
                    (#[trigger] found@[i]).node as int,
                    self.node as int,
                    doc.nodes().len(),
                ),
    {
        let raw = select_below(&doc.tree, self.node, &selector.group);
        let found = to_elements(doc, &raw);
        assert forall|i: int| 0 <= i < found@.len() implies selector_matches_scoped(
            doc.tree,
            (#[trigger] found@[i]).node as int,
            Some(self.node as int),
            selector.group,
        ) by {
            assert(found@[i].node == raw@[i]);
        }
        assert forall|i: int| 0 <= i < found@.len() implies is_below(
            doc.nodes(),
            (#[trigger] found@[i]).node as int,
            self.node as int,
            doc.nodes().len(),
        ) by {
            assert(found@[i].node == raw@[i]);
        }
        found
    }

    /// Whether the element is in the state that a pseudo-class names.
    pub fn match_non_ts_pseudo_class(&self, doc: &Document, pseudo_class: &NonTSPseudoClass) -> (m:
        bool)
        requires
            self.wf(doc),
        ensures
            m == in_state(self.model(doc), *pseudo_class),
    {
        match pseudo_class {
            NonTSPseudoClass::AnyLink | NonTSPseudoClass::Link => {
                if !crate::text::str_eq(
                    tree_namespace(&doc.tree, self.node).as_str(),
                    "http://www.w3.org/1999/xhtml",
                ) {
                    return false;
                }
                let name = self.name(doc);
                (crate::text::str_eq(name.as_str(), "a") || crate::text::str_eq(
                    name.as_str(),
                    "area",
                ) || crate::text::str_eq(name.as_str(), "link")) && self.has_attribute(doc, "href")
            },
            _ => false,
        }
    }

    /// Whether the element is a `link` element.
    pub fn is_link(&self, doc: &Document) -> (l: bool)
        requires
            self.wf(doc),
        ensures
            l == (self.model(doc).name == "link"@),
    {
        crate::text::str_eq(self.name(doc).as_str(), "link")
    }

    /// Whether the element is the root element: its parent is the root of the document.
    pub fn is_root(&self, doc: &Document) -> (r: bool)
        requires
            self.wf(doc),
        ensures
            r == (self.model(doc).parent is Some && doc.nodes()[self.model(doc).parent->0].kind
                == NodeKind::Document),
    {
        match doc.parent(self.node) {
            Some(p) => doc.kind(p) == NodeKind::Document,
            None => false,
        }
    }

    /// The parent, if it is an element.
    pub fn parent_element(&self, doc: &Document) -> (parent: Option<ElementRef>)
        requires
            self.wf(doc),
        ensures
            parent is Some <==> (self.model(doc).parent is Some && is_element(
                doc.tree,
                self.model(doc).parent->0,
            )),
            parent matches Some(p) ==> p.node == self.model(doc).parent->0 && p.wf(doc),
    {
        match doc.parent(self.node) {
            Some(p) => ElementRef::wrap(doc, p),
            None => None,
        }
    }

    /// Whether the element has children.
    pub fn has_children(&self, doc: &Document) -> (has: bool)
        requires
            self.wf(doc),
        ensures
            has == (self.model(doc).children.len() > 0),
    {
        doc.children(self.node).len() > 0
    }

    /// The place of the element among the elements that are children of its parent,
    /// counted from one.
    pub fn element_position(&self, doc: &Document) -> (position: usize)
        requires
            self.wf(doc),
        ensures
            position == place_among_elements(doc.nodes(), self.node as int),
    {
        match doc.parent(self.node) {
            Some(parent) => {
                let children = doc.children(parent);
                let ghost list = doc.nodes()[parent as int].children;
                let mut count: usize = 0;
                let mut i: usize = 0;
                while i < children.len()
                    invariant
                        i <= children@.len(),
                        count <= i,
                        children@.len() == list.len(),
                        list == doc.nodes()[parent as int].children,
                        doc.nodes()[self.node as int].parent == Some(parent as int),
                        forall|j: int|
                            0 <= j < children@.len() ==> #[trigger] children@[j] == list[j],
                        forall|j: int|
                            0 <= j < children@.len() ==> #[trigger] children@[j]
                                < doc.nodes().len(),
                        elements_before(doc.nodes(), list, self.node as int, 0) == match elements_before(
                            doc.nodes(),
                            list,
                            self.node as int,
                            i as int,
                        ) {
                            Some(k) => Some((k + count) as nat),
                            None => None,
                        },
                    decreases children@.len() - i,
                {
                    let child = children[i];
                    assert(list[i as int] == child);
                    if child == self.node {
                        return count + 1;
                    }
                    if doc.kind(child) == NodeKind::Element {
                        count += 1;
                    }
                    i += 1;
                }
                1
            },
            None => 1,
        }
    }

    /// Whether the element has neither an element nor a text node among its children.
    pub fn is_empty(&self, doc: &Document) -> (empty: bool)
        requires
            self.wf(doc),
        ensures
            empty == !any_content(doc.nodes(), self.model(doc).children),
    {
        let children = doc.children(self.node);
        let ghost list = self.model(doc).children;
        let mut i: usize = 0;
        while i < children.len()
            invariant
                i <= children.len(),
                children@.len() == list.len(),
                forall|j: int| 0 <= j < children@.len() ==> #[trigger] children@[j] == list[j],
                forall|j: int|
                    0 <= j < children@.len() ==> #[trigger] children@[j] < doc.nodes().len(),
                list == self.model(doc).children,
                forall|j: int|
                    0 <= j < i ==> !(doc.nodes()[#[trigger] list[j]].kind == NodeKind::Element
                        || doc.nodes()[list[j]].kind == NodeKind::Text),
            decreases children.len() - i,
        {
            let kind = doc.kind(children[i]);
            if kind == NodeKind::Element || kind == NodeKind::Text {
                assert(list[i as int] == children@[i as int]);
                assert(0 <= list[i as int] < doc.nodes().len());
                assert(any_content(doc.nodes(), list));
                return false;
            }
            i += 1;
        }
        true
    }
}

} // verus!
