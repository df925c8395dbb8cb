//! What an audit works on: the document, its index, its style sheets and the language of
//! the messages.

use vstd::prelude::*;
use crate::dom::document::{attr_of, Document, ElementRef};
use crate::dom::html::inner_markup;
use crate::dom::selector::{read_selector, selected_in, CssSelector};
use crate::engine::audit::tree::{
    carries, index_carries, indexes, parse_accessibility_tree, parse_accessibility_tree_bounded,
    AccessibilityTree,
};
use crate::engine::styles::style_set::StyleSet;
use crate::engine::rules::contrast::{bucket_pairs, collect_pairs, ContrastPair, Measure};
use crate::i18n::locales::Catalog;
use crate::text::{eq_ignore_ascii_case, same_ignoring_ascii_case};

verus! {

/// What an audit works on. It is made once for an audit and read by every rule.
pub struct Auditor<'a> {
    /// The document.
    pub document: &'a Document,
    /// The index of the document's elements by tag name.
    pub tree: AccessibilityTree,
    /// The style sheets of the author.
    pub author: StyleSet,
    /// The locale of the messages.
    pub locale: &'a str,
    /// The messages.
    pub catalog: Catalog,
    /// The handles of the layout boxes, one for each node, where boxes were laid out.
    pub boxes: Option<Vec<u64>>,
    /// The contrast ratios of the pairs of colours that the contrast rule compares, in
    /// the order of the pairs, where the caller worked them out.
    pub measures: Vec<Measure>,
}

/// Whether a `style` element holds a style sheet: it has no `type` attribute, or one that is
/// `text/css` but for the case of its letters.
pub open spec fn holds_sheet(kind: Option<Seq<char>>) -> bool {
    match kind {
        Some(k) => same_ignoring_ascii_case(k, "text/css"@),
        None => true,
    }
}

/// The style sheets inside a document: the markup inside each of `found` that holds a
/// style sheet.
pub open spec fn embedded_sheets(doc: &Document, found: Seq<int>) -> Seq<Seq<char>>
    decreases found.len(),
{
    if found.len() == 0 {
        Seq::empty()
    } else {
        let before = embedded_sheets(doc, found.drop_last());
        let node = found.last();
        if holds_sheet(attr_of(doc.nodes()[node], "type"@)) {
            before.push(inner_markup(doc.tree, node))
        } else {
            before
        }
    }
}

/// The style sheets of an audit: the given text where one is given; else the style sheets
/// inside the `style` elements of the document.
pub open spec fn author_sheets(doc: &Document, css_rules: Seq<char>) -> Seq<Seq<char>> {
    if css_rules.len() > 0 {
        seq![css_rules]
    } else {
        match read_selector("style"@) {
            Ok(s) => embedded_sheets(doc, selected_in(doc.tree, s)),
            Err(_) => Seq::empty(),
        }
    }
}

/// The handles of the boxes as a sequence, where there are any.
pub open spec fn box_handles(boxes: Option<Vec<u64>>) -> Option<Seq<u64>> {
    match boxes {
        Some(b) => Some(b@),
        None => None,
    }
}

impl<'a> Auditor<'a> {
    /// Whether the index is that of the document.
    pub open spec fn wf(&self) -> bool {
        &&& self.document.nodes().len() <= usize::MAX
        &&& self.author.wf()
        &&& indexes(
            &self.tree,
            self.document,
            box_handles(self.boxes),
            self.document.nodes().len() as int,
        )
    }

    /// The style sheets of the author: `css_rules` where it is not empty, else what the
    /// `style` elements of the document hold.
    pub fn collect_sheets(document: &Document, css_rules: &str) -> (author: StyleSet)
        ensures
            author.wf(),
            author.sources() == author_sheets(document, css_rules@),
    {
        let mut author = StyleSet::new();
        if !css_rules.is_empty() {
            author.add_stylesheet(css_rules);
            assert(author.sources() =~= seq![css_rules@]);
            return author;
        }
        match CssSelector::parse("style") {
            Ok(selector) => {
                let found = document.select(&selector);
                let ghost raw = selected_in(document.tree, selector.group);
                let mut i: usize = 0;
                assert(raw.take(0) =~= Seq::<int>::empty());
                while i < found.len()
                    invariant
                        i <= found.len(),
                        found@.len() == raw.len(),
                        forall|j: int| 0 <= j < found@.len() ==> (#[trigger] found@[j]).wf(document),
                        forall|j: int| 0 <= j < found@.len() ==> (#[trigger] found@[j]).node == raw[j],
                        author.wf(),
                        author.sources() == embedded_sheets(document, raw.take(i as int)),
                    decreases found.len() - i,
                {
                    let node = found[i];
                    proof {
                        assert(raw.take(i + 1).drop_last() =~= raw.take(i as int));
                        assert(raw.take(i + 1).last() == raw[i as int]);
                    }
                    let holds = match node.attr(document, "type") {
                        Some(type_attr) => eq_ignore_ascii_case(type_attr.as_str(), "text/css"),
                        None => true,
                    };
                    if holds {
                        author.add_stylesheet(node.inner_html(document).as_str());
                    }
                    i += 1;
                }
                assert(raw.take(found@.len() as int) =~= raw);
                author
            },
            Err(_) => author,
        }
    }

    /// An auditor for a document, without messages and without contrast ratios.
    ///
    /// `boxes` are the handles of the layout boxes that the caller laid out after
    /// `layout_plan`, one for each node of the document. Where they are given, every entry
    /// of the index carries the handle of its node; where they are not, none carries one.
    pub fn new(
        document: &'a Document,
        css_rules: &str,
        boxes: Option<Vec<u64>>,
        locale: &'a str,
    ) -> (auditor: Auditor<'a>)
        requires
            boxes matches Some(b) ==> b@.len() == document.nodes().len(),
        ensures
            auditor.wf(),
            auditor.document == document,
            auditor.locale == locale,
            auditor.boxes == boxes,
            auditor.author.sources() == author_sheets(document, css_rules@),
            auditor.catalog.entries@.len() == 0,
            auditor.measures@.len() == 0,
            carries(&auditor.tree, box_handles(boxes)),
            forall|i: int, k: int|
                0 <= i < auditor.tree.spec_len() && 0 <= k < auditor.tree.items(i).len() ==> ((
                #[trigger] auditor.tree.items(i)[k]).1 is Some <==> boxes is Some),
    {
        let author = Auditor::collect_sheets(document, css_rules);
        let len = document.len();
        let tree = match &boxes {
            Some(handles) => parse_accessibility_tree_bounded(document, handles),
            None => parse_accessibility_tree(document),
        };
        proof {
            index_carries(&tree, document, box_handles(boxes));
        }
        Auditor {
            document,
            tree,
            author,
            locale,
            catalog: Catalog::new(),
            boxes,
            measures: Vec::new(),
        }
    }

    /// The pairs of colours that the contrast rule compares, in the order in which it
    /// compares them. The caller works out their contrast ratios and puts them into
    /// `measures`, one for each pair.
    pub fn contrast_pairs(&self) -> (pairs: Vec<ContrastPair>)
        requires
            self.wf(),
        ensures
            pairs@ == bucket_pairs(
                self.author@,
                self.document,
                self.tree.bucket("body"@),
                self.tree.bucket("body"@).len() as int,
            ),
    {
        match self.tree.get("body") {
            Some(nodes) => collect_pairs(nodes, &self.author, self.document),
            None => Vec::new(),
        }
    }
}

} // verus!
