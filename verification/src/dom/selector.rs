//! CSS selectors. Reading a selector and matching it against elements is the work of the
//! `scraper` crate, which hands both to the `selectors` crate.

use vstd::prelude::*;
use crate::dom::html::{is_below, is_element, nodes_of};

verus! {

/// A group of selectors as `scraper::Selector::parse` read it.
#[verifier::external_type_specification]
#[verifier::external_body]
pub struct ExSelector(scraper::Selector);

/// Why `scraper::Selector::parse` refused a text.
#[verifier::external_type_specification]
#[verifier::external_body]
pub struct ExSelectorErrorKind(scraper::error::SelectorErrorKind);

/// What reading a text as a group of selectors gives: the group, or why the text is none.
pub uninterp spec fn read_selector(text: Seq<char>) -> Result<
    scraper::Selector,
    scraper::error::SelectorErrorKind,
>;

/// The elements below element `scope` that match `selector`, in tree order, with `:scope`
/// standing for `scope` itself.
pub uninterp spec fn selected_below(
    tree: scraper::Html,
    scope: int,
    selector: scraper::Selector,
) -> Seq<int>;

/// The elements of the tree that have a parent and match `selector`, in the order in which
/// the parser made them.
pub uninterp spec fn selected_in(tree: scraper::Html, selector: scraper::Selector) -> Seq<int>;

/// Whether element `node` matches `selector` when `:scope` stands for element `scope`, or
/// for the root element where no scope is given.
pub uninterp spec fn selector_matches_scoped(
    tree: scraper::Html,
    node: int,
    scope: Option<int>,
    selector: scraper::Selector,
) -> bool;

/// Whether element `node` matches `selector`, with `:scope` standing for the root element.
pub open spec fn selector_matches(tree: scraper::Html, node: int, selector: scraper::Selector) -> bool {
    selector_matches_scoped(tree, node, None, selector)
}

/// `scraper::Selector::matches_with_scope`: whether the element matches one of the
/// selectors of the group, with the given element as `:scope`.
#[verifier::external_body]
pub(crate) fn matches_scoped(
    tree: &scraper::Html,
    node: usize,
    scope: Option<usize>,
    selector: &scraper::Selector,
) -> (m: bool)
    requires
        is_element(*tree, node as int),
        scope matches Some(s) ==> is_element(*tree, s as int),
    ensures
        m == selector_matches_scoped(
            *tree,
            node as int,
            match scope {
                Some(s) => Some(s as int),
                None => None,
            },
            *selector,
        ),
{
    let scope = scope.map(|s| scraper::ElementRef::wrap(tree.tree.nodes().nth(s).unwrap()).unwrap());
    let element = scraper::ElementRef::wrap(tree.tree.nodes().nth(node).unwrap()).unwrap();
    selector.matches_with_scope(&element, scope)
}

/// Reads a group of selectors with `scraper::Selector::parse`.
#[verifier::external_body]
pub(crate) fn parse_group(text: &str) -> (group: Result<
    scraper::Selector,
    scraper::error::SelectorErrorKind,
>)
    ensures
        group == read_selector(text@),
{
    scraper::Selector::parse(text)
}

/// The matches of `scraper::ElementRef::select`, which walks what is below the element and
/// keeps the elements that match with the element as `:scope`. Each is handed out as its
/// number.
#[verifier::external_body]
pub(crate) fn select_below(tree: &scraper::Html, scope: usize, selector: &scraper::Selector) -> (found:
    Vec<usize>)
    requires
        is_element(*tree, scope as int),
    ensures
        found@.len() == selected_below(*tree, scope as int, *selector).len(),
        forall|i: int|
            0 <= i < found@.len() ==> #[trigger] found@[i] == selected_below(
                *tree,
                scope as int,
                *selector,
            )[i],
        forall|i: int| 0 <= i < found@.len() ==> is_element(*tree, #[trigger] found@[i] as int),
        forall|i: int|
            0 <= i < found@.len() ==> selector_matches_scoped(
                *tree,
                #[trigger] found@[i] as int,
                Some(scope as int),
                *selector,
            ),
        forall|i: int|
            0 <= i < found@.len() ==> is_below(
                nodes_of(*tree),
                #[trigger] found@[i] as int,
                scope as int,
                nodes_of(*tree).len(),
            ),
{
    let ids: std::collections::HashMap<_, _> =
        tree.tree.nodes().enumerate().map(|(i, n)| (n.id(), i)).collect();
    let scope = scraper::ElementRef::wrap(tree.tree.nodes().nth(scope).unwrap()).unwrap();
    scope.select(selector).map(|e| ids[&e.id()]).collect()
}

/// The matches of `scraper::Html::select`, which goes through all nodes and keeps the
/// elements that have a parent and match. Each is handed out as its number.
#[verifier::external_body]
pub(crate) fn select_in(tree: &scraper::Html, selector: &scraper::Selector) -> (found: Vec<usize>)
    ensures
        found@.len() == selected_in(*tree, *selector).len(),
        forall|i: int|
            0 <= i < found@.len() ==> #[trigger] found@[i] == selected_in(*tree, *selector)[i],
        forall|i: int| 0 <= i < found@.len() ==> is_element(*tree, #[trigger] found@[i] as int),
        forall|i: int|
            0 <= i < found@.len() ==> selector_matches_scoped(
                *tree,
                #[trigger] found@[i] as int,
                None,
                *selector,
            ),
        forall|i: int|
            0 <= i < found@.len() ==> nodes_of(*tree)[#[trigger] found@[i] as int].parent is Some,
{
    let ids: std::collections::HashMap<_, _> =
        tree.tree.nodes().enumerate().map(|(i, n)| (n.id(), i)).collect();
    tree.select(selector).map(|e| ids[&e.id()]).collect()
}

/// A group of CSS selectors.
pub struct CssSelector {
    /// The group as the selector engine holds it.
    pub group: scraper::Selector,
}

/// A text that is no group of selectors.
pub struct SelectorParseError {
    /// What the selector engine found wrong.
    pub kind: scraper::error::SelectorErrorKind,
}

impl CssSelector {
    /// Whether element `node` of the tree matches the selector when `:scope` stands for
    /// element `scope`; without a scope, `:scope` stands for the root element.
    pub fn matches_with_scope(&self, tree: &scraper::Html, node: usize, scope: Option<usize>) -> (m:
        bool)
        requires
            is_element(*tree, node as int),
            scope matches Some(s) ==> is_element(*tree, s as int),
        ensures
            m == selector_matches_scoped(
                *tree,
                node as int,
                match scope {
                    Some(s) => Some(s as int),
                    None => None,
                },
                self.group,
            ),
    {
        matches_scoped(tree, node, scope, &self.group)
    }

    /// Whether element `node` of the tree matches the selector.
    pub fn matches(&self, tree: &scraper::Html, node: usize) -> (m: bool)
        requires
            is_element(*tree, node as int),
        ensures
            m == selector_matches(*tree, node as int, self.group),
    {
        matches_scoped(tree, node, None, &self.group)
    }

    /// Reads a group of selectors. A text that is none gives the error of the selector
    /// engine.
    pub fn parse(selectors: &str) -> (r: Result<CssSelector, SelectorParseError>)
        ensures
            r is Ok <==> read_selector(selectors@) is Ok,
            r matches Ok(s) ==> s.group == read_selector(selectors@)->Ok_0,
            r matches Err(e) ==> e.kind == read_selector(selectors@)->Err_0,
    {
        match parse_group(selectors) {
            Ok(group) => Ok(CssSelector { group }),
            Err(kind) => Err(SelectorParseError { kind }),
        }
    }
}

} // verus!
