//! The rules: what each test finds wrong, and which tests belong to which tag.

use vstd::prelude::*;
use vstd::string::*;
use crate::dom::document::{any_content, attr_of, attr_or_empty, has_attr, Document, ElementRef};
use crate::dom::html::{inner_markup, is_element, texts_below, NodeKind, NodeModel};
use crate::dom::selector::{read_selector, selected_below, selected_in, CssSelector};
use crate::engine::rules::rule::Validator;
use crate::engine::rules::utils::nodes::{
    alt_given, get_unique_selector, has_alt, has_alt_prop, has_prop, has_prop_value, nodes_wf,
    unique_selector, ElementNodes,
};
use crate::text::{blank, contains, has_infix, has_prefix, is_blank, starts_with, str_eq, views};

verus! {

/// The elements below element `node` that the selector `selector` finds, in tree order;
/// none where the text is no selector.
pub open spec fn found_below(doc: &Document, node: int, selector: Seq<char>) -> Seq<int> {
    match read_selector(selector) {
        Ok(s) => selected_below(doc.tree, node, s),
        Err(_) => Seq::empty(),
    }
}

/// The elements of the document that the selector `selector` finds; none where the text is
/// no selector.
pub open spec fn found_in(doc: &Document, selector: Seq<char>) -> Seq<int> {
    match read_selector(selector) {
        Ok(s) => selected_in(doc.tree, s),
        Err(_) => Seq::empty(),
    }
}

/// Whether the selector engine reads every selector that the rules have built in. Where it
/// does not, the rules that use the selector find nothing with it.
pub open spec fn selectors_read() -> bool {
    &&& read_selector("style"@) is Ok
    &&& read_selector("head > title"@) is Ok
    &&& read_selector("[id]"@) is Ok
    &&& read_selector("button[type=submit]"@) is Ok
    &&& read_selector("input[type=image][name=submit]"@) is Ok
    &&& read_selector("img"@) is Ok
    &&& read_selector("legend"@) is Ok
    &&& read_selector("*"@) is Ok
}

/// Tries every selector that the rules have built in: a check to make once, before the
/// first audit.
pub fn check_selectors() -> (ok: bool)
    ensures
        ok == selectors_read(),
{
    CssSelector::parse("style").is_ok() && CssSelector::parse("head > title").is_ok()
        && CssSelector::parse("[id]").is_ok() && CssSelector::parse("button[type=submit]").is_ok()
        && CssSelector::parse("input[type=image][name=submit]").is_ok() && CssSelector::parse(
        "img",
    ).is_ok() && CssSelector::parse("legend").is_ok() && CssSelector::parse("*").is_ok()
}

/// The elements below `ele` that the selector finds.
pub fn select_below_text(doc: &Document, ele: ElementRef, selector: &str) -> (found: Vec<
    ElementRef,
>)
    requires
        ele.wf(doc),
    ensures
        found@.len() == found_below(doc, ele.node as int, selector@).len(),
        forall|i: int|
            0 <= i < found@.len() ==> (#[trigger] found@[i]).node == found_below(
                doc,
                ele.node as int,
                selector@,
            )[i],
        forall|i: int| 0 <= i < found@.len() ==> (#[trigger] found@[i]).wf(doc),
{
    match CssSelector::parse(selector) {
        Ok(s) => ele.select(doc, &s),
        Err(_) => Vec::new(),
    }
}

/// The elements of the document that the selector finds.
pub fn select_in_text(doc: &Document, selector: &str) -> (found: Vec<ElementRef>)
    ensures
        found@.len() == found_in(doc, selector@).len(),
        forall|i: int|
            0 <= i < found@.len() ==> (#[trigger] found@[i]).node == found_in(doc, selector@)[i],
        forall|i: int| 0 <= i < found@.len() ==> (#[trigger] found@[i]).wf(doc),
{
    match CssSelector::parse(selector) {
        Ok(s) => doc.select(&s),
        Err(_) => Vec::new(),
    }
}

/// Whether one of the elements `found` needs a text alternative and has none.
pub open spec fn some_lacks_alt(doc: &Document, found: Seq<int>) -> bool {
    exists|k: int| 0 <= k < found.len() && !alt_given(doc.nodes()[#[trigger] found[k]])
}

/// Whether one of the elements `found` has no text node at or below it.
pub open spec fn some_without_text(doc: &Document, found: Seq<int>) -> bool {
    exists|k: int| 0 <= k < found.len() && texts_below(doc.tree, #[trigger] found[k]).len() == 0
}

/// Whether a node is a meta element that asks for a refresh.
pub open spec fn refreshes(node: NodeModel) -> bool {
    attr_or_empty(node, "http-equiv"@) == "refresh"@
}

/// Whether a node is an input that acts as a button: its type is `submit`, `reset` or
/// `button`.
pub open spec fn is_button(node: NodeModel) -> bool {
    let kind = attr_of(node, "type"@);
    kind == Some("submit"@) || kind == Some("reset"@) || kind == Some("button"@)
}

/// Whether a node is a form control that a label may wrap: a `textarea`, a `select`, or an
/// `input` of type `text`, `file` or `password`.
pub open spec fn is_labelable(node: NodeModel) -> bool {
    &&& node.kind == NodeKind::Element
    &&& {
        ||| node.name == "textarea"@
        ||| node.name == "select"@
        ||| (node.name == "input"@ && {
            let kind = attr_of(node, "type"@);
            kind == Some("text"@) || kind == Some("file"@) || kind == Some("password"@)
        })
    }
}

/// Whether one of `children` is a form control that a label may wrap.
pub open spec fn wraps_control(doc: &Document, children: Seq<int>) -> bool {
    exists|i: int|
        0 <= i < children.len() && 0 <= #[trigger] children[i] < doc.nodes().len() && is_labelable(
            doc.nodes()[children[i]],
        )
}

/// Whether a label points at nothing: it has no `aria-label` with text, it has no form
/// control among its children, and it has a `for` attribute that is the id of no element
/// of the document.
pub open spec fn label_dangles(doc: &Document, node: int) -> bool {
    let n = doc.nodes()[node];
    &&& !has_attr(n, "aria-label"@)
    &&& !wraps_control(doc, n.children)
    &&& n.attrs.contains_key("for"@)
    &&& found_in(doc, "#"@ + n.attrs["for"@]).len() == 0
}

/// Whether element `node` fails the test `validator`, for the tests that judge elements one
/// by one. The tests that judge all elements of a tag together fail no single element.
pub open spec fn offends(validator: Validator, doc: &Document, node: int) -> bool {
    let n = doc.nodes()[node];
    match validator {
        // A refresh that leads to another page, unless it does so at once.
        Validator::NoTimedRedirect => {
            let content = attr_or_empty(n, "content"@);
            refreshes(n) && has_infix(content, "url"@) && !has_prefix(content, "0;"@)
        },
        // A refresh of the page itself after a delay.
        Validator::NoTimedRefresh => {
            let content = attr_or_empty(n, "content"@);
            refreshes(n) && content.len() > 0 && content != "0"@ && !has_infix(content, "url"@)
        },
        // A title that holds nothing but white space.
        Validator::TitleText => blank(inner_markup(doc.tree, node)),
        // A form without a submit button.
        Validator::SubmitButton => found_below(doc, node, "button[type=submit]"@).len() == 0,
        // A form with an image for a submit button that has no text alternative.
        Validator::ImageButtonAlt => some_lacks_alt(
            doc,
            found_below(doc, node, "input[type=image][name=submit]"@),
        ),
        // A link around an image that has no text alternative.
        Validator::LinkedImageAlt => some_lacks_alt(doc, found_below(doc, node, "img"@)),
        // A link with a target and nothing but white space inside.
        Validator::LinkContent => n.attrs.contains_key("href"@) && blank(
            inner_markup(doc.tree, node),
        ),
        // A link without content, id and target.
        Validator::LinkPurpose => !any_content(doc.nodes(), n.children) && !has_attr(n, "id"@)
            && !has_attr(n, "href"@),
        // An image without a text alternative.
        Validator::ImageAlt => !alt_given(n),
        // An image with an `alt` attribute and a title.
        Validator::ImageAltAndTitle => n.attrs.contains_key("alt"@) && attr_or_empty(
            n,
            "title"@,
        ).len() > 0,
        // A label for a control that does not exist.
        Validator::LabelTargetExists => label_dangles(doc, node),
        // A button input without a `value` attribute.
        Validator::ButtonValueSet => is_button(n) && !n.attrs.contains_key("value"@),
        // A button input whose value is missing or nothing but white space.
        Validator::ButtonValueText => is_button(n) && blank(attr_or_empty(n, "value"@)),
        // An object that holds text.
        Validator::ObjectText => texts_below(doc.tree, node).len() > 0,
        // An area, a map or an applet without an `alt` attribute.
        Validator::AreaAlt => !n.attrs.contains_key("alt"@),
        Validator::MapAlt => !n.attrs.contains_key("alt"@),
        Validator::AppletAlt => !n.attrs.contains_key("alt"@),
        // An applet without children and with nothing but white space inside.
        Validator::AppletBody => n.children.len() == 0 && blank(inner_markup(doc.tree, node)),
        // A fieldset without a legend, or with a legend without text.
        Validator::FieldsetLegend => {
            let legends = found_below(doc, node, "legend"@);
            legends.len() == 0 || some_without_text(doc, legends)
        },
        _ => false,
    }
}

/// Whether one of `found` lacks a text alternative.
fn any_lacks_alt(doc: &Document, found: &Vec<ElementRef>, Ghost(raw): Ghost<Seq<int>>) -> (lacks:
    bool)
    requires
        found@.len() == raw.len(),
        forall|i: int| 0 <= i < found@.len() ==> (#[trigger] found@[i]).node == raw[i],
        forall|i: int| 0 <= i < found@.len() ==> (#[trigger] found@[i]).wf(doc),
    ensures
        lacks == some_lacks_alt(doc, raw),
{
    let mut i: usize = 0;
    while i < found.len()
        invariant
            i <= found.len(),
            found@.len() == raw.len(),
            forall|j: int| 0 <= j < found@.len() ==> (#[trigger] found@[j]).node == raw[j],
            forall|j: int| 0 <= j < found@.len() ==> (#[trigger] found@[j]).wf(doc),
            forall|j: int| 0 <= j < i ==> alt_given(doc.nodes()[#[trigger] raw[j]]),
        decreases found.len() - i,
    {
        if !has_alt(doc, found[i]) {
            assert(!alt_given(doc.nodes()[raw[i as int]]));
            return true;
        }
        i += 1;
    }
    false
}

/// Whether one of `found` has no text node at or below it.
fn any_without_text(doc: &Document, found: &Vec<ElementRef>, Ghost(raw): Ghost<Seq<int>>) -> (
    none: bool)
    requires
        found@.len() == raw.len(),
        forall|i: int| 0 <= i < found@.len() ==> (#[trigger] found@[i]).node == raw[i],
        forall|i: int| 0 <= i < found@.len() ==> (#[trigger] found@[i]).wf(doc),
    ensures
        none == some_without_text(doc, raw),
{
    let mut i: usize = 0;
    while i < found.len()
        invariant
            i <= found.len(),
            found@.len() == raw.len(),
            forall|j: int| 0 <= j < found@.len() ==> (#[trigger] found@[j]).node == raw[j],
            forall|j: int| 0 <= j < found@.len() ==> (#[trigger] found@[j]).wf(doc),
            forall|j: int| 0 <= j < i ==> texts_below(doc.tree, #[trigger] raw[j]).len() > 0,
        decreases found.len() - i,
    {
        let texts = found[i].text(doc);
        assert(views(texts@).len() == texts@.len());
        if texts.len() == 0 {
            assert(texts_below(doc.tree, raw[i as int]).len() == 0);
            return true;
        }
        i += 1;
    }
    false
}

/// Whether the element is an input that acts as a button.
fn acts_as_button(doc: &Document, ele: ElementRef) -> (button: bool)
    requires
        ele.wf(doc),
    ensures
        button == is_button(ele.model(doc)),
{
    match ele.attr(doc, "type") {
        Some(t) => str_eq(t.as_str(), "submit") || str_eq(t.as_str(), "reset") || str_eq(
            t.as_str(),
            "button",
        ),
        None => false,
    }
}

/// Whether node `node` is a form control that a label may wrap.
fn labelable(doc: &Document, node: usize) -> (l: bool)
    requires
        node < doc.nodes().len(),
    ensures
        l == is_labelable(doc.nodes()[node as int]),
{
    match ElementRef::wrap(doc, node) {
        Some(child) => {
            let name = child.name(doc);
            if str_eq(name.as_str(), "textarea") || str_eq(name.as_str(), "select") {
                true
            } else if str_eq(name.as_str(), "input") {
                match child.attr(doc, "type") {
                    Some(s) => str_eq(s.as_str(), "text") || str_eq(s.as_str(), "file") || str_eq(
                        s.as_str(),
                        "password",
                    ),
                    None => false,
                }
            } else {
                false
            }
        },
        None => false,
    }
}

/// Whether the label points at nothing.
fn dangles(doc: &Document, ele: ElementRef) -> (d: bool)
    requires
        ele.wf(doc),
    ensures
        d == label_dangles(doc, ele.node as int),
{
    if ele.has_attribute(doc, "aria-label") {
        return false;
    }
    let children = doc.children(ele.node);
    let ghost list = ele.model(doc).children;
    let mut i: usize = 0;
    while i < children.len()
        invariant
            i <= children.len(),
            children@.len() == list.len(),
            list == ele.model(doc).children,
            forall|j: int| 0 <= j < children@.len() ==> #[trigger] children@[j] == list[j],
            forall|j: int| 0 <= j < children@.len() ==> #[trigger] children@[j] < doc.nodes().len(),
            forall|j: int| 0 <= j < i ==> !is_labelable(doc.nodes()[#[trigger] list[j]]),
        decreases children.len() - i,
    {
        if labelable(doc, children[i]) {
            assert(list[i as int] == children@[i as int]);
            assert(0 <= list[i as int] < doc.nodes().len());
            assert(wraps_control(doc, list));
            return false;
        }
        i += 1;
    }
    match ele.attr(doc, "for") {
        Some(target) => {
            let selector = "#".to_owned().concat(target.as_str());
            select_in_text(doc, selector.as_str()).len() == 0
        },
        None => false,
    }
}

/// Whether the element fails the test, for the tests that judge elements one by one.
pub fn element_offends(validator: Validator, doc: &Document, ele: ElementRef) -> (fails: bool)
    requires
        ele.wf(doc),
    ensures
        fails == offends(validator, doc, ele.node as int),
{
    match validator {
        Validator::NoTimedRedirect => {
            if !str_eq(ele.attr_or_default(doc, "http-equiv").as_str(), "refresh") {
                return false;
            }
            let content = ele.attr_or_default(doc, "content");
            contains(content.as_str(), "url") && !starts_with(content.as_str(), "0;")
        },
        Validator::NoTimedRefresh => {
            if !str_eq(ele.attr_or_default(doc, "http-equiv").as_str(), "refresh") {
                return false;
            }
            let content = ele.attr_or_default(doc, "content");
            !content.as_str().is_empty() && !str_eq(content.as_str(), "0") && !contains(
                content.as_str(),
                "url",
            )
        },
        Validator::TitleText => is_blank(ele.inner_html(doc).as_str()),
        Validator::SubmitButton => select_below_text(doc, ele, "button[type=submit]").len() == 0,
        Validator::ImageButtonAlt => {
            let found = select_below_text(doc, ele, "input[type=image][name=submit]");
            any_lacks_alt(
                doc,
                &found,
                Ghost(found_below(doc, ele.node as int, "input[type=image][name=submit]"@)),
            )
        },
        Validator::LinkedImageAlt => {
            let found = select_below_text(doc, ele, "img");
            any_lacks_alt(doc, &found, Ghost(found_below(doc, ele.node as int, "img"@)))
        },
        Validator::LinkContent => has_prop(doc, ele, "href") && is_blank(
            ele.inner_html(doc).as_str(),
        ),
        Validator::LinkPurpose => ele.is_empty(doc) && !ele.has_attribute(doc, "id")
            && !ele.has_attribute(doc, "href"),
        Validator::ImageAlt => !has_alt(doc, ele),
        Validator::ImageAltAndTitle => has_prop(doc, ele, "alt") && has_prop_value(
            doc,
            ele,
            "title",
        ),
        Validator::LabelTargetExists => dangles(doc, ele),
        Validator::ButtonValueSet => acts_as_button(doc, ele) && !has_prop(doc, ele, "value"),
        Validator::ButtonValueText => acts_as_button(doc, ele) && is_blank(
            ele.attr_or_default(doc, "value").as_str(),
        ),
        Validator::ObjectText => {
            let texts = ele.text(doc);
            assert(views(texts@).len() == texts@.len());
            texts.len() > 0
        },
        Validator::AreaAlt => !has_alt_prop(doc, ele),
        Validator::MapAlt => !has_alt_prop(doc, ele),
        Validator::AppletAlt => !has_alt_prop(doc, ele),
        Validator::AppletBody => !ele.has_children(doc) && is_blank(ele.inner_html(doc).as_str()),
        Validator::FieldsetLegend => {
            let legends = select_below_text(doc, ele, "legend");
            legends.len() == 0 || any_without_text(
                doc,
                &legends,
                Ghost(found_below(doc, ele.node as int, "legend"@)),
            )
        },
        _ => false,
    }
}

} // verus!

verus! {

/// The selectors of the elements among `nodes` that fail the test, in order.
pub open spec fn offender_selectors(
    validator: Validator,
    doc: &Document,
    nodes: Seq<(ElementRef, Option<u64>)>,
) -> Seq<Seq<char>>
    decreases nodes.len(),
{
    if nodes.len() == 0 {
        Seq::empty()
    } else {
        let before = offender_selectors(validator, doc, nodes.drop_last());
        let node = nodes.last().0.node as int;
        if offends(validator, doc, node) {
            before.push(unique_selector(doc, node))
        } else {
            before
        }
    }
}

/// Whether one of `nodes` fails the test.
pub open spec fn any_offender(
    validator: Validator,
    doc: &Document,
    nodes: Seq<(ElementRef, Option<u64>)>,
) -> bool {
    exists|i: int| 0 <= i < nodes.len() && offends(validator, doc, (#[trigger] nodes[i]).0.node as int)
}

/// There are offender selectors exactly where an element offends.
pub proof fn offenders_exist(
    validator: Validator,
    doc: &Document,
    nodes: Seq<(ElementRef, Option<u64>)>,
)
    ensures
        offender_selectors(validator, doc, nodes).len() > 0 <==> any_offender(
            validator,
            doc,
            nodes,
        ),
    decreases nodes.len(),
{
    if nodes.len() > 0 {
        let init = nodes.drop_last();
        offenders_exist(validator, doc, init);
        if any_offender(validator, doc, init) {
            let i = choose|i: int|
                0 <= i < init.len() && offends(validator, doc, (#[trigger] init[i]).0.node as int);
            assert(nodes[i] == init[i]);
        }
        if any_offender(validator, doc, nodes) {
            let i = choose|i: int|
                0 <= i < nodes.len() && offends(validator, doc, (#[trigger] nodes[i]).0.node as int);
            if i < init.len() {
                assert(init[i] == nodes[i]);
            }
        }
    }
}

/// The selectors of the elements that fail the test.
pub fn collect_offenders(validator: Validator, doc: &Document, nodes: &ElementNodes) -> (elements:
    Vec<String>)
    requires
        nodes_wf(doc, nodes@),
    ensures
        views(elements@) == offender_selectors(validator, doc, nodes@),
{
    let mut elements: Vec<String> = Vec::new();
    let mut i: usize = 0;
    assert(views(elements@) =~= offender_selectors(validator, doc, nodes@.take(0)));
    while i < nodes.len()
        invariant
            i <= nodes.len(),
            nodes_wf(doc, nodes@),
            views(elements@) == offender_selectors(validator, doc, nodes@.take(i as int)),
        decreases nodes.len() - i,
    {
        let ele = nodes[i].0;
        let ghost before = views(elements@);
        proof {
            assert(nodes@.take(i + 1).drop_last() =~= nodes@.take(i as int));
            assert(nodes@.take(i + 1).last() == nodes@[i as int]);
        }
        if element_offends(validator, doc, ele) {
            elements.push(get_unique_selector(doc, &ele));
            assert(views(elements@) =~= before.push(unique_selector(doc, ele.node as int)));
        }
        i += 1;
    }
    assert(nodes@.take(nodes@.len() as int) =~= nodes@);
    elements
}

/// Whether one of the elements fails the test.
pub fn has_offender(validator: Validator, doc: &Document, nodes: &ElementNodes) -> (found: bool)
    requires
        nodes_wf(doc, nodes@),
    ensures
        found == any_offender(validator, doc, nodes@),
{
    let mut i: usize = 0;
    while i < nodes.len()
        invariant
            i <= nodes.len(),
            nodes_wf(doc, nodes@),
            forall|j: int| 0 <= j < i ==> !offends(validator, doc, (#[trigger] nodes@[j]).0.node as int),
        decreases nodes.len() - i,
    {
        if element_offends(validator, doc, nodes[i].0) {
            return true;
        }
        i += 1;
    }
    false
}

/// Whether element `k` of `found` has the attribute `attr` with a value that an earlier
/// element of `found` has for it too.
pub open spec fn repeats(doc: &Document, found: Seq<int>, attr: Seq<char>, k: int) -> bool {
    let value = attr_of(doc.nodes()[found[k]], attr);
    value is Some && exists|j: int|
        0 <= j < k && attr_of(doc.nodes()[#[trigger] found[j]], attr) == value
}

/// The selectors of the elements among the first `upto` of `found` that repeat an earlier
/// value of the attribute `attr`, in order.
pub open spec fn repeated_selectors(doc: &Document, found: Seq<int>, attr: Seq<char>, upto: int) -> Seq<
    Seq<char>,
>
    decreases upto,
{
    if upto <= 0 {
        Seq::empty()
    } else {
        let before = repeated_selectors(doc, found, attr, upto - 1);
        if repeats(doc, found, attr, upto - 1) {
            before.push(unique_selector(doc, found[upto - 1]))
        } else {
            before
        }
    }
}

/// The selectors of the elements that repeat an earlier value of the attribute.
fn collect_repeats(
    doc: &Document,
    found: &Vec<ElementRef>,
    attr: &str,
    Ghost(raw): Ghost<Seq<int>>,
) -> (elements: Vec<String>)
    requires
        found@.len() == raw.len(),
        forall|i: int| 0 <= i < found@.len() ==> (#[trigger] found@[i]).node == raw[i],
        forall|i: int| 0 <= i < found@.len() ==> (#[trigger] found@[i]).wf(doc),
    ensures
        views(elements@) == repeated_selectors(doc, raw, attr@, raw.len() as int),
{
    let mut values: Vec<Option<String>> = Vec::new();
    let mut i: usize = 0;
    while i < found.len()
        invariant
            i <= found.len(),
            values@.len() == i,
            found@.len() == raw.len(),
            forall|j: int| 0 <= j < found@.len() ==> (#[trigger] found@[j]).node == raw[j],
            forall|j: int| 0 <= j < found@.len() ==> (#[trigger] found@[j]).wf(doc),
            forall|j: int|
                0 <= j < i ==> crate::text::opt_view(#[trigger] values@[j]) == attr_of(
                    doc.nodes()[raw[j]],
                    attr@,
                ),
        decreases found.len() - i,
    {
        values.push(found[i].attr(doc, attr));
        i += 1;
    }
    let mut elements: Vec<String> = Vec::new();
    let mut k: usize = 0;
    assert(views(elements@) =~= repeated_selectors(doc, raw, attr@, 0));
    while k < found.len()
        invariant
            k <= found.len(),
            values@.len() == found@.len(),
            found@.len() == raw.len(),
            forall|j: int| 0 <= j < found@.len() ==> (#[trigger] found@[j]).node == raw[j],
            forall|j: int| 0 <= j < found@.len() ==> (#[trigger] found@[j]).wf(doc),
            forall|j: int|
                0 <= j < values@.len() ==> crate::text::opt_view(#[trigger] values@[j]) == attr_of(
                    doc.nodes()[raw[j]],
                    attr@,
                ),
            views(elements@) == repeated_selectors(doc, raw, attr@, k as int),
        decreases found.len() - k,
    {
        let ghost before = views(elements@);
        let mut seen = false;
        match &values[k] {
            Some(value) => {
                let mut j: usize = 0;
                while j < k
                    invariant
                        j <= k < found@.len(),
                        values@.len() == found@.len(),
                        found@.len() == raw.len(),
                        values@[k as int] == Some(*value),
                        forall|m: int|
                            0 <= m < values@.len() ==> crate::text::opt_view(#[trigger] values@[m])
                                == attr_of(doc.nodes()[raw[m]], attr@),
                        !seen ==> forall|m: int|
                            0 <= m < j ==> attr_of(doc.nodes()[#[trigger] raw[m]], attr@) != Some(
                                value@,
                            ),
                        seen ==> repeats(doc, raw, attr@, k as int),
                    decreases k - j,
                {
                    assert(crate::text::opt_view(values@[j as int]) == attr_of(
                        doc.nodes()[raw[j as int]],
                        attr@,
                    ));
                    assert(crate::text::opt_view(values@[k as int]) == Some(value@));
                    match &values[j] {
                        Some(earlier) => {
                            if str_eq(earlier.as_str(), value.as_str()) {
                                seen = true;
                                assert(attr_of(doc.nodes()[raw[j as int]], attr@) == attr_of(
                                    doc.nodes()[raw[k as int]],
                                    attr@,
                                ));
                            }
                        },
                        None => {},
                    }
                    j += 1;
                }
                assert(crate::text::opt_view(values@[k as int]) == Some(value@));
            },
            None => {
                assert(crate::text::opt_view(values@[k as int]) is None);
            },
        }
        assert(seen == repeats(doc, raw, attr@, k as int));
        if seen {
            elements.push(get_unique_selector(doc, &found[k]));
            assert(views(elements@) =~= before.push(unique_selector(doc, raw[k as int])));
        }
        k += 1;
    }
    elements
}

} // verus!

verus! {

/// Whether the character at index `i` of a language tag may stand there: it is alphabetic,
/// or it is an underscore and stands third or fourth.
pub open spec fn fits(lang: Seq<char>, i: int) -> bool {
    crate::text::alphabetic(lang[i]) || (lang[i] == '_' && (i == 2 || i == 3))
}

/// Whether a text is shaped like a language tag: it takes less than twelve bytes, its
/// characters are alphabetic but for one underscore at most, and an underscore stands third
/// or fourth.
pub open spec fn well_shaped(lang: Seq<char>) -> bool {
    &&& vstd::utf8::encode_utf8(lang).len() < 12
    &&& forall|i: int| 0 <= i < lang.len() ==> #[trigger] fits(lang, i)
    &&& !(lang.len() > 3 && lang[2] == '_' && lang[3] == '_')
}

/// Whether a text is shaped like a language tag.
pub fn is_well_shaped(lang: &str) -> (ok: bool)
    ensures
        ok == well_shaped(lang@),
{
    let chars = crate::text::to_chars(lang);
    if lang.as_bytes().len() >= 12 {
        return false;
    }
    let mut i: usize = 0;
    while i < chars.len()
        invariant
            i <= chars.len(),
            chars@ == lang@,
            forall|j: int| 0 <= j < i ==> #[trigger] fits(chars@, j),
        decreases chars.len() - i,
    {
        let c = chars[i];
        if !(crate::text::is_alphabetic(c) || (c == '_' && (i == 2 || i == 3))) {
            assert(!fits(chars@, i as int));
            return false;
        }
        i += 1;
    }
    !(chars.len() > 3 && chars[2] == '_' && chars[3] == '_')
}

/// The message that a rule builds itself for inputs that act as buttons: the pattern that
/// the catalog holds under `pattern`, with the kind of node and the missing attribute
/// written into it.
pub open spec fn button_message(
    catalog: &crate::i18n::locales::Catalog,
    locale: Seq<char>,
    pattern: Seq<char>,
    attrs: Seq<char>,
) -> Seq<char> {
    let key = crate::i18n::locales::message_key(
        crate::engine::rules::wcag_base::Guideline::Compatible,
        Seq::empty(),
        pattern,
        Seq::empty(),
    );
    crate::text::replaced(
        crate::text::replaced(catalog.resolved(key, locale), "%{msgNodeType}"@, "\"input\""@),
        "%{builtAttrs}"@,
        attrs,
    )
}

/// The message for inputs that act as buttons.
pub fn build_button_message(
    catalog: &crate::i18n::locales::Catalog,
    locale: &str,
    pattern: &str,
    attrs: &str,
) -> (message: String)
    ensures
        message@ == button_message(catalog, locale@, pattern@, attrs@),
{
    proof {
        reveal_strlit("");
        assert(""@ =~= Seq::<char>::empty());
    }
    let key = crate::i18n::locales::get_message_i18n_str_raw(
        &crate::engine::rules::wcag_base::Guideline::Compatible,
        "",
        pattern,
        "",
    );
    let template = catalog.resolve(key.as_str(), locale);
    let named = crate::text::replace_all(template.as_str(), "%{msgNodeType}", "\"input\"");
    crate::text::replace_all(named.as_str(), "%{builtAttrs}", attrs)
}

} // verus!

verus! {

use crate::engine::audit::auditor::Auditor;
use crate::engine::rules::rule::{Rule, RuleModel, RuleValidation, Technique, Validation, ValidationModel};
use crate::engine::rules::techniques::Techniques;
use crate::engine::rules::utils::nodes::{
    empty_selectors, missing_attr_selectors, validate_empty_nodes, validate_missing_attr,
};
use crate::engine::rules::wcag_base::{Guideline, IssueType, Principle};

/// The sub-identifier under which a test reports.
pub open spec fn sub_id(validator: Validator) -> Seq<char> {
    match validator {
        Validator::LangSet => "2"@,
        Validator::LangShape => "3.Lang"@,
        Validator::XmlLangShape => "3.XmlLang"@,
        Validator::HasTitle => "1.NoTitleEl"@,
        Validator::UniqueIds => ""@,
        Validator::NoTimedRedirect => "2"@,
        Validator::NoTimedRefresh => "2"@,
        Validator::TitleText => "1.EmptyTitle"@,
        Validator::Contrast => ""@,
        Validator::FrameTitle => "1"@,
        Validator::SubmitButton => "2"@,
        Validator::ImageButtonAlt => "1"@,
        Validator::LinkedImageAlt => "2"@,
        Validator::LinkContent => "A.NoContent"@,
        Validator::LinkPurpose => "A.EmptyNoId"@,
        Validator::ImageAlt => ""@,
        Validator::ImageAltAndTitle => "1"@,
        Validator::HeadingText => "2"@,
        Validator::LabelTargetsDiffer => "1"@,
        Validator::LabelTargetExists => "NonExistent"@,
        Validator::ButtonValueSet => ""@,
        Validator::ButtonValueText => ""@,
        Validator::NoBlink => ""@,
        Validator::ObjectText => ""@,
        Validator::AreaAlt => "ImageMapAreaNoAlt"@,
        Validator::MapAlt => "ImageMapNoAlt"@,
        Validator::FieldsetLegend => "NoLegend"@,
        Validator::AppletAlt => "2"@,
        Validator::AppletBody => "3"@,
    }
}

/// The sub-identifier under which a test reports.
pub fn sub_id_of(validator: Validator) -> (id: &'static str)
    ensures
        id@ == sub_id(validator),
{
    match validator {
        Validator::LangSet => "2",
        Validator::LangShape => "3.Lang",
        Validator::XmlLangShape => "3.XmlLang",
        Validator::HasTitle => "1.NoTitleEl",
        Validator::UniqueIds => "",
        Validator::NoTimedRedirect => "2",
        Validator::NoTimedRefresh => "2",
        Validator::TitleText => "1.EmptyTitle",
        Validator::Contrast => "",
        Validator::FrameTitle => "1",
        Validator::SubmitButton => "2",
        Validator::ImageButtonAlt => "1",
        Validator::LinkedImageAlt => "2",
        Validator::LinkContent => "A.NoContent",
        Validator::LinkPurpose => "A.EmptyNoId",
        Validator::ImageAlt => "",
        Validator::ImageAltAndTitle => "1",
        Validator::HeadingText => "2",
        Validator::LabelTargetsDiffer => "1",
        Validator::LabelTargetExists => "NonExistent",
        Validator::ButtonValueSet => "",
        Validator::ButtonValueText => "",
        Validator::NoBlink => "",
        Validator::ObjectText => "",
        Validator::AreaAlt => "ImageMapAreaNoAlt",
        Validator::MapAlt => "ImageMapNoAlt",
        Validator::FieldsetLegend => "NoLegend",
        Validator::AppletAlt => "2",
        Validator::AppletBody => "3",
    }
}

/// The numbers of the nodes of a bucket.
pub open spec fn node_numbers(nodes: Seq<(ElementRef, Option<u64>)>) -> Seq<int> {
    Seq::new(nodes.len(), |i: int| nodes[i].0.node as int)
}

/// The selectors that a test lists as offending.
pub open spec fn listed(
    validator: Validator,
    doc: &Document,
    nodes: Seq<(ElementRef, Option<u64>)>,
) -> Seq<Seq<char>> {
    match validator {
        Validator::LangSet => Seq::empty(),
        Validator::LangShape => Seq::empty(),
        Validator::XmlLangShape => Seq::empty(),
        Validator::HasTitle => Seq::empty(),
        Validator::NoTimedRedirect => Seq::empty(),
        Validator::NoTimedRefresh => Seq::empty(),
        Validator::TitleText => Seq::empty(),
        Validator::NoBlink => Seq::empty(),
        Validator::UniqueIds => if nodes.len() == 0 {
            Seq::empty()
        } else {
            let found = found_below(doc, nodes[0].0.node as int, "[id]"@);
            repeated_selectors(doc, found, "id"@, found.len() as int)
        },
        Validator::LabelTargetsDiffer => repeated_selectors(
            doc,
            node_numbers(nodes),
            "for"@,
            nodes.len() as int,
        ),
        Validator::FrameTitle => missing_attr_selectors(doc, nodes, "title"@),
        Validator::HeadingText => empty_selectors(doc, nodes),
        _ => offender_selectors(validator, doc, nodes),
    }
}

/// Whether the elements of a tag pass a test.
pub open spec fn passes(
    validator: Validator,
    doc: &Document,
    nodes: Seq<(ElementRef, Option<u64>)>,
) -> bool {
    match validator {
        Validator::LangSet => nodes.len() == 0 || attr_or_empty(
            nodes[0].0.model(doc),
            "lang"@,
        ).len() > 0 || attr_or_empty(nodes[0].0.model(doc), "xml:lang"@).len() > 0,
        Validator::LangShape => nodes.len() == 0 || well_shaped(
            attr_or_empty(nodes[0].0.model(doc), "lang"@),
        ),
        Validator::XmlLangShape => nodes.len() == 0 || well_shaped(
            attr_or_empty(nodes[0].0.model(doc), "xml:lang"@),
        ),
        Validator::HasTitle => nodes.len() == 0 || found_below(
            doc,
            nodes[0].0.node as int,
            "head > title"@,
        ).len() >= 1,
        Validator::NoTimedRedirect => !any_offender(validator, doc, nodes),
        Validator::NoTimedRefresh => !any_offender(validator, doc, nodes),
        Validator::TitleText => nodes.len() > 0 && !any_offender(validator, doc, nodes),
        Validator::NoBlink => nodes.len() == 0,
        _ => listed(validator, doc, nodes).len() == 0,
    }
}

/// The message that a test builds itself; empty for the tests whose message is looked up.
pub open spec fn own_message(
    validator: Validator,
    auditor: &Auditor,
    nodes: Seq<(ElementRef, Option<u64>)>,
) -> Seq<char> {
    if passes(validator, auditor.document, nodes) {
        Seq::empty()
    } else {
        match validator {
            Validator::ButtonValueSet => button_message(
                &auditor.catalog,
                auditor.locale@,
                "2_msg_pattern"@,
                "\"value\""@,
            ),
            Validator::ButtonValueText => button_message(
                &auditor.catalog,
                auditor.locale@,
                "2_msg_pattern2"@,
                "\"value=\"something\" \""@,
            ),
            _ => Seq::empty(),
        }
    }
}

/// The sub-identifier under which a test reports on the elements of a tag. The test for
/// titles reports a document without a title as it reports a head without one.
pub open spec fn verdict_id(validator: Validator, nodes: Seq<(ElementRef, Option<u64>)>) -> Seq<char> {
    if validator == Validator::TitleText && nodes.len() == 0 {
        sub_id(Validator::HasTitle)
    } else {
        sub_id(validator)
    }
}

/// What a test finds on the elements of a tag.
pub open spec fn verdict(
    validator: Validator,
    auditor: &Auditor,
    nodes: Seq<(ElementRef, Option<u64>)>,
) -> ValidationModel {
    ValidationModel {
        valid: passes(validator, auditor.document, nodes),
        id: verdict_id(validator, nodes),
        elements: listed(validator, auditor.document, nodes),
        message: own_message(validator, auditor, nodes),
    }
}

/// The verdicts of a test on the elements of a tag: one verdict on all elements together,
/// but for the contrast rule, which gives a verdict for each pair of colours that fails.
pub open spec fn verdicts(
    validator: Validator,
    auditor: &Auditor,
    nodes: Seq<(ElementRef, Option<u64>)>,
) -> Seq<ValidationModel> {
    match validator {
        Validator::Contrast => crate::engine::rules::contrast::contrast_verdicts(
            crate::engine::rules::contrast::bucket_pairs(
                auditor.author@,
                auditor.document,
                nodes,
                nodes.len() as int,
            ),
            crate::engine::rules::contrast::measure_views(auditor.measures@),
            auditor.catalog.resolved(
                crate::engine::rules::contrast::contrast_key(),
                auditor.locale@,
            ),
        ),
        _ => seq![verdict(validator, auditor, nodes)],
    }
}

/// The elements of a bucket without their boxes.
fn elements_of(doc: &Document, nodes: &ElementNodes) -> (elements: Vec<ElementRef>)
    requires
        nodes_wf(doc, nodes@),
    ensures
        elements@.len() == nodes@.len(),
        forall|i: int| 0 <= i < elements@.len() ==> (#[trigger] elements@[i]).node == node_numbers(
            nodes@,
        )[i],
        forall|i: int| 0 <= i < elements@.len() ==> (#[trigger] elements@[i]).wf(doc),
{
    let mut elements: Vec<ElementRef> = Vec::new();
    let mut i: usize = 0;
    while i < nodes.len()
        invariant
            i <= nodes.len(),
            elements@.len() == i,
            nodes_wf(doc, nodes@),
            forall|j: int| 0 <= j < i ==> (#[trigger] elements@[j]).node == nodes@[j].0.node,
            forall|j: int| 0 <= j < i ==> (#[trigger] elements@[j]).wf(doc),
        decreases nodes.len() - i,
    {
        elements.push(nodes[i].0);
        i += 1;
    }
    elements
}

/// Runs a test on the elements of a tag.
pub fn validate(validator: Validator, nodes: &ElementNodes, auditor: &Auditor) -> (result:
    RuleValidation)
    requires
        nodes_wf(auditor.document, nodes@),
        auditor.author.wf(),
    ensures
        result.verdicts() == verdicts(validator, auditor, nodes@),
{
    let doc = auditor.document;
    if let Validator::Contrast = validator {
        if auditor.measures.len() == 0 {
            let none: Vec<Validation> = Vec::new();
            assert(crate::engine::rules::rule::validation_views(none@) =~= verdicts(
                validator,
                auditor,
                nodes@,
            ));
            return RuleValidation::Multi(none);
        }
        let pairs = crate::engine::rules::contrast::collect_pairs(nodes, &auditor.author, doc);
        let found = crate::engine::rules::contrast::judge_pairs(
            &pairs,
            &auditor.measures,
            &auditor.catalog,
            auditor.locale,
        );
        return RuleValidation::Multi(found);
    }
    let id = sub_id_of(validator);
    proof {
        reveal_strlit("");
        assert(""@ =~= Seq::<char>::empty());
    }
    let validation = match validator {
        Validator::LangSet => {
            let valid = nodes.len() == 0 || !nodes[0].0.attr_or_default(
                doc,
                "lang",
            ).as_str().is_empty() || !nodes[0].0.attr_or_default(
                doc,
                "xml:lang",
            ).as_str().is_empty();
            Validation::new_issue(valid, id)
        },
        Validator::LangShape => {
            let valid = nodes.len() == 0 || is_well_shaped(
                nodes[0].0.attr_or_default(doc, "lang").as_str(),
            );
            Validation::new_issue(valid, id)
        },
        Validator::XmlLangShape => {
            let valid = nodes.len() == 0 || is_well_shaped(
                nodes[0].0.attr_or_default(doc, "xml:lang").as_str(),
            );
            Validation::new_issue(valid, id)
        },
        Validator::HasTitle => {
            let valid = nodes.len() == 0 || select_below_text(
                doc,
                nodes[0].0,
                "head > title",
            ).len() >= 1;
            Validation::new_issue(valid, id)
        },
        Validator::UniqueIds => {
            if nodes.len() == 0 {
                let v = Validation::new(true, id, Vec::new(), String::new());
                assert(v@.elements =~= Seq::<Seq<char>>::empty());
                v
            } else {
                let found = select_below_text(doc, nodes[0].0, "[id]");
                let elements = collect_repeats(
                    doc,
                    &found,
                    "id",
                    Ghost(found_below(doc, nodes@[0].0.node as int, "[id]"@)),
                );
                assert(views(elements@).len() == elements@.len());
                Validation::new(elements.len() == 0, id, elements, String::new())
            }
        },
        Validator::LabelTargetsDiffer => {
            let labels = elements_of(doc, nodes);
            let elements = collect_repeats(doc, &labels, "for", Ghost(node_numbers(nodes@)));
            assert(views(elements@).len() == elements@.len());
            Validation::new(elements.len() == 0, id, elements, String::new())
        },
        Validator::NoTimedRedirect | Validator::NoTimedRefresh => {
            Validation::new_issue(!has_offender(validator, doc, nodes), id)
        },
        Validator::TitleText => {
            if nodes.len() == 0 {
                Validation::new_issue(false, sub_id_of(Validator::HasTitle))
            } else {
                Validation::new_issue(!has_offender(validator, doc, nodes), id)
            }
        },
        Validator::NoBlink => Validation::new_issue(nodes.len() == 0, id),
        Validator::FrameTitle => validate_missing_attr(doc, nodes, "title", id),
        Validator::HeadingText => validate_empty_nodes(doc, nodes, id),
        Validator::ButtonValueSet => {
            let elements = collect_offenders(validator, doc, nodes);
            assert(views(elements@).len() == elements@.len());
            let valid = elements.len() == 0;
            let message = if !valid {
                build_button_message(&auditor.catalog, auditor.locale, "2_msg_pattern", "\"value\"")
            } else {
                String::new()
            };
            Validation::new(valid, id, elements, message)
        },
        Validator::ButtonValueText => {
            let elements = collect_offenders(validator, doc, nodes);
            assert(views(elements@).len() == elements@.len());
            let valid = elements.len() == 0;
            let message = if !valid {
                build_button_message(
                    &auditor.catalog,
                    auditor.locale,
                    "2_msg_pattern2",
                    "\"value=\"something\" \"",
                )
            } else {
                String::new()
            };
            Validation::new(valid, id, elements, message)
        },
        _ => {
            let elements = collect_offenders(validator, doc, nodes);
            assert(views(elements@).len() == elements@.len());
            Validation::new(elements.len() == 0, id, elements, String::new())
        },
    };
    assert(validation@ == verdict(validator, auditor, nodes@));
    RuleValidation::Single(validation)
}

} // verus!

verus! {

/// A rule for one technique, as plain values.
pub open spec fn rule_model(
    technique: Techniques,
    principle: Principle,
    guideline: Guideline,
    success_criteria: Seq<char>,
    validate: Validator,
) -> RuleModel {
    RuleModel {
        techniques: seq![technique],
        issue_type: IssueType::Error,
        validate,
        principle,
        guideline,
        success_criteria,
    }
}

/// The rules of a tag, in the order in which they run. A tag that is not listed has none.
pub open spec fn rules_of(tag: Seq<char>) -> Seq<RuleModel> {
    if tag == "html"@ {
        seq![
            rule_model(
                Techniques::H57,
                Principle::Understandable,
                Guideline::Readable,
                "1"@,
                Validator::LangSet,
            ),
            rule_model(
                Techniques::H57,
                Principle::Understandable,
                Guideline::Readable,
                "1"@,
                Validator::LangShape,
            ),
            rule_model(
                Techniques::H57,
                Principle::Understandable,
                Guideline::Readable,
                "1"@,
                Validator::XmlLangShape,
            ),
            rule_model(
                Techniques::H25,
                Principle::Operable,
                Guideline::Navigable,
                "2"@,
                Validator::HasTitle,
            ),
            rule_model(
                Techniques::F77,
                Principle::Robust,
                Guideline::Compatible,
                "1"@,
                Validator::UniqueIds,
            ),
        ]
    } else if tag == "meta"@ {
        seq![
            rule_model(
                Techniques::F40,
                Principle::Operable,
                Guideline::EnoughTime,
                "1"@,
                Validator::NoTimedRedirect,
            ),
            rule_model(
                Techniques::F41,
                Principle::Understandable,
                Guideline::EnoughTime,
                "1"@,
                Validator::NoTimedRefresh,
            ),
        ]
    } else if tag == "title"@ {
        seq![
            rule_model(
                Techniques::H25,
                Principle::Operable,
                Guideline::Navigable,
                "2"@,
                Validator::TitleText,
            ),
        ]
    } else if tag == "body"@ {
        seq![
            rule_model(
                Techniques::G18,
                Principle::Perceivable,
                Guideline::Distinguishable,
                "1"@,
                Validator::Contrast,
            ),
        ]
    } else if tag == "iframe"@ || tag == "frame"@ {
        seq![
            rule_model(
                Techniques::H64,
                Principle::Operable,
                Guideline::Navigable,
                "1"@,
                Validator::FrameTitle,
            ),
        ]
    } else if tag == "form"@ {
        seq![
            rule_model(
                Techniques::H32,
                Principle::Operable,
                Guideline::Predictable,
                "2"@,
                Validator::SubmitButton,
            ),
            rule_model(
                Techniques::H36,
                Principle::Perceivable,
                Guideline::TextAlternatives,
                "1"@,
                Validator::ImageButtonAlt,
            ),
        ]
    } else if tag == "a"@ {
        seq![
            rule_model(
                Techniques::H30,
                Principle::Perceivable,
                Guideline::TextAlternatives,
                "1"@,
                Validator::LinkedImageAlt,
            ),
            rule_model(
                Techniques::H91,
                Principle::Robust,
                Guideline::Compatible,
                "2"@,
                Validator::LinkContent,
            ),
            rule_model(
                Techniques::H91,
                Principle::Robust,
                Guideline::Compatible,
                "2"@,
                Validator::LinkPurpose,
            ),
        ]
    } else if tag == "img"@ {
        seq![
            rule_model(
                Techniques::H37,
                Principle::Perceivable,
                Guideline::TextAlternatives,
                "1"@,
                Validator::ImageAlt,
            ),
            rule_model(
                Techniques::H67,
                Principle::Perceivable,
                Guideline::TextAlternatives,
                "1"@,
                Validator::ImageAltAndTitle,
            ),
        ]
    } else if tag == "h1"@ || tag == "h2"@ || tag == "h3"@ || tag == "h4"@ || tag == "h5"@ || tag
        == "h6"@ {
        seq![
            rule_model(
                Techniques::H42,
                Principle::Perceivable,
                Guideline::Adaptable,
                "1"@,
                Validator::HeadingText,
            ),
        ]
    } else if tag == "label"@ {
        seq![
            rule_model(
                Techniques::H93,
                Principle::Perceivable,
                Guideline::Adaptable,
                "1"@,
                Validator::LabelTargetsDiffer,
            ),
            rule_model(
                Techniques::H44,
                Principle::Perceivable,
                Guideline::Adaptable,
                "1"@,
                Validator::LabelTargetExists,
            ),
        ]
    } else if tag == "input"@ {
        seq![
            rule_model(
                Techniques::H91,
                Principle::Robust,
                Guideline::Compatible,
                "2"@,
                Validator::ButtonValueSet,
            ),
            rule_model(
                Techniques::H91,
                Principle::Robust,
                Guideline::Compatible,
                "2"@,
                Validator::ButtonValueText,
            ),
        ]
    } else if tag == "blink"@ {
        seq![
            rule_model(
                Techniques::F47,
                Principle::Operable,
                Guideline::EnoughTime,
                "2"@,
                Validator::NoBlink,
            ),
        ]
    } else if tag == "object"@ {
        seq![
            rule_model(
                Techniques::F47,
                Principle::Perceivable,
                Guideline::TextAlternatives,
                "1"@,
                Validator::ObjectText,
            ),
        ]
    } else if tag == "area"@ {
        seq![
            rule_model(
                Techniques::H24,
                Principle::Perceivable,
                Guideline::TextAlternatives,
                "1"@,
                Validator::AreaAlt,
            ),
        ]
    } else if tag == "map"@ {
        seq![
            rule_model(
                Techniques::H24,
                Principle::Perceivable,
                Guideline::TextAlternatives,
                "1"@,
                Validator::MapAlt,
            ),
        ]
    } else if tag == "fieldset"@ {
        seq![
            rule_model(
                Techniques::H71,
                Principle::Perceivable,
                Guideline::Adaptable,
                "1"@,
                Validator::FieldsetLegend,
            ),
        ]
    } else if tag == "applet"@ {
        seq![
            rule_model(
                Techniques::H35,
                Principle::Perceivable,
                Guideline::TextAlternatives,
                "1"@,
                Validator::AppletAlt,
            ),
            rule_model(
                Techniques::H35,
                Principle::Perceivable,
                Guideline::TextAlternatives,
                "1"@,
                Validator::AppletBody,
            ),
        ]
    } else {
        Seq::empty()
    }
}

/// The rules of a sequence as plain values.
pub open spec fn rule_views(rules: Seq<Rule>) -> Seq<RuleModel> {
    Seq::new(rules.len(), |i: int| rules[i]@)
}

/// A rule for one technique that raises errors.
fn rule(
    technique: Techniques,
    principle: Principle,
    guideline: Guideline,
    success_criteria: &'static str,
    validate: Validator,
) -> (r: Rule)
    ensures
        r@ == rule_model(technique, principle, guideline, success_criteria@, validate),
{
    Rule::new(
        Technique::Single(technique),
        IssueType::Error,
        principle,
        guideline,
        success_criteria,
        validate,
    )
}

/// The rules of a tag, in the order in which they run.
pub fn rules_for(tag: &str) -> (rules: Vec<Rule>)
    ensures
        rule_views(rules@) == rules_of(tag@),
{
    let mut rules: Vec<Rule> = Vec::new();
    if str_eq(tag, "html") {
        rules.push(
            rule(
                Techniques::H57,
                Principle::Understandable,
                Guideline::Readable,
                "1",
                Validator::LangSet,
            ),
        );
        rules.push(
            rule(
                Techniques::H57,
                Principle::Understandable,
                Guideline::Readable,
                "1",
                Validator::LangShape,
            ),
        );
        rules.push(
            rule(
                Techniques::H57,
                Principle::Understandable,
                Guideline::Readable,
                "1",
                Validator::XmlLangShape,
            ),
        );
        rules.push(
            rule(Techniques::H25, Principle::Operable, Guideline::Navigable, "2", Validator::HasTitle),
        );
        rules.push(
            rule(Techniques::F77, Principle::Robust, Guideline::Compatible, "1", Validator::UniqueIds),
        );
    } else if str_eq(tag, "meta") {
        rules.push(
            rule(
                Techniques::F40,
                Principle::Operable,
                Guideline::EnoughTime,
                "1",
                Validator::NoTimedRedirect,
            ),
        );
        rules.push(
            rule(
                Techniques::F41,
                Principle::Understandable,
                Guideline::EnoughTime,
                "1",
                Validator::NoTimedRefresh,
            ),
        );
    } else if str_eq(tag, "title") {
        rules.push(
            rule(Techniques::H25, Principle::Operable, Guideline::Navigable, "2", Validator::TitleText),
        );
    } else if str_eq(tag, "body") {
        rules.push(
            rule(
                Techniques::G18,
                Principle::Perceivable,
                Guideline::Distinguishable,
                "1",
                Validator::Contrast,
            ),
        );
    } else if str_eq(tag, "iframe") || str_eq(tag, "frame") {
        rules.push(
            rule(Techniques::H64, Principle::Operable, Guideline::Navigable, "1", Validator::FrameTitle),
        );
    } else if str_eq(tag, "form") {
        rules.push(
            rule(
                Techniques::H32,
                Principle::Operable,
                Guideline::Predictable,
                "2",
                Validator::SubmitButton,
            ),
        );
        rules.push(
            rule(
                Techniques::H36,
                Principle::Perceivable,
                Guideline::TextAlternatives,
                "1",
                Validator::ImageButtonAlt,
            ),
        );
    } else if str_eq(tag, "a") {
        rules.push(
            rule(
                Techniques::H30,
                Principle::Perceivable,
                Guideline::TextAlternatives,
                "1",
                Validator::LinkedImageAlt,
            ),
        );
        rules.push(
            rule(Techniques::H91, Principle::Robust, Guideline::Compatible, "2", Validator::LinkContent),
        );
        rules.push(
            rule(Techniques::H91, Principle::Robust, Guideline::Compatible, "2", Validator::LinkPurpose),
        );
    } else if str_eq(tag, "img") {
        rules.push(
            rule(
                Techniques::H37,
                Principle::Perceivable,
                Guideline::TextAlternatives,
                "1",
                Validator::ImageAlt,
            ),
        );
        rules.push(
            rule(
                Techniques::H67,
                Principle::Perceivable,
                Guideline::TextAlternatives,
                "1",
                Validator::ImageAltAndTitle,
            ),
        );
    } else if str_eq(tag, "h1") || str_eq(tag, "h2") || str_eq(tag, "h3") || str_eq(tag, "h4")
        || str_eq(tag, "h5") || str_eq(tag, "h6") {
        rules.push(
            rule(
                Techniques::H42,
                Principle::Perceivable,
                Guideline::Adaptable,
                "1",
                Validator::HeadingText,
            ),
        );
    } else if str_eq(tag, "label") {
        rules.push(
            rule(
                Techniques::H93,
                Principle::Perceivable,
                Guideline::Adaptable,
                "1",
                Validator::LabelTargetsDiffer,
            ),
        );
        rules.push(
            rule(
                Techniques::H44,
                Principle::Perceivable,
                Guideline::Adaptable,
                "1",
                Validator::LabelTargetExists,
            ),
        );
    } else if str_eq(tag, "input") {
        rules.push(
            rule(
                Techniques::H91,
                Principle::Robust,
                Guideline::Compatible,
                "2",
                Validator::ButtonValueSet,
            ),
        );
        rules.push(
            rule(
                Techniques::H91,
                Principle::Robust,
                Guideline::Compatible,
                "2",
                Validator::ButtonValueText,
            ),
        );
    } else if str_eq(tag, "blink") {
        rules.push(
            rule(Techniques::F47, Principle::Operable, Guideline::EnoughTime, "2", Validator::NoBlink),
        );
    } else if str_eq(tag, "object") {
        rules.push(
            rule(
                Techniques::F47,
                Principle::Perceivable,
                Guideline::TextAlternatives,
                "1",
                Validator::ObjectText,
            ),
        );
    } else if str_eq(tag, "area") {
        rules.push(
            rule(
                Techniques::H24,
                Principle::Perceivable,
                Guideline::TextAlternatives,
                "1",
                Validator::AreaAlt,
            ),
        );
    } else if str_eq(tag, "map") {
        rules.push(
            rule(
                Techniques::H24,
                Principle::Perceivable,
                Guideline::TextAlternatives,
                "1",
                Validator::MapAlt,
            ),
        );
    } else if str_eq(tag, "fieldset") {
        rules.push(
            rule(
                Techniques::H71,
                Principle::Perceivable,
                Guideline::Adaptable,
                "1",
                Validator::FieldsetLegend,
            ),
        );
    } else if str_eq(tag, "applet") {
        rules.push(
            rule(
                Techniques::H35,
                Principle::Perceivable,
                Guideline::TextAlternatives,
                "1",
                Validator::AppletAlt,
            ),
        );
        rules.push(
            rule(
                Techniques::H35,
                Principle::Perceivable,
                Guideline::TextAlternatives,
                "1",
                Validator::AppletBody,
            ),
        );
    }
    assert(rule_views(rules@) =~= rules_of(tag@));
    rules
}

} // verus!
