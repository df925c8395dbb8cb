//! Documents, elements and selectors.

use accessibility_rs::dom::document::{Document, ElementRef, NonTSPseudoClass};
use accessibility_rs::dom::html::NodeKind;
use accessibility_rs::dom::selector::CssSelector;
use accessibility_rs::engine::rules::utils::nodes::{
    get_sibling_position, get_unique_selector, single_selector,
};

fn selector(text: &str) -> CssSelector {
    match CssSelector::parse(text) {
        Ok(s) => s,
        Err(_) => panic!("no selector: {}", text),
    }
}

fn first(doc: &Document, text: &str) -> ElementRef {
    doc.select(&selector(text))[0]
}

#[test]
fn test_has_id() {
    let html = "<p id='link_id_456'>hey there</p>";
    let fragment = Document::parse_fragment(html);
    let element = first(&fragment, "p");
    assert!(element.has_id(&fragment, "link_id_456", true));
    assert!(!element.has_id(&fragment, "LINK_ID_456", true));
    assert!(element.has_id(&fragment, "LINK_ID_456", false));

    let html = "<p>hey there</p>";
    let fragment = Document::parse_fragment(html);
    let element = first(&fragment, "p");
    assert!(!element.has_id(&fragment, "any_link_id", true));
}

#[test]
fn test_is_link() {
    let html = "<link href='https://www.example.com'>";
    let fragment = Document::parse_fragment(html);
    let element = first(&fragment, "link");
    assert!(element.is_link(&fragment));

    let html = "<p>hey there</p>";
    let fragment = Document::parse_fragment(html);
    let element = first(&fragment, "p");
    assert!(!element.is_link(&fragment));
}

#[test]
fn test_has_class() {
    let html = "<p class='my_class'>hey there</p>";
    let fragment = Document::parse_fragment(html);
    let element = first(&fragment, "p");
    assert!(element.has_class(&fragment, "my_class"));

    let html = "<p>hey there</p>";
    let fragment = Document::parse_fragment(html);
    let element = first(&fragment, "p");
    assert!(!element.has_class(&fragment, "my_class"));
}

#[test]
fn class_is_one_of_the_words_of_the_attribute() {
    let doc = Document::parse_document("<p class=' lead  big\tred '>x</p>");
    let p = first(&doc, "p");
    for name in ["lead", "big", "red"] {
        assert!(p.has_class(&doc, name));
    }
    for name in ["", "le", "ead", "lead big", "bigred", " lead", "Lead"] {
        assert!(!p.has_class(&doc, name), "{:?}", name);
    }
}

#[test]
fn test_scope() {
    let html = r"
            <div>
                <b>1</b>
                <span>
                    <span><b>2</b></span>
                    <b>3</b>
                </span>
            </div>
        ";
    let fragment = Document::parse_fragment(html);
    let sel1 = selector("div > span");
    let sel2 = selector(":scope > b");

    let element1 = fragment.select(&sel1)[0];
    let element2 = element1.select(&fragment, &sel2)[0];
    assert_eq!(element2.inner_html(&fragment), "3");
    assert!(sel2.matches_with_scope(&fragment.tree, element2.node, Some(element1.node)));
    assert!(!sel2.matches_with_scope(&fragment.tree, element2.node, None));
    assert!(selector("b").matches(&fragment.tree, element2.node));
    assert!(!selector("span").matches(&fragment.tree, element2.node));
}

#[test]
fn mod_root_element_fragment() {
    let html = Document::parse_fragment(r#"<a href="http://github.com">1</a>"#);
    let root_ref = html.root_element().unwrap();
    let href = root_ref.select(&html, &selector("a"))[0];
    assert_eq!(href.inner_html(&html), "1");
    assert_eq!(href.attr(&html, "href").unwrap(), "http://github.com");
}

#[test]
fn root_element_document_doctype() {
    let html = Document::parse_document("<!DOCTYPE html>\n<title>abc</title>");
    let root_ref = html.root_element().unwrap();
    let title = root_ref.select(&html, &selector("title"))[0];
    assert_eq!(title.inner_html(&html), "abc");
}

#[test]
fn root_element_document_comment() {
    let html = Document::parse_document("<!-- comment --><title>abc</title>");
    let root_ref = html.root_element().unwrap();
    let title = root_ref.select(&html, &selector("title"))[0];
    assert_eq!(title.inner_html(&html), "abc");
}

#[test]
fn select_is_reversible() {
    let html = Document::parse_document("<p>element1</p><p>element2</p><p>element3</p>");
    let selector = selector("p");
    let result: Vec<_> = html
        .select(&selector)
        .iter()
        .rev()
        .map(|e| e.inner_html(&html))
        .collect();
    assert_eq!(result, vec!["element3", "element2", "element1"]);
}

#[test]
fn serializable_test_serialize() {
    let src = r#"<!DOCTYPE html><html lang="en"><head><meta charset="utf-8"></head><body><p>Hello world!</p></body></html>"#;
    let html = Document::parse_document(src);
    assert_eq!(html.html(), src);
}

#[test]
fn selector_conversions() {
    let s = "#testid.testclass";
    assert!(CssSelector::parse(s).is_ok());

    let s = s.to_owned();
    assert!(CssSelector::parse(&s).is_ok());
}

#[test]
fn failing_selector_is_refused() {
    assert!(CssSelector::parse("<failing selector>").is_err());
}

#[test]
fn nodes_are_numbered_in_the_order_of_the_document() {
    let doc = Document::parse_document(
        "<!DOCTYPE html><html><head></head><body><p>a<b>c</b>d</p><!-- e --></body></html>",
    );
    assert_eq!(doc.len(), 11);
    assert_eq!(doc.kind(0), NodeKind::Document);
    assert_eq!(doc.kind(1), NodeKind::Doctype);
    let root = doc.root_element().unwrap();
    assert_eq!(root.node, 2);
    assert_eq!(root.name(&doc), "html");
    assert!(root.is_root(&doc));
    assert_eq!(doc.parent(0), None);
    assert_eq!(doc.parent(2), Some(0));
    assert_eq!(doc.children(0), vec![1, 2]);
    let p = first(&doc, "p");
    assert!(!p.is_root(&doc));
    assert_eq!(doc.children(p.node).len(), 3);
    assert_eq!(doc.kind(doc.children(p.node)[0]), NodeKind::Text);
    assert_eq!(doc.kind(doc.children(p.node)[1]), NodeKind::Element);
    assert_eq!(doc.child_text_content(p.node), "ad");
    assert_eq!(p.text(&doc), vec!["a", "c", "d"]);
    assert_eq!(p.inner_html(&doc), "a<b>c</b>d");
    assert_eq!(p.html(&doc), "<p>a<b>c</b>d</p>");
    assert_eq!(p.parent_element(&doc).unwrap().name(&doc), "body");
    assert!(p.has_children(&doc));
    assert!(!p.is_empty(&doc));
    let b = first(&doc, "b");
    assert_eq!(b.element_position(&doc), 1);
    assert_eq!(get_sibling_position(&doc, &b), 1);
    assert_eq!(root.element_position(&doc), 1);
    assert_eq!(doc.kind(10), NodeKind::Comment);
    assert!(ElementRef::wrap(&doc, 10).is_none());
    assert_eq!(ElementRef::wrap(&doc, p.node), Some(p));
}

#[test]
fn attributes_are_looked_up_by_name() {
    let doc = Document::parse_document(r#"<p id="x" title="  " data-a="">t</p>"#);
    let p = first(&doc, "p");
    assert_eq!(p.attr(&doc, "id"), Some("x".to_string()));
    assert_eq!(p.attr(&doc, "ID"), None);
    assert_eq!(p.attr(&doc, "title"), Some("  ".to_string()));
    assert_eq!(p.attr(&doc, "lang"), None);
    assert_eq!(p.attr_or_default(&doc, "lang"), "");
    assert_eq!(p.attr_or_default(&doc, "id"), "x");
    assert!(p.has_attribute(&doc, "id"));
    assert!(!p.has_attribute(&doc, "title"));
    assert!(!p.has_attribute(&doc, "data-a"));
    assert!(!p.has_attribute(&doc, "lang"));
}

#[test]
fn only_links_are_in_a_state() {
    let doc = Document::parse_document(
        r#"<a href="x">a</a><a>b</a><area href="y"><p href="z">c</p><svg><a href="w"></a></svg>"#,
    );
    let found = doc.select(&selector("a, area, p"));
    let states: Vec<bool> = found
        .iter()
        .map(|e| e.match_non_ts_pseudo_class(&doc, &NonTSPseudoClass::Link))
        .collect();
    assert_eq!(states, vec![true, false, true, false, false]);
    let any: Vec<bool> = found
        .iter()
        .map(|e| e.match_non_ts_pseudo_class(&doc, &NonTSPseudoClass::AnyLink))
        .collect();
    assert_eq!(any, states);
    for state in [
        NonTSPseudoClass::Visited,
        NonTSPseudoClass::Active,
        NonTSPseudoClass::Focus,
        NonTSPseudoClass::Hover,
        NonTSPseudoClass::Enabled,
        NonTSPseudoClass::Disabled,
        NonTSPseudoClass::Checked,
        NonTSPseudoClass::Indeterminate,
    ] {
        assert!(found.iter().all(|e| !e.match_non_ts_pseudo_class(&doc, &state)));
    }
    assert_eq!(NonTSPseudoClass::AnyLink.to_css(), ":any-link");
    assert_eq!(NonTSPseudoClass::Indeterminate.to_css(), ":indeterminate");
}

#[test]
fn selectors_name_elements() {
    let doc = Document::parse_document(
        r#"<html><head><title>T</title></head><body><div id="a"><p>x</p><p>y</p></div><ul><li>z</li></ul></body></html>"#,
    );
    let names: Vec<String> = doc
        .select(&selector("html, body, div, p, ul, li, title"))
        .iter()
        .map(|e| get_unique_selector(&doc, e))
        .collect();
    assert_eq!(
        names,
        vec![
            "html",
            "title",
            "body",
            "#a",
            "#a>:nth-child(1)",
            "#a>:nth-child(2)",
            "ul",
            "li"
        ]
    );
    assert!(single_selector(&doc, "ul"));
    assert!(!single_selector(&doc, "p"));
    assert!(!single_selector(&doc, "table"));
    assert!(!single_selector(&doc, "p["));
    let with_doctype = Document::parse_document("<!DOCTYPE html><ul><li>z</li></ul>");
    assert!(!single_selector(&with_doctype, "ul"));
    assert_eq!(
        get_unique_selector(&with_doctype, &first(&with_doctype, "li")),
        "body>:nth-child(1)>:nth-child(1)"
    );
}

#[test]
fn links_follow_the_tree_where_the_parser_moved_nodes() {
    let doc = Document::parse_document("<table><tr><td>a</td></tr><p>x</p></table>");
    let body = first(&doc, "body");
    let children: Vec<String> = doc
        .children(body.node)
        .iter()
        .map(|c| ElementRef::wrap(&doc, *c).unwrap().name(&doc))
        .collect();
    assert_eq!(children, vec!["p", "table"]);
    let p = first(&doc, "p");
    let table = first(&doc, "table");
    assert!(p.node > table.node);
    assert_eq!(p.element_position(&doc), 1);
    assert_eq!(table.element_position(&doc), 2);
    assert_eq!(doc.parent(p.node), Some(body.node));
    assert_eq!(p.parent_element(&doc), Some(body));
    let below: Vec<String> = body
        .select(&doc, &selector("*"))
        .iter()
        .map(|e| e.name(&doc))
        .collect();
    assert_eq!(below, vec!["p", "table", "tbody", "tr", "td"]);
    let all: Vec<String> = doc
        .select(&selector("p, table, td"))
        .iter()
        .map(|e| e.name(&doc))
        .collect();
    assert_eq!(all, vec!["table", "td", "p"]);
    assert_eq!(get_unique_selector(&doc, &p), "p");
    assert_eq!(get_unique_selector(&doc, &first(&doc, "td")), "td");
}

fn named_alone(doc: &Document, element: &ElementRef) -> String {
    let name = get_unique_selector(doc, element);
    let found = doc.select(&selector(&name));
    assert_eq!(found, vec![*element], "{}", name);
    name
}

#[test]
fn position_counts_elements_only() {
    let doc = Document::parse_document(
        "<html><head><title>T</title></head><body><div>\n<p></p>text<!-- c -->\n<p></p><i></i></div><div><p></p></div></body></html>",
    );
    let ps = doc.select(&selector("p"));
    assert_eq!(ps.len(), 3);
    let divs = doc.select(&selector("div"));
    assert_eq!(named_alone(&doc, &divs[0]), "body>:nth-child(1)");
    assert_eq!(named_alone(&doc, &divs[1]), "body>:nth-child(2)");
    assert_eq!(named_alone(&doc, &ps[0]), "body>:nth-child(1)>:nth-child(1)");
    assert_eq!(named_alone(&doc, &ps[1]), "body>:nth-child(1)>:nth-child(2)");
    assert_eq!(named_alone(&doc, &ps[2]), "body>:nth-child(2)>:nth-child(1)");
    assert_eq!(named_alone(&doc, &first(&doc, "i")), "i");
    assert_eq!(get_sibling_position(&doc, &ps[1]), 2);
    assert_eq!(get_sibling_position(&doc, &first(&doc, "i")), 3);
}

#[test]
fn ids_and_names_are_written_as_identifiers() {
    let doc = Document::parse_document(
        "<html><head><title>T</title></head><body><p id=\"1\"></p><p id=\"a b\"></p><p id=\"-\"></p><p id=\"-2x\"></p><p id=\"a.b#c\"></p><p id=\"d\u{e9}j\u{e0}_-9\"></p><p id=\"x\u{1}\u{7f}y\"></p><o:p></o:p></body></html>",
    );
    let ps = doc.select(&selector("p"));
    let names: Vec<String> = ps.iter().map(|p| named_alone(&doc, p)).collect();
    assert_eq!(
        names,
        vec![
            "#\\31 ",
            "#a\\ b",
            "#\\-",
            "#-\\32 x",
            "#a\\.b\\#c",
            "#d\u{e9}j\u{e0}_-9",
            "#x\\1 \\7f y",
        ]
    );
    let odd = doc.select(&selector("body > :last-child"))[0];
    assert_eq!(odd.name(&doc), "o:p");
    assert_eq!(named_alone(&doc, &odd), "o\\:p");
    assert_eq!(accessibility_rs::text::escape_identifier("dog"), "dog");
    assert_eq!(accessibility_rs::text::escape_identifier("9"), "\\39 ");
    assert_eq!(accessibility_rs::text::escape_identifier("a\u{0}"), "a\u{fffd}");
    assert_eq!(accessibility_rs::text::escape_identifier(""), "");
}
