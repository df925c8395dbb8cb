//! Audits of whole pages, with and without layout.

use accessibility_rs::dom::document::Document;
use accessibility_rs::dom::html::NodeKind;
use accessibility_rs::engine::audit::auditor::Auditor;
use accessibility_rs::engine::audit::tree::{
    parse_accessibility_tree, parse_accessibility_tree_bounded, AccessibilityTree,
};
use accessibility_rs::engine::audit::wcag::WCAGAAA;
use accessibility_rs::engine::issue::Issue;
use accessibility_rs::engine::styles::layout::Leaf;
use accessibility_rs::engine::styles::values::LengthOrPercentageOrAuto;
use accessibility_rs::i18n::locales::Catalog;
use accessibility_rs::AuditConfig;
use taffy::prelude::{length, percent, AvailableSpace, Dimension, FlexDirection, Size, Style, TaffyTree};
use taffy::NodeId;
use accessibility_rs::engine::rules::contrast::Measure;

/// The audit as a caller runs it: it works out the contrast ratios that the library asks
/// for and hands them to the library.
fn full_audit_with_catalog(config: AuditConfig, catalog: Catalog) -> Vec<Issue> {
    let measures = accessibility_rs::contrast_pairs_for(&config)
        .iter()
        .map(|pair| {
            let ratio: f32 = contrast::contrast(
                rgb::RGB8::from([pair.background.red, pair.background.green, pair.background.blue]),
                rgb::RGB8::from([pair.text.red, pair.text.green, pair.text.blue]),
            );
            Measure {
                ratio_bits: ratio.to_bits(),
                ratio: ratio.to_string(),
            }
        })
        .collect();
    accessibility_rs::audit(config, catalog, None, measures)
}

/// The audit with its contrast ratios and without messages.
fn full_audit(config: AuditConfig) -> Vec<Issue> {
    full_audit_with_catalog(config, Catalog::new())
}

/// The audit without contrast ratios: the contrast rule judges nothing.
fn plain_with_catalog(config: AuditConfig, catalog: Catalog) -> Vec<Issue> {
    accessibility_rs::audit(config, catalog, None, Vec::new())
}

/// The audit without contrast ratios and without messages.
fn plain(config: AuditConfig) -> Vec<Issue> {
    plain_with_catalog(config, Catalog::new())
}

const MOCK_CSS_RULES: &str = r#"
body { color: #222; background: #fff; font-size: 16px; margin: 0 }
h1, h2 { font-size: 2em; margin: 12px 0 }
.lead { color: #555 !important; padding: 4px 8px }
#main > p { width: 80% }
a:hover { color: red }
img { border-width: thin }
"#;

const MOCK_WEBSITE_HTML: &str = r##"<!DOCTYPE html>
<html lang="en">
<head>
  <meta charset="utf-8">
  <title>Drake Industries</title>
  <link rel="stylesheet" href="site.css">
  <style type="text/css">nav a { color: #036 }</style>
</head>
<body>
  <nav><a href="/">Home</a> <a href="/about">About</a> <a href="/contact"></a></nav>
  <div id="main">
    <h1>Welcome</h1>
    <p class="lead">We build things.</p>
    <img src="logo.png" width="120" height="40">
    <img src="team.png" alt="The team">
    <h2></h2>
    <form action="/search"><input type="text" name="q"><input type="submit"></form>
    <label for="missing">Name</label>
    <iframe src="map.html"></iframe>
  </div>
  <footer><p>Drake Industries</p></footer>
</body>
</html>"##;

fn section(i: usize) -> String {
    format!(
        r##"<section id="s{i}"><h2>Section {i}</h2><p class="lead">Text <a href="/p{i}">link {i}</a> and <img src="i{i}.png"></p><ul><li>one</li><li>two</li><li><a href="#s{i}"></a></li></ul></section>"##,
        i = i
    )
}

fn page(sections: usize) -> String {
    let mut html = String::from(
        r#"<!DOCTYPE html><html lang="en"><head><title>Large page</title></head><body><h1>Large page</h1>"#,
    );
    for i in 0..sections {
        html.push_str(&section(i));
    }
    html.push_str("</body></html>");
    html
}

fn size(value: LengthOrPercentageOrAuto) -> Dimension {
    match value {
        LengthOrPercentageOrAuto::Length(l) => length(l as f32 / 1000.0),
        LengthOrPercentageOrAuto::Percentage(p) => percent(p as f32 / 100_000.0),
        LengthOrPercentageOrAuto::Auto => Dimension::auto(),
    }
}

/// An audit with the boxes laid out, as a caller of the library does it.
fn audit_with_layout(html: &str, css: &str) -> Vec<Issue> {
    let plan = accessibility_rs::layout_plan_for(&AuditConfig::new(html, css, true, "en"));
    let mut taffy: TaffyTree<()> = TaffyTree::new();
    let mut leaves: Vec<NodeId> = Vec::new();
    for request in &plan {
        let style = match request.leaf {
            Leaf::Styled(b) => Style {
                size: Size {
                    width: size(b.width),
                    height: size(b.height),
                },
                ..Default::default()
            },
            _ => Style::default(),
        };
        leaves.push(taffy.new_leaf(style).unwrap());
    }
    let mut is_child = vec![false; plan.len()];
    for (i, request) in plan.iter().enumerate() {
        let children: Vec<NodeId> = request.children.iter().map(|c| leaves[*c]).collect();
        for child in &request.children {
            is_child[*child] = true;
        }
        if !children.is_empty() {
            taffy.set_children(leaves[i], &children).unwrap();
        }
    }
    let top: Vec<NodeId> = plan
        .iter()
        .enumerate()
        .filter(|(i, request)| matches!(request.leaf, Leaf::Styled(_)) && !is_child[*i])
        .map(|(i, _)| leaves[i])
        .collect();
    let root = taffy
        .new_with_children(
            Style {
                flex_direction: FlexDirection::Column,
                size: Size {
                    width: length(800.0),
                    height: length(600.0),
                },
                ..Default::default()
            },
            &top,
        )
        .unwrap();
    taffy
        .compute_layout(
            root,
            Size {
                width: AvailableSpace::MaxContent,
                height: AvailableSpace::MaxContent,
            },
        )
        .unwrap();
    for (i, request) in plan.iter().enumerate() {
        if let Leaf::Styled(b) = request.leaf {
            if let LengthOrPercentageOrAuto::Length(l) = b.width {
                let laid_out = taffy.layout(leaves[i]).unwrap();
                assert!(laid_out.size.width >= l as f32 / 1000.0 - 0.5);
            }
        }
    }
    let handles: Vec<u64> = leaves.into_iter().map(u64::from).collect();
    let document = Document::parse_document(html);
    let auditor = Auditor::new(&document, css, Some(handles.clone()), "en");
    for (_, bucket) in &auditor.tree.entries {
        for (element, handle) in bucket {
            assert_eq!(*handle, Some(handles[element.node]));
        }
    }
    accessibility_rs::audit(
        AuditConfig::new(html, css, true, "en"),
        Catalog::new(),
        Some(handles),
        Vec::new(),
    )
}

#[test]
fn _audit() {
    let report = full_audit(AuditConfig::new(
        MOCK_WEBSITE_HTML,
        &MOCK_CSS_RULES,
        false,
        "en",
    ));
    println!("{:?}", report)
}

#[test]
fn integration_test__audit() {
    let report = plain(AuditConfig::new(
        MOCK_WEBSITE_HTML,
        &MOCK_CSS_RULES,
        false,
        "en",
    ));
    println!("{:?}", report);
    let codes: Vec<&str> = report.iter().map(|x| x.code.as_str()).collect();
    assert_eq!(
        codes,
        vec![
            "WCAGAAA.Principle4.Guideline4_1.H91",
            "WCAGAAA.Principle2.Guideline3_2.H32",
            "WCAGAAA.Principle1.Guideline1_3.H42",
            "WCAGAAA.Principle2.Guideline2_4.H64",
            "WCAGAAA.Principle1.Guideline1_1.H37",
            "WCAGAAA.Principle4.Guideline4_1.H91",
            "WCAGAAA.Principle4.Guideline4_1.H91",
            "WCAGAAA.Principle1.Guideline1_3.H44",
        ]
    );
}

#[test]
fn _audit_large() {
    let html = page(120);
    let report = full_audit(AuditConfig::new(&html, &MOCK_CSS_RULES, false, "en"));
    println!("{:?}", report)
}

#[test]
fn integration_test__audit_large() {
    let html = page(120);
    let report = full_audit(AuditConfig::new(&html, &MOCK_CSS_RULES, false, "en"));
    println!("{:?}", report);
    let h37: Vec<_> = report.iter().filter(|x| x.code.ends_with(".H37")).collect();
    assert_eq!(h37.len(), 1);
    assert_eq!(h37[0].selectors.len(), 120);
}

#[test]
fn _audit_bounded() {
    let report = audit_with_layout(MOCK_WEBSITE_HTML, &MOCK_CSS_RULES);
    println!("{:?}", report)
}

#[test]
fn _audit_large_bounded() {
    let html = page(40);
    let report = audit_with_layout(&html, &MOCK_CSS_RULES);
    println!("{:?}", report)
}

#[test]
fn _audit_with_layout() {
    let with = audit_with_layout(MOCK_WEBSITE_HTML, &MOCK_CSS_RULES);
    let without = plain(AuditConfig::new(
        MOCK_WEBSITE_HTML,
        &MOCK_CSS_RULES,
        false,
        "en",
    ));
    println!("{:?}", with);
    assert_eq!(with.len(), without.len());
}

#[test]
fn _audit_large_with_layout() {
    let html = page(40);
    let report = audit_with_layout(&html, &MOCK_CSS_RULES);
    println!("{:?}", report)
}

#[test]
fn integration_test__audit_xlarge() {
    let html = page(450);
    let report = full_audit(AuditConfig::new(&html, &MOCK_CSS_RULES, false, "en"));
    println!("{:?}", report.len());
    assert!(!report.is_empty());
}

#[test]
/// missing title element
fn _audit_missing_title() {
    let audit = full_audit(AuditConfig::basic(MOCK_WEBSITE_HTML));
    let mut valid = true;

    for x in &audit {
        if x.code == "WCAGAAA.Principle2.Guideline2_4.H25" {
            valid = false;
            break;
        }
    }

    assert_eq!(valid, true)
}

#[test]
fn layout_plan_has_a_request_for_each_node() {
    let plan = accessibility_rs::layout_plan_for(&AuditConfig::basic(
        r#"<html><head><title>T</title></head><body><div style="width: 10px; padding: 1px 2px"><img src="a.png" width="30" height=" 4.5 "><script>x</script>text</div></body></html>"#,
    ));
    let styled: Vec<_> = plan
        .iter()
        .filter_map(|r| match r.leaf {
            Leaf::Styled(b) => Some((b, r.children.len())),
            _ => None,
        })
        .collect();
    assert_eq!(styled.len(), 3);
    let (title, _) = styled[0];
    assert_eq!(title.width, LengthOrPercentageOrAuto::Auto);
    let (div, div_children) = styled[1];
    assert_eq!(div.width, LengthOrPercentageOrAuto::Length(10_000));
    assert_eq!(div.height, LengthOrPercentageOrAuto::Auto);
    assert_eq!(div.padding_top, LengthOrPercentageOrAuto::Length(1_000));
    assert_eq!(div.padding_left, LengthOrPercentageOrAuto::Length(2_000));
    assert_eq!(div.border_top, LengthOrPercentageOrAuto::Length(3_000));
    assert_eq!(div_children, 1);
    let (img, _) = styled[2];
    assert_eq!(img.width, LengthOrPercentageOrAuto::Length(30_000));
    assert_eq!(img.height, LengthOrPercentageOrAuto::Length(4_500));
    let placeholders = plan
        .iter()
        .filter(|r| matches!(r.leaf, Leaf::Placeholder))
        .count();
    assert_eq!(placeholders, 4);
}

fn check_index(document: &Document, tree: &AccessibilityTree, handles: Option<&Vec<u64>>) {
    let keys: Vec<&str> = tree.entries.iter().map(|e| e.0.as_str()).collect();
    let mut sorted = keys.clone();
    sorted.sort();
    sorted.dedup();
    assert_eq!(keys, sorted);
    let mut seen = vec![0usize; document.len()];
    for (tag, bucket) in &tree.entries {
        let mut last = None;
        for (element, handle) in bucket {
            assert_eq!(&element.name(document), tag);
            assert!(last < Some(element.node));
            last = Some(element.node);
            seen[element.node] += 1;
            assert_eq!(*handle, handles.map(|h| h[element.node]));
        }
    }
    for node in 0..document.len() {
        let expected = if document.kind(node) == NodeKind::Element { 1 } else { 0 };
        assert_eq!(seen[node], expected);
    }
}

#[test]
fn index_holds_every_element_once_under_its_tag() {
    let document = Document::parse_document(MOCK_WEBSITE_HTML);
    let tree = parse_accessibility_tree(&document);
    check_index(&document, &tree, None);
    assert_eq!(tree.get("a").map(|b| b.len()), Some(3));
    assert_eq!(tree.get("img").map(|b| b.len()), Some(2));
    assert!(tree.get("table").is_none());
    assert!(tree.get("").is_none());
    let again = parse_accessibility_tree(&document);
    assert_eq!(tree.entries, again.entries);
    let handles: Vec<u64> = (0..document.len() as u64).map(|n| n * 10).collect();
    let bounded = parse_accessibility_tree_bounded(&document, &handles);
    check_index(&document, &bounded, Some(&handles));
}

#[test]
fn document_without_title_still_has_a_title_bucket() {
    let document = Document::parse_document("<p>x</p>");
    let tree = parse_accessibility_tree(&document);
    check_index(&document, &tree, None);
    assert_eq!(tree.get("title").map(|b| b.len()), Some(0));
    let keys: Vec<&str> = tree.entries.iter().map(|e| e.0.as_str()).collect();
    assert_eq!(keys, vec!["body", "head", "html", "p", "title"]);
}

#[test]
fn every_entry_has_a_box_exactly_when_boxes_are_given() {
    let document = Document::parse_document("<p>x</p><p>y</p>");
    let handles: Vec<u64> = (0..document.len() as u64).map(|n| n + 100).collect();
    let bounded = Auditor::new(&document, "", Some(handles.clone()), "en");
    assert_eq!(bounded.boxes, Some(handles.clone()));
    check_index(&document, &bounded.tree, Some(&handles));
    let mut seen: Vec<u64> = bounded
        .tree
        .entries
        .iter()
        .flat_map(|(_, bucket)| bucket.iter().map(|(_, handle)| handle.unwrap()))
        .collect();
    let entries = seen.len();
    seen.sort();
    seen.dedup();
    assert_eq!(seen.len(), entries);
    let unbounded = Auditor::new(&document, "", None, "en");
    assert!(unbounded.boxes.is_none());
    check_index(&document, &unbounded.tree, None);
    let wanted = AuditConfig::new("<p>x</p><p>y</p>", "", true, "en");
    assert_eq!(
        accessibility_rs::layout_plan_for(&wanted).len(),
        document.len()
    );
    let too_few = accessibility_rs::audit(wanted, Catalog::new(), Some(vec![1, 2, 3]), Vec::new());
    assert_eq!(
        too_few.len(),
        plain(AuditConfig::new("<p>x</p><p>y</p>", "", true, "en")).len()
    );
}

fn sorted_codes(mut issues: Vec<Issue>) -> Vec<(String, String, Vec<String>)> {
    let mut all: Vec<_> = issues
        .drain(..)
        .map(|x| (x.code, x.context, x.selectors))
        .collect();
    all.sort();
    all
}

#[test]
fn buckets_in_any_order_give_the_same_issues() {
    let document = Document::parse_document(MOCK_WEBSITE_HTML);
    let auditor = Auditor::new(&document, MOCK_CSS_RULES, None, "en");
    let sequential = WCAGAAA::run_audit(&auditor);
    let again = WCAGAAA::audit(&auditor);
    assert_eq!(
        sequential.iter().map(|x| &x.code).collect::<Vec<_>>(),
        again.iter().map(|x| &x.code).collect::<Vec<_>>()
    );
    let mut backwards: Vec<Issue> = Vec::new();
    for index in (0..auditor.tree.len()).rev() {
        WCAGAAA::evaluate_bucket(&auditor, index, &mut backwards);
    }
    assert_ne!(
        sequential.iter().map(|x| &x.code).collect::<Vec<_>>(),
        backwards.iter().map(|x| &x.code).collect::<Vec<_>>()
    );
    assert_eq!(sorted_codes(sequential), sorted_codes(backwards));
    assert!(!WCAGAAA::spreads_work(&auditor));
    let large = page(700);
    let document = Document::parse_document(&large);
    let auditor = Auditor::new(&document, "", None, "en");
    assert!(document.len() > 5500);
    assert!(WCAGAAA::spreads_work(&auditor));
}
