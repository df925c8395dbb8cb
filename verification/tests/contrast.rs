//! The contrast of text against its background.

use accessibility_rs::engine::issue::Issue;
use accessibility_rs::engine::rules::contrast::Measure;
use accessibility_rs::i18n::locales::{Catalog, Messages};
use accessibility_rs::AuditConfig;

/// An audit with the contrast ratios worked out, as a caller of the library does it.
fn audit_with_contrast(html: &str, css: &str, catalog: Catalog) -> Vec<Issue> {
    let pairs = accessibility_rs::contrast_pairs_for(&AuditConfig::new(html, css, false, "en"));
    let measures = pairs
        .iter()
        .map(|pair| {
            let ratio: f32 = contrast::contrast(
                rgb::RGB8::from([pair.background.red, pair.background.green, pair.background.blue]),
                rgb::RGB8::from([pair.text.red, pair.text.green, pair.text.blue]),
            );
            Measure {
                ratio_bits: ratio.to_bits(),
                ratio: ratio.to_string(),
            }
        })
        .collect();
    accessibility_rs::audit(AuditConfig::new(html, css, false, "en"), catalog, None, measures)
}

#[test]
/// anchor has valid contrast.
fn _audit_contrast_text_anchor() {
    let markup = String::from(
        r#"<body style="background: blue;"><a href="www.example.com" style="color:blue;">example</a></body>"#,
    );
    let audit = audit_with_contrast(&markup, "", Catalog::new());
    let valid = !audit
        .iter()
        .any(|x| x.code == "WCAGAAA.Principle1.Guideline1_4.G18");

    assert_eq!(valid, false)
}

fn contrast_issues(html: &str, css: &str) -> Vec<Issue> {
    let mut catalog = Catalog::new();
    catalog.insert(
        "1_4_3_G18_or_G145.Fail_",
        Messages::english("needs %{required}:1, has %{value}:1"),
    );
    audit_with_contrast(html, css, catalog)
        .into_iter()
        .filter(|x| x.code == "WCAGAAA.Principle1.Guideline1_4.G18")
        .collect()
}

#[test]
fn black_on_white_passes() {
    let found = contrast_issues(
        r#"<html lang="en"><head><title>T</title></head><body style="background-color: white"><p>text</p></body></html>"#,
        "",
    );
    assert!(found.is_empty());
}

#[test]
fn red_on_white_fails_for_small_text_only() {
    let html = r#"<html lang="en"><head><title>T</title></head><body><p>small</p><h1>large</h1></body></html>"#;
    let found = contrast_issues(
        html,
        "body { background: #fff } p { color: red } h1 { color: #ff0000; font-size: 24px }",
    );
    assert_eq!(found.len(), 1);
    assert_eq!(found[0].message, "needs 4:1, has 3.9984765:1");
    assert_eq!(found[0].context, "body");
}

#[test]
fn more_specific_rule_wins_and_important_wins_over_it() {
    let html = r#"<html lang="en"><head><title>T</title></head><body><p id="x" class="c">a</p></body></html>"#;
    let white_wins = "body { background: white } #x { color: white } p { color: black } .c { color: black }";
    assert_eq!(contrast_issues(html, white_wins).len(), 1);
    let black_wins =
        "body { background: white } #x { color: white } p { color: black !important }";
    assert_eq!(contrast_issues(html, black_wins).len(), 0);
    let later_wins = "body { background: white } p { color: white } p { color: black }";
    assert_eq!(contrast_issues(html, later_wins).len(), 0);
}

#[test]
fn text_colour_and_font_size_are_inherited_and_background_is_not() {
    let pairs = accessibility_rs::contrast_pairs_for(&AuditConfig::new(
        r#"<html lang="en"><head><title>T</title></head><body><p>a</p><script>x</script></body></html>"#,
        "html { color: #333; font-size: 10px; background: red } body { font-size: 2em }",
        false,
        "en",
    ));
    assert_eq!(pairs.len(), 1);
    assert_eq!(
        (pairs[0].text.red, pairs[0].text.green, pairs[0].text.blue),
        (0x33, 0x33, 0x33)
    );
    assert!(pairs[0].large);
    assert_eq!(pairs[0].background.alpha, 0);
}

#[test]
fn style_elements_of_the_document_apply_when_no_sheet_is_given() {
    let html = r#"<html lang="en"><head><title>T</title><style type="text/css">body { background: white } p { color: white }</style></head><body><p>a</p></body></html>"#;
    assert_eq!(contrast_issues(html, "").len(), 1);
    assert_eq!(
        contrast_issues(html, "body { background: white } p { color: black }").len(),
        0
    );
    let text_red = |html: &str| {
        accessibility_rs::contrast_pairs_for(&AuditConfig::basic(html))[0]
            .text
            .red
    };
    assert_eq!(text_red(html), 255);
    assert_eq!(text_red(&html.replace(r#" type="text/css""#, "")), 255);
    assert_eq!(text_red(&html.replace("text/css", "TEXT/CSS")), 255);
    assert_eq!(text_red(&html.replace("text/css", "text/less")), 0);
}

#[test]
fn audit_without_ratios_finds_no_contrast_issue() {
    let audit = accessibility_rs::audit(
        AuditConfig::basic(
            r#"<html lang="en"><head><title>T</title></head><body><p style="color: white">a</p></body></html>"#,
        ),
        Catalog::new(),
        None,
        Vec::new(),
    );
    assert!(audit.is_empty());
}
