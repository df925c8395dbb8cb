//! Links.

use accessibility_rs::i18n::locales::{Catalog, Messages};
use accessibility_rs::AuditConfig;
use accessibility_rs::engine::issue::Issue;
use accessibility_rs::engine::rules::contrast::Measure;

/// The audit as a caller runs it: it works out the contrast ratios that the library asks
/// for and hands them to the library.
fn full_audit_with_catalog(config: AuditConfig, catalog: Catalog) -> Vec<Issue> {
    let measures = accessibility_rs::contrast_pairs_for(&config)
        .iter()
        .map(|pair| {
            let ratio: f32 = contrast::contrast(
                rgb::RGB8::from([pair.background.red, pair.background.green, pair.background.blue]),
                rgb::RGB8::from([pair.text.red, pair.text.green, pair.text.blue]),
            );
            Measure {
                ratio_bits: ratio.to_bits(),
                ratio: ratio.to_string(),
            }
        })
        .collect();
    accessibility_rs::audit(config, catalog, None, measures)
}

/// The audit with its contrast ratios and without messages.
fn full_audit(config: AuditConfig) -> Vec<Issue> {
    full_audit_with_catalog(config, Catalog::new())
}

#[test]
/// anchor contains single img element without alt
fn _audit_missing_alt_anchor_img() {
    let audit = full_audit(AuditConfig::basic(
        r###"<html xmlns="http://www.w3.org/1999/xhtml" lang="en">
    <head>     
       <title>Decrative Img: Do not use!</title>
    </head>   
    <body>     
        <a href="routes.html">
            <img src="topo.gif" /> 
        </a> 
    </body> 
 </html>"###,
    ));
    let valid = !audit
        .iter()
        .any(|x| x.code == "WCAGAAA.Principle1.Guideline1_1.H30");

    assert_eq!(valid, false)
}

#[test]
/// anchor contains valid href with no content
fn _audit_missing_anchor_content_valid_href() {
    let markup = String::from(r#"<a href="www.example.com">"#);
    let audit = full_audit(AuditConfig::basic(&markup));
    let valid = !audit
        .iter()
        .any(|x| x.code == "WCAGAAA.Principle4.Guideline4_1.H91");

    assert_eq!(valid, false)
}

#[test]
/// anchor is empty void
fn _audit_missing_anchor_content() {
    let markup = String::from("<a></a>");
    let audit = full_audit(AuditConfig::basic(&markup));
    let valid = !audit
        .iter()
        .any(|x| x.code == "WCAGAAA.Principle4.Guideline4_1.H91");

    assert_eq!(valid, false)
}

#[test]
fn anchor_with_target_and_no_content_reports_no_content() {
    let audit = full_audit(AuditConfig::basic(r#"<a href="x"></a>"#));
    let found: Vec<_> = audit
        .iter()
        .filter(|x| x.code == "WCAGAAA.Principle4.Guideline4_1.H91")
        .collect();
    assert_eq!(found.len(), 1);
    assert_eq!(found[0].selectors, vec!["a".to_string()]);
    assert_eq!(found[0].context, "a");
    assert_eq!(found[0].issue_type, "error");
    assert_eq!(found[0].type_code, 0);
    assert_eq!(found[0].runner, "accessibility-rs");
}

#[test]
fn anchor_with_id_is_not_reported_as_empty() {
    let audit = full_audit(AuditConfig::basic(r#"<a id="y"></a>"#));
    assert!(!audit
        .iter()
        .any(|x| x.code == "WCAGAAA.Principle4.Guideline4_1.H91"));
}

#[test]
fn anchor_without_anything_is_reported_once() {
    let audit = full_audit(AuditConfig::basic("<a></a>"));
    let found: Vec<_> = audit
        .iter()
        .filter(|x| x.code == "WCAGAAA.Principle4.Guideline4_1.H91")
        .collect();
    assert_eq!(found.len(), 1);
    assert_eq!(found[0].selectors, vec!["a".to_string()]);
}

#[test]
fn anchor_with_text_and_image_with_alt_passes() {
    let audit = full_audit(AuditConfig::basic(
        r#"<html lang="en"><head><title>T</title></head><body><a href="x">go <img src="a.gif" alt="map"></a></body></html>"#,
    ));
    assert!(!audit.iter().any(|x| x.code.ends_with(".H30")));
    assert!(!audit.iter().any(|x| x.code.ends_with(".H91")));
}

fn anchor_messages(html: &str) -> Vec<String> {
    let mut catalog = Catalog::new();
    catalog.insert("4_1_2_H91.A.NoContent", Messages::english("no content"));
    catalog.insert("4_1_2_H91.A.EmptyNoId", Messages::english("empty and no id"));
    catalog.insert("1_1_1_H30.2", Messages::english("image without alt"));
    full_audit_with_catalog(AuditConfig::basic(html), catalog)
        .into_iter()
        .filter(|x| x.context == "a")
        .map(|x| x.message)
        .collect()
}

#[test]
fn anchors_fail_under_their_own_sub_identifiers() {
    assert_eq!(anchor_messages(r#"<a href="x"></a>"#), vec!["no content"]);
    assert_eq!(anchor_messages("<a href=\"x\"> \n </a>"), vec!["no content"]);
    assert!(anchor_messages(r#"<a id="y"></a>"#).is_empty());
    assert_eq!(anchor_messages("<a></a>"), vec!["empty and no id"]);
    assert_eq!(anchor_messages(r#"<a id=" "></a>"#), vec!["empty and no id"]);
    assert!(anchor_messages("<a>text</a>").is_empty());
    assert_eq!(
        anchor_messages(r#"<a href="x"><img src="i.png"></a>"#),
        vec!["image without alt"]
    );
    assert!(anchor_messages(r#"<a href="x"><img src="i.png" role="presentation"></a>"#).is_empty());
}
