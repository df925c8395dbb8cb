//! The html element.

use accessibility_rs::AuditConfig;
use accessibility_rs::engine::issue::Issue;
use accessibility_rs::engine::rules::contrast::Measure;
use accessibility_rs::i18n::locales::Catalog;

/// The audit as a caller runs it: it works out the contrast ratios that the library asks
/// for and hands them to the library.
fn full_audit_with_catalog(config: AuditConfig, catalog: Catalog) -> Vec<Issue> {
    let measures = accessibility_rs::contrast_pairs_for(&config)
        .iter()
        .map(|pair| {
            let ratio: f32 = contrast::contrast(
                rgb::RGB8::from([pair.background.red, pair.background.green, pair.background.blue]),
                rgb::RGB8::from([pair.text.red, pair.text.green, pair.text.blue]),
            );
            Measure {
                ratio_bits: ratio.to_bits(),
                ratio: ratio.to_string(),
            }
        })
        .collect();
    accessibility_rs::audit(config, catalog, None, measures)
}

/// The audit with its contrast ratios and without messages.
fn full_audit(config: AuditConfig) -> Vec<Issue> {
    full_audit_with_catalog(config, Catalog::new())
}

/// The audit without contrast ratios: the contrast rule judges nothing.
fn plain_with_catalog(config: AuditConfig, catalog: Catalog) -> Vec<Issue> {
    accessibility_rs::audit(config, catalog, None, Vec::new())
}

/// The audit without contrast ratios and without messages.
fn plain(config: AuditConfig) -> Vec<Issue> {
    plain_with_catalog(config, Catalog::new())
}

#[test]
/// duplicate html elements
fn _audit_duplicate_element_id() {
    let audit = full_audit(AuditConfig::basic(
        r###"<html lang="en">
    <head>     
       <title>Duplicate ID: Do not Use.</title>
    </head>   
    <body>     
        <div id="dog"></div>
        <div id="dog"></div>
    </body> 
 </html>"###,
    ));
    let mut valid = true;

    for x in &audit {
        if x.code == "WCAGAAA.Principle4.Guideline4_1.F77" {
            valid = false;
            break;
        }
    }

    assert_eq!(valid, false)
}

#[test]
fn duplicate_ids_are_listed_and_nothing_else_is_wrong() {
    let audit = full_audit(AuditConfig::basic(
        r#"<html lang="en"><head><title>T</title></head><body><div id="dog"></div><div id="dog"></div></body></html>"#,
    ));
    let found: Vec<_> = audit
        .iter()
        .filter(|x| x.code == "WCAGAAA.Principle4.Guideline4_1.F77")
        .collect();
    assert_eq!(found.len(), 1);
    assert_eq!(found[0].selectors, vec!["#dog".to_string()]);
    assert!(!audit.iter().any(|x| x.code.ends_with(".H57")));
    assert!(!audit.iter().any(|x| x.code.ends_with(".H25")));
}

#[test]
fn missing_lang_and_empty_heading_are_both_found() {
    let audit =
        full_audit(AuditConfig::basic("<html><body><h1></h1></body></html>"));
    assert!(audit
        .iter()
        .any(|x| x.code == "WCAGAAA.Principle3.Guideline3_1.H57"));
    assert!(audit
        .iter()
        .any(|x| x.code == "WCAGAAA.Principle1.Guideline1_3.H42"));
}

#[test]
fn unique_ids_pass() {
    let audit = plain(AuditConfig::basic(
        r#"<html lang="en"><head><title>T</title></head><body><div id="dog"></div><div id="cat"></div></body></html>"#,
    ));
    assert!(audit.is_empty());
}

fn lang_issues(attr: &str, value: &str) -> usize {
    let html = format!(
        r#"<html {}="{}"><head><title>T</title></head><body></body></html>"#,
        attr, value
    );
    full_audit(AuditConfig::basic(&html))
        .iter()
        .filter(|x| x.code == "WCAGAAA.Principle3.Guideline3_1.H57")
        .count()
}

#[test]
fn language_tags_are_alphabetic_with_one_underscore_in_place() {
    for attr in ["lang", "xml:lang"] {
        assert_eq!(lang_issues(attr, "en"), 0);
        assert_eq!(lang_issues(attr, "deu"), 0);
        assert_eq!(lang_issues(attr, "en_US"), 0);
        assert_eq!(lang_issues(attr, "eng_US"), 0);
        assert_eq!(lang_issues(attr, "english"), 0);
        assert_eq!(lang_issues(attr, "en-US"), 1);
        assert_eq!(lang_issues(attr, "e_n"), 1);
        assert_eq!(lang_issues(attr, "en__US"), 1);
        assert_eq!(lang_issues(attr, "en_U_S"), 1);
        assert_eq!(lang_issues(attr, "en_3"), 1);
        assert_eq!(lang_issues(attr, "abcdefghijk"), 0);
        assert_eq!(lang_issues(attr, "abcdefghijkl"), 1);
        assert_eq!(lang_issues(attr, "\u{e9}\u{e9}\u{e9}\u{e9}\u{e9}\u{e9}"), 1);
    }
}

#[test]
fn built_in_selectors_are_read() {
    assert!(accessibility_rs::engine::rules::wcag_rule_map::check_selectors());
}
