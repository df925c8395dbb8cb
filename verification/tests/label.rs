//! Labels.

use accessibility_rs::AuditConfig;
use accessibility_rs::engine::issue::Issue;
use accessibility_rs::engine::rules::contrast::Measure;
use accessibility_rs::i18n::locales::Catalog;

/// The audit as a caller runs it: it works out the contrast ratios that the library asks
/// for and hands them to the library.
fn full_audit_with_catalog(config: AuditConfig, catalog: Catalog) -> Vec<Issue> {
    let measures = accessibility_rs::contrast_pairs_for(&config)
        .iter()
        .map(|pair| {
            let ratio: f32 = contrast::contrast(
                rgb::RGB8::from([pair.background.red, pair.background.green, pair.background.blue]),
                rgb::RGB8::from([pair.text.red, pair.text.green, pair.text.blue]),
            );
            Measure {
                ratio_bits: ratio.to_bits(),
                ratio: ratio.to_string(),
            }
        })
        .collect();
    accessibility_rs::audit(config, catalog, None, measures)
}

/// The audit with its contrast ratios and without messages.
fn full_audit(config: AuditConfig) -> Vec<Issue> {
    full_audit_with_catalog(config, Catalog::new())
}

#[test]
/// label needs unique target ids
fn _audit_label_valid_name() {
    let markup = String::from(
        r#"<label for="accessibility">My label</label><input id="accessibility" type="text" placeholder="Accessibility rocks!" value="Here"><label for="accessibility">My label</label>"#,
    );

    let audit = full_audit(AuditConfig::basic(&markup));

    let valid = !audit
        .iter()
        .any(|x| x.code == "WCAGAAA.Principle1.Guideline1_3.H93");

    assert_eq!(valid, false)
}

#[test]
/// label has id that does not exist
fn _audit_label_id_noexist() {
    let markup = String::from(
        r#"<label for="accessibility">My label</label><input type="text" placeholder="Accessibility rocks!" value="Here">"#,
    );

    let audit = full_audit(AuditConfig::basic(&markup));

    let valid = !audit
        .iter()
        .any(|x| x.code == "WCAGAAA.Principle1.Guideline1_3.H44");

    assert_eq!(valid, false)
}

#[test]
fn label_with_target_or_wrapped_control_passes() {
    let audit = full_audit(AuditConfig::basic(
        r#"<label for="a">A</label><input id="a" type="text"><label for="gone">B <input type="text"></label><label for="gone" aria-label="C">C</label>"#,
    ));
    assert!(!audit.iter().any(|x| x.code.ends_with(".H44")));
    assert!(audit.iter().any(|x| x.code.ends_with(".H93")));
}

#[test]
fn label_for_that_is_no_selector_counts_as_missing() {
    let audit = full_audit(AuditConfig::basic(
        r#"<label for="a b[">A</label>"#,
    ));
    assert!(audit.iter().any(|x| x.code.ends_with(".H44")));
}
