//! Fieldsets.

use accessibility_rs::AuditConfig;
use accessibility_rs::engine::issue::Issue;
use accessibility_rs::engine::rules::contrast::Measure;
use accessibility_rs::i18n::locales::Catalog;

/// The audit as a caller runs it: it works out the contrast ratios that the library asks
/// for and hands them to the library.
fn full_audit_with_catalog(config: AuditConfig, catalog: Catalog) -> Vec<Issue> {
    let measures = accessibility_rs::contrast_pairs_for(&config)
        .iter()
        .map(|pair| {
            let ratio: f32 = contrast::contrast(
                rgb::RGB8::from([pair.background.red, pair.background.green, pair.background.blue]),
                rgb::RGB8::from([pair.text.red, pair.text.green, pair.text.blue]),
            );
            Measure {
                ratio_bits: ratio.to_bits(),
                ratio: ratio.to_string(),
            }
        })
        .collect();
    accessibility_rs::audit(config, catalog, None, measures)
}

/// The audit with its contrast ratios and without messages.
fn full_audit(config: AuditConfig) -> Vec<Issue> {
    full_audit_with_catalog(config, Catalog::new())
}

#[test]
/// fieldset with a legend that holds no text
fn _audit_missing_fieldset_legend() {
    let m = String::from(
        r#"<fieldset><legend></legend><input type="radio" id="shakesp" name="hamlet" checked="checked" value="a"><label for="shakesp">William Shakespeare</label></fieldset>"#,
    );

    let audit = full_audit(AuditConfig::basic(&m));

    let valid = !audit
        .iter()
        .any(|x| x.code == "WCAGAAA.Principle1.Guideline1_3.H71");

    assert_eq!(valid, false)
}

#[test]
fn fieldset_without_legend_fails_and_with_legend_passes() {
    let audit = full_audit(AuditConfig::basic("<fieldset><p>x</p></fieldset>"));
    assert!(audit.iter().any(|x| x.code.ends_with(".H71")));
    let audit = full_audit(AuditConfig::basic(
        "<fieldset><legend>Authors</legend><p>x</p></fieldset>",
    ));
    assert!(!audit.iter().any(|x| x.code.ends_with(".H71")));
}
