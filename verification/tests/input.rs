//! Inputs.

use accessibility_rs::i18n::locales::{Catalog, Messages};
use accessibility_rs::AuditConfig;
use accessibility_rs::engine::issue::Issue;
use accessibility_rs::engine::rules::contrast::Measure;

/// The audit as a caller runs it: it works out the contrast ratios that the library asks
/// for and hands them to the library.
fn full_audit_with_catalog(config: AuditConfig, catalog: Catalog) -> Vec<Issue> {
    let measures = accessibility_rs::contrast_pairs_for(&config)
        .iter()
        .map(|pair| {
            let ratio: f32 = contrast::contrast(
                rgb::RGB8::from([pair.background.red, pair.background.green, pair.background.blue]),
                rgb::RGB8::from([pair.text.red, pair.text.green, pair.text.blue]),
            );
            Measure {
                ratio_bits: ratio.to_bits(),
                ratio: ratio.to_string(),
            }
        })
        .collect();
    accessibility_rs::audit(config, catalog, None, measures)
}

/// The audit with its contrast ratios and without messages.
fn full_audit(config: AuditConfig) -> Vec<Issue> {
    full_audit_with_catalog(config, Catalog::new())
}

/// The audit without contrast ratios: the contrast rule judges nothing.
fn plain_with_catalog(config: AuditConfig, catalog: Catalog) -> Vec<Issue> {
    accessibility_rs::audit(config, catalog, None, Vec::new())
}

/// The audit without contrast ratios and without messages.
fn plain(config: AuditConfig) -> Vec<Issue> {
    plain_with_catalog(config, Catalog::new())
}

#[test]
/// input is missing a valid name
fn _audit_input_valid_name() {
    let audit = full_audit(AuditConfig::basic(
        r###"<html lang="en">
    <head>     
       <title>Missing Form control name: Do not Use.</title>
    </head>   
    <body>     
        <input type="button" /> 
    </body> 
 </html>"###,
    ));
    let mut valid = true;

    for x in &audit {
        if x.code == "WCAGAAA.Principle4.Guideline4_1.H91" {
            valid = false;
            break;
        }
    }

    assert_eq!(valid, false)
}

#[test]
fn button_input_message_is_built_from_the_pattern() {
    let mut catalog = Catalog::new();
    catalog.insert(
        "4_1_2_msg_pattern_",
        Messages::english("%{msgNodeType} needs %{builtAttrs}, %{msgNodeType}!"),
    );
    catalog.insert(
        "4_1_2_msg_pattern2_",
        Messages::english("%{msgNodeType} wants %{builtAttrs}"),
    );
    let audit = plain_with_catalog(
        AuditConfig::basic(
            r#"<html lang="en"><head><title>T</title></head><body><input type="submit"><input type="reset" value=" "><input type="text"></body></html>"#,
        ),
        catalog,
    );
    assert_eq!(audit.len(), 2);
    assert_eq!(audit[0].message, "\"input\" needs \"value\", \"input\"!");
    assert_eq!(audit[0].selectors, vec!["body>:nth-child(1)".to_string()]);
    assert_eq!(
        audit[1].message,
        "\"input\" wants \"value=\"something\" \""
    );
    assert_eq!(
        audit[1].selectors,
        vec![
            "body>:nth-child(1)".to_string(),
            "body>:nth-child(2)".to_string()
        ]
    );
}

#[test]
fn button_input_with_value_passes() {
    let audit = plain(AuditConfig::basic(
        r#"<html lang="en"><head><title>T</title></head><body><input type="button" value="Go"></body></html>"#,
    ));
    assert!(audit.is_empty());
}
