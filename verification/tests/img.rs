//! Images.

use accessibility_rs::AuditConfig;
use accessibility_rs::engine::issue::Issue;
use accessibility_rs::engine::rules::contrast::Measure;
use accessibility_rs::i18n::locales::Catalog;

/// The audit as a caller runs it: it works out the contrast ratios that the library asks
/// for and hands them to the library.
fn full_audit_with_catalog(config: AuditConfig, catalog: Catalog) -> Vec<Issue> {
    let measures = accessibility_rs::contrast_pairs_for(&config)
        .iter()
        .map(|pair| {
            let ratio: f32 = contrast::contrast(
                rgb::RGB8::from([pair.background.red, pair.background.green, pair.background.blue]),
                rgb::RGB8::from([pair.text.red, pair.text.green, pair.text.blue]),
            );
            Measure {
                ratio_bits: ratio.to_bits(),
                ratio: ratio.to_string(),
            }
        })
        .collect();
    accessibility_rs::audit(config, catalog, None, measures)
}

/// The audit with its contrast ratios and without messages.
fn full_audit(config: AuditConfig) -> Vec<Issue> {
    full_audit_with_catalog(config, Catalog::new())
}

/// The audit without contrast ratios: the contrast rule judges nothing.
fn plain_with_catalog(config: AuditConfig, catalog: Catalog) -> Vec<Issue> {
    accessibility_rs::audit(config, catalog, None, Vec::new())
}

/// The audit without contrast ratios and without messages.
fn plain(config: AuditConfig) -> Vec<Issue> {
    plain_with_catalog(config, Catalog::new())
}

#[test]
/// img is missing an alt
fn _audit_img_missing_alt() {
    let audit = full_audit(AuditConfig::basic(
        r###"<html xmlns="http://www.w3.org/1999/xhtml" lang="en">
    <head>     
       <title>Missing Alt: Do not Use.</title>
    </head>   
    <body>     
    <img src="newsletter.gif" />
    </body> 
 </html>"###,
    ));
    let mut valid = true;

    for x in &audit {
        if x.code == "WCAGAAA.Principle1.Guideline1_1.H37" {
            valid = false;
            break;
        }
    }

    assert_eq!(valid, false)
}

#[test]
/// img is missing an alt
fn _audit_form_submit_img_missing_alt() {
    let audit = full_audit(AuditConfig::basic(
        r###"<html xmlns="http://www.w3.org/1999/xhtml" lang="en">
    <head>     
       <title>Missing Alt: Do not Use.</title>
    </head>   
    <body>     
        <form action="http://example.com/prog/text-read" method="post">
            <input type="image" name="submit" src="button.gif" />
        </form> 
        <form></form>   
    </body> 
 </html>"###,
    ));
    let mut valid = true;

    for x in &audit {
        if x.code == "WCAGAAA.Principle1.Guideline1_1.H36" {
            valid = false;
            break;
        }
    }

    assert_eq!(valid, false)
}

#[test]
/// img has empty alt and title
fn _audit_form_submit_img_has_alt_and_title() {
    let audit = full_audit(AuditConfig::basic(
        r###"<html xmlns="http://www.w3.org/1999/xhtml" lang="en">
    <head>     
       <title>Contains Title with Alt: Do not Use.</title>
    </head>   
    <body>     
        <img src="newsletter.gif" alt="" title="empty newsletter"/>
    </body> 
 </html>"###,
    ));
    let mut valid = true;

    for x in &audit {
        if x.code == "WCAGAAA.Principle1.Guideline1_1.H67" {
            valid = false;
            break;
        }
    }

    assert_eq!(valid, false)
}

#[test]
fn image_without_alt_is_the_only_issue() {
    let audit = plain(AuditConfig::basic(
        r#"<html lang="en"><head><title>T</title></head><body><img src="x.png"></body></html>"#,
    ));
    let h37: Vec<_> = audit.iter().filter(|x| x.code.ends_with(".H37")).collect();
    assert_eq!(h37.len(), 1);
    assert_eq!(h37[0].code, "WCAGAAA.Principle1.Guideline1_1.H37");
    assert_eq!(h37[0].selectors, vec!["img".to_string()]);
    assert!(!audit.iter().any(|x| x.code.ends_with(".H57")));
    assert!(!audit.iter().any(|x| x.code.ends_with(".H25")));
    assert_eq!(audit.len(), 1);
}

#[test]
fn presentation_image_needs_no_alt() {
    let audit = plain(AuditConfig::basic(
        r#"<html lang="en"><head><title>T</title></head><body><img src="x.png" role="presentation"></body></html>"#,
    ));
    assert!(audit.is_empty());
}
