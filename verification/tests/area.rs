//! Image maps.

use accessibility_rs::i18n::locales::{Catalog, Messages};
use accessibility_rs::AuditConfig;
use accessibility_rs::engine::issue::Issue;
use accessibility_rs::engine::rules::contrast::Measure;

/// The audit as a caller runs it: it works out the contrast ratios that the library asks
/// for and hands them to the library.
fn full_audit_with_catalog(config: AuditConfig, catalog: Catalog) -> Vec<Issue> {
    let measures = accessibility_rs::contrast_pairs_for(&config)
        .iter()
        .map(|pair| {
            let ratio: f32 = contrast::contrast(
                rgb::RGB8::from([pair.background.red, pair.background.green, pair.background.blue]),
                rgb::RGB8::from([pair.text.red, pair.text.green, pair.text.blue]),
            );
            Measure {
                ratio_bits: ratio.to_bits(),
                ratio: ratio.to_string(),
            }
        })
        .collect();
    accessibility_rs::audit(config, catalog, None, measures)
}

/// The audit with its contrast ratios and without messages.
fn full_audit(config: AuditConfig) -> Vec<Issue> {
    full_audit_with_catalog(config, Catalog::new())
}

#[test]
fn _audit_missing_alt_area() {
    //alt attribute missing on first <area> tag
    let html = r#"
    <img src="workplace.jpg" alt="Workplace" usemap="\#workmap" width="400" height="379">
    <map name="workmap" alt="workplace image map" >
      <area shape="rect" coords="34,44,270,350"  href="computer.htm">
      <area shape="rect" coords="290,172,333,250" alt="Phone" href="phone.htm">
      <area shape="circle" coords="337,300,44" alt="Cup of coffee" href="coffee.htm">
    </map>"#;
    let mut catalog = Catalog::new();
    catalog.insert(
        "1_1_1_H24.ImageMapAreaNoAlt",
        Messages::english("1_1_1_H24.ImageMapAreaNoAlt"),
    );
    let audit: Vec<accessibility_rs::engine::issue::Issue> =
        full_audit_with_catalog(AuditConfig::basic(html), catalog);

    let valid = audit
        .iter()
        .any(|x| x.message == "1_1_1_H24.ImageMapAreaNoAlt");

    assert_eq!(valid, true)
}

#[test]
fn _audit_missing_alt_map() {
    // alt attribute missing on <map> tag
    let html = r#"
    <img src="workplace.jpg" alt="Workplace" usemap="\#workmap" width="400" height="379">
    <map name="workmap">
      <area shape="rect" coords="34,44,270,350" alt="Computer"  href="computer.htm">
      <area shape="rect" coords="290,172,333,250" alt="Phone" href="phone.htm">
      <area shape="circle" coords="337,300,44" alt="Cup of coffee" href="coffee.htm">
    </map>"#;
    let mut catalog = Catalog::new();
    catalog.insert(
        "1_1_1_H24.ImageMapNoAlt",
        Messages::english("1_1_1_H24.ImageMapNoAlt"),
    );
    let audit: Vec<accessibility_rs::engine::issue::Issue> =
        full_audit_with_catalog(AuditConfig::basic(html), catalog);

    let valid = audit.iter().any(|x| x.message == "1_1_1_H24.ImageMapNoAlt");

    assert_eq!(valid, true)
}

#[test]
fn area_without_alt_is_listed_by_position() {
    let html = r#"<html lang="en"><head><title>T</title></head><body><map name="m" alt="m"><area href="a.htm"><area alt="b" href="b.htm"></map></body></html>"#;
    let audit = full_audit(AuditConfig::basic(html));
    let found: Vec<_> = audit
        .iter()
        .filter(|x| x.code == "WCAGAAA.Principle1.Guideline1_1.H24")
        .collect();
    assert_eq!(found.len(), 1);
    assert_eq!(found[0].context, "area");
    assert_eq!(found[0].selectors, vec!["map>:nth-child(1)".to_string()]);
    assert_eq!(found[0].message, "");
}
