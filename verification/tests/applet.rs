//! Applets.

use accessibility_rs::AuditConfig;
use accessibility_rs::engine::issue::Issue;
use accessibility_rs::engine::rules::contrast::Measure;
use accessibility_rs::i18n::locales::Catalog;

/// The audit as a caller runs it: it works out the contrast ratios that the library asks
/// for and hands them to the library.
fn full_audit_with_catalog(config: AuditConfig, catalog: Catalog) -> Vec<Issue> {
    let measures = accessibility_rs::contrast_pairs_for(&config)
        .iter()
        .map(|pair| {
            let ratio: f32 = contrast::contrast(
                rgb::RGB8::from([pair.background.red, pair.background.green, pair.background.blue]),
                rgb::RGB8::from([pair.text.red, pair.text.green, pair.text.blue]),
            );
            Measure {
                ratio_bits: ratio.to_bits(),
                ratio: ratio.to_string(),
            }
        })
        .collect();
    accessibility_rs::audit(config, catalog, None, measures)
}

/// The audit with its contrast ratios and without messages.
fn full_audit(config: AuditConfig) -> Vec<Issue> {
    full_audit_with_catalog(config, Catalog::new())
}

#[test]
/// missing applet alt
fn _audit_missing_applet_alt() {
    let audit = full_audit(AuditConfig::basic(
        r###"<html lang="en">
       <head>     
          <title>Missing applet alt: Do not use this!</title>
       </head>   
       <body>     
        <applet code="tictactoe.class" width="250" height="250">
                tic-tac-toe game
            </applet>    
       </body> 
    </html>"###,
    ));
    let mut valid = true;

    for x in &audit {
        if x.code == "WCAGAAA.Principle1.Guideline1_1.H35" {
            valid = false;
            break;
        }
    }

    assert_eq!(valid, false)
}

#[test]
/// missing applet body
fn _audit_missing_applet_body() {
    let audit = full_audit(AuditConfig::basic(
        r###"<html lang="en">
       <head>     
          <title>Missing applet alt: Do not use this!</title>
       </head>   
       <body>     
        <applet code="tictactoe.class" width="250" height="250" alt="tic tac toe"></applet>    
       </body> 
    </html>"###,
    ));
    let mut valid = true;

    for x in &audit {
        if x.code == "WCAGAAA.Principle1.Guideline1_1.H35" {
            valid = false;
            break;
        }
    }

    assert_eq!(valid, false)
}

#[test]
fn applet_with_alt_and_body_passes() {
    let audit = full_audit(AuditConfig::basic(
        r#"<html lang="en"><head><title>T</title></head><body><applet code="t.class" alt="game">a game</applet></body></html>"#,
    ));
    assert!(!audit.iter().any(|x| x.code.ends_with(".H35")));
}
