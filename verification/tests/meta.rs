//! Meta data, frames and the blink element.

use accessibility_rs::dom::document::Document;
use accessibility_rs::engine::audit::auditor::Auditor;
use accessibility_rs::AuditConfig;
use accessibility_rs::engine::issue::Issue;
use accessibility_rs::engine::rules::contrast::Measure;
use accessibility_rs::i18n::locales::Catalog;

/// The audit as a caller runs it: it works out the contrast ratios that the library asks
/// for and hands them to the library.
fn full_audit_with_catalog(config: AuditConfig, catalog: Catalog) -> Vec<Issue> {
    let measures = accessibility_rs::contrast_pairs_for(&config)
        .iter()
        .map(|pair| {
            let ratio: f32 = contrast::contrast(
                rgb::RGB8::from([pair.background.red, pair.background.green, pair.background.blue]),
                rgb::RGB8::from([pair.text.red, pair.text.green, pair.text.blue]),
            );
            Measure {
                ratio_bits: ratio.to_bits(),
                ratio: ratio.to_string(),
            }
        })
        .collect();
    accessibility_rs::audit(config, catalog, None, measures)
}

/// The audit with its contrast ratios and without messages.
fn full_audit(config: AuditConfig) -> Vec<Issue> {
    full_audit_with_catalog(config, Catalog::new())
}

/// The audit without contrast ratios: the contrast rule judges nothing.
fn plain_with_catalog(config: AuditConfig, catalog: Catalog) -> Vec<Issue> {
    accessibility_rs::audit(config, catalog, None, Vec::new())
}

/// The audit without contrast ratios and without messages.
fn plain(config: AuditConfig) -> Vec<Issue> {
    plain_with_catalog(config, Catalog::new())
}

#[test]
/// meta refresh redirect
fn _audit_meta_refresh() {
    let audit = full_audit(AuditConfig::basic(
        r###"<html xmlns="http://www.w3.org/1999/xhtml" lang="en">
       <head>     
          <title>Do not use this!</title>     
          <meta http-equiv="refresh"
          content="5; url=http://www.example.com/newpage" />   
       </head>   
       <body>     
          <p>       
             If your browser supports Refresh, you'll be       
             transported to our        
             <a href="http://www.example.com/newpage">new site</a>        
             in 5 seconds, otherwise, select the link manually.     
          </p>   
       </body> 
    </html>"###,
    ));
    let mut valid = true;

    for x in &audit {
        if x.code == "WCAGAAA.Principle2.Guideline2_2.F40" {
            valid = false;
            break;
        }
    }

    assert_eq!(valid, false);

    let audit = full_audit(AuditConfig::basic(
        r###"<html xmlns="http://www.w3.org/1999/xhtml" lang="en">
<head>     
  <title>HTML Techniques for WCAG 2.0</title>     
  <meta http-equiv="refresh" content="60" />   
</head>   
<body>
</body> 
</html>"###,
    ));
    let mut valid = true;

    for x in &audit {
        if x.code == "WCAGAAA.Principle3.Guideline2_2.F41" {
            valid = false;
            break;
        }
    }

    assert_eq!(valid, false);
}

#[test]
/// no blink elements
fn _audit_blink_found() {
    let audit = full_audit(AuditConfig::basic(
        r###"<html xmlns="http://www.w3.org/1999/xhtml" lang="en">
<head>     
   <title>Do not use this!</title>      
</head>   
<body>     
<p>My Great Product <blink>Sale! $44,995!</blink></p>  
</body> 
</html>"###,
    ));
    let mut valid = true;

    for x in &audit {
        if x.code == "WCAGAAA.Principle2.Guideline2_2.F47" {
            valid = false;
            break;
        }
    }

    assert_eq!(valid, false);
}

#[test]
/// iframe missing title
fn _iframe_missing_title() {
    let audit = full_audit(AuditConfig {
        html: r###"<html xmlns="http://www.w3.org/1999/xhtml">
        <head>
          <title>A simple frameset document</title>
        </head>
        <frameset cols="10%, 90%">
          <frame src="nav.html" title="Main menu" />
          <frame src="doc.html" title="Documents" />
          <noframes>
            <body>
              <a href="lib.html" title="Library link">Select to
              go to the electronic library</a>
            </body>
          </noframes>
        </frameset>
      </html>"###
            .into(),
        ..Default::default()
    });
    let mut valid = true;

    for x in &audit {
        if x.code == "WCAGAAA.Principle2.Guideline2_4.H64" {
            valid = false;
            break;
        }
    }

    // this should be valid
    assert_eq!(valid, true);

    let config = AuditConfig::new(
        r###"<html xmlns="http://www.w3.org/1999/xhtml">
    <head>
      <title>A simple frameset document</title>
    </head>
    <frameset cols="10%, 90%">
      <frame src="nav.html" />
      <frame src="doc.html" id="doc" />
      <noframes>
        <body>
          <a href="lib.html" title="Library link">Select to
          go to the electronic library</a>
        </body>
      </noframes>
    </frameset>
  </html>"###,
        &"",
        false,
        "en",
    );
    let audit = full_audit(config);
    let mut valid = true;

    for x in &audit {
        if x.code == "WCAGAAA.Principle2.Guideline2_4.H64" {
            valid = false;
            break;
        }
    }

    assert_eq!(valid, false);
    let config = AuditConfig::new(
        r###" <html xmlns="http://www.w3.org/1999/xhtml">
    <head>
      <title>A document using iframe</title>
    </head>
  <iframe src="banner-ad.html" id="testiframe" 
    name="testiframe" title="Advertisement">
      <a href="banner-ad.html">Advertisement</a>
  </iframe>
  </html>"###,
        &"",
        false,
        "en",
    );

    let audit = full_audit(config);
    let mut valid = true;

    for x in &audit {
        if x.code == "WCAGAAA.Principle2.Guideline2_4.H64" {
            valid = false;
            break;
        }
    }

    assert_eq!(valid, true);
}

#[test]
/// incorrect xml:lang
fn _xml_lang_incorrect_format() {
    let audit = full_audit(AuditConfig::basic(
        r###"<html xmlns="http://www.w3.org/1999/xhtml" xml:lang="en_3">
<head>     
   <title>Do not use this!</title>      
</head>   
<body>     
</body> 
</html>"###,
    ));
    let mut valid = true;

    for x in &audit {
        if x.code == "WCAGAAA.Principle3.Guideline3_1.H57" {
            valid = false;
            break;
        }
    }

    assert_eq!(valid, false);
}

fn refresh_codes(content: &str) -> Vec<String> {
    let html = format!(
        r#"<html lang="en"><head><title>T</title><meta http-equiv="refresh" content="{}"></head><body></body></html>"#,
        content
    );
    full_audit(AuditConfig::basic(&html))
        .into_iter()
        .map(|x| x.code)
        .collect()
}

#[test]
fn refresh_with_delay_and_target_is_a_timed_redirect() {
    assert_eq!(
        refresh_codes("5; url=http://x"),
        vec!["WCAGAAA.Principle2.Guideline2_2.F40".to_string()]
    );
}

#[test]
fn refresh_with_delay_alone_is_a_timed_refresh() {
    assert_eq!(
        refresh_codes("60"),
        vec!["WCAGAAA.Principle3.Guideline2_2.F41".to_string()]
    );
}

#[test]
fn refresh_at_once_is_no_issue() {
    assert!(refresh_codes("0").is_empty());
    assert!(refresh_codes("0; url=http://x").is_empty());
}

#[test]
fn missing_and_empty_titles_are_told_apart() {
    let audit = plain(AuditConfig::basic(
        r#"<html lang="en"><head></head><body></body></html>"#,
    ));
    assert_eq!(audit.len(), 2);
    assert_eq!(audit[0].code, "WCAGAAA.Principle2.Guideline2_4.H25");
    assert_eq!(audit[0].context, "html");
    assert_eq!(audit[1].code, "WCAGAAA.Principle2.Guideline2_4.H25");
    assert_eq!(audit[1].context, "title");
    let audit = plain(AuditConfig::basic(
        r#"<html lang="en"><head><title>  </title></head><body></body></html>"#,
    ));
    assert_eq!(audit.len(), 1);
    assert_eq!(audit[0].code, "WCAGAAA.Principle2.Guideline2_4.H25");
    assert_eq!(audit[0].context, "title");
}

#[test]
fn fragment_without_title_is_not_asked_for_one() {
    let document = Document::parse_document("<html><head></head><body></body></html>");
    let auditor = Auditor::new(&document, "", None, "en");
    assert!(auditor.tree.get("title").is_some());
    assert!(auditor.tree.get("").is_none());
    assert_eq!(auditor.tree.len(), 4);
}

#[test]
fn object_with_text_fails() {
    let audit = plain(AuditConfig::basic(
        r#"<html lang="en"><head><title>T</title></head><body><object data="a.swf">text</object><object data="b.swf"></object></body></html>"#,
    ));
    assert_eq!(audit.len(), 1);
    assert_eq!(audit[0].code, "WCAGAAA.Principle1.Guideline1_1.F47");
    assert_eq!(audit[0].selectors, vec!["body>:nth-child(1)".to_string()]);
}
