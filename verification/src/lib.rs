//! Audits of HTML documents against the success criteria of WCAG.
//!
//! [`audit`] parses a document, indexes its elements by tag name, runs the rules of every
//! tag and returns what they find as a list of issues. Layout boxes and contrast ratios are
//! numbers with fractions, which the caller works out: [`layout_plan_for`] and
//! [`contrast_pairs_for`] say what to work out, and [`audit`] takes the results.

pub mod dom;
pub mod engine;
pub mod i18n;
pub mod text;

use vstd::prelude::*;
use crate::dom::document::Document;
use crate::dom::html::{nodes_of, parsed};
use crate::engine::audit::audit_utils::issue_views;
use crate::engine::audit::auditor::{author_sheets, box_handles, Auditor};
use crate::engine::audit::laws::audit_is_repeatable;
use crate::engine::audit::tree::elements_named;
use crate::engine::audit::wcag::{audit_issues, WCAGAAA};
use crate::engine::issue::{Issue, IssueModel};
use crate::engine::rules::contrast::{
    bucket_pairs, measure_views, ContrastPair, Measure, MeasureModel,
};
use crate::engine::styles::layout::{layout_plan, request_of, LeafRequest};
use crate::engine::styles::style_set::{with_sheets, EntryModel};
use crate::i18n::locales::{Catalog, Messages};

verus! {

/// The guidelines that an audit holds a document to.
#[derive(Default)]
pub enum Conformance {
    /// Level AAA, which includes the requirements of the levels A and AA.
    #[default]
    WCAGAAA,
}

/// What to audit, and how.
pub struct AuditConfig<'a> {
    /// The markup of the document.
    pub html: &'a str,
    /// Style sheet rules to use in place of those of the document.
    pub css: &'a str,
    /// Whether the boxes of the elements are wanted.
    pub bounding_box: bool,
    /// The locale of the messages.
    pub locale: &'a str,
    /// The guidelines to audit against.
    pub conformance: Conformance,
}

impl<'a> Default for AuditConfig<'a> {
    /// No markup, no style sheet rules, no boxes, messages in English.
    fn default() -> (config: Self)
        ensures
            config.html@.len() == 0,
            config.css@.len() == 0,
            !config.bounding_box,
            config.locale@ == "en"@,
    {
        proof {
            reveal_strlit("");
        }
        AuditConfig {
            html: "",
            css: "",
            bounding_box: false,
            locale: "en",
            conformance: Conformance::WCAGAAA,
        }
    }
}

impl<'a> AuditConfig<'a> {
    /// A configuration with all its parts given.
    pub fn new(html: &'a str, css: &'a str, bounding_box: bool, locale: &'a str) -> (config: Self)
        ensures
            config.html == html,
            config.css == css,
            config.bounding_box == bounding_box,
            config.locale == locale,
    {
        AuditConfig { html, css, bounding_box, locale, conformance: Conformance::WCAGAAA }
    }

    /// A configuration for the markup alone: no style sheet rules, no boxes, messages in
    /// English.
    pub fn basic(html: &'a str) -> (config: Self)
        ensures
            config.html == html,
            config.css@.len() == 0,
            !config.bounding_box,
            config.locale@ == "en"@,
    {
        proof {
            reveal_strlit("");
        }
        AuditConfig {
            html,
            css: "",
            bounding_box: false,
            locale: "en",
            conformance: Conformance::WCAGAAA,
        }
    }

    /// A configuration for a whole website. This library audits markup that it is given and
    /// fetches nothing, so the arguments are not looked at and the configuration is the
    /// default one.
    pub fn new_website(_url: &'a str, _css: &'a str, _bounding_box: bool, _locale: &'a str) -> (config:
        Self)
        ensures
            config.html@.len() == 0,
            config.css@.len() == 0,
            !config.bounding_box,
            config.locale@ == "en"@,
    {
        proof {
            reveal_strlit("");
        }
        AuditConfig {
            html: "",
            css: "",
            bounding_box: false,
            locale: "en",
            conformance: Conformance::WCAGAAA,
        }
    }
}

/// Whether `auditor` is an auditor for the document that `html` parses to, with the style
/// sheet `css` (with those inside the document where `css` is empty), for the locale
/// `locale`, with the messages `messages`, the layout boxes `boxes` and the contrast
/// ratios `measures`.
pub open spec fn audits(
    auditor: &Auditor,
    html: Seq<char>,
    css: Seq<char>,
    locale: Seq<char>,
    messages: Seq<(String, Messages)>,
    boxes: Option<Seq<u64>>,
    measures: Seq<MeasureModel>,
) -> bool {
    &&& auditor.wf()
    &&& auditor.document.tree == parsed(html)
    &&& box_handles(auditor.boxes) == boxes
    &&& auditor.locale@ == locale
    &&& auditor.catalog.entries@ == messages
    &&& auditor.author.sources() == author_sheets(auditor.document, css)
    &&& measure_views(auditor.measures@) == measures
}

/// The issues of the audit of the document that `html` parses to: those of an auditor that
/// [`audits`] describes. All such auditors find the same issues in the same order.
pub open spec fn audit_result(
    html: Seq<char>,
    css: Seq<char>,
    locale: Seq<char>,
    messages: Seq<(String, Messages)>,
    boxes: Option<Seq<u64>>,
    measures: Seq<MeasureModel>,
) -> Seq<IssueModel> {
    let auditor = choose|auditor: Auditor|
        audits(&auditor, html, css, locale, messages, boxes, measures);
    audit_issues(&auditor)
}

/// The handles that an audit attaches to the document that `html` parses to: those given,
/// where boxes are wanted and there is one handle for each node, and none else.
pub open spec fn fitting(html: Seq<char>, wanted: bool, boxes: Option<Seq<u64>>) -> Option<
    Seq<u64>,
> {
    match boxes {
        Some(b) => if wanted && b.len() == nodes_of(parsed(html)).len() {
            Some(b)
        } else {
            None
        },
        None => None,
    }
}

/// Audits a document: parses the markup, indexes the elements, runs the rules of every tag
/// and returns what they find.
///
/// What an audit needs from outside the library, the caller brings along:
/// - the messages of the issues, in `catalog`;
/// - where the configuration asks for boxes, the handles of the layout boxes that the
///   caller laid out after [`layout_plan_for`], one for each node;
/// - the contrast ratios that the caller worked out for the pairs of
///   [`contrast_pairs_for`], one for each pair and in their order.
///
/// The contrast rule raises an issue for each pair whose ratio is below what is required.
/// A pair without a ratio is not judged.
pub fn audit(
    config: AuditConfig,
    catalog: Catalog,
    boxes: Option<Vec<u64>>,
    measures: Vec<Measure>,
) -> (issues: Vec<Issue>)
    ensures
        issue_views(issues@) == audit_result(
            config.html@,
            config.css@,
            config.locale@,
            catalog.entries@,
            fitting(config.html@, config.bounding_box, box_handles(boxes)),
            measure_views(measures@),
        ),
{
    let ghost messages = catalog.entries@;
    let ghost ratios = measure_views(measures@);
    let ghost handles = fitting(config.html@, config.bounding_box, box_handles(boxes));
    let document = Document::parse_document(config.html);
    let attached = match boxes {
        Some(b) => if config.bounding_box && b.len() == document.len() {
            Some(b)
        } else {
            None
        },
        None => None,
    };
    let mut auditor = Auditor::new(&document, config.css, attached, config.locale);
    auditor.catalog = catalog;
    auditor.measures = measures;
    proof {
        assert(audits(&auditor, config.html@, config.css@, config.locale@, messages, handles, ratios));
        let chosen = choose|a: Auditor|
            audits(&a, config.html@, config.css@, config.locale@, messages, handles, ratios);
        assert(chosen.document.tree == auditor.document.tree);
        audit_is_repeatable(&auditor, &chosen);
    }
    WCAGAAA::audit(&auditor)
}

/// The document that `html` parses to.
pub open spec fn document_of(html: Seq<char>) -> Document {
    Document { tree: parsed(html) }
}

/// The style rules of an audit of `doc` with the style sheet `css`, in the order in which
/// the cascade applies them.
pub open spec fn style_entries(doc: &Document, css: Seq<char>) -> Seq<EntryModel> {
    with_sheets(author_sheets(doc, css), author_sheets(doc, css).len() as int)
}

/// The leaves to lay out for the document of `config`: one request for each node. The
/// caller builds the leaves, solves the layout and hands one handle for each node to
/// [`audit`].
pub fn layout_plan_for(config: &AuditConfig) -> (plan: Vec<LeafRequest>)
    ensures
        plan@.len() == nodes_of(parsed(config.html@)).len(),
        forall|i: int|
            0 <= i < plan@.len() ==> (#[trigger] plan@[i])@ == request_of(
                style_entries(&document_of(config.html@), config.css@),
                &document_of(config.html@),
                i,
            ),
{
    let document = Document::parse_document(config.html);
    assert(document == document_of(config.html@));
    let author = Auditor::collect_sheets(&document, config.css);
    layout_plan(&document, &author)
}

/// The pairs of colours that the contrast rule compares in the document of `config`, in
/// the order in which it compares them: those of the elements below the `body` elements. The
/// caller works out the contrast ratio of each pair and hands the ratios to [`audit`].
pub fn contrast_pairs_for(config: &AuditConfig) -> (pairs: Vec<ContrastPair>)
    ensures
        pairs@ == bucket_pairs(
            style_entries(&document_of(config.html@), config.css@),
            &document_of(config.html@),
            elements_named(
                &document_of(config.html@),
                "body"@,
                None,
                nodes_of(parsed(config.html@)).len() as int,
            ),
            elements_named(
                &document_of(config.html@),
                "body"@,
                None,
                nodes_of(parsed(config.html@)).len() as int,
            ).len() as int,
        ),
{
    let document = Document::parse_document(config.html);
    assert(document == document_of(config.html@));
    let auditor = Auditor::new(&document, config.css, None, config.locale);
    auditor.contrast_pairs()
}

} // verus!
