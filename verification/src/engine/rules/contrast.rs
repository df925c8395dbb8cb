//! The contrast of text against its background.
//!
//! The library finds the pairs of colours to compare. The contrast ratio of a pair is a
//! number with a fraction, which the caller works out and hands back; the library then
//! decides which pairs fail.

use vstd::prelude::*;
use crate::dom::document::{Document, ElementRef};
use crate::dom::html::is_element;
use crate::engine::rules::wcag_rule_map::{found_below, select_below_text};
use crate::engine::rules::rule::{Validation, ValidationModel};
use crate::engine::rules::utils::nodes::{nodes_wf, ElementNodes};
use crate::engine::rules::wcag_base::Guideline;
use crate::engine::styles::cascade::{style_for_element_ref, style_of};
use crate::engine::styles::style_set::{EntryModel, StyleSet};
use crate::engine::styles::values::{Color, Rgba};
use crate::i18n::locales::{get_message_i18n_str_raw, message_key, Catalog};
use crate::text::{replace_all, replaced, str_eq};

verus! {

/// An element whose text is to be compared with the background that it stands on.
#[derive(Debug, Clone, Copy, PartialEq, Eq, Structural)]
pub struct ContrastPair {
    /// The element.
    pub element: ElementRef,
    /// The colour of its text.
    pub text: Rgba,
    /// The colour of the background of its parent.
    pub background: Rgba,
    /// Whether its font is larger than sixteen pixels.
    pub large: bool,
}

/// The contrast ratio of a pair, as the caller worked it out.
pub struct Measure {
    /// The ratio as the bit pattern of a single-precision binary number of IEEE 754. A
    /// ratio is positive, and the bit patterns of positive numbers stand in the order of
    /// the numbers.
    pub ratio_bits: u32,
    /// The ratio as it is to be written in messages.
    pub ratio: String,
}

/// A measure as plain values.
pub struct MeasureModel {
    pub ratio_bits: u32,
    pub ratio: Seq<char>,
}

impl View for Measure {
    type V = MeasureModel;

    open spec fn view(&self) -> MeasureModel {
        MeasureModel { ratio_bits: self.ratio_bits, ratio: self.ratio@ }
    }
}

/// The measures of a sequence as plain values.
pub open spec fn measure_views(measures: Seq<Measure>) -> Seq<MeasureModel> {
    Seq::new(measures.len(), |i: int| measures[i]@)
}

/// Whether the text of elements with this tag name is held to the contrast rule.
pub open spec fn qualifies(name: Seq<char>) -> bool {
    ||| name == "h1"@
    ||| name == "h2"@
    ||| name == "h3"@
    ||| name == "h4"@
    ||| name == "h5"@
    ||| name == "h6"@
    ||| name == "a"@
    ||| name == "button"@
    ||| name == "p"@
    ||| name == "img"@
    ||| name == "span"@
    ||| name == "div"@
    ||| name == "li"@
    ||| name == "ol"@
    ||| name == "td"@
    ||| name == "th"@
    ||| name == "tr"@
    ||| name == "textarea"@
    ||| name == "select"@
    ||| name == "input"@
}

/// The pair for element `node`: there is one where the element has a qualifying tag name
/// and its parent is an element whose background is a colour of its own.
pub open spec fn pair_of(author: Seq<EntryModel>, doc: &Document, node: int) -> Option<
    ContrastPair,
> {
    let n = doc.nodes()[node];
    if qualifies(n.name) && n.parent is Some && is_element(doc.tree, n.parent->0) {
        let style = style_of(author, doc, node);
        match style_of(author, doc, n.parent->0).background_color {
            Color::Rgba(background) => Some(
                ContrastPair {
                    element: ElementRef { node: node as usize },
                    text: style.color,
                    background,
                    large: style.font_size > 16_000,
                },
            ),
            Color::CurrentColor => None,
        }
    } else {
        None
    }
}

/// The pairs for the first `upto` of the elements `found`.
pub open spec fn found_pairs(author: Seq<EntryModel>, doc: &Document, found: Seq<int>, upto: int) -> Seq<
    ContrastPair,
>
    decreases upto,
{
    if upto <= 0 {
        Seq::empty()
    } else {
        let before = found_pairs(author, doc, found, upto - 1);
        match pair_of(author, doc, found[upto - 1]) {
            Some(pair) => before.push(pair),
            None => before,
        }
    }
}

/// The pairs for the elements below the first `upto` of `nodes`: for each of `nodes` those
/// of all elements below it, in tree order.
pub open spec fn bucket_pairs(
    author: Seq<EntryModel>,
    doc: &Document,
    nodes: Seq<(ElementRef, Option<u64>)>,
    upto: int,
) -> Seq<ContrastPair>
    decreases upto,
{
    if upto <= 0 {
        Seq::empty()
    } else {
        let below = found_below(doc, nodes[upto - 1].0.node as int, "*"@);
        bucket_pairs(author, doc, nodes, upto - 1) + found_pairs(
            author,
            doc,
            below,
            below.len() as int,
        )
    }
}

/// The bit pattern of the ratio that a pair has to reach: that of three for large text,
/// that of four for other text.
pub open spec fn threshold_bits(large: bool) -> u32 {
    if large {
        0x4040_0000u32
    } else {
        0x4080_0000u32
    }
}

/// The ratio that a pair has to reach, as it is written in messages.
pub open spec fn threshold_text(large: bool) -> Seq<char> {
    if large {
        "3"@
    } else {
        "4"@
    }
}

/// The key under which the catalog holds the pattern of the contrast message.
pub open spec fn contrast_key() -> Seq<char> {
    message_key(Guideline::Distinguishable, Seq::empty(), "3_G18_or_G145.Fail"@, Seq::empty())
}

/// The verdict on a pair whose ratio is below what is required: failed, with the
/// pattern of the catalog as its message, the required ratio and the ratio of the pair
/// written into it.
pub open spec fn contrast_verdict(pair: ContrastPair, measure: MeasureModel, pattern: Seq<char>) -> ValidationModel {
    ValidationModel {
        valid: false,
        id: ""@,
        elements: Seq::empty(),
        message: replaced(
            replaced(pattern, "%{required}"@, threshold_text(pair.large)),
            "%{value}"@,
            measure.ratio,
        ),
    }
}

/// The verdicts on the first `upto` pairs: one for each pair whose ratio is below what is
/// required, in order.
pub open spec fn verdicts_upto(
    pairs: Seq<ContrastPair>,
    measures: Seq<MeasureModel>,
    pattern: Seq<char>,
    upto: int,
) -> Seq<ValidationModel>
    decreases upto,
{
    if upto <= 0 {
        Seq::empty()
    } else {
        let before = verdicts_upto(pairs, measures, pattern, upto - 1);
        if measures[upto - 1].ratio_bits < threshold_bits(pairs[upto - 1].large) {
            before.push(contrast_verdict(pairs[upto - 1], measures[upto - 1], pattern))
        } else {
            before
        }
    }
}

/// The verdicts on pairs with their measures. Pairs without a measure, and measures
/// without a pair, are not judged.
pub open spec fn contrast_verdicts(
    pairs: Seq<ContrastPair>,
    measures: Seq<MeasureModel>,
    pattern: Seq<char>,
) -> Seq<ValidationModel> {
    verdicts_upto(
        pairs,
        measures,
        pattern,
        if pairs.len() <= measures.len() {
            pairs.len() as int
        } else {
            measures.len() as int
        },
    )
}

/// Whether the text of elements with this tag name is held to the contrast rule.
pub fn is_qualifying(name: &str) -> (q: bool)
    ensures
        q == qualifies(name@),
{
    str_eq(name, "h1") || str_eq(name, "h2") || str_eq(name, "h3") || str_eq(name, "h4") || str_eq(
        name,
        "h5",
    ) || str_eq(name, "h6") || str_eq(name, "a") || str_eq(name, "button") || str_eq(name, "p")
        || str_eq(name, "img") || str_eq(name, "span") || str_eq(name, "div") || str_eq(name, "li")
        || str_eq(name, "ol") || str_eq(name, "td") || str_eq(name, "th") || str_eq(name, "tr")
        || str_eq(name, "textarea") || str_eq(name, "select") || str_eq(name, "input")
}

/// The pairs of colours to compare for the elements of a bucket: one for each element
/// with a qualifying tag name below each element of the bucket, in order.
pub fn collect_pairs(nodes: &ElementNodes, author: &StyleSet, document: &Document) -> (pairs: Vec<
    ContrastPair,
>)
    requires
        nodes_wf(document, nodes@),
        author.wf(),
    ensures
        pairs@ == bucket_pairs(author@, document, nodes@, nodes@.len() as int),
{
    let mut pairs: Vec<ContrastPair> = Vec::new();
    let mut i: usize = 0;
    while i < nodes.len()
        invariant
            i <= nodes@.len(),
            nodes_wf(document, nodes@),
            author.wf(),
            pairs@ == bucket_pairs(author@, document, nodes@, i as int),
        decreases nodes@.len() - i,
    {
        let node = nodes[i].0;
        let found = select_below_text(document, node, "*");
        let ghost below = found_below(document, node.node as int, "*"@);
        let ghost start = pairs@;
        let mut k: usize = 0;
        assert(start + found_pairs(author@, document, below, 0) =~= start);
        while k < found.len()
            invariant
                k <= found@.len(),
                found@.len() == below.len(),
                author.wf(),
                forall|j: int| 0 <= j < found@.len() ==> (#[trigger] found@[j]).node == below[j],
                forall|j: int| 0 <= j < found@.len() ==> (#[trigger] found@[j]).wf(document),
                pairs@ == start + found_pairs(author@, document, below, k as int),
            decreases found@.len() - k,
        {
            let element = found[k];
            assert(below[k as int] == element.node);
            if is_qualifying(element.name(document).as_str()) {
                match element.parent_element(document) {
                    Some(parent) => {
                        let up = style_for_element_ref(&parent, author, document);
                        match up.background_color {
                            Color::Rgba(background) => {
                                let style = style_for_element_ref(&element, author, document);
                                pairs.push(
                                    ContrastPair {
                                        element,
                                        text: style.color,
                                        background,
                                        large: style.font_size > 16_000,
                                    },
                                );
                                assert(pairs@ =~= start + found_pairs(
                                    author@,
                                    document,
                                    below,
                                    k + 1,
                                ));
                            },
                            Color::CurrentColor => {},
                        }
                    },
                    None => {},
                }
            }
            k += 1;
        }
        i += 1;
    }
    pairs
}

/// The verdicts on pairs with their measures, with messages after the pattern that the
/// catalog holds for the locale.
pub fn judge_pairs(pairs: &Vec<ContrastPair>, measures: &Vec<Measure>, catalog: &Catalog, locale: &str) -> (verdicts:
    Vec<Validation>)
    ensures
        crate::engine::rules::rule::validation_views(verdicts@) == contrast_verdicts(
            pairs@,
            measure_views(measures@),
            catalog.resolved(contrast_key(), locale@),
        ),
{
    proof {
        reveal_strlit("");
        assert(""@ =~= Seq::<char>::empty());
    }
    let key = get_message_i18n_str_raw(&Guideline::Distinguishable, "", "3_G18_or_G145.Fail", "");
    let pattern = catalog.resolve(key.as_str(), locale);
    let n = if pairs.len() <= measures.len() {
        pairs.len()
    } else {
        measures.len()
    };
    let mut verdicts: Vec<Validation> = Vec::new();
    let mut k: usize = 0;
    let ghost ms = measure_views(measures@);
    assert(crate::engine::rules::rule::validation_views(verdicts@) =~= verdicts_upto(
        pairs@,
        ms,
        pattern@,
        0,
    ));
    while k < n
        invariant
            k <= n,
            n <= pairs@.len(),
            n <= measures@.len(),
            ms == measure_views(measures@),
            crate::engine::rules::rule::validation_views(verdicts@) == verdicts_upto(
                pairs@,
                ms,
                pattern@,
                k as int,
            ),
        decreases n - k,
    {
        let ghost before = crate::engine::rules::rule::validation_views(verdicts@);
        let pair = pairs[k];
        assert(ms[k as int] == measures@[k as int]@);
        let limit: u32 = if pair.large {
            0x4040_0000u32
        } else {
            0x4080_0000u32
        };
        if measures[k].ratio_bits < limit {
            let required = if pair.large {
                "3"
            } else {
                "4"
            };
            let named = replace_all(pattern.as_str(), "%{required}", required);
            let message = replace_all(named.as_str(), "%{value}", measures[k].ratio.as_str());
            verdicts.push(Validation::new_custom_issue(false, "", message));
            assert(crate::engine::rules::rule::validation_views(verdicts@) =~= before.push(
                contrast_verdict(pairs@[k as int], ms[k as int], pattern@),
            ));
        }
        k += 1;
    }
    verdicts
}

} // verus!
