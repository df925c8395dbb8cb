//! Style rules: selectors with a block of declarations.

use vstd::prelude::*;
use crate::dom::selector::{read_selector, CssSelector};
use crate::engine::styles::declaration_block::{
    block_declarations, prefix_index, Declaration, DeclarationBlock,
};
use crate::engine::styles::errors::RuleParseErrorKind;
use crate::engine::styles::scan::{find_char, first_index, first_index_bounds, trim_range, trimmed};
use crate::engine::styles::specificity::{specificity, specificity_of, Counts, Specificity};
use crate::engine::styles::values::slice;
use crate::text::{from_chars, to_chars};

verus! {

/// One selector of a style rule, with how specific it is.
pub struct StyleSelector {
    pub selector: CssSelector,
    pub specificity: Specificity,
}

/// A selector of a style rule as plain values.
pub struct SelectorModel {
    pub group: scraper::Selector,
    pub specificity: Counts,
}

/// A rule of a style sheet.
pub enum CssRule {
    /// Selectors and the declarations for the elements that one of them matches.
    StyleRule {
        /// The selectors, in the order in which they are written.
        selectors: Vec<StyleSelector>,
        /// The declarations.
        block: DeclarationBlock,
    },
}

/// A style rule as plain values.
pub struct StyleRuleModel {
    pub selectors: Seq<SelectorModel>,
    pub declarations: Seq<Declaration>,
}

/// The selectors of a sequence as plain values.
pub open spec fn selector_views(selectors: Seq<StyleSelector>) -> Seq<SelectorModel> {
    Seq::new(
        selectors.len(),
        |i: int|
            SelectorModel {
                group: selectors[i].selector.group,
                specificity: selectors[i].specificity@,
            },
    )
}

impl CssRule {
    /// The rule as plain values.
    pub open spec fn view(&self) -> StyleRuleModel {
        match self {
            CssRule::StyleRule { selectors, block } => StyleRuleModel {
                selectors: selector_views(selectors@),
                declarations: block@,
            },
        }
    }
}

/// The rules of a sequence as plain values.
pub open spec fn css_rule_views(rules: Seq<CssRule>) -> Seq<StyleRuleModel> {
    Seq::new(rules.len(), |i: int| rules[i]@)
}

/// The pieces of `s` from `pos` on that stand between the separators `sep`, each without
/// the white space at its ends.
pub open spec fn pieces_from(s: Seq<char>, sep: char, pos: int) -> Seq<Seq<char>>
    decreases s.len() - pos,
{
    if pos < 0 || pos > s.len() {
        Seq::empty()
    } else {
        let end = first_index(s, sep, pos);
        if end < pos || end >= s.len() {
            seq![trimmed(s.subrange(pos, s.len() as int))]
        } else {
            seq![trimmed(s.subrange(pos, end))] + pieces_from(s, sep, end + 1)
        }
    }
}

/// Whether each of `pieces` is a selector.
pub open spec fn all_selectors(pieces: Seq<Seq<char>>) -> bool {
    forall|i: int| 0 <= i < pieces.len() ==> read_selector(#[trigger] pieces[i]) is Ok
}

/// The selectors that `pieces` write.
pub open spec fn selectors_of(pieces: Seq<Seq<char>>) -> Seq<SelectorModel> {
    Seq::new(
        pieces.len(),
        |i: int|
            SelectorModel {
                group: read_selector(pieces[i])->Ok_0,
                specificity: specificity_of(pieces[i]),
            },
    )
}

/// The rule that a prelude and a block write: the selectors between the commas of the
/// prelude, with the declarations of the block. A prelude with a piece that is no selector
/// writes no rule.
pub open spec fn rule_of(prelude: Seq<char>, block: Seq<char>) -> Option<StyleRuleModel> {
    let pieces = pieces_from(prelude, ',', 0);
    if all_selectors(pieces) {
        Some(
            StyleRuleModel {
                selectors: selectors_of(pieces),
                declarations: block_declarations(block, 0),
            },
        )
    } else {
        None
    }
}

/// The rules of a style sheet from `pos` on. A rule is what stands before an opening brace
/// and what stands between that brace and the next closing brace; a rule that cannot be
/// read is left out, and reading goes on behind it.
pub open spec fn rules_from(css: Seq<char>, pos: int) -> Seq<StyleRuleModel>
    decreases css.len() - pos,
{
    if pos < 0 || pos >= css.len() {
        Seq::empty()
    } else {
        let open = first_index(css, '{', pos);
        if open < pos || open >= css.len() {
            Seq::empty()
        } else {
            let close = first_index(css, '}', open + 1);
            if close <= open || close > css.len() {
                Seq::empty()
            } else {
                let this = match rule_of(css.subrange(pos, open), css.subrange(open + 1, close)) {
                    Some(rule) => seq![rule],
                    None => Seq::empty(),
                };
                if close >= css.len() {
                    this
                } else {
                    this + rules_from(css, close + 1)
                }
            }
        }
    }
}

/// Reads selectors.
pub struct Parser;

impl Parser {
    /// Reads the selectors of a prelude: the pieces between its commas. One piece that is
    /// no selector makes the whole prelude fail.
    pub fn parse_selectors(prelude: &Vec<char>) -> (r: Result<Vec<StyleSelector>, RuleParseErrorKind>)
        ensures
            r is Ok <==> all_selectors(pieces_from(prelude@, ',', 0)),
            r matches Ok(selectors) ==> selector_views(selectors@) == selectors_of(
                pieces_from(prelude@, ',', 0),
            ),
    {
        let ghost all = pieces_from(prelude@, ',', 0);
        let mut selectors: Vec<StyleSelector> = Vec::new();
        let mut pos: usize = 0;
        loop
            invariant
                pos <= prelude.len(),
                selectors@.len() + pieces_from(prelude@, ',', pos as int).len() == all.len(),
                all == pieces_from(prelude@, ',', 0),
                forall|i: int|
                    0 <= i < pieces_from(prelude@, ',', pos as int).len() ==> #[trigger] all[selectors@.len()
                        + i] == pieces_from(prelude@, ',', pos as int)[i],
                forall|i: int| 0 <= i < selectors@.len() ==> read_selector(#[trigger] all[i]) is Ok,
                forall|i: int|
                    0 <= i < selectors@.len() ==> (#[trigger] selectors@[i]).selector.group
                        == read_selector(all[i])->Ok_0 && selectors@[i].specificity@
                        == specificity_of(all[i]),
            decreases prelude.len() - pos,
        {
            let ghost rest = pieces_from(prelude@, ',', pos as int);
            let end = find_char(prelude, ',', pos);
            let piece = trim_range(prelude, pos, end);
            proof {
                if end < prelude.len() {
                    let tail = pieces_from(prelude@, ',', end + 1);
                    assert(rest =~= seq![piece@] + tail);
                    assert forall|i: int| 0 <= i < tail.len() implies #[trigger] all[selectors@.len()
                        + 1 + i] == tail[i] by {
                        assert(rest[i + 1] == tail[i]);
                        assert(all[selectors@.len() + (i + 1)] == rest[i + 1]);
                    }
                } else {
                    assert(rest =~= seq![piece@]);
                }
                assert(all[selectors@.len() + 0int] == rest[0]);
            }
            let text = from_chars(&piece);
            match CssSelector::parse(text.as_str()) {
                Ok(selector) => {
                    let weight = specificity(&piece);
                    selectors.push(StyleSelector { selector, specificity: weight });
                },
                Err(e) => {
                    assert(read_selector(all[selectors@.len() as int]) is Err);
                    return Err(RuleParseErrorKind::from(e));
                },
            }
            if end >= prelude.len() {
                assert(selector_views(selectors@) =~= selectors_of(all));
                return Ok(selectors);
            }
            pos = end + 1;
        }
    }
}

/// Reads the rules of a style sheet.
pub struct RulesParser;

impl RulesParser {
    /// Reads the prelude of a rule: its selectors.
    pub fn parse_prelude(prelude: &Vec<char>) -> (r: Result<Vec<StyleSelector>, RuleParseErrorKind>)
        ensures
            r is Ok <==> all_selectors(pieces_from(prelude@, ',', 0)),
            r matches Ok(selectors) ==> selector_views(selectors@) == selectors_of(
                pieces_from(prelude@, ',', 0),
            ),
    {
        Parser::parse_selectors(prelude)
    }

    /// Makes a rule of the selectors of its prelude and the text of its block.
    pub fn parse_block(prelude: Vec<StyleSelector>, block: &Vec<char>) -> (rule: CssRule)
        ensures
            rule@ == (StyleRuleModel {
                selectors: selector_views(prelude@),
                declarations: block_declarations(block@, 0),
            }),
    {
        CssRule::StyleRule { selectors: prelude, block: DeclarationBlock::parse_chars(block) }
    }

    /// Reads the rules of a style sheet. Never fails: what cannot be read is left out.
    pub fn parse_stylesheet(css: &str) -> (rules: Vec<CssRule>)
        ensures
            css_rule_views(rules@) == rules_from(css@, 0),
    {
        let chars = to_chars(css);
        let mut rules: Vec<CssRule> = Vec::new();
        let mut pos: usize = 0;
        assert(css_rule_views(rules@) + rules_from(chars@, 0) =~= rules_from(chars@, 0));
        while pos < chars.len()
            invariant
                pos <= chars.len(),
                chars@ == css@,
                rules_from(chars@, 0) == css_rule_views(rules@) + rules_from(chars@, pos as int),
            decreases chars.len() - pos,
        {
            let ghost before = css_rule_views(rules@);
            let open = find_char(&chars, '{', pos);
            if open >= chars.len() {
                assert(rules_from(chars@, pos as int) =~= Seq::<StyleRuleModel>::empty());
                pos = chars.len();
            } else {
                let close = find_char(&chars, '}', open + 1);
                let prelude = slice(&chars, pos, open);
                let block = slice(&chars, open + 1, close);
                let ghost this = match rule_of(prelude@, block@) {
                    Some(rule) => seq![rule],
                    None => Seq::empty(),
                };
                match RulesParser::parse_prelude(&prelude) {
                    Ok(selectors) => {
                        let rule = RulesParser::parse_block(selectors, &block);
                        rules.push(rule);
                        assert(css_rule_views(rules@) =~= before + this);
                    },
                    Err(_) => {
                        assert(css_rule_views(rules@) =~= before + this);
                    },
                }
                proof {
                    if close >= chars.len() {
                        assert(rules_from(chars@, pos as int) == this);
                        assert(rules_from(chars@, chars.len() as int) =~= Seq::<
                            StyleRuleModel,
                        >::empty());
                        assert(before + this =~= (before + this) + Seq::<StyleRuleModel>::empty());
                    } else {
                        let next = rules_from(chars@, close + 1);
                        assert(rules_from(chars@, pos as int) == this + next);
                        assert(before + (this + next) =~= (before + this) + next);
                    }
                }
                if close >= chars.len() {
                    pos = chars.len();
                } else {
                    pos = close + 1;
                }
            }
        }
        assert(css_rule_views(rules@) + Seq::<StyleRuleModel>::empty() =~= css_rule_views(rules@));
        rules
    }
}

} // verus!
