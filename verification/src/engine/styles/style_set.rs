//! The style sheets of the author of a document, with their rules in the order in which
//! the cascade applies them.

use vstd::prelude::*;
use crate::engine::styles::declaration_block::{Declaration, DeclarationBlock};
use crate::engine::styles::rules::{
    css_rule_views, rules_from, selector_views, CssRule, RulesParser, SelectorModel, StyleRuleModel,
    StyleSelector,
};
use crate::engine::styles::specificity::{Counts, Specificity};
use crate::dom::selector::CssSelector;
use crate::text::views;

verus! {

/// One selector of a rule, with the block of the rule.
pub struct StyleEntry {
    pub selector: CssSelector,
    pub specificity: Specificity,
    /// The index of the block among the blocks of the set.
    pub block: usize,
}

/// One selector of a rule with the declarations of the rule, as plain values.
pub struct EntryModel {
    pub group: scraper::Selector,
    pub specificity: Counts,
    pub declarations: Seq<Declaration>,
}

/// The style sheets that apply to a document.
pub struct StyleSet {
    /// The texts of the style sheets, in the order in which they were added.
    pub sheets: Vec<String>,
    /// The selectors of all rules, the less specific before the more specific, and of two
    /// that are as specific the one that was written first.
    pub entries: Vec<StyleEntry>,
    /// The blocks of the rules.
    pub blocks: Vec<DeclarationBlock>,
}

/// The index of the first of `entries` from `from` on that is more specific than
/// `specificity`; the number of entries where none is.
pub open spec fn place_of(entries: Seq<EntryModel>, specificity: Counts, from: int) -> int
    decreases entries.len() - from,
{
    if from < 0 || from >= entries.len() {
        entries.len() as int
    } else if !entries[from].specificity.at_most(specificity) {
        from
    } else {
        place_of(entries, specificity, from + 1)
    }
}

/// `entries` with `entry` put in behind the entries that are at most as specific.
pub open spec fn placed(entries: Seq<EntryModel>, entry: EntryModel) -> Seq<EntryModel> {
    entries.insert(place_of(entries, entry.specificity, 0), entry)
}

/// `entries` with the first `upto` selectors of `rule` put in, one after the other.
pub open spec fn with_selectors(entries: Seq<EntryModel>, rule: StyleRuleModel, upto: int) -> Seq<
    EntryModel,
>
    decreases upto,
{
    if upto <= 0 {
        entries
    } else {
        placed(
            with_selectors(entries, rule, upto - 1),
            EntryModel {
                group: rule.selectors[upto - 1].group,
                specificity: rule.selectors[upto - 1].specificity,
                declarations: rule.declarations,
            },
        )
    }
}

/// `entries` with the selectors of the first `upto` of `rules` put in.
pub open spec fn with_rules(entries: Seq<EntryModel>, rules: Seq<StyleRuleModel>, upto: int) -> Seq<
    EntryModel,
>
    decreases upto,
{
    if upto <= 0 {
        entries
    } else {
        with_selectors(
            with_rules(entries, rules, upto - 1),
            rules[upto - 1],
            rules[upto - 1].selectors.len() as int,
        )
    }
}

/// The entries of the first `upto` of the style sheets `sources`.
pub open spec fn with_sheets(sources: Seq<Seq<char>>, upto: int) -> Seq<EntryModel>
    decreases upto,
{
    if upto <= 0 {
        Seq::empty()
    } else {
        let rules = rules_from(sources[upto - 1], 0);
        with_rules(with_sheets(sources, upto - 1), rules, rules.len() as int)
    }
}

/// Whether no entry stands before one that is less specific.
pub open spec fn in_order(entries: Seq<EntryModel>) -> bool {
    forall|i: int, j: int|
        0 <= i < j < entries.len() ==> (#[trigger] entries[i]).specificity.at_most(
            (#[trigger] entries[j]).specificity,
        )
}

/// The place of an entry lies within the entries; what stands before it is at most as
/// specific, and what stands at it is more specific.
pub proof fn place_bounds(entries: Seq<EntryModel>, specificity: Counts, from: int)
    requires
        0 <= from <= entries.len(),
    ensures
        from <= place_of(entries, specificity, from) <= entries.len(),
        forall|i: int|
            from <= i < place_of(entries, specificity, from) ==> (
            #[trigger] entries[i]).specificity.at_most(specificity),
        place_of(entries, specificity, from) < entries.len() ==> !entries[place_of(
            entries,
            specificity,
            from,
        )].specificity.at_most(specificity),
    decreases entries.len() - from,
{
    if from < entries.len() && entries[from].specificity.at_most(specificity) {
        place_bounds(entries, specificity, from + 1);
    }
}

/// Putting an entry into entries that are in order leaves them in order.
pub proof fn placing_keeps_order(entries: Seq<EntryModel>, entry: EntryModel)
    requires
        in_order(entries),
    ensures
        in_order(placed(entries, entry)),
{
    let at = place_of(entries, entry.specificity, 0);
    place_bounds(entries, entry.specificity, 0);
    let after = placed(entries, entry);
    assert forall|i: int, j: int| 0 <= i < j < after.len() implies (
    #[trigger] after[i]).specificity.at_most((#[trigger] after[j]).specificity) by {
        if j < at {
            assert(after[i] == entries[i] && after[j] == entries[j]);
        } else if j == at {
            assert(after[i] == entries[i]);
        } else if i < at {
            assert(after[i] == entries[i] && after[j] == entries[j - 1]);
        } else if i == at {
            assert(after[j] == entries[j - 1]);
            if j - 1 > at {
                assert(entries[at].specificity.at_most(entries[j - 1].specificity));
            }
        } else {
            assert(after[i] == entries[i - 1] && after[j] == entries[j - 1]);
        }
    }
}

impl StyleSet {
    /// The texts of the style sheets, in order.
    pub open spec fn sources(&self) -> Seq<Seq<char>> {
        views(self.sheets@)
    }

    /// The entries as plain values.
    pub open spec fn view(&self) -> Seq<EntryModel> {
        Seq::new(
            self.entries@.len(),
            |i: int|
                EntryModel {
                    group: self.entries@[i].selector.group,
                    specificity: self.entries@[i].specificity@,
                    declarations: self.blocks@[self.entries@[i].block as int]@,
                },
        )
    }

    /// Whether the entries are those of the style sheets, and each names a block of the
    /// set.
    pub open spec fn wf(&self) -> bool {
        &&& self@ == with_sheets(self.sources(), self.sources().len() as int)
        &&& forall|i: int|
            0 <= i < self.entries@.len() ==> (#[trigger] self.entries@[i]).block
                < self.blocks@.len()
    }

    /// A set without style sheets.
    pub fn new() -> (set: StyleSet)
        ensures
            set.wf(),
            set.sources() == Seq::<Seq<char>>::empty(),
    {
        let set = StyleSet { sheets: Vec::new(), entries: Vec::new(), blocks: Vec::new() };
        assert(set.sources() =~= Seq::<Seq<char>>::empty());
        assert(set@ =~= Seq::<EntryModel>::empty());
        set
    }

    /// Puts one selector with its block into the entries.
    fn place(&mut self, selector: StyleSelector, block: usize)
        requires
            block < old(self).blocks@.len(),
            forall|i: int|
                0 <= i < old(self).entries@.len() ==> (#[trigger] old(self).entries@[i]).block < old(
                    self,
                ).blocks@.len(),
        ensures
            final(self).sheets == old(self).sheets,
            final(self).blocks == old(self).blocks,
            final(self)@ == placed(
                old(self)@,
                EntryModel {
                    group: selector.selector.group,
                    specificity: selector.specificity@,
                    declarations: old(self).blocks@[block as int]@,
                },
            ),
            forall|i: int|
                0 <= i < final(self).entries@.len() ==> (#[trigger] final(self).entries@[i]).block
                    < final(self).blocks@.len(),
    {
        let ghost before = self@;
        let ghost entry = EntryModel {
            group: selector.selector.group,
            specificity: selector.specificity@,
            declarations: self.blocks@[block as int]@,
        };
        let mut at: usize = 0;
        while at < self.entries.len() && self.entries[at].specificity.le(&selector.specificity)
            invariant
                at <= self.entries@.len(),
                before == self@,
                place_of(before, selector.specificity@, 0) == place_of(
                    before,
                    selector.specificity@,
                    at as int,
                ),
            decreases self.entries@.len() - at,
        {
            assert(before[at as int].specificity == self.entries@[at as int].specificity@);
            at += 1;
        }
        proof {
            if at < self.entries@.len() {
                assert(before[at as int].specificity == self.entries@[at as int].specificity@);
            }
        }
        self.entries.insert(
            at,
            StyleEntry { selector: selector.selector, specificity: selector.specificity, block },
        );
        assert(self@ =~= placed(before, entry));
    }

    /// Adds a style sheet behind those that the set holds. Never fails: rules that cannot
    /// be read are left out.
    pub fn add_stylesheet(&mut self, css: &str)
        requires
            old(self).wf(),
        ensures
            final(self).wf(),
            final(self).sources() == old(self).sources().push(css@),
    {
        let ghost start = self@;
        let ghost sources = self.sources();
        let mut rules = RulesParser::parse_stylesheet(css);
        let ghost models = rules_from(css@, 0);
        let total = rules.len();
        let mut done: usize = 0;
        while rules.len() > 0
            invariant
                done + rules@.len() == total,
                total == models.len(),
                self.sheets == old(self).sheets,
                css_rule_views(rules@) == models.skip(done as int),
                self@ == with_rules(start, models, done as int),
                forall|i: int|
                    0 <= i < self.entries@.len() ==> (#[trigger] self.entries@[i]).block
                        < self.blocks@.len(),
            decreases rules@.len(),
        {
            let ghost tail = rules@;
            let rule = rules.remove(0);
            proof {
                assert(css_rule_views(tail)[0] == tail[0]@);
                assert(rule@ == models[done as int]);
                assert(css_rule_views(rules@) =~= models.skip(done + 1)) by {
                    assert forall|i: int| 0 <= i < rules@.len() implies css_rule_views(rules@)[i]
                        == models.skip(done + 1)[i] by {
                        assert(rules@[i] == tail[i + 1]);
                        assert(css_rule_views(tail)[i + 1] == tail[i + 1]@);
                    }
                }
            }
            match rule {
                CssRule::StyleRule { selectors, block } => {
                    let ghost model = models[done as int];
                    let ghost at_rule = self@;
                    let ghost declarations = block@;
                    let index = self.blocks.len();
                    self.blocks.push(block);
                    assert(self@ =~= at_rule);
                    let mut rest = selectors;
                    let count = rest.len();
                    let mut k: usize = 0;
                    while rest.len() > 0
                        invariant
                            k + rest@.len() == count,
                            count == model.selectors.len(),
                            index < self.blocks@.len(),
                            self.blocks@[index as int]@ == declarations,
                            declarations == model.declarations,
                            self.sheets == old(self).sheets,
                            selector_views(rest@) == model.selectors.skip(k as int),
                            self@ == with_selectors(at_rule, model, k as int),
                            forall|i: int|
                                0 <= i < self.entries@.len() ==> (#[trigger] self.entries@[i]).block
                                    < self.blocks@.len(),
                        decreases rest@.len(),
                    {
                        let ghost left = rest@;
                        let selector = rest.remove(0);
                        proof {
                            assert(selector_views(left)[0] == model.selectors.skip(k as int)[0]);
                            assert(selector_views(rest@) =~= model.selectors.skip(k + 1)) by {
                                assert forall|i: int| 0 <= i < rest@.len() implies selector_views(
                                    rest@,
                                )[i] == model.selectors.skip(k + 1)[i] by {
                                    assert(rest@[i] == left[i + 1]);
                                    assert(selector_views(left)[i + 1] == model.selectors.skip(
                                        k as int,
                                    )[i + 1]);
                                }
                            }
                        }
                        self.place(selector, index);
                        k += 1;
                    }
                },
            }
            done += 1;
        }
        self.sheets.push(css.to_owned());
        proof {
            assert(self.sources() =~= sources.push(css@));
            let all = self.sources();
            assert(all.take(sources.len() as int) =~= sources);
            same_sheets(all, sources, sources.len() as int);
            assert(all[all.len() - 1] == css@);
        }
    }
}

/// The entries of the first style sheets do not depend on the style sheets behind them.
proof fn same_sheets(longer: Seq<Seq<char>>, shorter: Seq<Seq<char>>, upto: int)
    requires
        0 <= upto <= shorter.len() <= longer.len(),
        longer.take(shorter.len() as int) == shorter,
    ensures
        with_sheets(longer, upto) == with_sheets(shorter, upto),
    decreases upto,
{
    if upto > 0 {
        same_sheets(longer, shorter, upto - 1);
        assert(longer[upto - 1] == longer.take(shorter.len() as int)[upto - 1]);
    }
}

} // verus!
