//! What holds of every audit.

use vstd::prelude::*;
use vstd::multiset::Multiset;
use crate::dom::document::ElementRef;
use crate::engine::audit::audit_utils::{issue_code, technique_ids};
use crate::engine::audit::auditor::{box_handles, Auditor};
use crate::engine::audit::tree::{indexes, AccessibilityTree};
use crate::engine::audit::wcag::{
    audit_issues, audit_issues_upto, bucket_issues, rule_issues, rules_issues, tag_issues,
};
use crate::engine::issue::IssueModel;
use crate::engine::rules::rule::RuleModel;
use crate::i18n::locales::Catalog;
use crate::text::{joined, lex_less, lex_total, lex_transitive};

verus! {

/// Two trees that index the same document hold the same buckets in the same order.
pub proof fn index_is_unique(
    first: &AccessibilityTree,
    second: &AccessibilityTree,
    doc: &crate::dom::document::Document,
    handles: Option<Seq<u64>>,
)
    requires
        indexes(first, doc, handles, doc.nodes().len() as int),
        indexes(second, doc, handles, doc.nodes().len() as int),
    ensures
        first.spec_len() == second.spec_len(),
        forall|i: int| 0 <= i < first.spec_len() ==> #[trigger] first.key(i) == second.key(i),
        forall|i: int| 0 <= i < first.spec_len() ==> #[trigger] first.items(i) == second.items(i),
{
    same_keys_upto(first, second, first.spec_len());
    same_keys_upto(second, first, second.spec_len());
    if first.spec_len() < second.spec_len() {
        same_keys_upto(second, first, first.spec_len() + 1);
    }
    if second.spec_len() < first.spec_len() {
        same_keys_upto(first, second, second.spec_len() + 1);
    }
    assert forall|i: int| 0 <= i < first.spec_len() implies #[trigger] first.items(i)
        == second.items(i) by {
        assert(first.key(i) == second.key(i));
        first.bucket_at(i);
        second.bucket_at(i);
    }
}

/// Of two trees with the same tag names, each in strict order, the first `upto` tag names
/// of the one are the first `upto` of the other.
proof fn same_keys_upto(a: &AccessibilityTree, b: &AccessibilityTree, upto: int)
    requires
        a.wf(),
        b.wf(),
        forall|t: Seq<char>| a.has_key(t) == b.has_key(t),
        0 <= upto <= a.spec_len(),
    ensures
        upto <= b.spec_len(),
        forall|i: int| 0 <= i < upto ==> #[trigger] a.key(i) == b.key(i),
    decreases upto,
{
    if upto > 0 {
        same_keys_upto(a, b, upto - 1);
        let i = upto - 1;
        let t = a.key(i);
        assert(a.has_key(t));
        assert(b.has_key(t));
        let m = choose|m: int| 0 <= m < b.spec_len() && #[trigger] b.key(m) == t;
        if m < i {
            assert(a.key(m) == b.key(m));
            assert(lex_less(a.key(m), a.key(i)));
            lex_total(a.key(m), a.key(i));
        }
        let u = b.key(i);
        assert(b.has_key(u));
        assert(a.has_key(u));
        let n = choose|n: int| 0 <= n < a.spec_len() && #[trigger] a.key(n) == u;
        if n < i {
            assert(a.key(n) == b.key(n));
            assert(lex_less(b.key(n), b.key(i)));
            lex_total(b.key(n), b.key(i));
        }
        lex_total(t, u);
        if m > i {
            assert(lex_less(b.key(i), b.key(m)));
        }
        if n > i {
            assert(lex_less(a.key(i), a.key(n)));
        }
    }
}

/// Whether two auditors work on the same document with the same style rules, boxes,
/// locale, messages and contrast ratios.
pub open spec fn same_inputs(a: &Auditor, b: &Auditor) -> bool {
    &&& a.document == b.document
    &&& box_handles(a.boxes) == box_handles(b.boxes)
    &&& a.locale@ == b.locale@
    &&& a.catalog.entries@ == b.catalog.entries@
    &&& a.author@ == b.author@
    &&& crate::engine::rules::contrast::measure_views(a.measures@)
        == crate::engine::rules::contrast::measure_views(b.measures@)
}

/// An audit that is run again gives the same issues: the issues are fixed by the document,
/// the locale and the catalog.
pub proof fn audit_is_repeatable(a: &Auditor, b: &Auditor)
    requires
        a.wf(),
        b.wf(),
        same_inputs(a, b),
    ensures
        audit_issues(a) == audit_issues(b),
{
    index_is_unique(&a.tree, &b.tree, a.document, box_handles(a.boxes));
    assert(same_buckets(a, b));
    same_issues_upto(a, b, a.tree.spec_len());
}

/// The issues of verdicts depend on the catalog through its messages only.
proof fn same_issues_of(
    first: &Catalog,
    second: &Catalog,
    rule: RuleModel,
    verdicts: Seq<crate::engine::rules::rule::ValidationModel>,
    context: Seq<char>,
    lang: Seq<char>,
)
    requires
        first.entries@ == second.entries@,
    ensures
        crate::engine::audit::audit_utils::issues_of(first, rule, verdicts, context, lang)
            == crate::engine::audit::audit_utils::issues_of(
            second,
            rule,
            verdicts,
            context,
            lang,
        ),
    decreases verdicts.len(),
{
    if verdicts.len() > 0 {
        same_issues_of(first, second, rule, verdicts.drop_last(), context, lang);
    }
}

/// The issues of rules are fixed by the document, the locale and the catalog.
proof fn same_rule_issues(
    a: &Auditor,
    b: &Auditor,
    tag: Seq<char>,
    nodes: Seq<(ElementRef, Option<u64>)>,
    rules: Seq<RuleModel>,
    upto: int,
)
    requires
        same_inputs(a, b),
    ensures
        rules_issues(a, tag, nodes, rules, upto) == rules_issues(b, tag, nodes, rules, upto),
    decreases upto,
{
    if upto > 0 {
        same_rule_issues(a, b, tag, nodes, rules, upto - 1);
        let rule = rules[upto - 1];
        let va = crate::engine::rules::wcag_rule_map::verdicts(rule.validate, a, nodes);
        let vb = crate::engine::rules::wcag_rule_map::verdicts(rule.validate, b, nodes);
        assert(va =~= vb);
        same_issues_of(&a.catalog, &b.catalog, rule, va, tag, a.locale@);
    }
}

/// Whether two auditors hold the same buckets in the same order.
pub open spec fn same_buckets(a: &Auditor, b: &Auditor) -> bool {
    &&& a.tree.spec_len() == b.tree.spec_len()
    &&& forall|i: int|
        0 <= i < a.tree.spec_len() ==> #[trigger] a.tree.key(i) == b.tree.key(i)
    &&& forall|i: int|
        0 <= i < a.tree.spec_len() ==> #[trigger] a.tree.items(i) == b.tree.items(i)
}

/// The issues of the first `upto` buckets are fixed by the document, the locale and the
/// catalog.
proof fn same_issues_upto(a: &Auditor, b: &Auditor, upto: int)
    requires
        same_inputs(a, b),
        same_buckets(a, b),
        0 <= upto <= a.tree.spec_len(),
    ensures
        audit_issues_upto(a, upto) == audit_issues_upto(b, upto),
    decreases upto,
{
    if upto > 0 {
        same_issues_upto(a, b, upto - 1);
        let i = upto - 1;
        assert(a.tree.key(i) == b.tree.key(i));
        assert(a.tree.items(i) == b.tree.items(i));
        let tag = a.tree.key(i);
        let rules = crate::engine::rules::wcag_rule_map::rules_of(tag);
        same_rule_issues(a, b, tag, a.tree.items(i), rules, rules.len() as int);
    }
}

/// The issues of the buckets whose indices `order` lists, in that order.
pub open spec fn issues_in_order(auditor: &Auditor, order: Seq<int>) -> Seq<IssueModel>
    decreases order.len(),
{
    if order.len() == 0 {
        Seq::empty()
    } else {
        issues_in_order(auditor, order.drop_last()) + bucket_issues(auditor, order.last())
    }
}

/// The indices of the buckets of an auditor, in order.
pub open spec fn bucket_order(auditor: &Auditor) -> Seq<int> {
    Seq::new(auditor.tree.spec_len() as nat, |i: int| i)
}

/// The issues of the buckets that `order` lists, as a multiset: the sum of the issues of
/// each bucket.
pub open spec fn bag_in_order(auditor: &Auditor, order: Seq<int>) -> Multiset<IssueModel>
    decreases order.len(),
{
    if order.len() == 0 {
        Multiset::empty()
    } else {
        bag_in_order(auditor, order.drop_last()).add(
            bucket_issues(auditor, order.last()).to_multiset(),
        )
    }
}

/// The issues in an order, taken as a multiset, are the sum of the issues of each bucket.
proof fn bag_is_multiset(auditor: &Auditor, order: Seq<int>)
    ensures
        issues_in_order(auditor, order).to_multiset() == bag_in_order(auditor, order),
    decreases order.len(),
{
    if order.len() > 0 {
        bag_is_multiset(auditor, order.drop_last());
        vstd::seq_lib::lemma_multiset_commutative(
            issues_in_order(auditor, order.drop_last()),
            bucket_issues(auditor, order.last()),
        );
    } else {
        issues_in_order(auditor, order).to_multiset_ensures();
        assert(issues_in_order(auditor, order).to_multiset() =~= Multiset::empty());
    }
}

/// Taking one bucket out of an order takes its issues out of the sum.
proof fn bag_without(auditor: &Auditor, order: Seq<int>, k: int)
    requires
        0 <= k < order.len(),
    ensures
        bag_in_order(auditor, order) == bag_in_order(auditor, order.remove(k)).add(
            bucket_issues(auditor, order[k]).to_multiset(),
        ),
    decreases order.len(),
{
    let last = order.len() - 1;
    if k == last {
        assert(order.remove(k) =~= order.drop_last());
    } else {
        bag_without(auditor, order.drop_last(), k);
        assert(order.remove(k).drop_last() =~= order.drop_last().remove(k));
        assert(order.remove(k).last() == order.last());
        assert(order.drop_last()[k] == order[k]);
        assert(bag_in_order(auditor, order) =~= bag_in_order(auditor, order.remove(k)).add(
            bucket_issues(auditor, order[k]).to_multiset(),
        ));
    }
}

/// Two orders that list the same buckets equally often have the same issues as multisets.
proof fn bag_of_permutation(auditor: &Auditor, a: Seq<int>, b: Seq<int>)
    requires
        a.to_multiset() == b.to_multiset(),
    ensures
        bag_in_order(auditor, a) == bag_in_order(auditor, b),
    decreases a.len(),
{
    a.to_multiset_ensures();
    b.to_multiset_ensures();
    if a.len() > 0 {
        let x = a.last();
        assert(a.contains(x));
        assert(b.to_multiset().count(x) > 0);
        assert(b.contains(x));
        let k = choose|k: int| 0 <= k < b.len() && b[k] == x;
        assert(a.drop_last() =~= a.remove(a.len() - 1));
        assert(a.drop_last().to_multiset() =~= b.remove(k).to_multiset());
        bag_of_permutation(auditor, a.drop_last(), b.remove(k));
        bag_without(auditor, b, k);
    } else {
        assert(b.len() == 0);
    }
}

/// The issues of the buckets in their own order are the issues of the audit.
proof fn own_order(auditor: &Auditor, upto: int)
    requires
        0 <= upto <= auditor.tree.spec_len(),
    ensures
        issues_in_order(auditor, bucket_order(auditor).take(upto)) == audit_issues_upto(
            auditor,
            upto,
        ),
    decreases upto,
{
    let order = bucket_order(auditor).take(upto);
    if upto > 0 {
        own_order(auditor, upto - 1);
        assert(order.drop_last() =~= bucket_order(auditor).take(upto - 1));
        assert(order.last() == upto - 1);
    }
}

/// An audit that runs the buckets in any order, each bucket once, as an audit that is spread
/// over workers does, finds the same issues as the audit on one thread, each equally often;
/// only their order may differ.
pub proof fn order_is_irrelevant(auditor: &Auditor, order: Seq<int>)
    requires
        order.to_multiset() == bucket_order(auditor).to_multiset(),
    ensures
        issues_in_order(auditor, order).to_multiset() == audit_issues(auditor).to_multiset(),
{
    let own = bucket_order(auditor);
    own_order(auditor, auditor.tree.spec_len());
    assert(own.take(auditor.tree.spec_len()) =~= own);
    bag_is_multiset(auditor, order);
    bag_is_multiset(auditor, own);
    bag_of_permutation(auditor, order, own);
}

/// The code of an issue is `WCAGAAA.Principle`, the digit of the principle, `.Guideline`,
/// the two digits of the guideline with an underscore between them, a dot, and the
/// identifiers of the techniques with commas between them.
pub proof fn code_shape(rule: RuleModel)
    ensures
        issue_code(rule) == "WCAGAAA.Principle"@ + seq![rule.principle.digit()] + ".Guideline"@
            + seq![rule.guideline.major(), '_', rule.guideline.minor()] + "."@ + technique_ids(
            rule,
        ),
        '1' <= rule.principle.digit() <= '4',
        '1' <= rule.guideline.major() <= '4',
        '1' <= rule.guideline.minor() <= '4',
{
    rule.principle.name_shape();
    rule.guideline.name_shape();
    reveal_strlit("WCAGAAA.Principle");
    reveal_strlit("WCAGAAA");
    reveal_strlit("Principle");
    reveal_strlit(".Guideline");
    reveal_strlit("Guideline");
    reveal_strlit(".");
    let parts = seq![
        "WCAGAAA"@,
        rule.principle.name(),
        rule.guideline.name(),
        technique_ids(rule),
    ];
    reveal_with_fuel(joined, 5);
    assert(parts.take(3) =~= seq!["WCAGAAA"@, rule.principle.name(), rule.guideline.name()]);
    assert(parts.take(3).take(2) =~= seq!["WCAGAAA"@, rule.principle.name()]);
    assert(parts.take(3).take(2).take(1) =~= seq!["WCAGAAA"@]);
    assert(issue_code(rule) =~= "WCAGAAA"@ + "."@ + rule.principle.name() + "."@
        + rule.guideline.name() + "."@ + technique_ids(rule));
    assert("WCAGAAA.Principle"@ =~= "WCAGAAA"@ + "."@ + "Principle"@);
    assert(".Guideline"@ =~= "."@ + "Guideline"@);
    assert(issue_code(rule) =~= "WCAGAAA.Principle"@ + seq![rule.principle.digit()]
        + ".Guideline"@ + seq![rule.guideline.major(), '_', rule.guideline.minor()] + "."@
        + technique_ids(rule));
}

/// Whether a text is the code of the issues of some rule.
pub open spec fn is_code(code: Seq<char>) -> bool {
    exists|rule: RuleModel| code == #[trigger] issue_code(rule)
}

/// Whether every one of `issues` carries the code of some rule.
pub open spec fn all_coded(issues: Seq<IssueModel>) -> bool {
    forall|k: int| 0 <= k < issues.len() ==> is_code((#[trigger] issues[k]).code)
}

/// The issues of rules carry the codes of rules.
proof fn rules_are_coded(
    auditor: &Auditor,
    tag: Seq<char>,
    nodes: Seq<(ElementRef, Option<u64>)>,
    rules: Seq<RuleModel>,
    upto: int,
)
    ensures
        all_coded(rules_issues(auditor, tag, nodes, rules, upto)),
    decreases upto,
{
    if upto > 0 {
        rules_are_coded(auditor, tag, nodes, rules, upto - 1);
        let rule = rules[upto - 1];
        let before = rules_issues(auditor, tag, nodes, rules, upto - 1);
        let these = rule_issues(auditor, tag, nodes, rule);
        crate::engine::audit::audit_utils::issue_iff_invalid(
            &auditor.catalog,
            rule,
            crate::engine::rules::wcag_rule_map::verdicts(rule.validate, auditor, nodes),
            tag,
            auditor.locale@,
        );
        assert forall|k: int| 0 <= k < (before + these).len() implies is_code(
            (#[trigger] (before + these)[k]).code,
        ) by {
            if k < before.len() {
                assert((before + these)[k] == before[k]);
            } else {
                assert((before + these)[k] == these[k - before.len()]);
                assert(these[k - before.len()].code == issue_code(rule));
            }
        }
    }
}

/// The issues of the first `upto` buckets carry the codes of rules.
proof fn buckets_are_coded(auditor: &Auditor, upto: int)
    ensures
        all_coded(audit_issues_upto(auditor, upto)),
    decreases upto,
{
    if upto > 0 {
        buckets_are_coded(auditor, upto - 1);
        let tag = auditor.tree.key(upto - 1);
        let rules = crate::engine::rules::wcag_rule_map::rules_of(tag);
        rules_are_coded(auditor, tag, auditor.tree.items(upto - 1), rules, rules.len() as int);
        let before = audit_issues_upto(auditor, upto - 1);
        let these = bucket_issues(auditor, upto - 1);
        assert forall|k: int| 0 <= k < (before + these).len() implies is_code(
            (#[trigger] (before + these)[k]).code,
        ) by {
            if k < before.len() {
                assert((before + these)[k] == before[k]);
            } else {
                assert((before + these)[k] == these[k - before.len()]);
            }
        }
    }
}

/// Every issue of an audit carries the code of a rule, and so a code of the shape that
/// [`code_shape`] states.
pub proof fn every_issue_is_coded(auditor: &Auditor)
    ensures
        all_coded(audit_issues(auditor)),
{
    buckets_are_coded(auditor, auditor.tree.spec_len());
}

} // verus!
