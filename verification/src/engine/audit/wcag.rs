//! The audit: every rule of every tag of the document, run in order.

use vstd::prelude::*;
use crate::engine::audit::audit_utils::{issue_views, issues_of, push_issue_base};
use crate::engine::audit::auditor::Auditor;
use crate::engine::issue::{Issue, IssueModel};
use crate::engine::rules::rule::{validation_views, Rule, RuleModel, RuleValidation, Validation};
use crate::engine::rules::utils::nodes::{nodes_wf, ElementNodes};
use crate::engine::rules::wcag_rule_map::{rule_views, rules_for, rules_of, validate, verdicts};
use crate::dom::document::ElementRef;
use crate::i18n::locales::Catalog;

verus! {

/// The audit against the success criteria of WCAG at level AAA.
#[derive(Default)]
pub struct WCAGAAA;

/// The issues that one rule raises on the elements of a tag.
pub open spec fn rule_issues(
    auditor: &Auditor,
    tag: Seq<char>,
    nodes: Seq<(ElementRef, Option<u64>)>,
    rule: RuleModel,
) -> Seq<IssueModel> {
    issues_of(
        &auditor.catalog,
        rule,
        verdicts(rule.validate, auditor, nodes),
        tag,
        auditor.locale@,
    )
}

/// The issues that the first `upto` of `rules` raise on the elements of a tag, in the order
/// of the rules.
pub open spec fn rules_issues(
    auditor: &Auditor,
    tag: Seq<char>,
    nodes: Seq<(ElementRef, Option<u64>)>,
    rules: Seq<RuleModel>,
    upto: int,
) -> Seq<IssueModel>
    decreases upto,
{
    if upto <= 0 {
        Seq::empty()
    } else {
        rules_issues(auditor, tag, nodes, rules, upto - 1) + rule_issues(
            auditor,
            tag,
            nodes,
            rules[upto - 1],
        )
    }
}

/// The issues that the rules of a tag raise on its elements. A tag without rules raises
/// none.
pub open spec fn tag_issues(
    auditor: &Auditor,
    tag: Seq<char>,
    nodes: Seq<(ElementRef, Option<u64>)>,
) -> Seq<IssueModel> {
    rules_issues(auditor, tag, nodes, rules_of(tag), rules_of(tag).len() as int)
}

/// The issues of the bucket at index `i` of the auditor's index.
pub open spec fn bucket_issues(auditor: &Auditor, i: int) -> Seq<IssueModel> {
    tag_issues(auditor, auditor.tree.key(i), auditor.tree.items(i))
}

/// The issues of the first `upto` buckets, in the order of the buckets.
pub open spec fn audit_issues_upto(auditor: &Auditor, upto: int) -> Seq<IssueModel>
    decreases upto,
{
    if upto <= 0 {
        Seq::empty()
    } else {
        audit_issues_upto(auditor, upto - 1) + bucket_issues(auditor, upto - 1)
    }
}

/// The issues of an audit: those of every bucket of the index, in the order of the buckets.
/// They depend on the document, the style sheets, the locale and the catalog and on nothing
/// else, so an audit that is run again gives the same issues.
pub open spec fn audit_issues(auditor: &Auditor) -> Seq<IssueModel> {
    audit_issues_upto(auditor, auditor.tree.spec_len())
}

/// Puts the issues of the verdicts that failed behind `issues`, in the order of the
/// verdicts.
fn push_all(
    validations: Vec<Validation>,
    rule: &Rule,
    context: &str,
    lang: &str,
    catalog: &Catalog,
    issues: &mut Vec<Issue>,
)
    ensures
        issue_views(final(issues)@) == issue_views(old(issues)@) + issues_of(
            catalog,
            rule@,
            validation_views(validations@),
            context@,
            lang@,
        ),
{
    let ghost all = validation_views(validations@);
    let ghost start = issue_views(issues@);
    let mut rest = validations;
    let mut k: usize = 0;
    let total = rest.len();
    assert(start + issues_of(catalog, rule@, all.take(0), context@, lang@) =~= start);
    while rest.len() > 0
        invariant
            k + rest@.len() == total,
            total == all.len(),
            validation_views(rest@) == all.skip(k as int),
            issue_views(issues@) == start + issues_of(
                catalog,
                rule@,
                all.take(k as int),
                context@,
                lang@,
            ),
        decreases rest@.len(),
    {
        let ghost before = issue_views(issues@);
        let ghost tail = rest@;
        let v = rest.remove(0);
        proof {
            assert(validation_views(tail)[0] == tail[0]@);
            assert(v@ == all[k as int]);
            assert(all.take(k + 1).drop_last() =~= all.take(k as int));
            assert(all.take(k + 1).last() == all[k as int]);
            assert(validation_views(rest@) =~= all.skip(k + 1)) by {
                assert forall|i: int| 0 <= i < rest@.len() implies validation_views(rest@)[i]
                    == all.skip(k + 1)[i] by {
                    assert(rest@[i] == tail[i + 1]);
                    assert(validation_views(tail)[i + 1] == tail[i + 1]@);
                }
            }
        }
        push_issue_base(v, rule, context, lang, catalog, issues);
        proof {
            let grown = issues_of(catalog, rule@, all.take(k + 1), context@, lang@);
            let old_part = issues_of(catalog, rule@, all.take(k as int), context@, lang@);
            if all[k as int].valid {
                assert(grown == old_part);
            } else {
                assert(issue_views(issues@) =~= start + grown);
            }
        }
        k += 1;
    }
    assert(all.take(total as int) =~= all);
}

/// The number of nodes up to which an audit runs on one thread.
pub const SEQUENTIAL_LIMIT: usize = 5500;

impl WCAGAAA {
    /// Whether the document is large enough for the audit to be spread over workers: it
    /// has more nodes than an audit on one thread is meant for. Either way the issues are
    /// the same; spread over workers they may come in another order.
    pub fn spreads_work(auditor: &Auditor) -> (spread: bool)
        ensures
            spread == (auditor.document.nodes().len() > SEQUENTIAL_LIMIT),
    {
        auditor.document.len() > SEQUENTIAL_LIMIT
    }

    /// Runs one rule on the elements of a tag and puts its issues behind `issues`.
    pub fn evaluate_rule(
        rule: &Rule,
        tag: &str,
        nodes: &ElementNodes,
        auditor: &Auditor,
        issues: &mut Vec<Issue>,
    )
        requires
            nodes_wf(auditor.document, nodes@),
            auditor.author.wf(),
        ensures
            issue_views(final(issues)@) == issue_views(old(issues)@) + rule_issues(
                auditor,
                tag@,
                nodes@,
                rule@,
            ),
    {
        match validate(rule.validate, nodes, auditor) {
            RuleValidation::Single(validation) => {
                let mut one: Vec<Validation> = Vec::new();
                one.push(validation);
                assert(validation_views(one@) =~= seq![validation@]);
                push_all(one, rule, tag, auditor.locale, &auditor.catalog, issues)
            },
            RuleValidation::Multi(validations) => {
                push_all(validations, rule, tag, auditor.locale, &auditor.catalog, issues)
            },
        }
    }

    /// Runs the rules of the bucket at index `index`, in their order, and puts their issues
    /// behind `issues`. This is the unit of work of an audit that is spread over workers.
    pub fn evaluate_bucket(auditor: &Auditor, index: usize, issues: &mut Vec<Issue>)
        requires
            auditor.wf(),
            index < auditor.tree.spec_len(),
        ensures
            issue_views(final(issues)@) == issue_views(old(issues)@) + bucket_issues(
                auditor,
                index as int,
            ),
    {
        let tag = auditor.tree.entries[index].0.as_str();
        let nodes = &auditor.tree.entries[index].1;
        assert(nodes@ == auditor.tree.items(index as int));
        assert(nodes_wf(auditor.document, nodes@));
        let rules = rules_for(tag);
        let ghost models = rules_of(tag@);
        let ghost start = issue_views(issues@);
        let mut r: usize = 0;
        assert(start + rules_issues(auditor, tag@, nodes@, models, 0) =~= start);
        while r < rules.len()
            invariant
                r <= rules.len(),
                rule_views(rules@) == models,
                models == rules_of(tag@),
                nodes_wf(auditor.document, nodes@),
                auditor.author.wf(),
                issue_views(issues@) == start + rules_issues(
                    auditor,
                    tag@,
                    nodes@,
                    models,
                    r as int,
                ),
            decreases rules.len() - r,
        {
            assert(rule_views(rules@)[r as int] == rules@[r as int]@);
            WCAGAAA::evaluate_rule(&rules[r], tag, nodes, auditor, issues);
            assert(issue_views(issues@) =~= start + rules_issues(
                auditor,
                tag@,
                nodes@,
                models,
                r + 1,
            ));
            r += 1;
        }
        assert(rules@.len() == models.len());
    }

    /// Runs every rule of every tag of the document on the calling thread: the buckets in
    /// the order of their tag names, the rules of a tag in the order of the registry.
    pub fn run_audit(auditor: &Auditor) -> (issues: Vec<Issue>)
        requires
            auditor.wf(),
        ensures
            issue_views(issues@) == audit_issues(auditor),
    {
        let mut issues: Vec<Issue> = Vec::new();
        let mut i: usize = 0;
        assert(issue_views(issues@) =~= audit_issues_upto(auditor, 0));
        while i < auditor.tree.len()
            invariant
                i <= auditor.tree.spec_len(),
                auditor.wf(),
                issue_views(issues@) == audit_issues_upto(auditor, i as int),
            decreases auditor.tree.spec_len() - i,
        {
            WCAGAAA::evaluate_bucket(auditor, i, &mut issues);
            i += 1;
        }
        issues
    }

    /// Audits the document of the auditor.
    pub fn audit(auditor: &Auditor) -> (issues: Vec<Issue>)
        requires
            auditor.wf(),
        ensures
            issue_views(issues@) == audit_issues(auditor),
    {
        WCAGAAA::run_audit(auditor)
    }
}

} // verus!
