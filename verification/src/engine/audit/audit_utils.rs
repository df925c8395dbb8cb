//! From verdicts to issues.

use vstd::prelude::*;
use vstd::string::*;
use crate::engine::issue::{new_issue, Issue, IssueModel};
use crate::engine::rules::rule::{technique_names, Rule, RuleModel, Validation, ValidationModel};
use crate::i18n::locales::{get_message_i18n, message_key, Catalog};
use crate::text::{join, joined, views};

verus! {

/// The issues of a sequence as plain values.
pub open spec fn issue_views(issues: Seq<Issue>) -> Seq<IssueModel> {
    Seq::new(issues.len(), |i: int| issues[i]@)
}

/// The identifiers of the techniques of a rule, with commas between them.
pub open spec fn technique_ids(rule: RuleModel) -> Seq<char> {
    joined(technique_names(rule.techniques), ","@)
}

/// The code of the issues of a rule: `WCAGAAA`, the principle, the guideline and the
/// techniques, with dots between them.
pub open spec fn issue_code(rule: RuleModel) -> Seq<char> {
    joined(
        seq!["WCAGAAA"@, rule.principle.name(), rule.guideline.name(), technique_ids(rule)],
        "."@,
    )
}

/// The message of an issue: the one that the verdict carries, and where it carries none,
/// the one that the catalog holds for the rule and the sub-identifier of the verdict.
pub open spec fn issue_message(
    catalog: &Catalog,
    rule: RuleModel,
    validation: ValidationModel,
    lang: Seq<char>,
) -> Seq<char> {
    if validation.message.len() > 0 {
        validation.message
    } else {
        catalog.resolved(
            message_key(rule.guideline, technique_ids(rule), rule.success_criteria, validation.id),
            lang,
        )
    }
}

/// The issue that a failed verdict of a rule gives.
pub open spec fn issue_of(
    catalog: &Catalog,
    rule: RuleModel,
    validation: ValidationModel,
    context: Seq<char>,
    lang: Seq<char>,
) -> IssueModel {
    new_issue(
        issue_message(catalog, rule, validation, lang),
        context,
        issue_code(rule),
        rule.issue_type.name(),
        validation.elements,
    )
}

/// The issues that the verdicts of a rule give: one for each verdict that failed, in order,
/// and none for a verdict that passed.
pub open spec fn issues_of(
    catalog: &Catalog,
    rule: RuleModel,
    verdicts: Seq<ValidationModel>,
    context: Seq<char>,
    lang: Seq<char>,
) -> Seq<IssueModel>
    decreases verdicts.len(),
{
    if verdicts.len() == 0 {
        Seq::empty()
    } else {
        let before = issues_of(catalog, rule, verdicts.drop_last(), context, lang);
        if verdicts.last().valid {
            before
        } else {
            before.push(issue_of(catalog, rule, verdicts.last(), context, lang))
        }
    }
}

/// A rule has an issue exactly where one of its verdicts failed, and every issue carries
/// the code of the rule.
pub proof fn issue_iff_invalid(
    catalog: &Catalog,
    rule: RuleModel,
    verdicts: Seq<ValidationModel>,
    context: Seq<char>,
    lang: Seq<char>,
)
    ensures
        issues_of(catalog, rule, verdicts, context, lang).len() > 0 <==> exists|k: int|
            0 <= k < verdicts.len() && !(#[trigger] verdicts[k]).valid,
        forall|k: int|
            0 <= k < issues_of(catalog, rule, verdicts, context, lang).len() ==> (
            #[trigger] issues_of(catalog, rule, verdicts, context, lang)[k]).code == issue_code(
                rule,
            ),
    decreases verdicts.len(),
{
    if verdicts.len() > 0 {
        let init = verdicts.drop_last();
        issue_iff_invalid(catalog, rule, init, context, lang);
        let all = issues_of(catalog, rule, verdicts, context, lang);
        let before = issues_of(catalog, rule, init, context, lang);
        if exists|k: int| 0 <= k < init.len() && !(#[trigger] init[k]).valid {
            let k = choose|k: int| 0 <= k < init.len() && !(#[trigger] init[k]).valid;
            assert(!verdicts[k].valid);
        }
        if exists|k: int| 0 <= k < verdicts.len() && !(#[trigger] verdicts[k]).valid {
            let k = choose|k: int| 0 <= k < verdicts.len() && !(#[trigger] verdicts[k]).valid;
            if k < init.len() {
                assert(!init[k].valid);
            }
        }
        assert forall|k: int| 0 <= k < all.len() implies (#[trigger] all[k]).code == issue_code(
            rule,
        ) by {
            if k < before.len() {
                assert(all[k] == before[k]);
            }
        }
    }
}

/// The code of the issues of a rule.
pub fn rule_code(rule: &Rule) -> (code: String)
    ensures
        code@ == issue_code(rule@),
{
    let ids = rule.rule_id.into_str();
    let start = "WCAGAAA".to_owned().concat(".").concat(rule.principle.as_str()).concat(
        ".",
    ).concat(rule.guideline.as_str()).concat(".").concat(ids.as_str());
    proof {
        let parts = seq!["WCAGAAA"@, rule.principle.name(), rule.guideline.name(), ids@];
        reveal_with_fuel(joined, 5);
        assert(parts.take(3) =~= seq!["WCAGAAA"@, rule.principle.name(), rule.guideline.name()]);
        assert(parts.take(3).take(2) =~= seq!["WCAGAAA"@, rule.principle.name()]);
        assert(parts.take(3).take(2).take(1) =~= seq!["WCAGAAA"@]);
        assert(start@ =~= joined(parts, "."@));
    }
    start
}

/// Where the verdict failed, puts the issue that it gives behind `issues`; where it passed,
/// leaves `issues` as they are.
pub fn push_issue_base(
    validation: Validation,
    rule: &Rule,
    context: &str,
    lang: &str,
    catalog: &Catalog,
    issues: &mut Vec<Issue>,
)
    ensures
        validation.valid ==> final(issues)@ == old(issues)@,
        !validation.valid ==> final(issues)@.len() == old(issues)@.len() + 1,
        !validation.valid ==> final(issues)@.take(old(issues)@.len() as int) == old(issues)@,
        !validation.valid ==> final(issues)@.last()@ == issue_of(
            catalog,
            rule@,
            validation@,
            context@,
            lang@,
        ),
        validation.valid ==> issue_views(final(issues)@) == issue_views(old(issues)@),
        !validation.valid ==> issue_views(final(issues)@) == issue_views(old(issues)@).push(
            issue_of(catalog, rule@, validation@, context@, lang@),
        ),
{
    if !validation.valid {
        let ghost model = validation@;
        let message = if !validation.message.as_str().is_empty() {
            validation.message
        } else {
            get_message_i18n(catalog, rule, validation.id, lang)
        };
        let code = rule_code(rule);
        let issue = Issue::new(
            message,
            context,
            code.as_str(),
            rule.issue_type.as_str(),
            validation.elements,
        );
        assert(issue@ == issue_of(catalog, rule@, model, context@, lang@));
        issues.push(issue);
        assert(issues@.take(old(issues)@.len() as int) =~= old(issues)@);
        assert(issue_views(issues@) =~= issue_views(old(issues)@).push(
            issue_of(catalog, rule@, model, context@, lang@),
        ));
    } else {
        assert(issue_views(issues@) =~= issue_views(old(issues)@));
    }
}

/// Where the verdict failed, puts the issue that it gives behind `issues`.
pub fn push_issue(
    validation: Validation,
    rule: &Rule,
    context: &str,
    lang: &str,
    catalog: &Catalog,
    issues: &mut Vec<Issue>,
)
    ensures
        validation.valid ==> final(issues)@ == old(issues)@,
        !validation.valid ==> final(issues)@.len() == old(issues)@.len() + 1,
        !validation.valid ==> final(issues)@.take(old(issues)@.len() as int) == old(issues)@,
        !validation.valid ==> final(issues)@.last()@ == issue_of(
            catalog,
            rule@,
            validation@,
            context@,
            lang@,
        ),
        validation.valid ==> issue_views(final(issues)@) == issue_views(old(issues)@),
        !validation.valid ==> issue_views(final(issues)@) == issue_views(old(issues)@).push(
            issue_of(catalog, rule@, validation@, context@, lang@),
        ),
{
    push_issue_base(validation, rule, context, lang, catalog, issues)
}

} // verus!
