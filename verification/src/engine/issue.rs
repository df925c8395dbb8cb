//! The findings of an audit.

use vstd::prelude::*;
use crate::text::{str_eq, views};

verus! {

/// The box that an element takes on the page.
#[derive(Default, Debug, Clone, Copy, PartialEq, Eq, Structural)]
pub struct Clip {
    /// The horizontal position.
    pub x: u32,
    /// The vertical position.
    pub y: u32,
    /// The height of the element.
    pub height: u32,
    /// The width of the element.
    pub width: u32,
}

/// Help that a runner adds to an issue.
#[derive(Default, Debug, Clone)]
pub struct RunnerExtras {
    /// Where to read more about the issue.
    pub help_url: &'static str,
    /// A longer description of the issue.
    pub description: &'static str,
    /// How much the issue matters.
    pub impact: &'static str,
}

/// One finding.
#[derive(Default, Debug, Clone)]
pub struct Issue {
    /// The markup or the tag that the issue is about.
    pub context: String,
    /// Selectors that identify each offending element.
    pub selectors: Vec<String>,
    /// The code of the issue.
    pub code: String,
    /// The severity: `error`, `warning` or `notice`.
    pub issue_type: &'static str,
    /// The severity as a number: 0, 1 or 2.
    pub type_code: u8,
    /// The message of the issue.
    pub message: String,
    /// The runner that found the issue.
    pub runner: &'static str,
    /// Help that the runner adds.
    pub runner_extras: RunnerExtras,
    /// How often the issue appeared.
    pub recurrence: u32,
    /// Where the element is on the page.
    pub clip: Option<Clip>,
}

/// What an issue says, as plain values.
pub struct IssueModel {
    pub context: Seq<char>,
    pub selectors: Seq<Seq<char>>,
    pub code: Seq<char>,
    pub issue_type: Seq<char>,
    pub type_code: u8,
    pub message: Seq<char>,
    pub runner: Seq<char>,
    /// Where to read more, as the runner says it.
    pub help_url: Seq<char>,
    /// The longer description that the runner adds.
    pub description: Seq<char>,
    /// How much the issue matters, as the runner says it.
    pub impact: Seq<char>,
    pub recurrence: u32,
    pub clip: Option<Clip>,
}

/// The number that stands for a severity: 0 for `error`, 1 for `warning`, 2 for anything else.
pub open spec fn type_code_of(issue_type: Seq<char>) -> u8 {
    if issue_type == "error"@ {
        0u8
    } else if issue_type == "warning"@ {
        1u8
    } else {
        2u8
    }
}

/// The issue that `Issue::new` makes of its arguments: the runner is this library, which
/// adds no help; the issue appeared for the first time and has no box.
pub open spec fn new_issue(
    message: Seq<char>,
    context: Seq<char>,
    code: Seq<char>,
    issue_type: Seq<char>,
    selectors: Seq<Seq<char>>,
) -> IssueModel {
    IssueModel {
        context,
        selectors,
        code,
        issue_type,
        type_code: type_code_of(issue_type),
        message,
        runner: "accessibility-rs"@,
        help_url: Seq::empty(),
        description: Seq::empty(),
        impact: Seq::empty(),
        recurrence: 0,
        clip: None,
    }
}

impl View for Issue {
    type V = IssueModel;

    open spec fn view(&self) -> IssueModel {
        IssueModel {
            context: self.context@,
            selectors: views(self.selectors@),
            code: self.code@,
            issue_type: self.issue_type@,
            type_code: self.type_code,
            message: self.message@,
            runner: self.runner@,
            help_url: self.runner_extras.help_url@,
            description: self.runner_extras.description@,
            impact: self.runner_extras.impact@,
            recurrence: self.recurrence,
            clip: self.clip,
        }
    }
}

impl Issue {
    /// A new issue, with the number of its severity worked out from the severity's name.
    pub fn new(
        message: String,
        context: &str,
        code: &str,
        issue_type: &'static str,
        selectors: Vec<String>,
    ) -> (issue: Issue)
        ensures
            issue@ == new_issue(message@, context@, code@, issue_type@, views(selectors@)),
    {
        let type_code: u8 = if str_eq(issue_type, "error") {
            0
        } else if str_eq(issue_type, "warning") {
            1
        } else {
            2
        };
        proof {
            reveal_strlit("");
        }
        let issue = Issue {
            message,
            context: context.to_owned(),
            runner: "accessibility-rs",
            code: code.to_owned(),
            issue_type,
            type_code,
            selectors,
            runner_extras: RunnerExtras { help_url: "", description: "", impact: "" },
            recurrence: 0,
            clip: None,
        };
        assert(issue@.help_url =~= Seq::<char>::empty() && issue@.description =~= Seq::<
            char,
        >::empty() && issue@.impact =~= Seq::<char>::empty());
        issue
    }
}

} // verus!
