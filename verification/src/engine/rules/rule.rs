//! Rules and what their validators return.

use vstd::prelude::*;
use crate::engine::rules::techniques::Techniques;
use crate::engine::rules::wcag_base::{Guideline, IssueType, Principle};
use crate::text::{join, joined, literal_views, views};

verus! {

/// What a validator found.
#[derive(Default, Debug)]
pub struct Validation {
    /// Whether the elements pass.
    pub valid: bool,
    /// Which failure condition of the technique was tested.
    pub id: &'static str,
    /// Selectors of the elements that fail.
    pub elements: Vec<String>,
    /// The message, empty where it is to be looked up.
    pub message: String,
}

/// A validation as plain values.
pub struct ValidationModel {
    pub valid: bool,
    pub id: Seq<char>,
    pub elements: Seq<Seq<char>>,
    pub message: Seq<char>,
}

impl View for Validation {
    type V = ValidationModel;

    open spec fn view(&self) -> ValidationModel {
        ValidationModel {
            valid: self.valid,
            id: self.id@,
            elements: views(self.elements@),
            message: self.message@,
        }
    }
}

impl Validation {
    /// A validation with all its parts given.
    pub fn new(valid: bool, id: &'static str, elements: Vec<String>, message: String) -> (v: Self)
        ensures
            v@ == (ValidationModel {
                valid,
                id: id@,
                elements: views(elements@),
                message: message@,
            }),
    {
        Self { valid, id, elements, message }
    }

    /// A validation that names no element and carries no message.
    pub fn new_issue(valid: bool, id: &'static str) -> (v: Self)
        ensures
            v@ == (ValidationModel {
                valid,
                id: id@,
                elements: Seq::empty(),
                message: Seq::empty(),
            }),
    {
        let v = Self { valid, id, elements: Vec::new(), message: String::new() };
        assert(views(v.elements@) =~= Seq::empty());
        v
    }

    /// A validation that names no element and carries its own message.
    pub fn new_custom_issue(valid: bool, id: &'static str, message: String) -> (v: Self)
        ensures
            v@ == (ValidationModel {
                valid,
                id: id@,
                elements: Seq::empty(),
                message: message@,
            }),
    {
        let v = Self { valid, id, elements: Vec::new(), message };
        assert(views(v.elements@) =~= Seq::empty());
        v
    }
}

/// The technique or techniques that a rule tests.
#[derive(Debug, Clone)]
pub enum Technique {
    /// One technique.
    Single(Techniques),
    /// Several techniques.
    Multi(Vec<Techniques>),
}

/// The identifiers of the given techniques.
pub open spec fn technique_names(ids: Seq<Techniques>) -> Seq<Seq<char>> {
    Seq::new(ids.len(), |i: int| ids[i].name())
}

impl Technique {
    /// The techniques, in order.
    pub open spec fn ids(&self) -> Seq<Techniques> {
        match self {
            Technique::Single(t) => seq![*t],
            Technique::Multi(ts) => ts@,
        }
    }

    /// The identifiers of the techniques with commas between them.
    pub open spec fn name(&self) -> Seq<char> {
        joined(technique_names(self.ids()), ","@)
    }

    /// The identifiers of the techniques with commas between them.
    pub fn into_str(&self) -> (s: String)
        ensures
            s@ == self.name(),
    {
        match self {
            Technique::Multi(tech) => {
                let mut names: Vec<&'static str> = Vec::new();
                let mut i: usize = 0;
                while i < tech.len()
                    invariant
                        i <= tech.len(),
                        names@.len() == i,
                        forall|j: int| 0 <= j < i ==> (#[trigger] names@[j])@ == tech@[j].name(),
                    decreases tech.len() - i,
                {
                    names.push(tech[i].as_str());
                    i += 1;
                }
                assert(literal_views(names@) =~= technique_names(tech@));
                join(&names, ",")
            },
            Technique::Single(tech) => {
                let s = tech.as_str().to_owned();
                assert(technique_names(seq![*tech]) =~= seq![tech.name()]);
                assert(joined(seq![tech.name()], ","@) == tech.name());
                s
            },
        }
    }
}

/// What a validator returns: one verdict for the elements of a tag, or one for each
/// element that fails.
pub enum RuleValidation {
    /// One verdict.
    Single(Validation),
    /// Any number of verdicts.
    Multi(Vec<Validation>),
}

/// The validations of a sequence as plain values.
pub open spec fn validation_views(vs: Seq<Validation>) -> Seq<ValidationModel> {
    Seq::new(vs.len(), |i: int| vs[i]@)
}

impl RuleValidation {
    /// The verdicts, in order.
    pub open spec fn verdicts(&self) -> Seq<ValidationModel> {
        match self {
            RuleValidation::Single(v) => seq![v@],
            RuleValidation::Multi(vs) => validation_views(vs@),
        }
    }
}

/// The tests that rules make on the elements of a tag.
#[derive(Debug, Clone, Copy, PartialEq, Eq, Structural)]
pub enum Validator {
    /// The html element names a language.
    LangSet,
    /// The `lang` attribute of the html element is shaped like a language tag.
    LangShape,
    /// The `xml:lang` attribute of the html element is shaped like a language tag.
    XmlLangShape,
    /// The head holds a title element.
    HasTitle,
    /// No two elements share an id.
    UniqueIds,
    /// No meta element redirects after a delay.
    NoTimedRedirect,
    /// No meta element reloads the page after a delay.
    NoTimedRefresh,
    /// No title element is empty.
    TitleText,
    /// Text stands out against its background.
    Contrast,
    /// Every frame has a title.
    FrameTitle,
    /// Every form has a submit button.
    SubmitButton,
    /// Every image that submits a form has a text alternative.
    ImageButtonAlt,
    /// Every image inside a link has a text alternative.
    LinkedImageAlt,
    /// Every link with a target has content.
    LinkContent,
    /// Every link has content, an id or a target.
    LinkPurpose,
    /// Every image has a text alternative.
    ImageAlt,
    /// No image has both a text alternative and a title.
    ImageAltAndTitle,
    /// No heading is empty.
    HeadingText,
    /// No two labels are for the same control.
    LabelTargetsDiffer,
    /// Every label is for a control that exists.
    LabelTargetExists,
    /// Every button input has a value attribute.
    ButtonValueSet,
    /// Every button input has a value that is more than white space.
    ButtonValueText,
    /// There is no blink element.
    NoBlink,
    /// No object element holds text.
    ObjectText,
    /// Every area of an image map has a text alternative.
    AreaAlt,
    /// Every image map has a text alternative.
    MapAlt,
    /// Every fieldset has a legend with text.
    FieldsetLegend,
    /// Every applet has a text alternative.
    AppletAlt,
    /// Every applet has a body.
    AppletBody,
}

/// A rule: a test with its WCAG classification.
#[derive(Debug, Clone)]
pub struct Rule {
    /// The technique or techniques that the rule tests.
    pub rule_id: Technique,
    /// The severity of the issues that the rule raises.
    pub issue_type: IssueType,
    /// The test.
    pub validate: Validator,
    /// The principle that the rule belongs to.
    pub principle: Principle,
    /// The guideline that the rule belongs to.
    pub guideline: Guideline,
    /// The number of the success criterion within the guideline.
    pub success_criteria: &'static str,
}

/// A rule as plain values.
pub struct RuleModel {
    pub techniques: Seq<Techniques>,
    pub issue_type: IssueType,
    pub validate: Validator,
    pub principle: Principle,
    pub guideline: Guideline,
    pub success_criteria: Seq<char>,
}

impl View for Rule {
    type V = RuleModel;

    open spec fn view(&self) -> RuleModel {
        RuleModel {
            techniques: self.rule_id.ids(),
            issue_type: self.issue_type,
            validate: self.validate,
            principle: self.principle,
            guideline: self.guideline,
            success_criteria: self.success_criteria@,
        }
    }
}

impl Rule {
    /// A rule with all its parts given.
    pub fn new(
        rule_id: Technique,
        issue_type: IssueType,
        principle: Principle,
        guideline: Guideline,
        success_criteria: &'static str,
        validate: Validator,
    ) -> (rule: Rule)
        ensures
            rule@ == (RuleModel {
                techniques: rule_id.ids(),
                issue_type,
                validate,
                principle,
                guideline,
                success_criteria: success_criteria@,
            }),
    {
        Rule { rule_id, issue_type, guideline, principle, success_criteria, validate }
    }
}

} // verus!

verus! {

impl From<Techniques> for Technique {
    fn from(t: Techniques) -> (technique: Self) {
        Technique::Single(t)
    }
}

impl vstd::std_specs::convert::FromSpecImpl<Techniques> for Technique {
    open spec fn obeys_from_spec() -> bool {
        true
    }

    open spec fn from_spec(t: Techniques) -> Self {
        Technique::Single(t)
    }
}

impl From<Vec<Techniques>> for Technique {
    fn from(t: Vec<Techniques>) -> (technique: Self) {
        Technique::Multi(t)
    }
}

impl vstd::std_specs::convert::FromSpecImpl<Vec<Techniques>> for Technique {
    open spec fn obeys_from_spec() -> bool {
        true
    }

    open spec fn from_spec(t: Vec<Techniques>) -> Self {
        Technique::Multi(t)
    }
}

impl From<Validation> for RuleValidation {
    fn from(t: Validation) -> (validation: Self) {
        RuleValidation::Single(t)
    }
}

impl vstd::std_specs::convert::FromSpecImpl<Validation> for RuleValidation {
    open spec fn obeys_from_spec() -> bool {
        true
    }

    open spec fn from_spec(t: Validation) -> Self {
        RuleValidation::Single(t)
    }
}

impl From<Vec<Validation>> for RuleValidation {
    fn from(t: Vec<Validation>) -> (validation: Self) {
        RuleValidation::Multi(t)
    }
}

impl vstd::std_specs::convert::FromSpecImpl<Vec<Validation>> for RuleValidation {
    open spec fn obeys_from_spec() -> bool {
        true
    }

    open spec fn from_spec(t: Vec<Validation>) -> Self {
        RuleValidation::Multi(t)
    }
}

} // verus!
