//! The WCAG classification of a rule: severity, principle and guideline.

use vstd::prelude::*;

verus! {

/// How severe a finding is.
#[derive(Debug, Clone, Copy, PartialEq, Eq, Structural)]
pub enum Criteria {
    /// A failure that has to be fixed.
    Error,
    /// A likely problem.
    Warning,
    /// Advice.
    Notice,
}

/// The severity of the issues that a rule raises.
pub type IssueType = Criteria;

impl Criteria {
    /// The severity as issues name it.
    pub open spec fn name(self) -> Seq<char> {
        match self {
            Criteria::Error => "error"@,
            Criteria::Warning => "warning"@,
            Criteria::Notice => "notice"@,
        }
    }

    /// The number that issues carry for the severity.
    pub open spec fn code(self) -> u8 {
        match self {
            Criteria::Error => 0u8,
            Criteria::Warning => 1u8,
            Criteria::Notice => 2u8,
        }
    }

    /// The severity as issues name it: `error`, `warning` or `notice`.
    pub fn as_str(&self) -> (s: &'static str)
        ensures
            s@ == self.name(),
    {
        match self {
            Criteria::Error => "error",
            Criteria::Warning => "warning",
            Criteria::Notice => "notice",
        }
    }
}

/// The four WCAG principles.
#[derive(Debug, Clone, Copy, PartialEq, Eq, Structural)]
pub enum Principle {
    /// Content can be perceived in more than one form.
    Perceivable,
    /// Everything works from a keyboard.
    Operable,
    /// Text can be read and understood.
    Understandable,
    /// Content works with present and future user agents.
    Robust,
}

impl Principle {
    /// The digit of the principle, `'1'` to `'4'`.
    pub open spec fn digit(self) -> char {
        match self {
            Principle::Perceivable => '1',
            Principle::Operable => '2',
            Principle::Understandable => '3',
            Principle::Robust => '4',
        }
    }

    /// The part of an issue code that names the principle.
    pub open spec fn name(self) -> Seq<char> {
        match self {
            Principle::Perceivable => "Principle1"@,
            Principle::Operable => "Principle2"@,
            Principle::Understandable => "Principle3"@,
            Principle::Robust => "Principle4"@,
        }
    }

    /// The number of the principle as text.
    pub open spec fn index(self) -> Seq<char> {
        match self {
            Principle::Perceivable => "1"@,
            Principle::Operable => "2"@,
            Principle::Understandable => "3"@,
            Principle::Robust => "4"@,
        }
    }

    /// The part of an issue code that names the principle, `Principle1` to `Principle4`.
    pub fn as_str(&self) -> (s: &'static str)
        ensures
            s@ == self.name(),
    {
        match self {
            Principle::Perceivable => "Principle1",
            Principle::Operable => "Principle2",
            Principle::Understandable => "Principle3",
            Principle::Robust => "Principle4",
        }
    }

    /// The number of the principle as text, `1` to `4`.
    pub fn as_index(&self) -> (s: &'static str)
        ensures
            s@ == self.index(),
    {
        match self {
            Principle::Perceivable => "1",
            Principle::Operable => "2",
            Principle::Understandable => "3",
            Principle::Robust => "4",
        }
    }

    /// The name of a principle is the word `Principle` and its digit.
    pub proof fn name_shape(self)
        ensures
            self.name() == "Principle"@ + seq![self.digit()],
            self.index() == seq![self.digit()],
            '1' <= self.digit() <= '4',
    {
        reveal_strlit("Principle");
        reveal_strlit("Principle1");
        reveal_strlit("Principle2");
        reveal_strlit("Principle3");
        reveal_strlit("Principle4");
        reveal_strlit("1");
        reveal_strlit("2");
        reveal_strlit("3");
        reveal_strlit("4");
        assert(self.name() =~= "Principle"@ + seq![self.digit()]);
        assert(self.index() =~= seq![self.digit()]);
    }
}

/// The WCAG guidelines that the rules refer to.
#[derive(Debug, Clone, Copy, PartialEq, Eq, Structural)]
pub enum Guideline {
    /// Text alternatives for non-text content.
    TextAlternatives,
    /// Content that can be presented in different ways.
    Adaptable,
    /// Content that is easy to see and hear.
    Distinguishable,
    /// Enough time to read and use content.
    EnoughTime,
    /// Nothing that is known to cause seizures.
    Seizures,
    /// Help to navigate and find content.
    Navigable,
    /// Text that is readable and understandable.
    Readable,
    /// Pages that appear and operate in predictable ways.
    Predictable,
    /// Compatibility with user agents and assistive technologies.
    Compatible,
}

impl Guideline {
    /// The digit of the principle that the guideline belongs to.
    pub open spec fn major(self) -> char {
        match self {
            Guideline::TextAlternatives => '1',
            Guideline::Adaptable => '1',
            Guideline::Distinguishable => '1',
            Guideline::EnoughTime => '2',
            Guideline::Seizures => '2',
            Guideline::Navigable => '2',
            Guideline::Readable => '3',
            Guideline::Predictable => '3',
            Guideline::Compatible => '4',
        }
    }

    /// The digit of the guideline within its principle.
    pub open spec fn minor(self) -> char {
        match self {
            Guideline::TextAlternatives => '1',
            Guideline::Adaptable => '3',
            Guideline::Distinguishable => '4',
            Guideline::EnoughTime => '2',
            Guideline::Seizures => '3',
            Guideline::Navigable => '4',
            Guideline::Readable => '1',
            Guideline::Predictable => '2',
            Guideline::Compatible => '1',
        }
    }

    /// The part of an issue code that names the guideline.
    pub open spec fn name(self) -> Seq<char> {
        match self {
            Guideline::TextAlternatives => "Guideline1_1"@,
            Guideline::Adaptable => "Guideline1_3"@,
            Guideline::Distinguishable => "Guideline1_4"@,
            Guideline::EnoughTime => "Guideline2_2"@,
            Guideline::Seizures => "Guideline2_3"@,
            Guideline::Navigable => "Guideline2_4"@,
            Guideline::Readable => "Guideline3_1"@,
            Guideline::Predictable => "Guideline3_2"@,
            Guideline::Compatible => "Guideline4_1"@,
        }
    }

    /// The two numbers of the guideline, with an underscore between them.
    pub open spec fn index(self) -> Seq<char> {
        match self {
            Guideline::TextAlternatives => "1_1"@,
            Guideline::Adaptable => "1_3"@,
            Guideline::Distinguishable => "1_4"@,
            Guideline::EnoughTime => "2_2"@,
            Guideline::Seizures => "2_3"@,
            Guideline::Navigable => "2_4"@,
            Guideline::Readable => "3_1"@,
            Guideline::Predictable => "3_2"@,
            Guideline::Compatible => "4_1"@,
        }
    }

    /// The part of an issue code that names the guideline, such as `Guideline1_1`.
    pub fn as_str(&self) -> (s: &'static str)
        ensures
            s@ == self.name(),
    {
        match self {
            Guideline::TextAlternatives => "Guideline1_1",
            Guideline::Adaptable => "Guideline1_3",
            Guideline::Distinguishable => "Guideline1_4",
            Guideline::EnoughTime => "Guideline2_2",
            Guideline::Seizures => "Guideline2_3",
            Guideline::Navigable => "Guideline2_4",
            Guideline::Readable => "Guideline3_1",
            Guideline::Predictable => "Guideline3_2",
            Guideline::Compatible => "Guideline4_1",
        }
    }

    /// The name of the guideline without the word `Guideline`, such as `1_1`.
    pub fn as_index(&self) -> (s: &'static str)
        ensures
            s@ == self.index(),
            s@ == self.name().subrange(9, self.name().len() as int),
    {
        proof {
            self.name_shape();
            assert(self.index() =~= self.name().subrange(9, self.name().len() as int));
        }
        match self {
            Guideline::TextAlternatives => "1_1",
            Guideline::Adaptable => "1_3",
            Guideline::Distinguishable => "1_4",
            Guideline::EnoughTime => "2_2",
            Guideline::Seizures => "2_3",
            Guideline::Navigable => "2_4",
            Guideline::Readable => "3_1",
            Guideline::Predictable => "3_2",
            Guideline::Compatible => "4_1",
        }
    }

    /// The name of a guideline is the word `Guideline`, the digit of its principle, an
    /// underscore and its own digit.
    pub proof fn name_shape(self)
        ensures
            self.index() == seq![self.major(), '_', self.minor()],
            self.name() == "Guideline"@ + self.index(),
            "Guideline"@.len() == 9,
            '1' <= self.major() <= '4',
            '1' <= self.minor() <= '4',
    {
        reveal_strlit("Guideline");
        reveal_strlit("Guideline1_1");
        reveal_strlit("Guideline1_3");
        reveal_strlit("Guideline1_4");
        reveal_strlit("Guideline2_2");
        reveal_strlit("Guideline2_3");
        reveal_strlit("Guideline2_4");
        reveal_strlit("Guideline3_1");
        reveal_strlit("Guideline3_2");
        reveal_strlit("Guideline4_1");
        reveal_strlit("1_1");
        reveal_strlit("1_3");
        reveal_strlit("1_4");
        reveal_strlit("2_2");
        reveal_strlit("2_3");
        reveal_strlit("2_4");
        reveal_strlit("3_1");
        reveal_strlit("3_2");
        reveal_strlit("4_1");
        assert(self.index() =~= seq![self.major(), '_', self.minor()]);
        assert(self.name() =~= "Guideline"@ + self.index());
    }
}

} // verus!
