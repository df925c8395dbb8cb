//! What can be wrong with a style rule.

use vstd::prelude::*;
use crate::dom::selector::SelectorParseError;

verus! {

/// Why a style rule could not be read.
pub enum RuleParseErrorKind {
    /// One of the selectors of the rule is none.
    Selector(SelectorParseError),
}

impl From<SelectorParseError> for RuleParseErrorKind {
    fn from(e: SelectorParseError) -> (kind: Self) {
        RuleParseErrorKind::Selector(e)
    }
}

impl vstd::std_specs::convert::FromSpecImpl<SelectorParseError> for RuleParseErrorKind {
    open spec fn obeys_from_spec() -> bool {
        true
    }

    open spec fn from_spec(e: SelectorParseError) -> Self {
        RuleParseErrorKind::Selector(e)
    }
}

} // verus!
