//! How specific a selector is.

use vstd::prelude::*;
use crate::text::{is_whitespace, whitespace};

verus! {

/// How specific a selector is: how many ids it names, how many classes, attributes and
/// pseudo-classes, and how many element types and pseudo-elements. A selector with more ids
/// is more specific; of two with as many ids, the one with more classes; then the one with
/// more types.
#[derive(Debug, Clone, Copy, PartialEq, Eq, Structural)]
pub struct Specificity {
    pub ids: usize,
    pub classes: usize,
    pub types: usize,
}

/// A specificity as three numbers without bounds.
pub struct Counts {
    pub ids: int,
    pub classes: int,
    pub types: int,
}

impl Counts {
    /// The sum of two counts, part by part.
    pub open spec fn plus(self, other: Counts) -> Counts {
        Counts {
            ids: self.ids + other.ids,
            classes: self.classes + other.classes,
            types: self.types + other.types,
        }
    }

    /// Whether this is at most as specific as `other`.
    pub open spec fn at_most(self, other: Counts) -> bool {
        self.ids < other.ids || (self.ids == other.ids && (self.classes < other.classes || (
        self.classes == other.classes && self.types <= other.types)))
    }
}

impl Specificity {
    /// The three numbers.
    pub open spec fn view(&self) -> Counts {
        Counts { ids: self.ids as int, classes: self.classes as int, types: self.types as int }
    }

    /// Whether this is at most as specific as `other`.
    pub fn le(&self, other: &Specificity) -> (b: bool)
        ensures
            b == self@.at_most(other@),
    {
        self.ids < other.ids || (self.ids == other.ids && (self.classes < other.classes || (
        self.classes == other.classes && self.types <= other.types)))
    }
}

/// Whether `c` parts two compound selectors or opens or closes a list of them.
pub open spec fn is_boundary(c: char) -> bool {
    whitespace(c) || c == '>' || c == '+' || c == '~' || c == ',' || c == '(' || c == ')'
}

/// What the characters of a selector from `pos` on count for. `in_attr` says that `pos` is
/// inside the brackets of an attribute selector, `at_start` that a name at `pos` would be
/// the name of an element type.
///
/// A `#` counts as an id; a `.`, a `[` and a single `:` count as a class; two colons count
/// as a type; a name at the start of a compound selector counts as a type; `*` and what is
/// inside brackets do not count.
pub open spec fn counts_from(s: Seq<char>, pos: int, in_attr: bool, at_start: bool) -> Counts
    decreases s.len() - pos,
{
    if pos < 0 || pos >= s.len() {
        Counts { ids: 0, classes: 0, types: 0 }
    } else {
        let c = s[pos];
        if in_attr {
            counts_from(s, pos + 1, c != ']', false)
        } else if c == '#' {
            Counts { ids: 1, classes: 0, types: 0 }.plus(counts_from(s, pos + 1, false, false))
        } else if c == '.' {
            Counts { ids: 0, classes: 1, types: 0 }.plus(counts_from(s, pos + 1, false, false))
        } else if c == '[' {
            Counts { ids: 0, classes: 1, types: 0 }.plus(counts_from(s, pos + 1, true, false))
        } else if c == ':' {
            if pos + 1 < s.len() && s[pos + 1] == ':' {
                Counts { ids: 0, classes: 0, types: 1 }.plus(
                    counts_from(s, pos + 2, false, false),
                )
            } else {
                Counts { ids: 0, classes: 1, types: 0 }.plus(
                    counts_from(s, pos + 1, false, false),
                )
            }
        } else if is_boundary(c) {
            counts_from(s, pos + 1, false, true)
        } else if c == '*' {
            counts_from(s, pos + 1, false, false)
        } else if at_start {
            Counts { ids: 0, classes: 0, types: 1 }.plus(counts_from(s, pos + 1, false, false))
        } else {
            counts_from(s, pos + 1, false, false)
        }
    }
}

/// How specific the selector `s` is.
pub open spec fn specificity_of(s: Seq<char>) -> Counts {
    counts_from(s, 0, false, true)
}

/// How specific a selector is.
pub fn specificity(selector: &Vec<char>) -> (r: Specificity)
    ensures
        r@ == specificity_of(selector@),
{
    let mut ids: usize = 0;
    let mut classes: usize = 0;
    let mut types: usize = 0;
    let mut in_attr = false;
    let mut at_start = true;
    let mut pos: usize = 0;
    while pos < selector.len()
        invariant
            pos <= selector.len(),
            ids + classes + types <= pos,
            specificity_of(selector@) == (Counts {
                ids: ids as int,
                classes: classes as int,
                types: types as int,
            }).plus(counts_from(selector@, pos as int, in_attr, at_start)),
        decreases selector.len() - pos,
    {
        let c = selector[pos];
        if in_attr {
            in_attr = c != ']';
            at_start = false;
            pos += 1;
        } else if c == '#' {
            ids += 1;
            at_start = false;
            pos += 1;
        } else if c == '.' {
            classes += 1;
            at_start = false;
            pos += 1;
        } else if c == '[' {
            classes += 1;
            in_attr = true;
            at_start = false;
            pos += 1;
        } else if c == ':' {
            if pos + 1 < selector.len() && selector[pos + 1] == ':' {
                types += 1;
                pos += 2;
            } else {
                classes += 1;
                pos += 1;
            }
            at_start = false;
        } else if is_whitespace(c) || c == '>' || c == '+' || c == '~' || c == ',' || c == '('
            || c == ')' {
            at_start = true;
            pos += 1;
        } else if c == '*' {
            at_start = false;
            pos += 1;
        } else {
            if at_start {
                types += 1;
            }
            at_start = false;
            pos += 1;
        }
    }
    Specificity { ids, classes, types }
}

} // verus!
