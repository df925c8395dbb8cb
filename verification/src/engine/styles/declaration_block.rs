//! Blocks of declarations: what stands between the braces of a style rule, or in a `style`
//! attribute.

use vstd::prelude::*;
use crate::engine::styles::scan::{
    find_char, first_index, first_index_bounds, is_word, skip_space, trim_range, trimmed,
};
use crate::engine::styles::values::{
    color_of, dimension_of, display_of, float_of, parse_color, parse_dimension, parse_display,
    parse_float, parse_position, position_of, slice, Color, Dimension, Keyword,
};
use crate::text::{is_whitespace, same_ignoring_ascii_case, to_chars, whitespace};

verus! {

/// The properties that the cascade knows, each for one side where a property has sides.
#[derive(Debug, Clone, Copy, PartialEq, Eq, Structural)]
pub enum Property {
    FontSize,
    Color,
    BackgroundColor,
    Display,
    Position,
    Float,
    Top,
    Right,
    Bottom,
    Left,
    Width,
    Height,
    MarginTop,
    MarginRight,
    MarginBottom,
    MarginLeft,
    PaddingTop,
    PaddingRight,
    PaddingBottom,
    PaddingLeft,
    BorderTopWidth,
    BorderRightWidth,
    BorderBottomWidth,
    BorderLeftWidth,
}

/// The value that a declaration gives to a property.
#[derive(Debug, Clone, Copy, PartialEq, Eq, Structural)]
pub enum Specified {
    /// A number with a unit.
    Dimension(Dimension),
    /// Whatever the layout finds.
    Auto,
    /// A colour.
    Color(Color),
    /// A word.
    Keyword(Keyword),
    /// The value of the parent.
    Inherit,
    /// The value that the property starts with.
    Initial,
}

/// One declaration: a property, its value, and whether the value is marked important.
#[derive(Debug, Clone, Copy, PartialEq, Eq, Structural)]
pub struct Declaration {
    pub property: Property,
    pub value: Specified,
    pub important: bool,
}

impl Property {
    /// Whether the property is settled before the others, because the others may be
    /// written in terms of it.
    pub open spec fn early(self) -> bool {
        self == Property::FontSize
    }

    /// Whether the property is settled before the others.
    pub fn is_early(&self) -> (e: bool)
        ensures
            e == self.early(),
    {
        match self {
            Property::FontSize => true,
            _ => false,
        }
    }
}

/// The first index from `from` on at which `s` holds white space; the length of `s` where
/// it holds none.
pub open spec fn word_end(s: Seq<char>, from: int) -> int
    decreases s.len() - from,
{
    if from >= s.len() {
        s.len() as int
    } else if from >= 0 && whitespace(s[from]) {
        from
    } else {
        word_end(s, from + 1)
    }
}

/// The words of `s` from `pos` on: the runs of characters between white space.
pub open spec fn words_from(s: Seq<char>, pos: int) -> Seq<Seq<char>>
    decreases s.len() - pos,
{
    if pos < 0 || pos >= s.len() {
        Seq::empty()
    } else {
        let start = skip_space(s, pos);
        if start >= s.len() || start < pos {
            Seq::empty()
        } else {
            let end = word_end(s, start + 1);
            if end <= start || end > s.len() {
                Seq::empty()
            } else {
                seq![s.subrange(start, end)] + words_from(s, end)
            }
        }
    }
}

/// A word ends behind where it starts and within the text.
proof fn word_end_bounds(s: Seq<char>, from: int)
    requires
        0 <= from <= s.len(),
    ensures
        from <= word_end(s, from) <= s.len(),
    decreases s.len() - from,
{
    if from < s.len() && !whitespace(s[from]) {
        word_end_bounds(s, from + 1);
    }
}

/// The words of `s`.
pub fn split_words(s: &Vec<char>) -> (words: Vec<Vec<char>>)
    ensures
        words@.len() == words_from(s@, 0).len(),
        forall|i: int| 0 <= i < words@.len() ==> (#[trigger] words@[i])@ == words_from(s@, 0)[i],
{
    let mut words: Vec<Vec<char>> = Vec::new();
    let mut pos: usize = 0;
    let ghost all = words_from(s@, 0);
    while pos < s.len()
        invariant
            pos <= s.len(),
            all == words_from(s@, 0),
            words@.len() + words_from(s@, pos as int).len() == all.len(),
            forall|i: int| 0 <= i < words@.len() ==> (#[trigger] words@[i])@ == all[i],
            forall|i: int|
                0 <= i < words_from(s@, pos as int).len() ==> #[trigger] all[words@.len() + i]
                    == words_from(s@, pos as int)[i],
        decreases s.len() - pos,
    {
        let ghost rest = words_from(s@, pos as int);
        let mut start: usize = pos;
        while start < s.len() && is_whitespace(s[start])
            invariant
                pos <= start <= s.len(),
                skip_space(s@, pos as int) == skip_space(s@, start as int),
            decreases s.len() - start,
        {
            start += 1;
        }
        if start >= s.len() {
            assert(rest.len() == 0);
            pos = s.len();
        } else {
            let mut end: usize = start + 1;
            while end < s.len() && !is_whitespace(s[end])
                invariant
                    start < end <= s.len(),
                    word_end(s@, start + 1) == word_end(s@, end as int),
                decreases s.len() - end,
            {
                end += 1;
            }
            let word = slice(s, start, end);
            proof {
                word_end_bounds(s@, start + 1);
                let tail = words_from(s@, end as int);
                assert(rest =~= seq![s@.subrange(start as int, end as int)] + tail);
                assert(rest[0] == word@);
                assert forall|i: int| 0 <= i < tail.len() implies #[trigger] all[words@.len() + 1
                    + i] == tail[i] by {
                    assert(rest[i + 1] == tail[i]);
                    assert(all[words@.len() + (i + 1)] == rest[i + 1]);
                }
                assert(all[words@.len() + 0int] == rest[0]);
            }
            words.push(word);
            pos = end;
        }
    }
    words
}

} // verus!

verus! {

/// The value that `text` gives to a property that takes a size; `auto` passes where
/// `auto_ok` says so.
pub open spec fn size_value(text: Seq<char>, auto_ok: bool) -> Option<Specified> {
    if same_ignoring_ascii_case(text, "inherit"@) {
        Some(Specified::Inherit)
    } else if same_ignoring_ascii_case(text, "initial"@) {
        Some(Specified::Initial)
    } else if auto_ok && same_ignoring_ascii_case(text, "auto"@) {
        Some(Specified::Auto)
    } else {
        match dimension_of(text) {
            Some(d) => Some(Specified::Dimension(d)),
            None => None,
        }
    }
}

/// The value that `text` gives to a property that takes a colour.
pub open spec fn color_value(text: Seq<char>) -> Option<Specified> {
    if same_ignoring_ascii_case(text, "inherit"@) {
        Some(Specified::Inherit)
    } else if same_ignoring_ascii_case(text, "initial"@) {
        Some(Specified::Initial)
    } else {
        match color_of(text) {
            Some(c) => Some(Specified::Color(c)),
            None => None,
        }
    }
}

/// The value that a word of `text` gives, where `word` reads the word.
pub open spec fn keyword_value(text: Seq<char>, word: Option<Keyword>) -> Option<Specified> {
    if same_ignoring_ascii_case(text, "inherit"@) {
        Some(Specified::Inherit)
    } else if same_ignoring_ascii_case(text, "initial"@) {
        Some(Specified::Initial)
    } else {
        match word {
            Some(k) => Some(Specified::Keyword(k)),
            None => None,
        }
    }
}

/// The word of `text` as a way of taking part in the layout.
pub open spec fn display_word(text: Seq<char>) -> Option<Keyword> {
    match display_of(text) {
        Some(d) => Some(Keyword::Display(d)),
        None => None,
    }
}

/// The word of `text` as a placement.
pub open spec fn position_word(text: Seq<char>) -> Option<Keyword> {
    match position_of(text) {
        Some(p) => Some(Keyword::Position(p)),
        None => None,
    }
}

/// The word of `text` as a side to float to.
pub open spec fn float_word(text: Seq<char>) -> Option<Keyword> {
    match float_of(text) {
        Some(f) => Some(Keyword::Float(f)),
        None => None,
    }
}

/// The value that `text` gives to the width of a border: `thin`, `medium` and `thick`
/// are one, three and five pixels.
pub open spec fn border_width_value(text: Seq<char>) -> Option<Specified> {
    if same_ignoring_ascii_case(text, "thin"@) {
        Some(Specified::Dimension(Dimension::Px(1000)))
    } else if same_ignoring_ascii_case(text, "medium"@) {
        Some(Specified::Dimension(Dimension::Px(3000)))
    } else if same_ignoring_ascii_case(text, "thick"@) {
        Some(Specified::Dimension(Dimension::Px(5000)))
    } else {
        size_value(text, false)
    }
}

/// The value that `text` gives to `property`; none where the property does not take it.
pub open spec fn value_for(property: Property, text: Seq<char>) -> Option<Specified> {
    match property {
        Property::FontSize => size_value(text, false),
        Property::Color => color_value(text),
        Property::BackgroundColor => color_value(text),
        Property::Display => keyword_value(text, display_word(text)),
        Property::Position => keyword_value(text, position_word(text)),
        Property::Float => keyword_value(text, float_word(text)),
        Property::Top => size_value(text, true),
        Property::Right => size_value(text, true),
        Property::Bottom => size_value(text, true),
        Property::Left => size_value(text, true),
        Property::Width => size_value(text, true),
        Property::Height => size_value(text, true),
        Property::MarginTop => size_value(text, true),
        Property::MarginRight => size_value(text, true),
        Property::MarginBottom => size_value(text, true),
        Property::MarginLeft => size_value(text, true),
        Property::PaddingTop => size_value(text, false),
        Property::PaddingRight => size_value(text, false),
        Property::PaddingBottom => size_value(text, false),
        Property::PaddingLeft => size_value(text, false),
        Property::BorderTopWidth => border_width_value(text),
        Property::BorderRightWidth => border_width_value(text),
        Property::BorderBottomWidth => border_width_value(text),
        Property::BorderLeftWidth => border_width_value(text),
    }
}

/// The property that a name stands for, whatever the case of its letters.
pub open spec fn longhand(name: Seq<char>) -> Option<Property> {
    if same_ignoring_ascii_case(name, "font-size"@) {
        Some(Property::FontSize)
    } else if same_ignoring_ascii_case(name, "color"@) {
        Some(Property::Color)
    } else if same_ignoring_ascii_case(name, "background-color"@) || same_ignoring_ascii_case(
        name,
        "background"@,
    ) {
        Some(Property::BackgroundColor)
    } else if same_ignoring_ascii_case(name, "display"@) {
        Some(Property::Display)
    } else if same_ignoring_ascii_case(name, "position"@) {
        Some(Property::Position)
    } else if same_ignoring_ascii_case(name, "float"@) {
        Some(Property::Float)
    } else if same_ignoring_ascii_case(name, "top"@) {
        Some(Property::Top)
    } else if same_ignoring_ascii_case(name, "right"@) {
        Some(Property::Right)
    } else if same_ignoring_ascii_case(name, "bottom"@) {
        Some(Property::Bottom)
    } else if same_ignoring_ascii_case(name, "left"@) {
        Some(Property::Left)
    } else if same_ignoring_ascii_case(name, "width"@) {
        Some(Property::Width)
    } else if same_ignoring_ascii_case(name, "height"@) {
        Some(Property::Height)
    } else if same_ignoring_ascii_case(name, "margin-top"@) {
        Some(Property::MarginTop)
    } else if same_ignoring_ascii_case(name, "margin-right"@) {
        Some(Property::MarginRight)
    } else if same_ignoring_ascii_case(name, "margin-bottom"@) {
        Some(Property::MarginBottom)
    } else if same_ignoring_ascii_case(name, "margin-left"@) {
        Some(Property::MarginLeft)
    } else if same_ignoring_ascii_case(name, "padding-top"@) {
        Some(Property::PaddingTop)
    } else if same_ignoring_ascii_case(name, "padding-right"@) {
        Some(Property::PaddingRight)
    } else if same_ignoring_ascii_case(name, "padding-bottom"@) {
        Some(Property::PaddingBottom)
    } else if same_ignoring_ascii_case(name, "padding-left"@) {
        Some(Property::PaddingLeft)
    } else if same_ignoring_ascii_case(name, "border-top-width"@) {
        Some(Property::BorderTopWidth)
    } else if same_ignoring_ascii_case(name, "border-right-width"@) {
        Some(Property::BorderRightWidth)
    } else if same_ignoring_ascii_case(name, "border-bottom-width"@) {
        Some(Property::BorderBottomWidth)
    } else if same_ignoring_ascii_case(name, "border-left-width"@) {
        Some(Property::BorderLeftWidth)
    } else {
        None
    }
}

/// The four properties that a name stands for at once, for the top, the right, the bottom
/// and the left side.
pub open spec fn shorthand(name: Seq<char>) -> Option<(Property, Property, Property, Property)> {
    if same_ignoring_ascii_case(name, "margin"@) {
        Some(
            (
                Property::MarginTop,
                Property::MarginRight,
                Property::MarginBottom,
                Property::MarginLeft,
            ),
        )
    } else if same_ignoring_ascii_case(name, "padding"@) {
        Some(
            (
                Property::PaddingTop,
                Property::PaddingRight,
                Property::PaddingBottom,
                Property::PaddingLeft,
            ),
        )
    } else if same_ignoring_ascii_case(name, "border-width"@) {
        Some(
            (
                Property::BorderTopWidth,
                Property::BorderRightWidth,
                Property::BorderBottomWidth,
                Property::BorderLeftWidth,
            ),
        )
    } else {
        None
    }
}

/// The words for the four sides that one to four words stand for: one word is for all
/// sides; of two, the first is for top and bottom, the second for right and left; of
/// three, the first is for the top, the second for right and left, the third for the
/// bottom; four are for top, right, bottom and left.
pub open spec fn four_sides(words: Seq<Seq<char>>) -> Option<
    (Seq<char>, Seq<char>, Seq<char>, Seq<char>),
> {
    if words.len() == 1 {
        Some((words[0], words[0], words[0], words[0]))
    } else if words.len() == 2 {
        Some((words[0], words[1], words[0], words[1]))
    } else if words.len() == 3 {
        Some((words[0], words[1], words[2], words[1]))
    } else if words.len() == 4 {
        Some((words[0], words[1], words[2], words[3]))
    } else {
        None
    }
}

/// The declarations that stand for `name: text`: one for a property with a value that it
/// takes, four for a property with sides, none for a name or a value that is not known.
pub open spec fn declared(name: Seq<char>, text: Seq<char>, important: bool) -> Seq<Declaration> {
    match shorthand(name) {
        Some(p) => match four_sides(words_from(text, 0)) {
            Some(w) => match (
                value_for(p.0, w.0),
                value_for(p.1, w.1),
                value_for(p.2, w.2),
                value_for(p.3, w.3),
            ) {
                (Some(top), Some(right), Some(bottom), Some(left)) => seq![
                    Declaration { property: p.0, value: top, important },
                    Declaration { property: p.1, value: right, important },
                    Declaration { property: p.2, value: bottom, important },
                    Declaration { property: p.3, value: left, important },
                ],
                _ => Seq::empty(),
            },
            None => Seq::empty(),
        },
        None => match longhand(name) {
            Some(property) => match value_for(property, text) {
                Some(value) => seq![Declaration { property, value, important }],
                None => Seq::empty(),
            },
            None => Seq::empty(),
        },
    }
}

/// The value that `text` gives to a property that takes a size.
fn parse_size(text: &Vec<char>, auto_ok: bool) -> (v: Option<Specified>)
    ensures
        v == size_value(text@, auto_ok),
{
    if is_word(text, "inherit") {
        Some(Specified::Inherit)
    } else if is_word(text, "initial") {
        Some(Specified::Initial)
    } else if auto_ok && is_word(text, "auto") {
        Some(Specified::Auto)
    } else {
        match parse_dimension(text) {
            Some(d) => Some(Specified::Dimension(d)),
            None => None,
        }
    }
}

/// The value that `text` gives to a property that takes a colour.
fn parse_color_value(text: &Vec<char>) -> (v: Option<Specified>)
    ensures
        v == color_value(text@),
{
    if is_word(text, "inherit") {
        Some(Specified::Inherit)
    } else if is_word(text, "initial") {
        Some(Specified::Initial)
    } else {
        match parse_color(text) {
            Some(c) => Some(Specified::Color(c)),
            None => None,
        }
    }
}

/// The value that a word of `text` gives.
fn parse_keyword(text: &Vec<char>, word: Option<Keyword>) -> (v: Option<Specified>)
    ensures
        v == keyword_value(text@, word),
{
    if is_word(text, "inherit") {
        Some(Specified::Inherit)
    } else if is_word(text, "initial") {
        Some(Specified::Initial)
    } else {
        match word {
            Some(k) => Some(Specified::Keyword(k)),
            None => None,
        }
    }
}

/// The word of `text` as a way of taking part in the layout.
fn parse_display_word(text: &Vec<char>) -> (k: Option<Keyword>)
    ensures
        k == display_word(text@),
{
    match parse_display(text) {
        Some(d) => Some(Keyword::Display(d)),
        None => None,
    }
}

/// The word of `text` as a placement.
fn parse_position_word(text: &Vec<char>) -> (k: Option<Keyword>)
    ensures
        k == position_word(text@),
{
    match parse_position(text) {
        Some(p) => Some(Keyword::Position(p)),
        None => None,
    }
}

/// The word of `text` as a side to float to.
fn parse_float_word(text: &Vec<char>) -> (k: Option<Keyword>)
    ensures
        k == float_word(text@),
{
    match parse_float(text) {
        Some(f) => Some(Keyword::Float(f)),
        None => None,
    }
}

/// The value that `text` gives to the width of a border.
fn parse_border_width(text: &Vec<char>) -> (v: Option<Specified>)
    ensures
        v == border_width_value(text@),
{
    if is_word(text, "thin") {
        Some(Specified::Dimension(Dimension::Px(1000)))
    } else if is_word(text, "medium") {
        Some(Specified::Dimension(Dimension::Px(3000)))
    } else if is_word(text, "thick") {
        Some(Specified::Dimension(Dimension::Px(5000)))
    } else {
        parse_size(text, false)
    }
}

/// The value that `text` gives to `property`.
pub fn parse_value(property: Property, text: &Vec<char>) -> (v: Option<Specified>)
    ensures
        v == value_for(property, text@),
{
    match property {
        Property::FontSize => parse_size(text, false),
        Property::Color => parse_color_value(text),
        Property::BackgroundColor => parse_color_value(text),
        Property::Display => parse_keyword(text, parse_display_word(text)),
        Property::Position => parse_keyword(text, parse_position_word(text)),
        Property::Float => parse_keyword(text, parse_float_word(text)),
        Property::Top => parse_size(text, true),
        Property::Right => parse_size(text, true),
        Property::Bottom => parse_size(text, true),
        Property::Left => parse_size(text, true),
        Property::Width => parse_size(text, true),
        Property::Height => parse_size(text, true),
        Property::MarginTop => parse_size(text, true),
        Property::MarginRight => parse_size(text, true),
        Property::MarginBottom => parse_size(text, true),
        Property::MarginLeft => parse_size(text, true),
        Property::PaddingTop => parse_size(text, false),
        Property::PaddingRight => parse_size(text, false),
        Property::PaddingBottom => parse_size(text, false),
        Property::PaddingLeft => parse_size(text, false),
        Property::BorderTopWidth => parse_border_width(text),
        Property::BorderRightWidth => parse_border_width(text),
        Property::BorderBottomWidth => parse_border_width(text),
        Property::BorderLeftWidth => parse_border_width(text),
    }
}

/// The property that a name stands for.
pub fn property_by_name(name: &Vec<char>) -> (p: Option<Property>)
    ensures
        p == longhand(name@),
{
    if is_word(name, "font-size") {
        Some(Property::FontSize)
    } else if is_word(name, "color") {
        Some(Property::Color)
    } else if is_word(name, "background-color") || is_word(name, "background") {
        Some(Property::BackgroundColor)
    } else if is_word(name, "display") {
        Some(Property::Display)
    } else if is_word(name, "position") {
        Some(Property::Position)
    } else if is_word(name, "float") {
        Some(Property::Float)
    } else if is_word(name, "top") {
        Some(Property::Top)
    } else if is_word(name, "right") {
        Some(Property::Right)
    } else if is_word(name, "bottom") {
        Some(Property::Bottom)
    } else if is_word(name, "left") {
        Some(Property::Left)
    } else if is_word(name, "width") {
        Some(Property::Width)
    } else if is_word(name, "height") {
        Some(Property::Height)
    } else if is_word(name, "margin-top") {
        Some(Property::MarginTop)
    } else if is_word(name, "margin-right") {
        Some(Property::MarginRight)
    } else if is_word(name, "margin-bottom") {
        Some(Property::MarginBottom)
    } else if is_word(name, "margin-left") {
        Some(Property::MarginLeft)
    } else if is_word(name, "padding-top") {
        Some(Property::PaddingTop)
    } else if is_word(name, "padding-right") {
        Some(Property::PaddingRight)
    } else if is_word(name, "padding-bottom") {
        Some(Property::PaddingBottom)
    } else if is_word(name, "padding-left") {
        Some(Property::PaddingLeft)
    } else if is_word(name, "border-top-width") {
        Some(Property::BorderTopWidth)
    } else if is_word(name, "border-right-width") {
        Some(Property::BorderRightWidth)
    } else if is_word(name, "border-bottom-width") {
        Some(Property::BorderBottomWidth)
    } else if is_word(name, "border-left-width") {
        Some(Property::BorderLeftWidth)
    } else {
        None
    }
}

/// The four properties that a name stands for at once.
fn sides_by_name(name: &Vec<char>) -> (p: Option<(Property, Property, Property, Property)>)
    ensures
        p == shorthand(name@),
{
    if is_word(name, "margin") {
        Some(
            (
                Property::MarginTop,
                Property::MarginRight,
                Property::MarginBottom,
                Property::MarginLeft,
            ),
        )
    } else if is_word(name, "padding") {
        Some(
            (
                Property::PaddingTop,
                Property::PaddingRight,
                Property::PaddingBottom,
                Property::PaddingLeft,
            ),
        )
    } else if is_word(name, "border-width") {
        Some(
            (
                Property::BorderTopWidth,
                Property::BorderRightWidth,
                Property::BorderBottomWidth,
                Property::BorderLeftWidth,
            ),
        )
    } else {
        None
    }
}

/// Puts the declarations that stand for `name: text` behind `into`.
pub fn push_declared(name: &Vec<char>, text: &Vec<char>, important: bool, into: &mut Vec<Declaration>)
    ensures
        final(into)@ == old(into)@ + declared(name@, text@, important),
{
    match sides_by_name(name) {
        Some(p) => {
            let words = split_words(text);
            let ghost ws = words_from(text@, 0);
            let n = words.len();
            if n >= 1 && n <= 4 {
                let top: usize = 0;
                let right: usize = if n == 1 {
                    0
                } else {
                    1
                };
                let bottom: usize = if n <= 2 {
                    0
                } else {
                    2
                };
                let left: usize = if n == 1 {
                    0
                } else if n == 4 {
                    3
                } else {
                    1
                };
                assert(four_sides(ws) == Some(
                    (ws[top as int], ws[right as int], ws[bottom as int], ws[left as int]),
                ));
                match (
                    parse_value(p.0, &words[top]),
                    parse_value(p.1, &words[right]),
                    parse_value(p.2, &words[bottom]),
                    parse_value(p.3, &words[left]),
                ) {
                    (Some(t), Some(r), Some(b), Some(l)) => {
                        into.push(Declaration { property: p.0, value: t, important });
                        into.push(Declaration { property: p.1, value: r, important });
                        into.push(Declaration { property: p.2, value: b, important });
                        into.push(Declaration { property: p.3, value: l, important });
                        assert(into@ =~= old(into)@ + declared(name@, text@, important));
                    },
                    _ => {
                        assert(into@ =~= old(into)@ + declared(name@, text@, important));
                    },
                }
            } else {
                assert(into@ =~= old(into)@ + declared(name@, text@, important));
            }
        },
        None => {
            match property_by_name(name) {
                Some(property) => match parse_value(property, text) {
                    Some(value) => {
                        into.push(Declaration { property, value, important });
                        assert(into@ =~= old(into)@ + declared(name@, text@, important));
                    },
                    None => {
                        assert(into@ =~= old(into)@ + declared(name@, text@, important));
                    },
                },
                None => {
                    assert(into@ =~= old(into)@ + declared(name@, text@, important));
                },
            }
        },
    }
}

} // verus!

verus! {

/// The declarations that one piece of a block stands for. The piece is a name, a colon and
/// a value, with `!important` behind the value where it is marked; a piece without a
/// colon stands for nothing.
pub open spec fn piece_declarations(piece: Seq<char>) -> Seq<Declaration> {
    let colon = first_index(piece, ':', 0);
    if colon >= piece.len() {
        Seq::empty()
    } else {
        let name = trimmed(piece.subrange(0, colon));
        let raw = piece.subrange(colon + 1, piece.len() as int);
        let bang = first_index(raw, '!', 0);
        if bang < raw.len() && same_ignoring_ascii_case(
            trimmed(raw.subrange(bang + 1, raw.len() as int)),
            "important"@,
        ) {
            declared(name, trimmed(raw.subrange(0, bang)), true)
        } else {
            declared(name, trimmed(raw), false)
        }
    }
}

/// The declarations of a block from `pos` on: those of each piece between semicolons, in
/// order.
pub open spec fn block_declarations(block: Seq<char>, pos: int) -> Seq<Declaration>
    decreases block.len() - pos,
{
    if pos < 0 || pos >= block.len() {
        Seq::empty()
    } else {
        let end = first_index(block, ';', pos);
        if end < pos || end > block.len() {
            Seq::empty()
        } else if end == block.len() {
            piece_declarations(block.subrange(pos, end))
        } else {
            piece_declarations(block.subrange(pos, end)) + block_declarations(block, end + 1)
        }
    }
}

/// A block of declarations, in the order in which they are written.
#[derive(Debug)]
pub struct DeclarationBlock {
    pub declarations: Vec<Declaration>,
}

/// Puts the declarations of the piece `block[from..to]` behind `into`.
fn push_piece(block: &Vec<char>, from: usize, to: usize, into: &mut Vec<Declaration>)
    requires
        from <= to <= block.len(),
    ensures
        final(into)@ == old(into)@ + piece_declarations(block@.subrange(from as int, to as int)),
{
    let ghost piece = block@.subrange(from as int, to as int);
    let colon_at = find_char(block, ':', from);
    proof {
        prefix_index(block@, ':', from as int, to as int);
    }
    if colon_at >= to {
        assert(into@ =~= old(into)@ + piece_declarations(piece));
        return ;
    }
    let ghost colon = colon_at - from;
    assert(first_index(piece, ':', 0) == colon);
    let name = trim_range(block, from, colon_at);
    assert(block@.subrange(from as int, colon_at as int) =~= piece.subrange(0, colon));
    let ghost raw = piece.subrange(colon + 1, piece.len() as int);
    assert(raw =~= block@.subrange(colon_at + 1, to as int));
    let bang_at = find_char(block, '!', colon_at + 1);
    proof {
        prefix_index(block@, '!', colon_at + 1, to as int);
    }
    if bang_at < to {
        let ghost bang = bang_at - colon_at - 1;
        assert(first_index(raw, '!', 0) == bang);
        let mark = trim_range(block, bang_at + 1, to);
        assert(block@.subrange(bang_at + 1, to as int) =~= raw.subrange(bang + 1, raw.len() as int));
        if is_word(&mark, "important") {
            let text = trim_range(block, colon_at + 1, bang_at);
            assert(block@.subrange(colon_at + 1, bang_at as int) =~= raw.subrange(0, bang));
            push_declared(&name, &text, true, into);
            return ;
        }
    }
    let text = trim_range(block, colon_at + 1, to);
    push_declared(&name, &text, false, into);
}

/// Finding a character in `s[from..to]` is finding it in `s` from `from` on, as long as it
/// is found before `to`.
pub proof fn prefix_index(s: Seq<char>, c: char, from: int, to: int)
    requires
        0 <= from <= to <= s.len(),
    ensures
        first_index(s, c, from) < to ==> first_index(s.subrange(from, to), c, 0) == first_index(
            s,
            c,
            from,
        ) - from,
        first_index(s, c, from) >= to ==> first_index(s.subrange(from, to), c, 0) == to - from,
    decreases to - from,
{
    let part = s.subrange(from, to);
    if from < to {
        assert(part[0] == s[from]);
        if s[from] != c {
            prefix_index(s, c, from + 1, to);
            crate::engine::styles::values::shifted_index(part, c, 1, 1);
            assert(part.skip(1) =~= s.subrange(from + 1, to));
        }
    } else {
        first_index_bounds(s, c, from);
    }
}

impl DeclarationBlock {
    /// The declarations of the block, in order.
    pub open spec fn view(&self) -> Seq<Declaration> {
        self.declarations@
    }

    /// Reads a block of declarations. What cannot be read is left out.
    pub fn parse(text: &str) -> (block: DeclarationBlock)
        ensures
            block@ == block_declarations(text@, 0),
    {
        let chars = to_chars(text);
        DeclarationBlock::parse_chars(&chars)
    }

    /// Reads a block of declarations from its characters.
    pub fn parse_chars(chars: &Vec<char>) -> (block: DeclarationBlock)
        ensures
            block@ == block_declarations(chars@, 0),
    {
        let mut declarations: Vec<Declaration> = Vec::new();
        let mut pos: usize = 0;
        assert(declarations@ + block_declarations(chars@, 0) =~= block_declarations(chars@, 0));
        while pos < chars.len()
            invariant
                pos <= chars.len(),
                block_declarations(chars@, 0) == declarations@ + block_declarations(
                    chars@,
                    pos as int,
                ),
            decreases chars.len() - pos,
        {
            let end = find_char(chars, ';', pos);
            let ghost before = declarations@;
            push_piece(chars, pos, end, &mut declarations);
            proof {
                let next = block_declarations(chars@, end + 1);
                let piece = piece_declarations(chars@.subrange(pos as int, end as int));
                if end == chars.len() {
                    assert(block_declarations(chars@, pos as int) == piece);
                    assert(block_declarations(chars@, end as int) =~= Seq::<Declaration>::empty());
                    assert(before + piece =~= (before + piece) + Seq::<Declaration>::empty());
                } else {
                    assert(block_declarations(chars@, pos as int) == piece + next);
                    assert(before + (piece + next) =~= (before + piece) + next);
                }
            }
            if end == chars.len() {
                pos = end;
            } else {
                pos = end + 1;
            }
        }
        assert(declarations@ + Seq::<Declaration>::empty() =~= declarations@);
        DeclarationBlock { declarations }
    }
}

} // verus!
