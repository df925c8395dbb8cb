//! The values of style properties. Lengths are whole numbers of thousandths of a pixel.

use vstd::prelude::*;
use crate::engine::styles::scan::{find_char, first_index, first_index_bounds, is_word};
use crate::text::same_ignoring_ascii_case;

verus! {

/// A colour with its opacity, each part from 0 to 255.
#[derive(Debug, Clone, Copy, PartialEq, Eq, Structural)]
pub struct Rgba {
    pub red: u8,
    pub green: u8,
    pub blue: u8,
    pub alpha: u8,
}

/// A colour value: a colour, or the colour of the text.
#[derive(Debug, Clone, Copy, PartialEq, Eq, Structural)]
pub enum Color {
    /// The colour of the text of the element.
    CurrentColor,
    /// A colour of its own.
    Rgba(Rgba),
}

/// A number with a unit, in thousandths of the unit.
#[derive(Debug, Clone, Copy, PartialEq, Eq, Structural)]
pub enum Dimension {
    /// Pixels.
    Px(i64),
    /// Multiples of the font size.
    Em(i64),
    /// Per cent of the containing box.
    Percent(i64),
}

/// A size: a length in thousandths of a pixel, a share of the containing box in
/// thousandths of a per cent, or whatever the layout finds.
#[derive(Debug, Clone, Copy, PartialEq, Eq, Structural)]
pub enum LengthOrPercentageOrAuto {
    Length(i64),
    Percentage(i64),
    Auto,
}

/// How an element takes part in the layout.
#[derive(Debug, Clone, Copy, PartialEq, Eq, Structural)]
pub enum Display {
    /// `none`: the element takes no part.
    Absent,
    Inline,
    Block,
    InlineBlock,
    Flex,
}

/// How an element is placed.
#[derive(Debug, Clone, Copy, PartialEq, Eq, Structural)]
pub enum Position {
    Static,
    Relative,
    Absolute,
    Fixed,
}

/// To which side an element floats.
#[derive(Debug, Clone, Copy, PartialEq, Eq, Structural)]
pub enum Float {
    /// `none`: the element does not float.
    Neither,
    Left,
    Right,
}

/// A value that is a word.
#[derive(Debug, Clone, Copy, PartialEq, Eq, Structural)]
pub enum Keyword {
    Display(Display),
    Position(Position),
    Float(Float),
}

/// The value of a decimal digit.
pub open spec fn digit_value(c: char) -> int {
    (c as u32) - ('0' as u32)
}

/// Whether `c` is a decimal digit.
pub open spec fn is_digit(c: char) -> bool {
    '0' <= c <= '9'
}

/// Whether all of `s` are decimal digits.
pub open spec fn all_digits(s: Seq<char>) -> bool {
    forall|i: int| 0 <= i < s.len() ==> is_digit(#[trigger] s[i])
}

/// The number that the decimal digits `s` write.
pub open spec fn digits_value(s: Seq<char>) -> int
    decreases s.len(),
{
    if s.len() == 0 {
        0
    } else {
        digits_value(s.drop_last()) * 10 + digit_value(s.last())
    }
}

/// The thousandths that the digits behind a decimal point write; digits behind the third
/// do not count.
pub open spec fn fraction_milli(s: Seq<char>) -> int {
    (if s.len() > 0 {
        digit_value(s[0]) * 100
    } else {
        0
    }) + (if s.len() > 1 {
        digit_value(s[1]) * 10
    } else {
        0
    }) + (if s.len() > 2 {
        digit_value(s[2])
    } else {
        0
    })
}

/// The number that `s` writes, in thousandths: digits, a point and digits, with a sign
/// before them if any. A text of another shape, or with more than nine digits before the
/// point, writes none.
pub open spec fn number_milli(s: Seq<char>) -> Option<int> {
    let signed = s.len() > 0 && (s[0] == '-' || s[0] == '+');
    let body = if signed {
        s.skip(1)
    } else {
        s
    };
    let dot = first_index(body, '.', 0);
    let whole = body.subrange(0, dot);
    let fraction = if dot < body.len() {
        body.subrange(dot + 1, body.len() as int)
    } else {
        Seq::empty()
    };
    if all_digits(whole) && all_digits(fraction) && whole.len() + fraction.len() > 0 && whole.len()
        <= 9 && (dot < body.len() ==> fraction.len() > 0) {
        let size = digits_value(whole) * 1000 + fraction_milli(fraction);
        if s.len() > 0 && s[0] == '-' {
            Some(-size)
        } else {
            Some(size)
        }
    } else {
        None
    }
}

/// Ten to the power of `n`, for `n` up to nine.
pub open spec fn pow10(n: nat) -> int
    decreases n,
{
    if n == 0 {
        1
    } else {
        10 * pow10((n - 1) as nat)
    }
}

/// Whether `c` is a decimal digit.
pub fn is_digit_char(c: char) -> (d: bool)
    ensures
        d == is_digit(c),
{
    '0' <= c && c <= '9'
}

/// The value of a decimal digit.
pub fn digit_of(c: char) -> (v: i64)
    requires
        is_digit(c),
    ensures
        v == digit_value(c),
        0 <= v <= 9,
{
    ((c as u32) - ('0' as u32)) as i64
}

/// The number that the digits `s[from..to]` write; none where one of them is no digit.
fn parse_digits(s: &Vec<char>, from: usize, to: usize) -> (n: Option<i64>)
    requires
        from <= to <= s.len(),
        to - from <= 9,
    ensures
        n is Some <==> all_digits(s@.subrange(from as int, to as int)),
        n is Some ==> n->0 == digits_value(s@.subrange(from as int, to as int)),
        n is Some ==> 0 <= n->0 < 1_000_000_000,
{
    let ghost part = s@.subrange(from as int, to as int);
    let mut value: i64 = 0;
    let mut i: usize = from;
    assert(part.take(0) =~= Seq::<char>::empty());
    proof {
        assert(pow10(9) == 1_000_000_000) by {
            reveal_with_fuel(pow10, 10);
        }
    }
    while i < to
        invariant
            from <= i <= to <= s.len(),
            to - from <= 9,
            part == s@.subrange(from as int, to as int),
            all_digits(part.take(i - from)),
            value == digits_value(part.take(i - from)),
            0 <= value < pow10((i - from) as nat),
            pow10(9) == 1_000_000_000,
        decreases to - i,
    {
        if !is_digit_char(s[i]) {
            assert(part[i - from] == s@[i as int]);
            return None;
        }
        proof {
            let now = part.take(i - from + 1);
            assert(now.drop_last() =~= part.take(i - from));
            assert(now.last() == s@[i as int]);
            assert forall|j: int| 0 <= j < now.len() implies is_digit(#[trigger] now[j]) by {
                if j < i - from {
                    assert(part.take(i - from)[j] == now[j]);
                }
            }
            assert(pow10((i - from + 1) as nat) == 10 * pow10((i - from) as nat));
            pow10_grows((i - from + 1) as nat, 9);
        }
        value = value * 10 + digit_of(s[i]);
        i += 1;
    }
    assert(part.take(part.len() as int) =~= part);
    proof {
        pow10_grows((to - from) as nat, 9);
    }
    Some(value)
}

/// The thousandths that the digits `s[from..to]` write behind a decimal point; none where
/// one of them is no digit.
fn parse_fraction(s: &Vec<char>, from: usize, to: usize) -> (n: Option<i64>)
    requires
        from <= to <= s.len(),
    ensures
        n is Some <==> all_digits(s@.subrange(from as int, to as int)),
        n is Some ==> n->0 == fraction_milli(s@.subrange(from as int, to as int)),
        n is Some ==> 0 <= n->0 <= 999,
{
    let ghost part = s@.subrange(from as int, to as int);
    let mut k: usize = from;
    while k < to
        invariant
            from <= k <= to <= s.len(),
            part == s@.subrange(from as int, to as int),
            forall|j: int| 0 <= j < k - from ==> is_digit(#[trigger] part[j]),
        decreases to - k,
    {
        if !is_digit_char(s[k]) {
            assert(part[k - from] == s@[k as int]);
            return None;
        }
        assert(part[k - from] == s@[k as int]);
        k += 1;
    }
    let mut milli: i64 = 0;
    if to - from > 0 {
        assert(part[0] == s@[from as int]);
        milli = milli + digit_of(s[from]) * 100;
    }
    if to - from > 1 {
        assert(part[1] == s@[from + 1]);
        milli = milli + digit_of(s[from + 1]) * 10;
    }
    if to - from > 2 {
        assert(part[2] == s@[from + 2]);
        milli = milli + digit_of(s[from + 2]);
    }
    Some(milli)
}

/// The number that `s` writes, in thousandths.
pub fn parse_number(s: &Vec<char>) -> (n: Option<i64>)
    ensures
        n is Some <==> number_milli(s@) is Some,
        n is Some ==> n->0 == number_milli(s@)->0,
        n is Some ==> -1_000_000_000_000 < n->0 < 1_000_000_000_000,
{
    let signed = s.len() > 0 && (s[0] == '-' || s[0] == '+');
    let start: usize = if signed {
        1
    } else {
        0
    };
    let ghost body = s@.skip(start as int);
    let dot_at = find_char(s, '.', start);
    proof {
        shifted_index(s@, '.', start as int, start as int);
        if !signed {
            assert(body =~= s@);
        }
        first_index_bounds(body, '.', 0);
        assert(body.subrange(0, dot_at - start) =~= s@.subrange(start as int, dot_at as int));
        if dot_at < s.len() {
            assert(body.subrange(dot_at - start + 1, body.len() as int) =~= s@.subrange(
                dot_at + 1,
                s.len() as int,
            ));
        }
    }
    if dot_at - start > 9 {
        return None;
    }
    let whole = match parse_digits(s, start, dot_at) {
        Some(v) => v,
        None => {
            return None;
        },
    };
    let milli = if dot_at < s.len() {
        if dot_at + 1 == s.len() {
            return None;
        }
        match parse_fraction(s, dot_at + 1, s.len()) {
            Some(v) => v,
            None => {
                return None;
            },
        }
    } else {
        if dot_at == start {
            return None;
        }
        0
    };
    let size = whole * 1000 + milli;
    if s.len() > 0 && s[0] == '-' {
        Some(-size)
    } else {
        Some(size)
    }
}

/// Ten to a power grows with the power.
proof fn pow10_grows(a: nat, b: nat)
    requires
        a <= b,
    ensures
        0 < pow10(a) <= pow10(b),
    decreases b,
{
    if a < b {
        pow10_grows(a, (b - 1) as nat);
    } else if b > 0 {
        pow10_grows((a - 1) as nat, (b - 1) as nat);
    }
}

/// Finding a character from `from` on is finding it in what is left when the first `cut`
/// characters are cut off.
pub proof fn shifted_index(s: Seq<char>, c: char, from: int, cut: int)
    requires
        0 <= cut <= from <= s.len(),
    ensures
        first_index(s, c, from) == first_index(s.skip(cut), c, from - cut) + cut,
    decreases s.len() - from,
{
    if from < s.len() {
        assert(s.skip(cut)[from - cut] == s[from]);
        if s[from] != c {
            shifted_index(s, c, from + 1, cut);
        }
    }
}

} // verus!

verus! {

/// Whether `c` may stand in a number: a digit, a point or a sign.
pub open spec fn is_number_char(c: char) -> bool {
    is_digit(c) || c == '.' || c == '-' || c == '+'
}

/// The first index from `from` on at which `s` holds something that may not stand in a
/// number; the length of `s` where there is none.
pub open spec fn unit_start(s: Seq<char>, from: int) -> int
    decreases s.len() - from,
{
    if from >= s.len() {
        s.len() as int
    } else if from >= 0 && !is_number_char(s[from]) {
        from
    } else {
        unit_start(s, from + 1)
    }
}

/// The number with a unit that `s` writes: a number and `px`, `em` or `%` behind it; a
/// zero needs no unit. Any other text writes none.
pub open spec fn dimension_of(s: Seq<char>) -> Option<Dimension> {
    let split = unit_start(s, 0);
    let unit = s.subrange(split, s.len() as int);
    match number_milli(s.subrange(0, split)) {
        None => None,
        Some(v) => if same_ignoring_ascii_case(unit, "px"@) {
            Some(Dimension::Px(v as i64))
        } else if same_ignoring_ascii_case(unit, "em"@) {
            Some(Dimension::Em(v as i64))
        } else if same_ignoring_ascii_case(unit, "%"@) {
            Some(Dimension::Percent(v as i64))
        } else if unit.len() == 0 && v == 0 {
            Some(Dimension::Px(0))
        } else {
            None
        },
    }
}

/// The characters `s[from..to]`.
pub fn slice(s: &Vec<char>, from: usize, to: usize) -> (r: Vec<char>)
    requires
        from <= to <= s.len(),
    ensures
        r@ == s@.subrange(from as int, to as int),
{
    let mut r: Vec<char> = Vec::new();
    let mut i: usize = from;
    while i < to
        invariant
            from <= i <= to <= s.len(),
            r@ == s@.subrange(from as int, i as int),
        decreases to - i,
    {
        r.push(s[i]);
        assert(r@ =~= s@.subrange(from as int, i + 1));
        i += 1;
    }
    r
}

/// The number with a unit that `s` writes.
pub fn parse_dimension(s: &Vec<char>) -> (d: Option<Dimension>)
    ensures
        d == dimension_of(s@),
{
    let mut split: usize = 0;
    while split < s.len() && (is_digit_char(s[split]) || s[split] == '.' || s[split] == '-'
        || s[split] == '+')
        invariant
            split <= s.len(),
            unit_start(s@, 0) == unit_start(s@, split as int),
        decreases s.len() - split,
    {
        split += 1;
    }
    let number = slice(s, 0, split);
    let unit = slice(s, split, s.len());
    match parse_number(&number) {
        None => None,
        Some(v) => {
            if is_word(&unit, "px") {
                Some(Dimension::Px(v))
            } else if is_word(&unit, "em") {
                Some(Dimension::Em(v))
            } else if is_word(&unit, "%") {
                Some(Dimension::Percent(v))
            } else if unit.len() == 0 && v == 0 {
                Some(Dimension::Px(0))
            } else {
                None
            }
        },
    }
}

/// The value of a hexadecimal digit.
pub open spec fn hex_value(c: char) -> Option<int> {
    if '0' <= c <= '9' {
        Some((c as u32) - ('0' as u32))
    } else if 'a' <= c <= 'f' {
        Some((c as u32) - ('a' as u32) + 10)
    } else if 'A' <= c <= 'F' {
        Some((c as u32) - ('A' as u32) + 10)
    } else {
        None
    }
}

/// The colour that three or six hexadecimal digits write: with three digits each digit
/// counts twice.
pub open spec fn hex_color(h: Seq<char>) -> Option<Rgba> {
    if h.len() == 3 && hex_value(h[0]) is Some && hex_value(h[1]) is Some && hex_value(h[2])
        is Some {
        Some(
            Rgba {
                red: (hex_value(h[0])->0 * 17) as u8,
                green: (hex_value(h[1])->0 * 17) as u8,
                blue: (hex_value(h[2])->0 * 17) as u8,
                alpha: 255,
            },
        )
    } else if h.len() == 6 && hex_value(h[0]) is Some && hex_value(h[1]) is Some && hex_value(h[2])
        is Some && hex_value(h[3]) is Some && hex_value(h[4]) is Some && hex_value(h[5]) is Some {
        Some(
            Rgba {
                red: (hex_value(h[0])->0 * 16 + hex_value(h[1])->0) as u8,
                green: (hex_value(h[2])->0 * 16 + hex_value(h[3])->0) as u8,
                blue: (hex_value(h[4])->0 * 16 + hex_value(h[5])->0) as u8,
                alpha: 255,
            },
        )
    } else {
        None
    }
}

/// An opaque colour.
pub open spec fn opaque_color(red: u8, green: u8, blue: u8) -> Option<Rgba> {
    Some(Rgba { red, green, blue, alpha: 255 })
}

/// The colour that a name stands for, whatever the case of its letters.
pub open spec fn named_color(s: Seq<char>) -> Option<Rgba> {
    if same_ignoring_ascii_case(s, "black"@) {
        opaque_color(0, 0, 0)
    } else if same_ignoring_ascii_case(s, "white"@) {
        opaque_color(255, 255, 255)
    } else if same_ignoring_ascii_case(s, "red"@) {
        opaque_color(255, 0, 0)
    } else if same_ignoring_ascii_case(s, "green"@) {
        opaque_color(0, 128, 0)
    } else if same_ignoring_ascii_case(s, "blue"@) {
        opaque_color(0, 0, 255)
    } else if same_ignoring_ascii_case(s, "yellow"@) {
        opaque_color(255, 255, 0)
    } else if same_ignoring_ascii_case(s, "gray"@) || same_ignoring_ascii_case(s, "grey"@) {
        opaque_color(128, 128, 128)
    } else if same_ignoring_ascii_case(s, "silver"@) {
        opaque_color(192, 192, 192)
    } else if same_ignoring_ascii_case(s, "maroon"@) {
        opaque_color(128, 0, 0)
    } else if same_ignoring_ascii_case(s, "olive"@) {
        opaque_color(128, 128, 0)
    } else if same_ignoring_ascii_case(s, "lime"@) {
        opaque_color(0, 255, 0)
    } else if same_ignoring_ascii_case(s, "aqua"@) || same_ignoring_ascii_case(s, "cyan"@) {
        opaque_color(0, 255, 255)
    } else if same_ignoring_ascii_case(s, "teal"@) {
        opaque_color(0, 128, 128)
    } else if same_ignoring_ascii_case(s, "navy"@) {
        opaque_color(0, 0, 128)
    } else if same_ignoring_ascii_case(s, "fuchsia"@) || same_ignoring_ascii_case(
        s,
        "magenta"@,
    ) {
        opaque_color(255, 0, 255)
    } else if same_ignoring_ascii_case(s, "purple"@) {
        opaque_color(128, 0, 128)
    } else if same_ignoring_ascii_case(s, "orange"@) {
        opaque_color(255, 165, 0)
    } else if same_ignoring_ascii_case(s, "transparent"@) {
        Some(Rgba { red: 0, green: 0, blue: 0, alpha: 0 })
    } else {
        None
    }
}

/// The colour that `s` writes: `currentcolor`, a `#` and three or six hexadecimal digits,
/// or the name of a colour. Any other text writes none.
pub open spec fn color_of(s: Seq<char>) -> Option<Color> {
    if same_ignoring_ascii_case(s, "currentcolor"@) {
        Some(Color::CurrentColor)
    } else if s.len() > 0 && s[0] == '#' {
        match hex_color(s.skip(1)) {
            Some(c) => Some(Color::Rgba(c)),
            None => None,
        }
    } else {
        match named_color(s) {
            Some(c) => Some(Color::Rgba(c)),
            None => None,
        }
    }
}

/// The value of a hexadecimal digit.
fn hex_of(c: char) -> (v: Option<u8>)
    ensures
        v is Some <==> hex_value(c) is Some,
        v is Some ==> v->0 == hex_value(c)->0 && v->0 < 16,
{
    let n: u32 = c as u32;
    if '0' <= c && c <= '9' {
        Some((n - ('0' as u32)) as u8)
    } else if 'a' <= c && c <= 'f' {
        Some((n - ('a' as u32) + 10) as u8)
    } else if 'A' <= c && c <= 'F' {
        Some((n - ('A' as u32) + 10) as u8)
    } else {
        None
    }
}

/// The colour that the hexadecimal digits `s[1..]` write.
fn parse_hex(s: &Vec<char>) -> (c: Option<Rgba>)
    requires
        s.len() > 0,
    ensures
        c == hex_color(s@.skip(1)),
{
    let ghost h = s@.skip(1);
    if s.len() == 4 {
        assert(h[0] == s@[1] && h[1] == s@[2] && h[2] == s@[3]);
        match (hex_of(s[1]), hex_of(s[2]), hex_of(s[3])) {
            (Some(r), Some(g), Some(b)) => Some(
                Rgba { red: r * 17, green: g * 17, blue: b * 17, alpha: 255 },
            ),
            _ => None,
        }
    } else if s.len() == 7 {
        assert(h[0] == s@[1] && h[1] == s@[2] && h[2] == s@[3] && h[3] == s@[4] && h[4] == s@[5]
            && h[5] == s@[6]);
        match (hex_of(s[1]), hex_of(s[2]), hex_of(s[3]), hex_of(s[4]), hex_of(s[5]), hex_of(s[6])) {
            (Some(r1), Some(r2), Some(g1), Some(g2), Some(b1), Some(b2)) => Some(
                Rgba {
                    red: r1 * 16 + r2,
                    green: g1 * 16 + g2,
                    blue: b1 * 16 + b2,
                    alpha: 255,
                },
            ),
            _ => None,
        }
    } else {
        None
    }
}

/// The colour that a name stands for.
fn parse_named(s: &Vec<char>) -> (c: Option<Rgba>)
    ensures
        c == named_color(s@),
{
    if is_word(s, "black") {
        Some(Rgba { red: 0, green: 0, blue: 0, alpha: 255 })
    } else if is_word(s, "white") {
        Some(Rgba { red: 255, green: 255, blue: 255, alpha: 255 })
    } else if is_word(s, "red") {
        Some(Rgba { red: 255, green: 0, blue: 0, alpha: 255 })
    } else if is_word(s, "green") {
        Some(Rgba { red: 0, green: 128, blue: 0, alpha: 255 })
    } else if is_word(s, "blue") {
        Some(Rgba { red: 0, green: 0, blue: 255, alpha: 255 })
    } else if is_word(s, "yellow") {
        Some(Rgba { red: 255, green: 255, blue: 0, alpha: 255 })
    } else if is_word(s, "gray") || is_word(s, "grey") {
        Some(Rgba { red: 128, green: 128, blue: 128, alpha: 255 })
    } else if is_word(s, "silver") {
        Some(Rgba { red: 192, green: 192, blue: 192, alpha: 255 })
    } else if is_word(s, "maroon") {
        Some(Rgba { red: 128, green: 0, blue: 0, alpha: 255 })
    } else if is_word(s, "olive") {
        Some(Rgba { red: 128, green: 128, blue: 0, alpha: 255 })
    } else if is_word(s, "lime") {
        Some(Rgba { red: 0, green: 255, blue: 0, alpha: 255 })
    } else if is_word(s, "aqua") || is_word(s, "cyan") {
        Some(Rgba { red: 0, green: 255, blue: 255, alpha: 255 })
    } else if is_word(s, "teal") {
        Some(Rgba { red: 0, green: 128, blue: 128, alpha: 255 })
    } else if is_word(s, "navy") {
        Some(Rgba { red: 0, green: 0, blue: 128, alpha: 255 })
    } else if is_word(s, "fuchsia") || is_word(s, "magenta") {
        Some(Rgba { red: 255, green: 0, blue: 255, alpha: 255 })
    } else if is_word(s, "purple") {
        Some(Rgba { red: 128, green: 0, blue: 128, alpha: 255 })
    } else if is_word(s, "orange") {
        Some(Rgba { red: 255, green: 165, blue: 0, alpha: 255 })
    } else if is_word(s, "transparent") {
        Some(Rgba { red: 0, green: 0, blue: 0, alpha: 0 })
    } else {
        None
    }
}

/// The colour that `s` writes.
pub fn parse_color(s: &Vec<char>) -> (c: Option<Color>)
    ensures
        c == color_of(s@),
{
    if is_word(s, "currentcolor") {
        Some(Color::CurrentColor)
    } else if s.len() > 0 && s[0] == '#' {
        match parse_hex(s) {
            Some(c) => Some(Color::Rgba(c)),
            None => None,
        }
    } else {
        match parse_named(s) {
            Some(c) => Some(Color::Rgba(c)),
            None => None,
        }
    }
}

} // verus!

verus! {

/// The way of taking part in the layout that a word names.
pub open spec fn display_of(s: Seq<char>) -> Option<Display> {
    if same_ignoring_ascii_case(s, "none"@) {
        Some(Display::Absent)
    } else if same_ignoring_ascii_case(s, "inline"@) {
        Some(Display::Inline)
    } else if same_ignoring_ascii_case(s, "block"@) {
        Some(Display::Block)
    } else if same_ignoring_ascii_case(s, "inline-block"@) {
        Some(Display::InlineBlock)
    } else if same_ignoring_ascii_case(s, "flex"@) {
        Some(Display::Flex)
    } else {
        None
    }
}

/// The placement that a word names.
pub open spec fn position_of(s: Seq<char>) -> Option<Position> {
    if same_ignoring_ascii_case(s, "static"@) {
        Some(Position::Static)
    } else if same_ignoring_ascii_case(s, "relative"@) {
        Some(Position::Relative)
    } else if same_ignoring_ascii_case(s, "absolute"@) {
        Some(Position::Absolute)
    } else if same_ignoring_ascii_case(s, "fixed"@) {
        Some(Position::Fixed)
    } else {
        None
    }
}

/// The side that a word names.
pub open spec fn float_of(s: Seq<char>) -> Option<Float> {
    if same_ignoring_ascii_case(s, "none"@) {
        Some(Float::Neither)
    } else if same_ignoring_ascii_case(s, "left"@) {
        Some(Float::Left)
    } else if same_ignoring_ascii_case(s, "right"@) {
        Some(Float::Right)
    } else {
        None
    }
}

/// The way of taking part in the layout that a word names.
pub fn parse_display(s: &Vec<char>) -> (d: Option<Display>)
    ensures
        d == display_of(s@),
{
    if is_word(s, "none") {
        Some(Display::Absent)
    } else if is_word(s, "inline") {
        Some(Display::Inline)
    } else if is_word(s, "block") {
        Some(Display::Block)
    } else if is_word(s, "inline-block") {
        Some(Display::InlineBlock)
    } else if is_word(s, "flex") {
        Some(Display::Flex)
    } else {
        None
    }
}

/// The placement that a word names.
pub fn parse_position(s: &Vec<char>) -> (p: Option<Position>)
    ensures
        p == position_of(s@),
{
    if is_word(s, "static") {
        Some(Position::Static)
    } else if is_word(s, "relative") {
        Some(Position::Relative)
    } else if is_word(s, "absolute") {
        Some(Position::Absolute)
    } else if is_word(s, "fixed") {
        Some(Position::Fixed)
    } else {
        None
    }
}

/// The side that a word names.
pub fn parse_float(s: &Vec<char>) -> (f: Option<Float>)
    ensures
        f == float_of(s@),
{
    if is_word(s, "none") {
        Some(Float::Neither)
    } else if is_word(s, "left") {
        Some(Float::Left)
    } else if is_word(s, "right") {
        Some(Float::Right)
    } else {
        None
    }
}

} // verus!
