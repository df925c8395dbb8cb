//! Reading style sheet text: finding characters, trimming, numbers.

use vstd::prelude::*;
use crate::text::{ascii_lower, is_whitespace, to_ascii_lower, whitespace};

verus! {

/// The first index from `from` on at which `s` holds `c`; the length of `s` where it holds
/// none.
pub open spec fn first_index(s: Seq<char>, c: char, from: int) -> int
    decreases s.len() - from,
{
    if from >= s.len() {
        s.len() as int
    } else if from >= 0 && s[from] == c {
        from
    } else {
        first_index(s, c, from + 1)
    }
}

/// The first index is at or behind `from` and within the text.
pub proof fn first_index_bounds(s: Seq<char>, c: char, from: int)
    requires
        0 <= from <= s.len(),
    ensures
        from <= first_index(s, c, from) <= s.len(),
        first_index(s, c, from) < s.len() ==> s[first_index(s, c, from)] == c,
    decreases s.len() - from,
{
    if from < s.len() && s[from] != c {
        first_index_bounds(s, c, from + 1);
    }
}

/// The first index from `from` on at which `s` holds `c`.
pub fn find_char(s: &Vec<char>, c: char, from: usize) -> (at: usize)
    requires
        from <= s.len(),
    ensures
        at == first_index(s@, c, from as int),
        from <= at <= s.len(),
{
    let mut at: usize = from;
    while at < s.len() && s[at] != c
        invariant
            from <= at <= s.len(),
            first_index(s@, c, from as int) == first_index(s@, c, at as int),
        decreases s.len() - at,
    {
        at += 1;
    }
    at
}

/// The first index from `from` on at which `s` holds something other than white space;
/// the length of `s` where it holds nothing else.
pub open spec fn skip_space(s: Seq<char>, from: int) -> int
    decreases s.len() - from,
{
    if from >= s.len() {
        s.len() as int
    } else if from >= 0 && !whitespace(s[from]) {
        from
    } else {
        skip_space(s, from + 1)
    }
}

/// The index behind the last character before `to` that is no white space, and not
/// before `from`.
pub open spec fn back_space(s: Seq<char>, from: int, to: int) -> int
    decreases to - from,
{
    if to <= from {
        from
    } else if to <= s.len() && !whitespace(s[to - 1]) {
        to
    } else {
        back_space(s, from, to - 1)
    }
}

/// `s` without the white space at its ends.
pub open spec fn trimmed(s: Seq<char>) -> Seq<char> {
    let start = skip_space(s, 0);
    let end = back_space(s, start, s.len() as int);
    s.subrange(start, end)
}

/// The part of `s` from `from` up to `to`, without the white space at its ends.
pub fn trim_range(s: &Vec<char>, from: usize, to: usize) -> (r: Vec<char>)
    requires
        from <= to <= s.len(),
    ensures
        r@ == trimmed(s@.subrange(from as int, to as int)),
{
    let ghost part = s@.subrange(from as int, to as int);
    let mut start: usize = from;
    while start < to && is_whitespace(s[start])
        invariant
            from <= start <= to <= s.len(),
            part == s@.subrange(from as int, to as int),
            skip_space(part, 0) == skip_space(part, start - from),
        decreases to - start,
    {
        start += 1;
    }
    let mut end: usize = to;
    while end > start && is_whitespace(s[end - 1])
        invariant
            from <= start <= end <= to <= s.len(),
            part == s@.subrange(from as int, to as int),
            skip_space(part, 0) == start - from,
            back_space(part, start - from, part.len() as int) == back_space(
                part,
                start - from,
                end - from,
            ),
        decreases end - start,
    {
        end -= 1;
    }
    let mut r: Vec<char> = Vec::new();
    let mut i: usize = start;
    while i < end
        invariant
            start <= i <= end <= s.len(),
            r@ == s@.subrange(start as int, i as int),
        decreases end - i,
    {
        r.push(s[i]);
        assert(r@ =~= s@.subrange(start as int, i + 1));
        i += 1;
    }
    assert(r@ =~= part.subrange(start - from, end - from));
    r
}

/// Whether `s` is the text `word` but for the case of ASCII letters.
pub fn is_word(s: &Vec<char>, word: &str) -> (same: bool)
    ensures
        same == crate::text::same_ignoring_ascii_case(s@, word@),
{
    let w = crate::text::to_chars(word);
    if s.len() != w.len() {
        return false;
    }
    let mut i: usize = 0;
    while i < s.len()
        invariant
            i <= s.len(),
            s.len() == w.len(),
            w@ == word@,
            forall|j: int| 0 <= j < i ==> ascii_lower(#[trigger] s@[j]) == ascii_lower(w@[j]),
        decreases s.len() - i,
    {
        if to_ascii_lower(s[i]) != to_ascii_lower(w[i]) {
            return false;
        }
        i += 1;
    }
    true
}

} // verus!
