//! Character sequences: the string operations that the rules are stated over.

use vstd::prelude::*;
use vstd::std_specs::iter::IteratorSpec;
use vstd::string::*;

verus! {

/// Whether `c` is white space as Unicode defines it (the property White_Space).
pub open spec fn whitespace(c: char) -> bool {
    let n = c as u32;
    ||| 0x09 <= n <= 0x0D
    ||| n == 0x20
    ||| n == 0x85
    ||| n == 0xA0
    ||| n == 0x1680
    ||| 0x2000 <= n <= 0x200A
    ||| n == 0x2028
    ||| n == 0x2029
    ||| n == 0x202F
    ||| n == 0x205F
    ||| n == 0x3000
}

/// Whether every character of `s` is white space: what is left after trimming is empty.
pub open spec fn blank(s: Seq<char>) -> bool {
    forall|i: int| 0 <= i < s.len() ==> whitespace(#[trigger] s[i])
}

/// Whether `s` begins with `prefix`.
pub open spec fn has_prefix(s: Seq<char>, prefix: Seq<char>) -> bool {
    prefix.len() <= s.len() && s.subrange(0, prefix.len() as int) == prefix
}

/// Whether `needle` stands in `s` at position `at`.
pub open spec fn occurs_at(s: Seq<char>, needle: Seq<char>, at: int) -> bool {
    0 <= at && at + needle.len() <= s.len() && s.subrange(at, at + needle.len()) == needle
}

/// Whether `needle` stands somewhere in `s`.
pub open spec fn has_infix(s: Seq<char>, needle: Seq<char>) -> bool {
    exists|at: int| occurs_at(s, needle, at)
}

/// `parts` written one after the other, with `sep` between two neighbours.
pub open spec fn joined(parts: Seq<Seq<char>>, sep: Seq<char>) -> Seq<char>
    decreases parts.len(),
{
    if parts.len() == 0 {
        Seq::empty()
    } else if parts.len() == 1 {
        parts[0]
    } else {
        joined(parts.take(parts.len() - 1), sep) + sep + parts[parts.len() - 1]
    }
}

/// The views of a sequence of owned strings.
pub open spec fn views(parts: Seq<String>) -> Seq<Seq<char>> {
    Seq::new(parts.len(), |i: int| parts[i]@)
}

/// The views of a sequence of string literals.
pub open spec fn literal_views(parts: Seq<&'static str>) -> Seq<Seq<char>> {
    Seq::new(parts.len(), |i: int| parts[i]@)
}

/// The decimal digit that stands for `d`, for `d` below ten.
pub open spec fn digit(d: int) -> char {
    if d == 0 {
        '0'
    } else if d == 1 {
        '1'
    } else if d == 2 {
        '2'
    } else if d == 3 {
        '3'
    } else if d == 4 {
        '4'
    } else if d == 5 {
        '5'
    } else if d == 6 {
        '6'
    } else if d == 7 {
        '7'
    } else if d == 8 {
        '8'
    } else {
        '9'
    }
}

/// `n` in decimal, without leading zeros.
pub open spec fn decimal(n: nat) -> Seq<char>
    decreases n,
{
    if n < 10 {
        seq![digit(n as int)]
    } else {
        decimal(n / 10) + seq![digit((n % 10) as int)]
    }
}

/// The characters of a string slice.
pub fn to_chars(s: &str) -> (chars: Vec<char>)
    ensures
        chars@ == s@,
{
    broadcast use vstd::string::group_string_axioms;

    let mut rest = s.chars();
    let mut chars: Vec<char> = Vec::new();
    assert(chars@ + rest.remaining() =~= s@);
    loop
        invariant_except_break
            rest.obeys_prophetic_iter_laws(),
            rest.decrease() is Some,
            chars@ + rest.remaining() == s@,
        ensures
            chars@ == s@,
        decreases rest.decrease()->0,
    {
        match rest.next() {
            Some(c) => {
                chars.push(c);
                assert(chars@ + rest.remaining() =~= s@);
            },
            None => {
                assert(chars@ + rest.remaining() =~= chars@);
                break ;
            },
        }
    }
    chars
}

/// A string made of the given characters, collected by `String::from_iter`: the characters
/// in order and nothing else.
#[verifier::external_body]
pub(crate) fn from_chars(chars: &Vec<char>) -> (s: String)
    ensures
        s@ == chars@,
{
    String::from_iter(chars)
}

/// Whether two strings hold the same characters.
pub fn str_eq(a: &str, b: &str) -> (same: bool)
    ensures
        same == (a@ == b@),
{
    let x = to_chars(a);
    let y = to_chars(b);
    if x.len() != y.len() {
        return false;
    }
    let mut i: usize = 0;
    while i < x.len()
        invariant
            i <= x.len(),
            x.len() == y.len(),
            x@ == a@,
            y@ == b@,
            forall|j: int| 0 <= j < i ==> x@[j] == y@[j],
        decreases x.len() - i,
    {
        if x[i] != y[i] {
            return false;
        }
        i += 1;
    }
    assert(x@ =~= y@);
    true
}

/// Whether `c` is white space.
pub fn is_whitespace(c: char) -> (w: bool)
    ensures
        w == whitespace(c),
{
    let n: u32 = c as u32;
    (0x09 <= n && n <= 0x0D) || n == 0x20 || n == 0x85 || n == 0xA0 || n == 0x1680 || (0x2000 <= n
        && n <= 0x200A) || n == 0x2028 || n == 0x2029 || n == 0x202F || n == 0x205F || n == 0x3000
}

/// Whether `s` is empty once white space is trimmed from both ends.
pub fn is_blank(s: &str) -> (b: bool)
    ensures
        b == blank(s@),
{
    let chars = to_chars(s);
    let mut i: usize = 0;
    while i < chars.len()
        invariant
            i <= chars.len(),
            chars@ == s@,
            forall|j: int| 0 <= j < i ==> whitespace(#[trigger] chars@[j]),
        decreases chars.len() - i,
    {
        if !is_whitespace(chars[i]) {
            return false;
        }
        i += 1;
    }
    true
}

/// Whether `needle` stands in `s` at index `at`.
fn matches_at(s: &Vec<char>, needle: &Vec<char>, at: usize) -> (m: bool)
    requires
        at + needle.len() <= s.len(),
    ensures
        m == occurs_at(s@, needle@, at as int),
{
    let mut k: usize = 0;
    while k < needle.len()
        invariant
            k <= needle.len(),
            at + needle.len() <= s.len(),
            forall|j: int| 0 <= j < k ==> s@[at + j] == needle@[j],
        decreases needle.len() - k,
    {
        if s[at + k] != needle[k] {
            assert(s@.subrange(at as int, at + needle.len())[k as int] == s@[at + k]);
            return false;
        }
        k += 1;
    }
    assert(s@.subrange(at as int, at + needle.len()) =~= needle@);
    true
}

/// Whether `s` begins with `prefix`.
pub fn starts_with(s: &str, prefix: &str) -> (b: bool)
    ensures
        b == has_prefix(s@, prefix@),
{
    let x = to_chars(s);
    let p = to_chars(prefix);
    if p.len() > x.len() {
        return false;
    }
    matches_at(&x, &p, 0)
}

/// Whether `needle` stands somewhere in `s`.
pub fn contains(s: &str, needle: &str) -> (b: bool)
    ensures
        b == has_infix(s@, needle@),
{
    let x = to_chars(s);
    let p = to_chars(needle);
    if p.len() > x.len() {
        return false;
    }
    let last: usize = x.len() - p.len();
    let mut at: usize = 0;
    loop
        invariant
            at <= last,
            last == x.len() - p.len(),
            p.len() <= x.len(),
            x@ == s@,
            p@ == needle@,
            forall|j: int| 0 <= j < at ==> !occurs_at(x@, p@, j),
        decreases last - at,
    {
        if matches_at(&x, &p, at) {
            return true;
        }
        if at == last {
            return false;
        }
        at += 1;
    }
}

/// The strings of `parts` written one after the other, with `sep` between two neighbours.
pub fn join(parts: &Vec<&'static str>, sep: &str) -> (s: String)
    ensures
        s@ == joined(literal_views(parts@), sep@),
{
    let mut out = String::new();
    let ghost all = literal_views(parts@);
    let mut i: usize = 0;
    while i < parts.len()
        invariant
            i <= parts.len(),
            all == literal_views(parts@),
            out@ == joined(all.take(i as int), sep@),
        decreases parts.len() - i,
    {
        if i > 0 {
            out.append(sep);
        }
        out.append(parts[i]);
        proof {
            let next = all.take(i + 1);
            assert(next.take(next.len() - 1) =~= all.take(i as int));
            assert(next[next.len() - 1] == parts@[i as int]@);
            if i == 0 {
                assert(all.take(0).len() == 0);
                assert(out@ =~= parts@[0]@);
            }
        }
        i += 1;
    }
    assert(all.take(parts.len() as int) =~= all);
    out
}

/// Writes `n` in decimal behind what `out` holds.
fn push_decimal(n: usize, out: &mut Vec<char>)
    ensures
        final(out)@ == old(out)@ + decimal(n as nat),
    decreases n,
{
    if n >= 10 {
        push_decimal(n / 10, out);
    }
    out.push(digit_char((n % 10) as u8));
    assert(final(out)@ =~= old(out)@ + decimal(n as nat));
}

/// `n` in decimal.
pub fn decimal_string(n: usize) -> (s: String)
    ensures
        s@ == decimal(n as nat),
{
    let mut chars: Vec<char> = Vec::new();
    push_decimal(n, &mut chars);
    assert(chars@ =~= decimal(n as nat));
    from_chars(&chars)
}

/// The digit character for a number below ten.
fn digit_char(d: u8) -> (c: char)
    requires
        d < 10,
    ensures
        c == digit(d as int),
{
    if d == 0 {
        '0'
    } else if d == 1 {
        '1'
    } else if d == 2 {
        '2'
    } else if d == 3 {
        '3'
    } else if d == 4 {
        '4'
    } else if d == 5 {
        '5'
    } else if d == 6 {
        '6'
    } else if d == 7 {
        '7'
    } else if d == 8 {
        '8'
    } else {
        '9'
    }
}

} // verus!

verus! {

/// The characters of an optional string.
pub open spec fn opt_view(o: Option<String>) -> Option<Seq<char>> {
    match o {
        Some(s) => Some(s@),
        None => None,
    }
}

} // verus!

verus! {

/// Whether `a` stands before `b` in the order of dictionaries, characters compared by their
/// code points. This is the order of strings in Rust.
pub open spec fn lex_less(a: Seq<char>, b: Seq<char>) -> bool
    decreases a.len(),
{
    if b.len() == 0 {
        false
    } else if a.len() == 0 {
        true
    } else if a[0] != b[0] {
        (a[0] as u32) < (b[0] as u32)
    } else {
        lex_less(a.skip(1), b.skip(1))
    }
}

/// Of two different strings one stands before the other.
pub proof fn lex_total(a: Seq<char>, b: Seq<char>)
    ensures
        a == b || lex_less(a, b) || lex_less(b, a),
        !(lex_less(a, b) && lex_less(b, a)),
        a == b ==> !lex_less(a, b),
    decreases a.len(),
{
    if a.len() == 0 || b.len() == 0 {
        if a.len() == 0 && b.len() == 0 {
            assert(a =~= b);
        }
    } else if a[0] != b[0] {
        vstd::utf8::char_u32_cast(a[0], a[0] as u32);
        vstd::utf8::char_u32_cast(b[0], b[0] as u32);
    } else {
        lex_total(a.skip(1), b.skip(1));
        if a.skip(1) == b.skip(1) {
            assert(a =~= seq![a[0]] + a.skip(1));
            assert(b =~= seq![b[0]] + b.skip(1));
        }
    }
}

/// What stands before something that stands before `c` stands before `c`.
pub proof fn lex_transitive(a: Seq<char>, b: Seq<char>, c: Seq<char>)
    requires
        lex_less(a, b),
        lex_less(b, c),
    ensures
        lex_less(a, c),
    decreases a.len(),
{
    if a.len() == 0 {
    } else if a[0] != b[0] || b[0] != c[0] {
    } else {
        lex_transitive(a.skip(1), b.skip(1), c.skip(1));
    }
}

/// Whether `a` stands before `b` in the order of dictionaries.
pub fn str_less(a: &str, b: &str) -> (less: bool)
    ensures
        less == lex_less(a@, b@),
{
    let x = to_chars(a);
    let y = to_chars(b);
    let mut i: usize = 0;
    assert(x@.skip(0) =~= x@ && y@.skip(0) =~= y@);
    loop
        invariant
            i <= x.len(),
            i <= y.len(),
            x@ == a@,
            y@ == b@,
            lex_less(a@, b@) == lex_less(x@.skip(i as int), y@.skip(i as int)),
        decreases x.len() - i,
    {
        let ghost xs = x@.skip(i as int);
        let ghost ys = y@.skip(i as int);
        if i >= y.len() {
            assert(ys.len() == 0);
            return false;
        }
        if i >= x.len() {
            assert(xs.len() == 0);
            return true;
        }
        assert(xs[0] == x@[i as int] && ys[0] == y@[i as int]);
        if x[i] != y[i] {
            return (x[i] as u32) < (y[i] as u32);
        }
        assert(xs.skip(1) =~= x@.skip(i + 1));
        assert(ys.skip(1) =~= y@.skip(i + 1));
        i += 1;
    }
}

} // verus!

verus! {

/// Whether `c` has the Unicode property Alphabetic.
pub uninterp spec fn alphabetic(c: char) -> bool;

/// `char::is_alphabetic`: whether the character has the Unicode property Alphabetic.
#[verifier::external_body]
pub(crate) fn is_alphabetic(c: char) -> (a: bool)
    ensures
        a == alphabetic(c),
{
    c.is_alphabetic()
}

/// The lower-case form of an ASCII capital; any other character as it is.
pub open spec fn ascii_lower(c: char) -> char {
    if 'A' <= c <= 'Z' {
        ((c as u32) + 32) as char
    } else {
        c
    }
}

/// Whether `a` and `b` are the same but for the case of ASCII letters.
pub open spec fn same_ignoring_ascii_case(a: Seq<char>, b: Seq<char>) -> bool {
    a.len() == b.len() && forall|i: int|
        0 <= i < a.len() ==> ascii_lower(#[trigger] a[i]) == ascii_lower(b[i])
}

/// The lower-case form of an ASCII capital; any other character as it is.
pub fn to_ascii_lower(c: char) -> (l: char)
    ensures
        l == ascii_lower(c),
{
    if c == 'A' {
        'a'
    } else if c == 'B' {
        'b'
    } else if c == 'C' {
        'c'
    } else if c == 'D' {
        'd'
    } else if c == 'E' {
        'e'
    } else if c == 'F' {
        'f'
    } else if c == 'G' {
        'g'
    } else if c == 'H' {
        'h'
    } else if c == 'I' {
        'i'
    } else if c == 'J' {
        'j'
    } else if c == 'K' {
        'k'
    } else if c == 'L' {
        'l'
    } else if c == 'M' {
        'm'
    } else if c == 'N' {
        'n'
    } else if c == 'O' {
        'o'
    } else if c == 'P' {
        'p'
    } else if c == 'Q' {
        'q'
    } else if c == 'R' {
        'r'
    } else if c == 'S' {
        's'
    } else if c == 'T' {
        't'
    } else if c == 'U' {
        'u'
    } else if c == 'V' {
        'v'
    } else if c == 'W' {
        'w'
    } else if c == 'X' {
        'x'
    } else if c == 'Y' {
        'y'
    } else if c == 'Z' {
        'z'
    } else {
        c
    }
}

/// Whether two strings are the same but for the case of ASCII letters.
pub fn eq_ignore_ascii_case(a: &str, b: &str) -> (same: bool)
    ensures
        same == same_ignoring_ascii_case(a@, b@),
{
    let x = to_chars(a);
    let y = to_chars(b);
    if x.len() != y.len() {
        return false;
    }
    let mut i: usize = 0;
    while i < x.len()
        invariant
            i <= x.len(),
            x.len() == y.len(),
            x@ == a@,
            y@ == b@,
            forall|j: int| 0 <= j < i ==> ascii_lower(#[trigger] x@[j]) == ascii_lower(y@[j]),
        decreases x.len() - i,
    {
        if to_ascii_lower(x[i]) != to_ascii_lower(y[i]) {
            return false;
        }
        i += 1;
    }
    true
}

} // verus!

verus! {

/// `s` with every occurrence of `pattern` replaced by `with`, reading from the left; an
/// occurrence that begins inside an earlier one does not count.
pub open spec fn replaced(s: Seq<char>, pattern: Seq<char>, with: Seq<char>) -> Seq<char>
    decreases s.len(),
{
    if pattern.len() == 0 || s.len() < pattern.len() {
        s
    } else if s.subrange(0, pattern.len() as int) == pattern {
        with + replaced(s.skip(pattern.len() as int), pattern, with)
    } else {
        seq![s[0]] + replaced(s.skip(1), pattern, with)
    }
}

/// `s` with every occurrence of `pattern` replaced by `with`.
pub fn replace_all(s: &str, pattern: &str, with: &str) -> (r: String)
    ensures
        r@ == replaced(s@, pattern@, with@),
{
    let x = to_chars(s);
    let p = to_chars(pattern);
    let w = to_chars(with);
    if p.len() == 0 {
        return s.to_owned();
    }
    let mut out: Vec<char> = Vec::new();
    let mut i: usize = 0;
    assert(x@.skip(0) =~= x@);
    while i < x.len()
        invariant
            i <= x.len(),
            p.len() > 0,
            x@ == s@,
            p@ == pattern@,
            w@ == with@,
            replaced(x@, p@, w@) == out@ + replaced(x@.skip(i as int), p@, w@),
        decreases x.len() - i,
    {
        let ghost rest = x@.skip(i as int);
        let ghost done = out@;
        if x.len() - i < p.len() {
            let mut k: usize = i;
            while k < x.len()
                invariant
                    i <= k <= x.len(),
                    out@ == done + x@.subrange(i as int, k as int),
                decreases x.len() - k,
            {
                out.push(x[k]);
                assert(out@ =~= done + x@.subrange(i as int, k + 1));
                k += 1;
            }
            assert(x@.subrange(i as int, x.len() as int) =~= rest);
            return from_chars(&out);
        }
        assert(rest.subrange(0, p.len() as int) =~= x@.subrange(i as int, i + p.len()));
        if matches_at(&x, &p, i) {
            let mut k: usize = 0;
            while k < w.len()
                invariant
                    k <= w.len(),
                    out@ == done + w@.subrange(0, k as int),
                decreases w.len() - k,
            {
                out.push(w[k]);
                assert(out@ =~= done + w@.subrange(0, k + 1));
                k += 1;
            }
            assert(w@.subrange(0, w.len() as int) =~= w@);
            assert(rest.skip(p.len() as int) =~= x@.skip(i + p.len()));
            assert(out@ + replaced(x@.skip(i + p.len()), p@, w@) =~= done + (w@ + replaced(
                rest.skip(p.len() as int),
                p@,
                w@,
            )));
            i += p.len();
        } else {
            out.push(x[i]);
            assert(rest.skip(1) =~= x@.skip(i + 1));
            assert(out@ + replaced(x@.skip(i + 1), p@, w@) =~= done + (seq![rest[0]] + replaced(
                rest.skip(1),
                p@,
                w@,
            )));
            i += 1;
        }
    }
    assert(x@.skip(x.len() as int).len() == 0);
    assert(out@ + replaced(x@.skip(i as int), p@, w@) =~= out@);
    from_chars(&out)
}

} // verus!

verus! {

/// The hexadecimal digit that stands for `d`, for `d` below sixteen.
pub open spec fn hex_digit(d: int) -> char {
    if d < 10 {
        digit(d)
    } else if d == 10 {
        'a'
    } else if d == 11 {
        'b'
    } else if d == 12 {
        'c'
    } else if d == 13 {
        'd'
    } else if d == 14 {
        'e'
    } else {
        'f'
    }
}

/// `n` in hexadecimal without leading zeros, for `n` below 256.
pub open spec fn hex(n: int) -> Seq<char> {
    if n < 16 {
        seq![hex_digit(n)]
    } else {
        seq![hex_digit(n / 16), hex_digit(n % 16)]
    }
}

/// Whether `c` may stand in a CSS identifier as it is: a letter or digit of ASCII, a
/// hyphen, an underscore, or any character beyond ASCII.
pub open spec fn is_name_char(c: char) -> bool {
    ||| (c as u32) >= 0x80
    ||| c == '-'
    ||| c == '_'
    ||| '0' <= c <= '9'
    ||| 'a' <= c <= 'z'
    ||| 'A' <= c <= 'Z'
}

/// How the character at index `i` of `s` is written in a CSS identifier.
///
/// The null character becomes the replacement character. A control character, and a
/// digit that would start the identifier (alone or behind one hyphen), is written as a
/// backslash, its code in hexadecimal and a space. A hyphen that is the whole identifier,
/// and any other character that may not stand as it is, gets a backslash before it.
pub open spec fn escaped_at(s: Seq<char>, i: int) -> Seq<char> {
    let c = s[i];
    let n = c as u32;
    if n == 0 {
        seq!['\u{FFFD}']
    } else if n <= 0x1f || n == 0x7f {
        seq!['\\'] + hex(n as int) + seq![' ']
    } else if '0' <= c <= '9' && (i == 0 || (i == 1 && s[0] == '-')) {
        seq!['\\'] + hex(n as int) + seq![' ']
    } else if c == '-' && i == 0 && s.len() == 1 {
        seq!['\\', '-']
    } else if is_name_char(c) {
        seq![c]
    } else {
        seq!['\\', c]
    }
}

/// The first `upto` characters of `s` as they are written in a CSS identifier.
pub open spec fn escaped_upto(s: Seq<char>, upto: int) -> Seq<char>
    decreases upto,
{
    if upto <= 0 {
        Seq::empty()
    } else {
        escaped_upto(s, upto - 1) + escaped_at(s, upto - 1)
    }
}

/// `s` as a CSS identifier: a text that a selector reads as the name `s`.
pub open spec fn escaped(s: Seq<char>) -> Seq<char> {
    escaped_upto(s, s.len() as int)
}

/// The hexadecimal digit that stands for `d`.
fn hex_digit_char(d: u32) -> (c: char)
    requires
        d < 16,
    ensures
        c == hex_digit(d as int),
{
    if d < 10 {
        digit_char(d as u8)
    } else if d == 10 {
        'a'
    } else if d == 11 {
        'b'
    } else if d == 12 {
        'c'
    } else if d == 13 {
        'd'
    } else if d == 14 {
        'e'
    } else {
        'f'
    }
}

/// Writes a backslash, `n` in hexadecimal and a space behind what `out` holds.
fn push_hex_escape(n: u32, out: &mut Vec<char>)
    requires
        n < 256,
    ensures
        final(out)@ == old(out)@ + (seq!['\\'] + hex(n as int) + seq![' ']),
{
    out.push('\\');
    if n >= 16 {
        out.push(hex_digit_char(n / 16));
    }
    out.push(hex_digit_char(n % 16));
    out.push(' ');
    assert(out@ =~= old(out)@ + (seq!['\\'] + hex(n as int) + seq![' ']));
}

/// `s` as a CSS identifier.
pub fn escape_identifier(s: &str) -> (r: String)
    ensures
        r@ == escaped(s@),
{
    let chars = to_chars(s);
    let mut out: Vec<char> = Vec::new();
    let mut i: usize = 0;
    while i < chars.len()
        invariant
            i <= chars.len(),
            chars@ == s@,
            out@ == escaped_upto(chars@, i as int),
        decreases chars.len() - i,
    {
        let c = chars[i];
        let n: u32 = c as u32;
        let ghost before = out@;
        if n == 0 {
            out.push('\u{FFFD}');
        } else if n <= 0x1f || n == 0x7f {
            push_hex_escape(n, &mut out);
        } else if '0' <= c && c <= '9' && (i == 0 || (i == 1 && chars[0] == '-')) {
            push_hex_escape(n, &mut out);
        } else if c == '-' && i == 0 && chars.len() == 1 {
            out.push('\\');
            out.push('-');
        } else if n >= 0x80 || c == '-' || c == '_' || ('0' <= c && c <= '9') || ('a' <= c && c
            <= 'z') || ('A' <= c && c <= 'Z') {
            out.push(c);
        } else {
            out.push('\\');
            out.push(c);
        }
        assert(out@ =~= before + escaped_at(chars@, i as int));
        i += 1;
    }
    from_chars(&out)
}

} // verus!
