//! Making a piece of text safe to use as one component of a file name.
//!
//! [`sanitized`] says what the safe form of a text is, in four passes:
//! characters that no file system takes are replaced or dropped
//! ([`scrubbed`]), runs of white space become one space ([`collapsed`]),
//! dots and spaces are cut from both ends ([`trimmed`]), and what is left is
//! kept from being empty or the name of a device ([`guarded`]).

use vstd::prelude::*;
use crate::text::{append, chars_of, slice_of, string_of};

verus! {

/// Whether `c` is a control character: one of the code points up to `U+001F`
/// or from `U+007F` to `U+009F`.
pub open spec fn is_control(c: char) -> bool {
    c as u32 <= 0x1f || 0x7f <= c as u32 <= 0x9f
}

/// Whether `c` is white space: a character with the Unicode property
/// `White_Space`.
pub open spec fn is_whitespace(c: char) -> bool {
    let n = c as u32;
    ||| 0x09 <= n <= 0x0d
    ||| n == 0x20
    ||| n == 0x85
    ||| n == 0xa0
    ||| n == 0x1680
    ||| 0x2000 <= n <= 0x200a
    ||| n == 0x2028
    ||| n == 0x2029
    ||| n == 0x202f
    ||| n == 0x205f
    ||| n == 0x3000
}

/// Whether `c` separates the components of a path, on one system or
/// another.
pub open spec fn is_separator(c: char) -> bool {
    c == '/' || c == '\\'
}

/// Whether `c` is dropped from a name: a control character, or one of
/// `: * ? " < > |`.
pub open spec fn is_dropped(c: char) -> bool {
    ||| c == ':'
    ||| c == '*'
    ||| c == '?'
    ||| c == '"'
    ||| c == '<'
    ||| c == '>'
    ||| c == '|'
    ||| is_control(c)
}

/// Whether `c` may stand in a safe name.
pub open spec fn is_allowed(c: char) -> bool {
    !is_separator(c) && !is_dropped(c)
}

/// Whether `c` is cut from the ends of a name: a dot or a space.
pub open spec fn is_edge(c: char) -> bool {
    c == '.' || c == ' '
}

/// `s` with every separator replaced by `-` and every dropped character
/// left out.
pub open spec fn scrubbed(s: Seq<char>) -> Seq<char>
    decreases s.len(),
{
    if s.len() == 0 {
        Seq::empty()
    } else if is_separator(s.last()) {
        scrubbed(s.drop_last()).push('-')
    } else if is_dropped(s.last()) {
        scrubbed(s.drop_last())
    } else {
        scrubbed(s.drop_last()).push(s.last())
    }
}

/// The words of `s`, which white space parts, with one space between each
/// two.
pub open spec fn collapsed(s: Seq<char>) -> Seq<char>
    decreases s.len(),
{
    if s.len() == 0 {
        Seq::empty()
    } else if is_whitespace(s.last()) {
        collapsed(s.drop_last())
    } else if s.len() >= 2 && is_whitespace(s[s.len() - 2]) && collapsed(s.drop_last()).len() > 0 {
        collapsed(s.drop_last()).push(' ').push(s.last())
    } else {
        collapsed(s.drop_last()).push(s.last())
    }
}

/// `s` without the dots and spaces that it begins with.
pub open spec fn trimmed_start(s: Seq<char>) -> Seq<char>
    decreases s.len(),
{
    if s.len() > 0 && is_edge(s.first()) {
        trimmed_start(s.drop_first())
    } else {
        s
    }
}

/// `s` without the dots and spaces that it ends with.
pub open spec fn trimmed_end(s: Seq<char>) -> Seq<char>
    decreases s.len(),
{
    if s.len() > 0 && is_edge(s.last()) {
        trimmed_end(s.drop_last())
    } else {
        s
    }
}

/// `s` without the dots and spaces at its two ends.
pub open spec fn trimmed(s: Seq<char>) -> Seq<char> {
    trimmed_end(trimmed_start(s))
}

/// `c` as a capital letter where it is one of `a` to `z`, else `c` itself.
pub open spec fn ascii_upper(c: char) -> char {
    if 'a' <= c <= 'z' {
        ((c as u32) - 32) as char
    } else {
        c
    }
}

/// `s` with its letters `a` to `z` as capitals.
pub open spec fn upper(s: Seq<char>) -> Seq<char> {
    Seq::new(s.len(), |i: int| ascii_upper(s[i]))
}

/// Whether `s` is the name of a device, whatever the case of its letters:
/// `CON`, `PRN`, `AUX`, `NUL`, `COM1` to `COM9` or `LPT1` to `LPT9`.
pub open spec fn is_reserved(s: Seq<char>) -> bool {
    let u = upper(s);
    ||| u == seq!['C', 'O', 'N']
    ||| u == seq!['P', 'R', 'N']
    ||| u == seq!['A', 'U', 'X']
    ||| u == seq!['N', 'U', 'L']
    ||| (u.len() == 4 && (u.take(3) == seq!['C', 'O', 'M'] || u.take(3) == seq!['L', 'P', 'T'])
        && '1' <= u[3] <= '9')
}

/// The name that stands for a text of which nothing is left.
pub open spec fn unknown() -> Seq<char> {
    seq!['U', 'n', 'k', 'n', 'o', 'w', 'n']
}

/// `s` as a name that can be used: `Unknown` where `s` is empty, `s` behind
/// a `_` where `s` is the name of a device, else `s`.
pub open spec fn guarded(s: Seq<char>) -> Seq<char> {
    if s.len() == 0 {
        unknown()
    } else if is_reserved(s) {
        seq!['_'] + s
    } else {
        s
    }
}

/// The safe form of `s`.
pub open spec fn sanitized(s: Seq<char>) -> Seq<char> {
    guarded(trimmed(collapsed(scrubbed(s))))
}

/// Whether `c` is white space, as [`is_whitespace`] defines it.
pub fn is_whitespace_char(c: char) -> (r: bool)
    ensures
        r == is_whitespace(c),
{
    ('\u{9}' <= c && c <= '\u{d}') || c == ' ' || c == '\u{85}' || c == '\u{a0}' || c
        == '\u{1680}' || ('\u{2000}' <= c && c <= '\u{200a}') || c == '\u{2028}' || c
        == '\u{2029}' || c == '\u{202f}' || c == '\u{205f}' || c == '\u{3000}'
}

/// Whether `c` is a control character, as [`is_control`] defines it.
pub fn is_control_char(c: char) -> (r: bool)
    ensures
        r == is_control(c),
{
    c <= '\u{1f}' || ('\u{7f}' <= c && c <= '\u{9f}')
}

fn is_dropped_char(c: char) -> (r: bool)
    ensures
        r == is_dropped(c),
{
    c == ':' || c == '*' || c == '?' || c == '"' || c == '<' || c == '>' || c == '|'
        || is_control_char(c)
}

fn scrub(s: &Vec<char>) -> (r: Vec<char>)
    ensures
        r@ == scrubbed(s@),
{
    let mut r: Vec<char> = Vec::new();
    let mut i: usize = 0;
    while i < s.len()
        invariant
            i <= s.len(),
            r@ == scrubbed(s@.take(i as int)),
        decreases s.len() - i,
    {
        let c = s[i];
        proof {
            assert(s@.take(i + 1).drop_last() == s@.take(i as int));
        }
        if c == '/' || c == '\\' {
            r.push('-');
        } else if !is_dropped_char(c) {
            r.push(c);
        }
        i = i + 1;
    }
    proof {
        assert(s@.take(s.len() as int) == s@);
    }
    r
}

fn collapse(s: &Vec<char>) -> (r: Vec<char>)
    ensures
        r@ == collapsed(s@),
{
    let mut r: Vec<char> = Vec::new();
    let mut gap = false;
    let mut i: usize = 0;
    while i < s.len()
        invariant
            i <= s.len(),
            r@ == collapsed(s@.take(i as int)),
            gap == (i > 0 && is_whitespace(s@[i - 1])),
        decreases s.len() - i,
    {
        let c = s[i];
        proof {
            assert(s@.take(i + 1).drop_last() == s@.take(i as int));
        }
        if is_whitespace_char(c) {
            gap = true;
        } else {
            if gap && r.len() > 0 {
                r.push(' ');
            }
            r.push(c);
            gap = false;
        }
        i = i + 1;
    }
    proof {
        assert(s@.take(s.len() as int) == s@);
    }
    r
}

fn trim(s: &Vec<char>) -> (r: Vec<char>)
    ensures
        r@ == trimmed(s@),
{
    let mut from: usize = 0;
    proof {
        assert(s@.skip(0) == s@);
    }
    while from < s.len() && (s[from] == '.' || s[from] == ' ')
        invariant
            from <= s.len(),
            trimmed_start(s@) == trimmed_start(s@.skip(from as int)),
        decreases s.len() - from,
    {
        proof {
            assert(s@.skip(from as int).drop_first() == s@.skip(from + 1));
        }
        from = from + 1;
    }
    let ghost rest = s@.skip(from as int);
    let mut to: usize = s.len();
    proof {
        assert(rest.take(rest.len() as int) == rest);
    }
    while to > from && (s[to - 1] == '.' || s[to - 1] == ' ')
        invariant
            from <= to <= s.len(),
            rest == s@.skip(from as int),
            trimmed_end(rest) == trimmed_end(rest.take(to - from)),
        decreases to,
    {
        proof {
            assert(rest.take(to - from).drop_last() == rest.take(to - from - 1));
        }
        to = to - 1;
    }
    proof {
        assert(rest.take(to - from) == s@.subrange(from as int, to as int));
    }
    slice_of(s, from, to)
}

fn upper_char(c: char) -> (r: char)
    ensures
        r == ascii_upper(c),
{
    if 'a' <= c && c <= 'z' {
        ((c as u8) - 32) as char
    } else {
        c
    }
}

/// Two sequences of three are equal exactly when they agree place by place.
proof fn lemma_triple(a: char, b: char, c: char, x: char, y: char, z: char)
    ensures
        (seq![a, b, c] == seq![x, y, z]) == (a == x && b == y && c == z),
{
    if a == x && b == y && c == z {
        assert(seq![a, b, c] =~= seq![x, y, z]);
    } else {
        assert(seq![a, b, c][0] == a && seq![a, b, c][1] == b && seq![a, b, c][2] == c);
        assert(seq![x, y, z][0] == x && seq![x, y, z][1] == y && seq![x, y, z][2] == z);
    }
}

fn is_reserved_name(s: &Vec<char>) -> (r: bool)
    ensures
        r == is_reserved(s@),
{
    let ghost u = upper(s@);
    if s.len() == 3 {
        let a = upper_char(s[0]);
        let b = upper_char(s[1]);
        let c = upper_char(s[2]);
        proof {
            assert(u == seq![a, b, c]);
            lemma_triple(a, b, c, 'C', 'O', 'N');
            lemma_triple(a, b, c, 'P', 'R', 'N');
            lemma_triple(a, b, c, 'A', 'U', 'X');
            lemma_triple(a, b, c, 'N', 'U', 'L');
        }
        (a == 'C' && b == 'O' && c == 'N') || (a == 'P' && b == 'R' && c == 'N') || (a == 'A' && b
            == 'U' && c == 'X') || (a == 'N' && b == 'U' && c == 'L')
    } else if s.len() == 4 {
        let a = upper_char(s[0]);
        let b = upper_char(s[1]);
        let c = upper_char(s[2]);
        let d = upper_char(s[3]);
        proof {
            assert(u.take(3) == seq![a, b, c]);
            assert(u[3] == d);
            lemma_triple(a, b, c, 'C', 'O', 'M');
            lemma_triple(a, b, c, 'L', 'P', 'T');
            assert(seq!['C', 'O', 'N'].len() == 3);
            assert(seq!['P', 'R', 'N'].len() == 3);
            assert(seq!['A', 'U', 'X'].len() == 3);
            assert(seq!['N', 'U', 'L'].len() == 3);
        }
        ((a == 'C' && b == 'O' && c == 'M') || (a == 'L' && b == 'P' && c == 'T')) && '1' <= d
            && d <= '9'
    } else {
        proof {
            assert(u.len() == s.len());
            assert(seq!['C', 'O', 'N'].len() == 3);
            assert(seq!['P', 'R', 'N'].len() == 3);
            assert(seq!['A', 'U', 'X'].len() == 3);
            assert(seq!['N', 'U', 'L'].len() == 3);
        }
        false
    }
}

fn guard(s: Vec<char>) -> (r: Vec<char>)
    ensures
        r@ == guarded(s@),
{
    if s.len() == 0 {
        let r = chars_of("Unknown");
        proof {
            reveal_strlit("Unknown");
            assert(r@ == unknown());
        }
        r
    } else if is_reserved_name(&s) {
        let mut r: Vec<char> = Vec::new();
        r.push('_');
        append(&mut r, &s);
        r
    } else {
        s
    }
}

/// The safe form of the characters `s`.
pub fn sanitize_chars(s: &Vec<char>) -> (r: Vec<char>)
    ensures
        r@ == sanitized(s@),
{
    let scrubbed = scrub(s);
    let collapsed = collapse(&scrubbed);
    let trimmed = trim(&collapsed);
    guard(trimmed)
}

/// The safe form of `s`: a name that can stand as one component of a path
/// on any common file system.
pub fn sanitize(s: &str) -> (r: String)
    ensures
        r@ == sanitized(s@),
{
    let chars = chars_of(s);
    let safe = sanitize_chars(&chars);
    string_of(&safe)
}

} // verus!
