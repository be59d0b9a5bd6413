//! Character-level helpers shared by the scanners and the classifier:
//! classification of identifier, digit and whitespace characters, ASCII
//! lower-casing, and conversions between `&str`, `Vec<char>` and `String`.
//!
//! Whitespace, digits and case folding are read as ASCII throughout, a
//! deliberate narrowing: the raw-text keys are `[A-Za-z0-9_]+` runs by
//! construction, so the reading can differ from Unicode-aware folding only
//! on exotic characters inside structured-JSON keys.

use vstd::prelude::*;

verus! {

/// An identifier character of the raw-text encoding: `A`-`Z`, `a`-`z`,
/// `0`-`9` or `_`.
pub open spec fn is_ident_char(c: char) -> bool {
    ('A' <= c && c <= 'Z') || ('a' <= c && c <= 'z') || ('0' <= c && c <= '9') || c == '_'
}

/// A decimal digit.
pub open spec fn is_digit(c: char) -> bool {
    '0' <= c && c <= '9'
}

/// A whitespace character as the line-anchored scans understand it.
pub open spec fn is_space(c: char) -> bool {
    c == ' ' || c == '\t' || c == '\n' || c == '\r' || c == '\u{b}' || c == '\u{c}'
}

/// ASCII lower-casing of one character; other characters are unchanged.
pub open spec fn spec_lower(c: char) -> char {
    if 'A' <= c && c <= 'Z' {
        ((c as u32) + 32) as char
    } else {
        c
    }
}

/// A sequence lower-cased character by character.
pub open spec fn lower_seq(s: Seq<char>) -> Seq<char> {
    s.map_values(|c: char| spec_lower(c))
}

pub fn is_ident_char_exec(c: char) -> (r: bool)
    ensures
        r == is_ident_char(c),
{
    ('A' <= c && c <= 'Z') || ('a' <= c && c <= 'z') || ('0' <= c && c <= '9') || c == '_'
}

pub fn is_digit_exec(c: char) -> (r: bool)
    ensures
        r == is_digit(c),
{
    '0' <= c && c <= '9'
}

pub fn is_space_exec(c: char) -> (r: bool)
    ensures
        r == is_space(c),
{
    c == ' ' || c == '\t' || c == '\n' || c == '\r' || c == '\u{b}' || c == '\u{c}'
}

pub fn lower_char(c: char) -> (r: char)
    ensures
        r == spec_lower(c),
{
    match c {
        'A' => 'a',
        'B' => 'b',
        'C' => 'c',
        'D' => 'd',
        'E' => 'e',
        'F' => 'f',
        'G' => 'g',
        'H' => 'h',
        'I' => 'i',
        'J' => 'j',
        'K' => 'k',
        'L' => 'l',
        'M' => 'm',
        'N' => 'n',
        'O' => 'o',
        'P' => 'p',
        'Q' => 'q',
        'R' => 'r',
        'S' => 's',
        'T' => 't',
        'U' => 'u',
        'V' => 'v',
        'W' => 'w',
        'X' => 'x',
        'Y' => 'y',
        'Z' => 'z',
        _ => c,
    }
}

/// Relies on `String::push`: appends one character at the end of the string.
#[verifier::external_body]
fn push_char(s: &mut String, c: char)
    ensures
        final(s)@ == old(s)@.push(c),
{
    s.push(c)
}

/// The characters of a string slice, as a vector.
pub fn chars_of(s: &str) -> (v: Vec<char>)
    ensures
        v@ == s@,
{
    let n = s.unicode_len();
    let mut v: Vec<char> = Vec::new();
    let mut i: usize = 0;
    while i < n
        invariant
            n == s@.len(),
            i <= n,
            v@ == s@.take(i as int),
        decreases n - i,
    {
        v.push(s.get_char(i));
        i = i + 1;
        proof {
            assert(v@ =~= s@.take(i as int));
        }
    }
    proof {
        assert(v@ =~= s@);
    }
    v
}

/// A `String` holding exactly the given characters.
pub fn string_of(cs: &[char]) -> (s: String)
    ensures
        s@ == cs@,
{
    let mut s = String::new();
    let mut i: usize = 0;
    while i < cs.len()
        invariant
            i <= cs@.len(),
            s@ == cs@.take(i as int),
        decreases cs@.len() - i,
    {
        push_char(&mut s, cs[i]);
        i = i + 1;
        proof {
            assert(s@ =~= cs@.take(i as int));
        }
    }
    proof {
        assert(s@ =~= cs@);
    }
    s
}

/// Whether `key` ends with the characters of `suf`.
pub(crate) fn ends_with(key: &[char], suf: &str) -> (r: bool)
    ensures
        r == (key@.len() >= suf@.len() && key@.subrange(
            key@.len() - suf@.len(),
            key@.len() as int,
        ) == suf@),
{
    let n = key.len();
    let m = suf.unicode_len();
    if n < m {
        return false;
    }
    let off = n - m;
    let mut t: usize = 0;
    while t < m
        invariant
            n == key@.len(),
            m == suf@.len(),
            off == n - m,
            t <= m,
            forall|u: int| 0 <= u < t ==> key@[off + u] == suf@[u],
        decreases m - t,
    {
        if key[off + t] != suf.get_char(t) {
            proof {
                assert(key@.subrange(n - m, n as int)[t as int] != suf@[t as int]);
            }
            return false;
        }
        t = t + 1;
    }
    proof {
        assert(key@.subrange(n - m, n as int) =~= suf@);
    }
    true
}

/// The characters `text[a .. b]`, as a fresh vector.
pub fn copy_range(text: &[char], a: usize, b: usize) -> (r: Vec<char>)
    requires
        a <= b <= text@.len(),
    ensures
        r@ == text@.subrange(a as int, b as int),
{
    let mut r: Vec<char> = Vec::new();
    let mut t: usize = a;
    while t < b
        invariant
            a <= t <= b <= text@.len(),
            r@ == text@.subrange(a as int, t as int),
        decreases b - t,
    {
        r.push(text[t]);
        t = t + 1;
        proof {
            assert(r@ =~= text@.subrange(a as int, t as int));
        }
    }
    proof {
        assert(r@ =~= text@.subrange(a as int, b as int));
    }
    r
}

/// A fresh vector holding strings with the same characters.
pub fn copy_strings(v: &Vec<String>) -> (r: Vec<String>)
    ensures
        r.deep_view() == v.deep_view(),
{
    let mut r: Vec<String> = Vec::new();
    let mut t: usize = 0;
    while t < v.len()
        invariant
            t <= v@.len(),
            r@.len() == t,
            forall|k: int| 0 <= k < t ==> r@[k]@ == v@[k]@,
        decreases v@.len() - t,
    {
        r.push(v[t].as_str().to_owned());
        t = t + 1;
    }
    proof {
        assert(r.deep_view() =~~= v.deep_view());
    }
    r
}

/// The same strings, as vectors of characters.
pub fn char_vecs_of(keys: &Vec<String>) -> (r: Vec<Vec<char>>)
    ensures
        r.deep_view() == keys.deep_view(),
{
    let mut r: Vec<Vec<char>> = Vec::new();
    let mut t: usize = 0;
    while t < keys.len()
        invariant
            t <= keys@.len(),
            r@.len() == t,
            forall|k: int| 0 <= k < t ==> r@[k]@ == keys@[k]@,
        decreases keys@.len() - t,
    {
        r.push(chars_of(keys[t].as_str()));
        t = t + 1;
    }
    proof {
        assert(r.deep_view() =~~= keys.deep_view());
    }
    r
}

/// The same character sequences, as `String` values.
pub fn strings_of(keys: &Vec<Vec<char>>) -> (r: Vec<String>)
    ensures
        r.deep_view() == keys.deep_view(),
{
    let mut r: Vec<String> = Vec::new();
    let mut t: usize = 0;
    while t < keys.len()
        invariant
            t <= keys@.len(),
            r@.len() == t,
            forall|k: int| 0 <= k < t ==> r@[k]@ == keys@[k]@,
        decreases keys@.len() - t,
    {
        r.push(string_of(keys[t].as_slice()));
        t = t + 1;
    }
    proof {
        assert(r.deep_view() =~~= keys.deep_view());
    }
    r
}

} // verus!
