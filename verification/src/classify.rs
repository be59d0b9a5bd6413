//! The ammunition classifier.  A candidate key names an ammunition type when
//! it contains a calibre (digits directly followed by `mm`, any case) or one
//! of a fixed vocabulary of ammunition tokens at a token boundary, unless it
//! ends with the grouping suffix `_ammo_pack`, which always excludes it.

use vstd::prelude::*;

use crate::chars::{ends_with, is_digit, is_digit_exec, lower_char, spec_lower, lower_seq};

verus! {

/// The key ends with the literal grouping suffix `_ammo_pack`.
pub open spec fn spec_ends_ammo_pack(s: Seq<char>) -> bool {
    s.len() >= 10 && s.subrange(s.len() - 10, s.len() as int) == "_ammo_pack"@
}

/// A digit stands at `i`, directly followed by `mm`, case-insensitively.
pub open spec fn calibre_at(s: Seq<char>, i: int) -> bool {
    0 <= i && i + 3 <= s.len() && is_digit(s[i]) && spec_lower(s[i + 1]) == 'm' && spec_lower(
        s[i + 2],
    ) == 'm'
}

/// The key contains a digit directly followed by `mm`, case-insensitively.
pub open spec fn spec_contains_calibre(s: Seq<char>) -> bool {
    exists|i: int| calibre_at(s, i)
}

/// The token `kw` (given lower-case) occurs at `i`, case-insensitively, and
/// at a boundary: preceded by the start of the key or `_`, and followed by
/// the end of the key or `_`.
pub open spec fn spec_keyword_at(s: Seq<char>, i: int, kw: Seq<char>) -> bool {
    &&& 0 <= i
    &&& i + kw.len() <= s.len()
    &&& lower_seq(s).subrange(i, i + kw.len()) == kw
    &&& (i == 0 || s[i - 1] == '_')
    &&& (i + kw.len() == s.len() || s[i + kw.len()] == '_')
}

/// One of the ammunition-type tokens occurs at `i` at a token boundary.
pub open spec fn any_keyword_at(s: Seq<char>, i: int) -> bool {
    ||| spec_keyword_at(s, i, "api"@)
    ||| spec_keyword_at(s, i, "apit"@)
    ||| spec_keyword_at(s, i, "apds"@)
    ||| spec_keyword_at(s, i, "aphe"@)
    ||| spec_keyword_at(s, i, "apcbc"@)
    ||| spec_keyword_at(s, i, "apc"@)
    ||| spec_keyword_at(s, i, "ap"@)
    ||| spec_keyword_at(s, i, "heat"@)
    ||| spec_keyword_at(s, i, "hesh"@)
    ||| spec_keyword_at(s, i, "he"@)
    ||| spec_keyword_at(s, i, "atgm"@)
    ||| spec_keyword_at(s, i, "vt"@)
    ||| spec_keyword_at(s, i, "cn"@)
    ||| spec_keyword_at(s, i, "nato"@)
    ||| spec_keyword_at(s, i, "ussr"@)
    ||| spec_keyword_at(s, i, "usa"@)
    ||| spec_keyword_at(s, i, "sw"@)
}

/// The key contains an ammunition token at a token boundary.
pub open spec fn spec_has_keyword(s: Seq<char>) -> bool {
    exists|i: int| any_keyword_at(s, i)
}

/// The classification rule: a calibre or a vocabulary token accepts the key,
/// and the `_ammo_pack` suffix overrides both.
pub open spec fn spec_is_ammo(s: Seq<char>) -> bool {
    !spec_ends_ammo_pack(s) && (spec_contains_calibre(s) || spec_has_keyword(s))
}

/// Whether `c` reads as an `m`, in either case.
fn is_m(c: char) -> (r: bool)
    ensures
        r == (spec_lower(c) == 'm'),
{
    c == 'm' || c == 'M'
}

/// Whether the key contains a digit directly followed by `mm`, any case.
fn contains_calibre(key: &[char]) -> (r: bool)
    ensures
        r == spec_contains_calibre(key@),
{
    let n = key.len();
    if n < 3 {
        return false;
    }
    let mut i: usize = 0;
    while i <= n - 3
        invariant
            n == key@.len(),
            3 <= n,
            i <= n - 2,
            forall|j: int| j < i ==> !calibre_at(key@, j),
        decreases n - i,
    {
        if is_digit_exec(key[i]) && is_m(key[i + 1]) && is_m(key[i + 2]) {
            proof {
                assert(calibre_at(key@, i as int));
            }
            return true;
        }
        i = i + 1;
    }
    false
}

/// Whether the lower-case token `kw` occurs at `i` in `key`,
/// case-insensitively and at a token boundary.
fn keyword_at(key: &[char], i: usize, kw: &str) -> (r: bool)
    requires
        i <= key@.len(),
    ensures
        r == spec_keyword_at(key@, i as int, kw@),
{
    let n = key.len();
    let m = kw.unicode_len();
    if m > n - i {
        return false;
    }
    if !(i == 0 || key[i - 1] == '_') {
        return false;
    }
    if !(i + m == n || key[i + m] == '_') {
        return false;
    }
    let mut t: usize = 0;
    while t < m
        invariant
            n == key@.len(),
            m == kw@.len(),
            i + m <= n,
            t <= m,
            forall|u: int| 0 <= u < t ==> spec_lower(key@[i + u]) == kw@[u],
        decreases m - t,
    {
        if lower_char(key[i + t]) != kw.get_char(t) {
            proof {
                assert(lower_seq(key@).subrange(i as int, i + m)[t as int] != kw@[t as int]);
            }
            return false;
        }
        t = t + 1;
    }
    proof {
        assert(lower_seq(key@).subrange(i as int, i + m) =~= kw@);
    }
    true
}

/// Whether any vocabulary token occurs at `i` at a token boundary.
fn keyword_any_at(key: &[char], i: usize) -> (r: bool)
    requires
        i <= key@.len(),
    ensures
        r == any_keyword_at(key@, i as int),
{
    keyword_at(key, i, "api") || keyword_at(key, i, "apit") || keyword_at(key, i, "apds")
        || keyword_at(key, i, "aphe") || keyword_at(key, i, "apcbc") || keyword_at(key, i, "apc")
        || keyword_at(key, i, "ap") || keyword_at(key, i, "heat") || keyword_at(key, i, "hesh")
        || keyword_at(key, i, "he") || keyword_at(key, i, "atgm") || keyword_at(key, i, "vt")
        || keyword_at(key, i, "cn") || keyword_at(key, i, "nato") || keyword_at(key, i, "ussr")
        || keyword_at(key, i, "usa") || keyword_at(key, i, "sw")
}

/// Whether the key contains any vocabulary token at a token boundary.
fn has_keyword(key: &[char]) -> (r: bool)
    ensures
        r == spec_has_keyword(key@),
{
    let n = key.len();
    let mut i: usize = 0;
    while i < n
        invariant
            n == key@.len(),
            i <= n,
            forall|j: int| 0 <= j < i ==> !any_keyword_at(key@, j),
        decreases n - i,
    {
        if keyword_any_at(key, i) {
            return true;
        }
        i = i + 1;
    }
    proof {
        reveal_strlit("api");
        reveal_strlit("apit");
        reveal_strlit("apds");
        reveal_strlit("aphe");
        reveal_strlit("apcbc");
        reveal_strlit("apc");
        reveal_strlit("ap");
        reveal_strlit("heat");
        reveal_strlit("hesh");
        reveal_strlit("he");
        reveal_strlit("atgm");
        reveal_strlit("vt");
        reveal_strlit("cn");
        reveal_strlit("nato");
        reveal_strlit("ussr");
        reveal_strlit("usa");
        reveal_strlit("sw");
        assert forall|j: int| !#[trigger] any_keyword_at(key@, j) by {
            if 0 <= j < key@.len() {
            }
        }
    }
    false
}

/// The classifier over a key given as characters.
pub fn is_ammo_chars(key: &[char]) -> (r: bool)
    ensures
        r == spec_is_ammo(key@),
{
    proof {
        reveal_strlit("_ammo_pack");
    }
    if ends_with(key, "_ammo_pack") {
        return false;
    }
    contains_calibre(key) || has_keyword(key)
}

/// The classifier: whether a candidate key names an ammunition type.
pub fn is_ammo_key(key: &str) -> (r: bool)
    ensures
        r == spec_is_ammo(key@),
{
    let cs = crate::chars::chars_of(key);
    is_ammo_chars(cs.as_slice())
}

} // verus!
