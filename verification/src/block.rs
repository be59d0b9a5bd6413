//! The block locator for the raw-text encoding: find the first occurrence of
//! a block key, the next opening brace after it, and the matching closing
//! brace found by tracking the nesting depth.  The block's content is the text
//! strictly between that brace pair.
//!
//! Known limitation, kept on purpose: the key is looked up as a plain
//! substring, with no word-boundary check, so a key that occurs inside a
//! larger identifier makes the locator start there.

use vstd::prelude::*;

verus! {

/// The pattern occurs in `text` starting at `i`.
pub open spec fn matches_at(text: Seq<char>, pat: Seq<char>, i: int) -> bool {
    0 <= i && i + pat.len() <= text.len() && text.subrange(i, i + pat.len()) == pat
}

/// Index of the first occurrence of `pat` in `text` at or after `from`.
pub open spec fn spec_find(text: Seq<char>, pat: Seq<char>, from: int) -> Option<int>
    decreases text.len() + 1 - from,
{
    if from < 0 || from + pat.len() > text.len() {
        None
    } else if matches_at(text, pat, from) {
        Some(from)
    } else {
        spec_find(text, pat, from + 1)
    }
}

/// Index of the first occurrence of the character `c` at or after `from`.
pub open spec fn spec_find_char(text: Seq<char>, c: char, from: int) -> Option<int>
    decreases text.len() - from,
{
    if from < 0 || from >= text.len() {
        None
    } else if text[from] == c {
        Some(from)
    } else {
        spec_find_char(text, c, from + 1)
    }
}

/// Index of the closing brace that ends a block whose content starts at `i`
/// with `depth` braces already open, or `None` when the text runs out first.
pub open spec fn spec_block_end(text: Seq<char>, i: int, depth: nat) -> Option<int>
    decreases text.len() - i,
{
    if i < 0 || i >= text.len() {
        None
    } else if text[i] == '}' {
        if depth == 0 {
            Some(i)
        } else {
            spec_block_end(text, i + 1, (depth - 1) as nat)
        }
    } else if text[i] == '{' {
        spec_block_end(text, i + 1, depth + 1)
    } else {
        spec_block_end(text, i + 1, depth)
    }
}

/// The content of the first block named `key`: the text strictly between the
/// first `{` after the first occurrence of `key` and its matching `}`.
pub open spec fn spec_find_block(text: Seq<char>, key: Seq<char>) -> Option<Seq<char>> {
    match spec_find(text, key, 0) {
        None => None,
        Some(s) => match spec_find_char(text, '{', s) {
            None => None,
            Some(b) => match spec_block_end(text, b + 1, 0) {
                None => None,
                Some(e) => Some(text.subrange(b + 1, e)),
            },
        },
    }
}

/// Whether `pat` occurs in `text` starting at `i`.
pub(crate) fn is_match_at(text: &[char], pat: &[char], i: usize) -> (r: bool)
    requires
        i + pat@.len() <= text@.len(),
    ensures
        r == matches_at(text@, pat@, i as int),
{
    let n = text.len();
    let mut k: usize = 0;
    while k < pat.len()
        invariant
            n == text@.len(),
            i + pat@.len() <= n,
            k <= pat@.len(),
            forall|t: int| 0 <= t < k ==> text@[i + t] == pat@[t],
        decreases pat@.len() - k,
    {
        if text[i + k] != pat[k] {
            proof {
                assert(text@.subrange(i as int, i + pat@.len())[k as int] != pat@[k as int]);
            }
            return false;
        }
        k = k + 1;
    }
    proof {
        assert(text@.subrange(i as int, i + pat@.len()) =~= pat@);
    }
    true
}

/// First index at or after `from` where `pat` occurs in `text`.
fn find_sub(text: &[char], pat: &[char], from: usize) -> (r: Option<usize>)
    requires
        from <= text@.len(),
    ensures
        match r {
            Some(i) => spec_find(text@, pat@, from as int) == Some(i as int) && i
                <= text@.len(),
            None => spec_find(text@, pat@, from as int) is None,
        },
{
    let n = text.len();
    let m = pat.len();
    if m == 0 {
        proof {
            assert(text@.subrange(from as int, from as int) =~= pat@);
        }
        return Some(from);
    }
    let mut i: usize = from;
    loop
        invariant
            from <= i <= n,
            n == text@.len(),
            m == pat@.len(),
            1 <= m,
            spec_find(text@, pat@, from as int) == spec_find(text@, pat@, i as int),
        decreases n - i,
    {
        if m > n - i {
            return None;
        }
        if is_match_at(text, pat, i) {
            return Some(i);
        }
        proof {
            assert(spec_find(text@, pat@, i as int) == spec_find(text@, pat@, i + 1));
        }
        i = i + 1;
    }
}

/// First index at or after `from` where the character `c` occurs.
pub(crate) fn find_char(text: &[char], c: char, from: usize) -> (r: Option<usize>)
    requires
        from <= text@.len(),
    ensures
        match r {
            Some(i) => spec_find_char(text@, c, from as int) == Some(i as int) && i
                < text@.len(),
            None => spec_find_char(text@, c, from as int) is None,
        },
    decreases text@.len() - from,
{
    if from >= text.len() {
        None
    } else if text[from] == c {
        Some(from)
    } else {
        find_char(text, c, from + 1)
    }
}

/// Index of the closing brace matching a block whose content starts at `i`.
fn block_end(text: &[char], i: usize) -> (r: Option<usize>)
    requires
        i <= text@.len(),
    ensures
        match r {
            Some(e) => spec_block_end(text@, i as int, 0) == Some(e as int) && i <= e
                < text@.len(),
            None => spec_block_end(text@, i as int, 0) is None,
        },
{
    let mut j: usize = i;
    let mut depth: usize = 0;
    loop
        invariant
            i <= j <= text@.len(),
            spec_block_end(text@, i as int, 0) == spec_block_end(text@, j as int, depth as nat),
        decreases text@.len() - j,
    {
        if j >= text.len() {
            return None;
        }
        let c = text[j];
        if c == '}' {
            if depth == 0 {
                return Some(j);
            }
            depth = depth - 1;
        } else if c == '{' {
            if depth == usize::MAX {
                proof {
                    lemma_block_end_depth_bounded(text@, j as int, depth as nat);
                }
                return None;
            }
            depth = depth + 1;
        }
        j = j + 1;
    }
}

/// A block that ends needs at most as many extra closing braces as there are
/// characters left, so a depth beyond the remaining length never closes.
proof fn lemma_block_end_depth_bounded(text: Seq<char>, i: int, depth: nat)
    requires
        depth >= text.len() - i,
    ensures
        spec_block_end(text, i, depth) is None,
    decreases text.len() - i,
{
    if 0 <= i < text.len() {
        if text[i] == '}' {
            lemma_block_end_depth_bounded(text, i + 1, (depth - 1) as nat);
        } else if text[i] == '{' {
            lemma_block_end_depth_bounded(text, i + 1, depth + 1);
        } else {
            lemma_block_end_depth_bounded(text, i + 1, depth);
        }
    }
}

/// The content of the first block named `key` in `text`, as character
/// indices: `Some((s, e))` means the content is `text[s .. e]`.
pub fn find_block_range(text: &[char], key: &[char]) -> (r: Option<(usize, usize)>)
    ensures
        match r {
            Some(p) => spec_find_block(text@, key@) == Some(
                text@.subrange(p.0 as int, p.1 as int),
            ) && p.0 <= p.1 <= text@.len(),
            None => spec_find_block(text@, key@) is None,
        },
{
    let n = text.len();
    match find_sub(text, key, 0) {
        None => None,
        Some(s) => match find_char(text, '{', s) {
            None => None,
            Some(b) => {
                proof {
                    assert(b < n);
                }
                match block_end(text, b + 1) {
                    None => None,
                    Some(e) => Some((b + 1, e)),
                }
            },
        },
    }
}

/// The content of the first block named `key` in `content`, or `None` when
/// the key, its opening brace or its matching closing brace is missing.
pub fn find_named_block(content: &str, key: &str) -> (r: Option<String>)
    ensures
        r.deep_view() == spec_find_block(content@, key@),
{
    let text = crate::chars::chars_of(content);
    let keyc = crate::chars::chars_of(key);
    match find_block_range(text.as_slice(), keyc.as_slice()) {
        None => None,
        Some(p) => {
            let mut out: Vec<char> = Vec::new();
            let mut i: usize = p.0;
            while i < p.1
                invariant
                    p.0 <= i <= p.1 <= text@.len(),
                    out@ == text@.subrange(p.0 as int, i as int),
                decreases p.1 - i,
            {
                out.push(text[i]);
                i = i + 1;
                proof {
                    assert(out@ =~= text@.subrange(p.0 as int, i as int));
                }
            }
            Some(crate::chars::string_of(out.as_slice()))
        },
    }
}

/// The content of the first `modifications` block of a raw-text document.
pub fn extract_modifications_block(content: &str) -> (r: Option<String>)
    ensures
        r.deep_view() == spec_find_block(content@, "modifications"@),
{
    find_named_block(content, "modifications")
}

} // verus!
