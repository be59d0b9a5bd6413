//! The raw-text key scanner: inside a block's content it collects, in order,
//! every identifier run that stands at the start of a line (only whitespace
//! before it on that line) and is followed, after optional whitespace, by an
//! opening brace.  The scan works on the block's text alone and does not
//! descend a level: whatever stands inside a nested block is only found when
//! it happens to open its own line in the same way.

use vstd::prelude::*;

use crate::chars::{is_ident_char, is_ident_char_exec, is_space, is_space_exec};

verus! {

/// The end of the identifier run that starts at `i`: the first position at
/// or after `i` holding no identifier character.
pub open spec fn run_end(text: Seq<char>, i: int) -> int
    decreases text.len() - i,
{
    if i < 0 || i >= text.len() {
        i
    } else if is_ident_char(text[i]) {
        run_end(text, i + 1)
    } else {
        i
    }
}

/// Only whitespace stands between the start of the line and position `i`.
pub open spec fn ws_from_line_start(text: Seq<char>, i: int) -> bool
    decreases i,
{
    if i <= 0 {
        true
    } else if text[i - 1] == '\n' {
        true
    } else if is_space(text[i - 1]) {
        ws_from_line_start(text, i - 1)
    } else {
        false
    }
}

/// Only whitespace stands between position `j` and an opening brace.
pub open spec fn ws_then_brace(text: Seq<char>, j: int) -> bool
    decreases text.len() - j,
{
    if j < 0 || j >= text.len() {
        false
    } else if text[j] == '{' {
        true
    } else if is_space(text[j]) {
        ws_then_brace(text, j + 1)
    } else {
        false
    }
}

/// A candidate key starts at `i`: an identifier run at the start of a line
/// (ignoring leading whitespace), followed after optional whitespace by `{`.
pub open spec fn is_key_start(text: Seq<char>, i: int) -> bool {
    &&& 0 <= i < text.len()
    &&& is_ident_char(text[i])
    &&& (i == 0 || !is_ident_char(text[i - 1]))
    &&& ws_from_line_start(text, i)
    &&& ws_then_brace(text, run_end(text, i))
}

/// The candidate keys found at or after position `i`, in order.
pub open spec fn spec_keys_from(text: Seq<char>, i: int) -> Seq<Seq<char>>
    decreases text.len() - i,
{
    if i < 0 || i >= text.len() {
        Seq::empty()
    } else if is_key_start(text, i) {
        seq![text.subrange(i, run_end(text, i))] + spec_keys_from(text, i + 1)
    } else {
        spec_keys_from(text, i + 1)
    }
}

/// The candidate keys of a block's content, over characters.
pub fn scan_keys_chars(text: &[char]) -> (keys: Vec<Vec<char>>)
    ensures
        keys.deep_view() == spec_keys_from(text@, 0),
{
    let n = text.len();
    let mut keys: Vec<Vec<char>> = Vec::new();
    let mut i: usize = 0;
    let mut ws: bool = true;
    while i < n
        invariant
            n == text@.len(),
            i <= n,
            ws == ws_from_line_start(text@, i as int),
            spec_keys_from(text@, 0) =~~= keys.deep_view() + spec_keys_from(text@, i as int),
        decreases n - i,
    {
        let c = text[i];
        if is_ident_char_exec(c) && (i == 0 || !is_ident_char_exec(text[i - 1])) && ws {
            let mut j: usize = i + 1;
            while j < n && is_ident_char_exec(text[j])
                invariant
                    n == text@.len(),
                    i < j <= n,
                    run_end(text@, i as int) == run_end(text@, j as int),
                decreases n - j,
            {
                j = j + 1;
            }
            proof {
                assert(run_end(text@, i as int) == j);
            }
            let mut k: usize = j;
            while k < n && is_space_exec(text[k])
                invariant
                    n == text@.len(),
                    j <= k <= n,
                    ws_then_brace(text@, j as int) == ws_then_brace(text@, k as int),
                decreases n - k,
            {
                k = k + 1;
            }
            if k < n && text[k] == '{' {
                let mut kv: Vec<char> = Vec::new();
                let mut t: usize = i;
                while t < j
                    invariant
                        n == text@.len(),
                        i <= t <= j <= n,
                        kv@ == text@.subrange(i as int, t as int),
                    decreases j - t,
                {
                    kv.push(text[t]);
                    t = t + 1;
                    proof {
                        assert(kv@ =~= text@.subrange(i as int, t as int));
                    }
                }
                proof {
                    assert(is_key_start(text@, i as int));
                    assert(spec_keys_from(text@, i as int) =~~= seq![kv@] + spec_keys_from(
                        text@,
                        i + 1,
                    ));
                    assert((keys.deep_view().push(kv@)) =~~= keys.deep_view() + seq![kv@]);
                }
                keys.push(kv);
            } else {
                proof {
                    assert(!ws_then_brace(text@, run_end(text@, i as int)));
                    assert(!is_key_start(text@, i as int));
                }
            }
        } else {
            proof {
                assert(!is_key_start(text@, i as int));
            }
        }
        ws = c == '\n' || (is_space_exec(c) && ws);
        i = i + 1;
    }
    proof {
        assert(keys.deep_view() =~~= keys.deep_view() + spec_keys_from(text@, n as int));
    }
    keys
}

/// The candidate keys of a block's content, in order of appearance.
pub fn scan_candidate_keys(block: &str) -> (keys: Vec<String>)
    ensures
        keys.deep_view() == spec_keys_from(block@, 0),
{
    let text = crate::chars::chars_of(block);
    let found = scan_keys_chars(text.as_slice());
    crate::chars::strings_of(&found)
}

} // verus!
