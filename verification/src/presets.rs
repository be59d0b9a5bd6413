//! The preset-name extractor for the raw-text encoding: inside the
//! weapon-presets block it collects, in order of appearance, every value of
//! the pattern `name:t = "<value>"`, with optional whitespace around the `=`
//! and a non-empty value without inner quotes.  The scan continues after the
//! closing quote of each match.

use vstd::prelude::*;

use crate::ammo::first_non_space;
use crate::block::{matches_at, spec_find_char};
use crate::chars::is_space_exec;

verus! {

/// The preset-name pattern anchored at `i`: the literal `name:t`, optional
/// whitespace, `=`, optional whitespace, then a non-empty quoted value.
/// `Some((value, next))` gives the value and the position after its closing
/// quote.
pub open spec fn preset_at(text: Seq<char>, i: int) -> Option<(Seq<char>, int)> {
    if matches_at(text, "name:t"@, i) {
        let j = first_non_space(text, i + 6);
        if j < text.len() && text[j] == '=' {
            let q = first_non_space(text, j + 1);
            if q < text.len() && text[q] == '"' {
                match spec_find_char(text, '"', q + 1) {
                    Some(e) => if e > q + 1 {
                        Some((text.subrange(q + 1, e), e + 1))
                    } else {
                        None
                    },
                    None => None,
                }
            } else {
                None
            }
        } else {
            None
        }
    } else {
        None
    }
}

/// The preset names found at or after position `i`, in order.  The guard on
/// `next` keeps the recursion well-founded; a match always moves forward.
pub open spec fn spec_presets_from(text: Seq<char>, i: int) -> Seq<Seq<char>>
    decreases text.len() - i,
{
    if i < 0 || i >= text.len() {
        Seq::empty()
    } else {
        match preset_at(text, i) {
            Some(pair) => if i < pair.1 <= text.len() {
                seq![pair.0] + spec_presets_from(text, pair.1)
            } else {
                spec_presets_from(text, i + 1)
            },
            None => spec_presets_from(text, i + 1),
        }
    }
}

/// The first position at or after `from` holding no whitespace.
pub(crate) fn skip_spaces(text: &[char], from: usize) -> (f: usize)
    requires
        from <= text@.len(),
    ensures
        f == first_non_space(text@, from as int),
        from <= f <= text@.len(),
{
    let n = text.len();
    let mut f: usize = from;
    while f < n && is_space_exec(text[f])
        invariant
            n == text@.len(),
            from <= f <= n,
            first_non_space(text@, from as int) == first_non_space(text@, f as int),
        decreases n - f,
    {
        f = f + 1;
    }
    f
}

/// The preset names of the weapon-presets block content, over characters.
pub fn preset_names_chars(text: &[char]) -> (names: Vec<Vec<char>>)
    ensures
        names.deep_view() == spec_presets_from(text@, 0),
{
    let n = text.len();
    let pat = crate::chars::chars_of("name:t");
    proof {
        reveal_strlit("name:t");
    }
    let mut names: Vec<Vec<char>> = Vec::new();
    let mut i: usize = 0;
    while i < n
        invariant
            n == text@.len(),
            i <= n,
            pat@ == "name:t"@,
            pat@.len() == 6,
            spec_presets_from(text@, 0) =~~= names.deep_view() + spec_presets_from(
                text@,
                i as int,
            ),
        decreases n - i,
    {
        let mut advanced = false;
        if n - i >= 6 {
            if crate::block::is_match_at(text, pat.as_slice(), i) {
                let j = skip_spaces(text, i + 6);
                if j < n && text[j] == '=' {
                    let q = skip_spaces(text, j + 1);
                    if q < n && text[q] == '"' {
                        match crate::block::find_char(text, '"', q + 1) {
                            None => {},
                            Some(e) => {
                                if e > q + 1 {
                                    let val = crate::chars::copy_range(text, q + 1, e);
                                    proof {
                                        assert(preset_at(text@, i as int) == Some(
                                            (val@, e + 1 as int),
                                        ));
                                        assert(spec_presets_from(text@, i as int) =~~= seq![val@]
                                            + spec_presets_from(text@, e + 1 as int));
                                        assert(names.deep_view().push(val@) =~~= names.deep_view()
                                            + seq![val@]);
                                    }
                                    names.push(val);
                                    i = e + 1;
                                    advanced = true;
                                }
                            },
                        }
                    }
                }
            }
        } else {
            proof {
                assert(!matches_at(text@, "name:t"@, i as int));
            }
        }
        if !advanced {
            proof {
                assert(preset_at(text@, i as int) is None);
                assert(spec_presets_from(text@, i as int) == spec_presets_from(text@, i + 1));
            }
            i = i + 1;
        }
    }
    proof {
        assert(names.deep_view() =~~= names.deep_view() + spec_presets_from(text@, n as int));
    }
    names
}

/// The preset names of the weapon-presets block content, in order.
pub fn preset_names_from_raw(block: &str) -> (names: Vec<String>)
    ensures
        names.deep_view() == spec_presets_from(block@, 0),
{
    let text = crate::chars::chars_of(block);
    let found = preset_names_chars(text.as_slice());
    crate::chars::strings_of(&found)
}

} // verus!
