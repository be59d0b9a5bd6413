//! The general laws of the library, each proved from the specifications the
//! public functions carry: the exclusion suffix always wins, a calibre or a
//! boundary token always accepts, an extracted block balances its braces,
//! and an ammunition list is determined by the set of trimmed keys alone.

use vstd::prelude::*;

use crate::ammo::{
    lemma_lex_lt_asym, lemma_lex_lt_irrefl, lex_lt, spec_ammo_member, strictly_sorted,
};
use crate::block::{spec_block_end, spec_find, spec_find_block, spec_find_char};
use crate::classify::{
    any_keyword_at, spec_contains_calibre, spec_ends_ammo_pack, spec_is_ammo,
};

verus! {

/// A key ending with the grouping suffix is never ammunition, whatever else
/// it contains.
pub proof fn lemma_ammo_pack_excluded(s: Seq<char>)
    requires
        spec_ends_ammo_pack(s),
    ensures
        !spec_is_ammo(s),
{
}

/// A key containing a calibre is ammunition, unless the exclusion suffix
/// applies.
pub proof fn lemma_calibre_accepted(s: Seq<char>)
    requires
        spec_contains_calibre(s),
        !spec_ends_ammo_pack(s),
    ensures
        spec_is_ammo(s),
{
}

/// A key with a vocabulary token at a token boundary is ammunition, unless
/// the exclusion suffix applies.
pub proof fn lemma_keyword_accepted(s: Seq<char>, i: int)
    requires
        any_keyword_at(s, i),
        !spec_ends_ammo_pack(s),
    ensures
        spec_is_ammo(s),
{
}

/// The running brace count of a text: openings minus closings.
pub open spec fn brace_delta(s: Seq<char>) -> int
    decreases s.len(),
{
    if s.len() == 0 {
        0
    } else {
        (if s[0] == '{' {
            1int
        } else if s[0] == '}' {
            -1int
        } else {
            0int
        }) + brace_delta(s.drop_first())
    }
}

proof fn lemma_block_end_balance(text: Seq<char>, i: int, depth: nat, e: int)
    requires
        0 <= i,
        spec_block_end(text, i, depth) == Some(e),
    ensures
        i <= e < text.len(),
        brace_delta(text.subrange(i, e)) == -(depth as int),
        forall|k: int|
            0 <= k <= e - i ==> #[trigger] brace_delta(text.subrange(i, i + k)) >= -(depth as int),
    decreases text.len() - i,
{
    if i < text.len() {
        if text[i] == '}' && depth == 0 {
            assert(text.subrange(i, i) =~= Seq::<char>::empty());
            assert forall|k: int|
                0 <= k <= e - i implies #[trigger] brace_delta(text.subrange(i, i + k)) >= -(
            depth as int) by {
                assert(k == 0);
                assert(text.subrange(i, i) =~= Seq::<char>::empty());
            }
        } else {
            let d2: nat = if text[i] == '}' {
                (depth - 1) as nat
            } else if text[i] == '{' {
                depth + 1
            } else {
                depth
            };
            let step: int = if text[i] == '}' {
                -1int
            } else if text[i] == '{' {
                1int
            } else {
                0int
            };
            lemma_block_end_balance(text, i + 1, d2, e);
            assert(text.subrange(i, e).drop_first() =~= text.subrange(i + 1, e));
            assert(brace_delta(text.subrange(i, e)) == step + brace_delta(
                text.subrange(i + 1, e),
            ));
            assert forall|k: int|
                0 <= k <= e - i implies #[trigger] brace_delta(text.subrange(i, i + k)) >= -(
            depth as int) by {
                if k == 0 {
                    assert(text.subrange(i, i) =~= Seq::<char>::empty());
                } else {
                    assert(text.subrange(i, i + k).drop_first() =~= text.subrange(i + 1, i + k));
                    assert(brace_delta(text.subrange(i + 1, (i + 1) + (k - 1))) >= -(d2 as int));
                    assert(brace_delta(text.subrange(i, i + k)) == step + brace_delta(
                        text.subrange(i + 1, i + k),
                    ));
                }
            }
        }
    }
}

/// A located block balances: its content closes every brace it opens, and
/// no prefix of it closes more than it has opened.
pub proof fn lemma_block_content_balanced(text: Seq<char>, key: Seq<char>)
    ensures
        spec_find_block(text, key) matches Some(content) ==> brace_delta(content) == 0 && (forall|
            k: int,
        | 0 <= k <= content.len() ==> #[trigger] brace_delta(content.take(k)) >= 0),
{
    if spec_find_block(text, key) is Some {
        let s = spec_find(text, key, 0).unwrap();
        let b = spec_find_char(text, '{', s).unwrap();
        let e = spec_block_end(text, b + 1, 0).unwrap();
        lemma_find_at_least(text, key, 0);
        lemma_find_char_at_least(text, '{', s);
        lemma_block_end_balance(text, b + 1, 0, e);
        let content = text.subrange(b + 1, e);
        assert forall|k: int| 0 <= k <= content.len() implies #[trigger] brace_delta(
            content.take(k),
        ) >= 0 by {
            assert(content.take(k) =~= text.subrange(b + 1, b + 1 + k));
        }
    }
}

proof fn lemma_find_at_least(text: Seq<char>, pat: Seq<char>, from: int)
    requires
        0 <= from,
    ensures
        spec_find(text, pat, from) matches Some(i) ==> from <= i && i + pat.len() <= text.len(),
    decreases text.len() + 1 - from,
{
    if !(from < 0 || from + pat.len() > text.len()) {
        if !crate::block::matches_at(text, pat, from) {
            lemma_find_at_least(text, pat, from + 1);
        }
    }
}

proof fn lemma_find_char_at_least(text: Seq<char>, c: char, from: int)
    requires
        0 <= from,
    ensures
        spec_find_char(text, c, from) matches Some(i) ==> from <= i < text.len(),
    decreases text.len() - from,
{
    if 0 <= from < text.len() {
        if text[from] != c {
            lemma_find_char_at_least(text, c, from + 1);
        }
    }
}

/// Two strictly sorted lists holding the same elements are the same list.
pub proof fn lemma_sorted_unique(s1: Seq<Seq<char>>, s2: Seq<Seq<char>>)
    requires
        strictly_sorted(s1),
        strictly_sorted(s2),
        forall|x: Seq<char>| s1.contains(x) <==> s2.contains(x),
    ensures
        s1 == s2,
    decreases s1.len(),
{
    if s1.len() == 0 {
        if s2.len() > 0 {
            assert(s2.contains(s2[0]));
            assert(s1.contains(s2[0]));
        }
        assert(s1 =~= s2);
    } else if s2.len() == 0 {
        assert(s1.contains(s1[0]));
        assert(s2.contains(s1[0]));
        assert(s1 =~= s2);
    } else {
        assert(s1.contains(s1[0]));
        assert(s2.contains(s2[0]));
        let j = choose|j: int| 0 <= j < s2.len() && s2[j] == s1[0];
        let m = choose|m: int| 0 <= m < s1.len() && s1[m] == s2[0];
        if j > 0 {
            assert(lex_lt(s2[0], s2[j]));
            if m > 0 {
                assert(lex_lt(s1[0], s1[m]));
                lemma_lex_lt_asym(s1[0], s1[m]);
            } else {
                lemma_lex_lt_irrefl(s1[0]);
            }
        }
        assert(s1[0] == s2[0]);
        let t1 = s1.drop_first();
        let t2 = s2.drop_first();
        assert forall|x: Seq<char>| t1.contains(x) <==> t2.contains(x) by {
            if t1.contains(x) {
                let w = choose|w: int| 0 <= w < t1.len() && t1[w] == x;
                assert(s1[w + 1] == x);
                assert(s1.contains(x));
                let j2 = choose|j2: int| 0 <= j2 < s2.len() && s2[j2] == x;
                if j2 == 0 {
                    assert(lex_lt(s1[0], s1[w + 1]));
                    lemma_lex_lt_irrefl(s1[0]);
                }
                assert(t2[j2 - 1] == x);
                assert(t2.contains(x));
            }
            if t2.contains(x) {
                let w = choose|w: int| 0 <= w < t2.len() && t2[w] == x;
                assert(s2[w + 1] == x);
                assert(s2.contains(x));
                let j2 = choose|j2: int| 0 <= j2 < s1.len() && s1[j2] == x;
                if j2 == 0 {
                    assert(lex_lt(s2[0], s2[w + 1]));
                    lemma_lex_lt_irrefl(s2[0]);
                }
                assert(t1[j2 - 1] == x);
                assert(t1.contains(x));
            }
        }
        lemma_sorted_unique(t1, t2);
        assert(s1.len() == t1.len() + 1);
        assert(s2.len() == t2.len() + 1);
        assert forall|i: int| 0 <= i < s1.len() implies s1[i] == s2[i] by {
            if i > 0 {
                assert(t1[i - 1] == t2[i - 1]);
            }
        }
        assert(s1 =~= s2);
    }
}

/// The ammunition list is determined by the trimmed candidate keys as a
/// set: two key lists with the same accepted members yield the same list,
/// whatever the order and multiplicity of their candidates.
pub proof fn lemma_ammo_extraction_canonical(
    keys1: Seq<Seq<char>>,
    keys2: Seq<Seq<char>>,
    r1: Seq<Seq<char>>,
    r2: Seq<Seq<char>>,
)
    requires
        strictly_sorted(r1),
        strictly_sorted(r2),
        forall|s: Seq<char>| r1.contains(s) <==> spec_ammo_member(keys1, s),
        forall|s: Seq<char>| r2.contains(s) <==> spec_ammo_member(keys2, s),
        forall|s: Seq<char>| spec_ammo_member(keys1, s) <==> spec_ammo_member(keys2, s),
    ensures
        r1 == r2,
{
    assert forall|x: Seq<char>| r1.contains(x) <==> r2.contains(x) by {}
    lemma_sorted_unique(r1, r2);
}

/// Format equivalence: a raw-text document and a structured document whose
/// modification keys accept the same members and whose preset name
/// sequences agree yield identical extractions — the same preset sequence
/// and the same sorted ammunition list.
pub proof fn lemma_format_equivalence(
    rtext: Seq<char>,
    jtext: Seq<char>,
    rp: Seq<Seq<char>>,
    ra: Seq<Seq<char>>,
    jp: Seq<Seq<char>>,
    ja: Seq<Seq<char>>,
)
    requires
        rp == crate::aggregate::spec_raw_presets(rtext),
        strictly_sorted(ra),
        forall|s: Seq<char>|
            ra.contains(s) <==> spec_ammo_member(crate::aggregate::spec_raw_keys(rtext), s),
        jp == crate::jsondoc::spec_json_preset_names(jtext),
        strictly_sorted(ja),
        forall|s: Seq<char>|
            ja.contains(s) <==> spec_ammo_member(crate::jsondoc::spec_json_mod_keys(jtext), s),
        forall|s: Seq<char>|
            spec_ammo_member(crate::aggregate::spec_raw_keys(rtext), s) <==> spec_ammo_member(
                crate::jsondoc::spec_json_mod_keys(jtext),
                s,
            ),
        crate::aggregate::spec_raw_presets(rtext) == crate::jsondoc::spec_json_preset_names(
            jtext,
        ),
    ensures
        rp == jp,
        ra == ja,
{
    lemma_ammo_extraction_canonical(
        crate::aggregate::spec_raw_keys(rtext),
        crate::jsondoc::spec_json_mod_keys(jtext),
        ra,
        ja,
    );
}

/// One run is like another, in the structured encoding too: the extraction
/// is a function of the document text alone, so repeating it changes
/// nothing.
pub proof fn lemma_structured_extraction_deterministic(
    text: Seq<char>,
    p1: Seq<Seq<char>>,
    a1: Seq<Seq<char>>,
    p2: Seq<Seq<char>>,
    a2: Seq<Seq<char>>,
)
    requires
        p1 == crate::jsondoc::spec_json_preset_names(text),
        p2 == crate::jsondoc::spec_json_preset_names(text),
        strictly_sorted(a1),
        strictly_sorted(a2),
        forall|s: Seq<char>|
            a1.contains(s) <==> spec_ammo_member(crate::jsondoc::spec_json_mod_keys(text), s),
        forall|s: Seq<char>|
            a2.contains(s) <==> spec_ammo_member(crate::jsondoc::spec_json_mod_keys(text), s),
    ensures
        p1 == p2,
        a1 == a2,
{
    lemma_sorted_unique(a1, a2);
}

/// One run is like another: the raw extraction is a function of the
/// document text alone, so repeating it changes nothing.
pub proof fn lemma_raw_extraction_deterministic(
    text: Seq<char>,
    p1: Seq<Seq<char>>,
    a1: Seq<Seq<char>>,
    p2: Seq<Seq<char>>,
    a2: Seq<Seq<char>>,
)
    requires
        p1 == crate::aggregate::spec_raw_presets(text),
        p2 == crate::aggregate::spec_raw_presets(text),
        strictly_sorted(a1),
        strictly_sorted(a2),
        forall|s: Seq<char>|
            a1.contains(s) <==> spec_ammo_member(crate::aggregate::spec_raw_keys(text), s),
        forall|s: Seq<char>|
            a2.contains(s) <==> spec_ammo_member(crate::aggregate::spec_raw_keys(text), s),
    ensures
        p1 == p2,
        a1 == a2,
{
    lemma_sorted_unique(a1, a2);
}

} // verus!
