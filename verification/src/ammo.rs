//! The ammunition list of one document: every candidate key is trimmed and
//! classified, the accepted ones are deduplicated, and the result is kept in
//! strictly increasing lexicographic order.

use vstd::prelude::*;

use crate::chars::{is_space, is_space_exec};
use crate::classify::{is_ammo_chars, spec_is_ammo};

verus! {

/// The first position at or after `i` holding no whitespace.
pub open spec fn first_non_space(s: Seq<char>, i: int) -> int
    decreases s.len() - i,
{
    if i < 0 || i >= s.len() {
        s.len() as int
    } else if is_space(s[i]) {
        first_non_space(s, i + 1)
    } else {
        i
    }
}

/// One past the last non-whitespace position strictly before `i`.
pub open spec fn last_non_space(s: Seq<char>, i: int) -> int
    decreases i,
{
    if i <= 0 || i > s.len() {
        0
    } else if is_space(s[i - 1]) {
        last_non_space(s, i - 1)
    } else {
        i
    }
}

/// The key with leading and trailing whitespace removed.
pub open spec fn spec_trim(s: Seq<char>) -> Seq<char> {
    let f = first_non_space(s, 0);
    let l = last_non_space(s, s.len() as int);
    if f <= l {
        s.subrange(f, l)
    } else {
        Seq::empty()
    }
}

/// Strict lexicographic order on character sequences, by character value.
pub open spec fn lex_lt(a: Seq<char>, b: Seq<char>) -> bool
    decreases a.len(),
{
    if b.len() == 0 {
        false
    } else if a.len() == 0 {
        true
    } else if a[0] != b[0] {
        a[0] < b[0]
    } else {
        lex_lt(a.drop_first(), b.drop_first())
    }
}

/// Every earlier element is lexicographically below every later one.
pub open spec fn strictly_sorted(s: Seq<Seq<char>>) -> bool {
    forall|i: int, j: int| 0 <= i < j < s.len() ==> lex_lt(s[i], s[j])
}

/// The trimmed form of some candidate key equals `s`, and `s` is ammunition.
pub open spec fn spec_ammo_member(keys: Seq<Seq<char>>, s: Seq<char>) -> bool {
    spec_is_ammo(s) && exists|k: int|
        0 <= k < keys.len() && #[trigger] spec_trim(keys[k]) == s
}

pub proof fn lemma_lex_lt_irrefl(a: Seq<char>)
    ensures
        !lex_lt(a, a),
    decreases a.len(),
{
    if a.len() > 0 {
        lemma_lex_lt_irrefl(a.drop_first());
    }
}

pub proof fn lemma_lex_lt_asym(a: Seq<char>, b: Seq<char>)
    requires
        lex_lt(a, b),
    ensures
        !lex_lt(b, a),
    decreases a.len(),
{
    if a.len() > 0 && b.len() > 0 && a[0] == b[0] {
        lemma_lex_lt_asym(a.drop_first(), b.drop_first());
    }
}

pub proof fn lemma_lex_lt_connex(a: Seq<char>, b: Seq<char>)
    ensures
        a == b || lex_lt(a, b) || lex_lt(b, a),
    decreases a.len(),
{
    if b.len() == 0 {
        if a.len() == 0 {
            assert(a =~= b);
        }
    } else if a.len() == 0 {
    } else if a[0] == b[0] {
        lemma_lex_lt_connex(a.drop_first(), b.drop_first());
        if a.drop_first() == b.drop_first() {
            assert(a.drop_first().len() == a.len() - 1);
            assert(b.drop_first().len() == b.len() - 1);
            assert forall|k: int| 0 <= k < a.len() implies a[k] == b[k] by {
                if k > 0 {
                    assert(a.drop_first()[k - 1] == b.drop_first()[k - 1]);
                }
            }
            assert(a =~= b);
        }
    }
}

pub proof fn lemma_lex_lt_trans(a: Seq<char>, b: Seq<char>, c: Seq<char>)
    requires
        lex_lt(a, b),
        lex_lt(b, c),
    ensures
        lex_lt(a, c),
    decreases a.len(),
{
    if a.len() > 0 && b.len() > 0 && c.len() > 0 && a[0] == b[0] && b[0] == c[0] {
        lemma_lex_lt_trans(a.drop_first(), b.drop_first(), c.drop_first());
    }
}

/// Strict lexicographic comparison of two keys.
fn lex_lt_chars(a: &Vec<char>, b: &Vec<char>) -> (r: bool)
    ensures
        r == lex_lt(a@, b@),
{
    let mut i: usize = 0;
    proof {
        assert(a@.skip(0) =~= a@);
        assert(b@.skip(0) =~= b@);
    }
    loop
        invariant
            i <= a@.len(),
            i <= b@.len(),
            lex_lt(a@, b@) == lex_lt(a@.skip(i as int), b@.skip(i as int)),
        decreases a@.len() - i,
    {
        if i >= b.len() {
            return false;
        }
        if i >= a.len() {
            return true;
        }
        if a[i] != b[i] {
            return a[i] < b[i];
        }
        proof {
            assert(a@.skip(i as int).drop_first() =~= a@.skip(i + 1));
            assert(b@.skip(i as int).drop_first() =~= b@.skip(i + 1));
        }
        i = i + 1;
    }
}

/// The key with leading and trailing whitespace removed.
pub fn trim_chars(key: &[char]) -> (r: Vec<char>)
    ensures
        r@ == spec_trim(key@),
{
    let n = key.len();
    let mut f: usize = 0;
    while f < n && is_space_exec(key[f])
        invariant
            n == key@.len(),
            f <= n,
            first_non_space(key@, 0) == first_non_space(key@, f as int),
        decreases n - f,
    {
        f = f + 1;
    }
    let mut l: usize = n;
    while l > 0 && is_space_exec(key[l - 1])
        invariant
            n == key@.len(),
            l <= n,
            last_non_space(key@, n as int) == last_non_space(key@, l as int),
        decreases l,
    {
        l = l - 1;
    }
    let mut r: Vec<char> = Vec::new();
    if f < l {
        let mut t: usize = f;
        while t < l
            invariant
                n == key@.len(),
                f <= t <= l <= n,
                r@ == key@.subrange(f as int, t as int),
            decreases l - t,
        {
            r.push(key[t]);
            t = t + 1;
            proof {
                assert(r@ =~= key@.subrange(f as int, t as int));
            }
        }
    } else {
        proof {
            assert(r@ =~= spec_trim(key@));
        }
    }
    r
}

/// Puts `x` at its place in a strictly sorted list, unless it is there.
fn insert_sorted(v: &mut Vec<Vec<char>>, x: Vec<char>)
    requires
        strictly_sorted(old(v).deep_view()),
    ensures
        strictly_sorted(final(v).deep_view()),
        forall|s: Seq<char>|
            final(v).deep_view().contains(s) <==> (old(v).deep_view().contains(s) || s == x@),
{
    let ghost dv = v.deep_view();
    proof {
        assert(dv.len() == v@.len());
        assert forall|k: int| 0 <= k < dv.len() implies dv[k] == v@[k]@ by {
            assert(dv[k] =~= v@[k]@);
        }
    }
    let n = v.len();
    let mut p: usize = 0;
    while p < n && lex_lt_chars(&v[p], &x)
        invariant
            v.deep_view() == dv,
            n == v@.len(),
            n == dv.len(),
            p <= n,
            forall|k: int| 0 <= k < dv.len() ==> dv[k] == v@[k]@,
            forall|k: int| 0 <= k < p ==> lex_lt(dv[k], x@),
        decreases n - p,
    {
        p = p + 1;
    }
    if p < n {
        if !lex_lt_chars(&x, &v[p]) {
            proof {
                lemma_lex_lt_connex(dv[p as int], x@);
                assert(dv[p as int] == x@);
                assert(dv.contains(x@));
            }
            return ;
        }
    }
    v.insert(p, x);
    proof {
        let dv2 = v.deep_view();
        dv.insert_ensures(p as int, x@);
        assert forall|k: int| 0 <= k < dv2.len() implies dv2[k] == v@[k]@ by {
            assert(dv2[k] =~= v@[k]@);
        }
        assert(dv2 =~~= dv.insert(p as int, x@));
        assert forall|i: int, j: int| 0 <= i < j < dv2.len() implies lex_lt(dv2[i], dv2[j]) by {
            if j < p {
            } else if i < p && j == p {
                assert(lex_lt(dv[i], x@));
            } else if i < p && j > p {
                assert(lex_lt(dv[i], dv[j - 1]));
            } else if i == p {
                assert(lex_lt(x@, dv[p as int]));
                if j > p + 1 {
                    assert(lex_lt(dv[p as int], dv[j - 1]));
                    lemma_lex_lt_trans(x@, dv[p as int], dv[j - 1]);
                }
            } else {
                assert(lex_lt(dv[i - 1], dv[j - 1]));
            }
        }
        assert forall|s: Seq<char>| dv2.contains(s) <==> (dv.contains(s) || s == x@) by {
            if dv2.contains(s) {
                let w = choose|w: int| 0 <= w < dv2.len() && dv2[w] == s;
                if w < p {
                    assert(dv[w] == s);
                } else if w == p {
                } else {
                    assert(dv[w - 1] == s);
                }
            }
            if dv.contains(s) {
                let w = choose|w: int| 0 <= w < dv.len() && dv[w] == s;
                if w < p {
                    assert(dv2[w] == s);
                } else {
                    assert(dv2[w + 1] == s);
                }
            }
            if s == x@ {
                assert(dv2[p as int] == s);
            }
        }
    }
}

/// The ammunition identifiers among the candidate keys: trimmed, classified,
/// deduplicated and strictly sorted.
pub fn ammo_list_chars(keys: &Vec<Vec<char>>) -> (r: Vec<Vec<char>>)
    ensures
        strictly_sorted(r.deep_view()),
        forall|s: Seq<char>|
            r.deep_view().contains(s) <==> spec_ammo_member(keys.deep_view(), s),
{
    let mut r: Vec<Vec<char>> = Vec::new();
    let mut i: usize = 0;
    while i < keys.len()
        invariant
            i <= keys@.len(),
            strictly_sorted(r.deep_view()),
            forall|s: Seq<char>|
                r.deep_view().contains(s) <==> spec_ammo_member(
                    keys.deep_view().take(i as int),
                    s,
                ),
        decreases keys@.len() - i,
    {
        let t = trim_chars(keys[i].as_slice());
        proof {
            assert(keys.deep_view()[i as int] =~= keys@[i as int]@);
        }
        if is_ammo_chars(t.as_slice()) {
            insert_sorted(&mut r, t);
        }
        i = i + 1;
        proof {
            let ghost kt = keys.deep_view().take(i as int);
            assert forall|s: Seq<char>|
                r.deep_view().contains(s) <==> spec_ammo_member(kt, s) by {
                if spec_ammo_member(kt, s) {
                    let k = choose|k: int| 0 <= k < kt.len() && #[trigger] spec_trim(kt[k]) == s;
                    if k < i - 1 {
                        assert(spec_trim(keys.deep_view().take(i - 1)[k]) == s);
                    }
                }
                if r.deep_view().contains(s) {
                    if spec_ammo_member(keys.deep_view().take(i - 1), s) {
                        let k = choose|k: int|
                            0 <= k < i - 1 && #[trigger] spec_trim(
                                keys.deep_view().take(i - 1)[k],
                            ) == s;
                        assert(spec_trim(kt[k]) == s);
                    } else {
                        assert(spec_trim(kt[i - 1]) == s);
                    }
                }
            }
        }
    }
    proof {
        assert(keys.deep_view().take(keys@.len() as int) =~= keys.deep_view());
    }
    r
}

/// The ammunition identifiers among the candidate keys, as strings.
pub fn ammo_identifiers(keys: &Vec<String>) -> (r: Vec<String>)
    ensures
        strictly_sorted(r.deep_view()),
        forall|s: Seq<char>|
            r.deep_view().contains(s) <==> spec_ammo_member(keys.deep_view(), s),
{
    let kc = crate::chars::char_vecs_of(keys);
    let listed = ammo_list_chars(&kc);
    crate::chars::strings_of(&listed)
}

} // verus!
