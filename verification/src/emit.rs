//! Rendering of the three JSON outputs.  The exact text of each report is a
//! spec function: JSON string escaping, comma-joined parts, and the fixed
//! frames of the two per-file reports and of the unit database.  The
//! renderers are proved to produce that text character for character.

use vstd::prelude::*;

verus! {

/// The hexadecimal digit for `n`, lower-case.
pub open spec fn spec_hex_digit(n: int) -> char {
    if n < 10 {
        (('0' as u32) + n as u32) as char
    } else {
        (('a' as u32) + (n - 10) as u32) as char
    }
}

/// How one character reads inside a JSON string literal.
pub open spec fn spec_escape_char(c: char) -> Seq<char> {
    if c == '"' {
        seq!['\\', '"']
    } else if c == '\\' {
        seq!['\\', '\\']
    } else if c == '\n' {
        seq!['\\', 'n']
    } else if c == '\r' {
        seq!['\\', 'r']
    } else if c == '\t' {
        seq!['\\', 't']
    } else if (c as u32) < 32 {
        seq!['\\', 'u', '0', '0', spec_hex_digit(((c as u32) / 16) as int), spec_hex_digit(
            ((c as u32) % 16) as int,
        )]
    } else {
        seq![c]
    }
}

/// A text with every character escaped for a JSON string literal.
pub open spec fn spec_escape(s: Seq<char>) -> Seq<char>
    decreases s.len(),
{
    if s.len() == 0 {
        Seq::empty()
    } else {
        spec_escape_char(s[0]) + spec_escape(s.drop_first())
    }
}

/// A JSON string literal holding `s`.
pub open spec fn spec_json_str(s: Seq<char>) -> Seq<char> {
    seq!['"'] + spec_escape(s) + seq!['"']
}

/// The parts joined with commas.
pub open spec fn spec_join(parts: Seq<Seq<char>>) -> Seq<char>
    decreases parts.len(),
{
    if parts.len() == 0 {
        Seq::empty()
    } else if parts.len() == 1 {
        parts[0]
    } else {
        parts[0] + seq![','] + spec_join(parts.drop_first())
    }
}

/// A JSON array of string literals.
pub open spec fn spec_str_array(items: Seq<Seq<char>>) -> Seq<char> {
    seq!['['] + spec_join(items.map_values(|s: Seq<char>| spec_json_str(s))) + seq![']']
}

pub proof fn lemma_escape_snoc(s: Seq<char>, c: char)
    ensures
        spec_escape(s.push(c)) == spec_escape(s) + spec_escape_char(c),
    decreases s.len(),
{
    if s.len() == 0 {
        assert(s.push(c).drop_first() =~= Seq::<char>::empty());
        assert(spec_escape(Seq::<char>::empty()) == Seq::<char>::empty());
        assert(s.push(c)[0] == c);
        assert(spec_escape(s.push(c)) =~= spec_escape(s) + spec_escape_char(c));
    } else {
        assert(s.push(c).drop_first() =~= s.drop_first().push(c));
        lemma_escape_snoc(s.drop_first(), c);
        assert(spec_escape(s.push(c)) =~= spec_escape(s) + spec_escape_char(c));
    }
}

pub proof fn lemma_join_snoc(parts: Seq<Seq<char>>, x: Seq<char>)
    ensures
        spec_join(parts.push(x)) == if parts.len() == 0 {
            x
        } else {
            spec_join(parts) + seq![','] + x
        },
    decreases parts.len(),
{
    if parts.len() == 0 {
        assert(parts.push(x)[0] == x);
    } else if parts.len() == 1 {
        assert(parts.push(x).drop_first() =~= seq![x]);
        assert(spec_join(seq![x]) == x);
        assert(spec_join(parts.push(x)) =~= parts[0] + seq![','] + x);
    } else {
        assert(parts.push(x).drop_first() =~= parts.drop_first().push(x));
        lemma_join_snoc(parts.drop_first(), x);
        assert(spec_join(parts.push(x)) =~= spec_join(parts) + seq![','] + x);
    }
}

/// Appends the characters of `s`.
pub(crate) fn push_all(out: &mut Vec<char>, s: &[char])
    ensures
        final(out)@ == old(out)@ + s@,
{
    let mut t: usize = 0;
    while t < s.len()
        invariant
            t <= s@.len(),
            out@ == old(out)@ + s@.take(t as int),
        decreases s@.len() - t,
    {
        out.push(s[t]);
        t = t + 1;
        proof {
            assert(old(out)@ + s@.take(t - 1) + seq![s@[t - 1]] =~= old(out)@ + s@.take(t as int));
        }
    }
    proof {
        assert(old(out)@ + s@.take(s@.len() as int) =~= old(out)@ + s@);
    }
}

/// Appends the characters of a literal.
pub(crate) fn push_lit(out: &mut Vec<char>, s: &str)
    ensures
        final(out)@ == old(out)@ + s@,
{
    let cs = crate::chars::chars_of(s);
    push_all(out, cs.as_slice());
}

/// The hexadecimal digit for `n`, lower-case.
fn hex_digit(n: u32) -> (r: char)
    requires
        n < 16,
    ensures
        r == spec_hex_digit(n as int),
{
    match n {
        0 => '0',
        1 => '1',
        2 => '2',
        3 => '3',
        4 => '4',
        5 => '5',
        6 => '6',
        7 => '7',
        8 => '8',
        9 => '9',
        10 => 'a',
        11 => 'b',
        12 => 'c',
        13 => 'd',
        14 => 'e',
        _ => 'f',
    }
}

/// Appends one character in its JSON-escaped form.
fn push_escaped_char(out: &mut Vec<char>, c: char)
    ensures
        final(out)@ == old(out)@ + spec_escape_char(c),
{
    if c == '"' {
        out.push('\\');
        out.push('"');
    } else if c == '\\' {
        out.push('\\');
        out.push('\\');
    } else if c == '\n' {
        out.push('\\');
        out.push('n');
    } else if c == '\r' {
        out.push('\\');
        out.push('r');
    } else if c == '\t' {
        out.push('\\');
        out.push('t');
    } else if (c as u32) < 32 {
        let u = c as u32;
        out.push('\\');
        out.push('u');
        out.push('0');
        out.push('0');
        out.push(hex_digit(u / 16));
        out.push(hex_digit(u % 16));
        proof {
            assert(out@ =~= old(out)@ + spec_escape_char(c));
        }
    } else {
        out.push(c);
        proof {
            assert(out@ =~= old(out)@ + spec_escape_char(c));
        }
    }
    proof {
        assert(out@ =~= old(out)@ + spec_escape_char(c));
    }
}

/// Appends a JSON string literal holding `s`.
pub(crate) fn push_json_str(out: &mut Vec<char>, s: &[char])
    ensures
        final(out)@ == old(out)@ + spec_json_str(s@),
{
    out.push('"');
    let ghost base = out@;
    let mut t: usize = 0;
    while t < s.len()
        invariant
            t <= s@.len(),
            out@ == base + spec_escape(s@.take(t as int)),
        decreases s@.len() - t,
    {
        push_escaped_char(out, s[t]);
        t = t + 1;
        proof {
            assert(s@.take(t as int) =~= s@.take(t - 1).push(s@[t - 1]));
            lemma_escape_snoc(s@.take(t - 1), s@[t - 1]);
            assert(base + spec_escape(s@.take(t - 1)) + spec_escape_char(s@[t - 1]) =~= base
                + spec_escape(s@.take(t as int)));
        }
    }
    out.push('"');
    proof {
        assert(s@.take(s@.len() as int) =~= s@);
        assert(out@ =~= old(out)@ + spec_json_str(s@));
    }
}

/// Appends a JSON string literal holding a `String`.
pub(crate) fn push_json_string(out: &mut Vec<char>, s: &str)
    ensures
        final(out)@ == old(out)@ + spec_json_str(s@),
{
    let cs = crate::chars::chars_of(s);
    push_json_str(out, cs.as_slice());
}

/// Appends a JSON array of string literals.
pub(crate) fn push_str_array(out: &mut Vec<char>, items: &Vec<String>)
    ensures
        final(out)@ == old(out)@ + spec_str_array(items.deep_view()),
{
    let ghost mapped = items.deep_view().map_values(|s: Seq<char>| spec_json_str(s));
    out.push('[');
    let ghost base = out@;
    let mut i: usize = 0;
    while i < items.len()
        invariant
            i <= items@.len(),
            mapped == items.deep_view().map_values(|s: Seq<char>| spec_json_str(s)),
            mapped.len() == items@.len(),
            out@ == base + spec_join(mapped.take(i as int)),
        decreases items@.len() - i,
    {
        if i > 0 {
            out.push(',');
        }
        proof {
            assert(items.deep_view()[i as int] =~= items@[i as int]@);
        }
        push_json_string(out, items[i].as_str());
        i = i + 1;
        proof {
            assert(mapped.take(i as int) =~= mapped.take(i - 1).push(mapped[i - 1]));
            lemma_join_snoc(mapped.take(i - 1), mapped[i - 1]);
            assert(mapped[i - 1] == spec_json_str(items.deep_view()[i - 1]));
            if i - 1 == 0 {
                assert(out@ =~= base + spec_join(mapped.take(i as int)));
            } else {
                assert(out@ =~= base + spec_join(mapped.take(i as int)));
            }
        }
    }
    out.push(']');
    proof {
        assert(mapped.take(mapped.len() as int) =~= mapped);
        assert(out@ =~= old(out)@ + spec_str_array(items.deep_view()));
    }
}

/// The name and string list of each per-file entry, as sequences.
pub open spec fn file_views(files: Seq<(String, Vec<String>)>) -> Seq<(Seq<char>, Seq<Seq<char>>)> {
    files.map_values(|f: (String, Vec<String>)| (f.0@, f.1.deep_view()))
}

/// One entry of the ammunition report: the file name mapped to its array.
pub open spec fn spec_ammo_entry(f: (Seq<char>, Seq<Seq<char>>)) -> Seq<char> {
    seq!['{'] + spec_json_str(f.0) + seq![':'] + spec_str_array(f.1) + seq!['}']
}

/// The entries of the ammunition report: one per file with a non-empty
/// ammunition list, in file order.
pub open spec fn spec_ammo_entries(files: Seq<(Seq<char>, Seq<Seq<char>>)>) -> Seq<Seq<char>>
    decreases files.len(),
{
    if files.len() == 0 {
        Seq::empty()
    } else {
        let rest = spec_ammo_entries(files.drop_first());
        if files[0].1.len() == 0 {
            rest
        } else {
            seq![spec_ammo_entry(files[0])] + rest
        }
    }
}

/// The whole ammunition report.
pub open spec fn spec_ammo_report(files: Seq<(Seq<char>, Seq<Seq<char>>)>) -> Seq<char> {
    "{\"tanks\":["@ + spec_join(spec_ammo_entries(files)) + "]}"@
}

pub proof fn lemma_ammo_entries_snoc(files: Seq<(Seq<char>, Seq<Seq<char>>)>, f: (Seq<char>, Seq<Seq<char>>))
    ensures
        spec_ammo_entries(files.push(f)) == if f.1.len() == 0 {
            spec_ammo_entries(files)
        } else {
            spec_ammo_entries(files) + seq![spec_ammo_entry(f)]
        },
    decreases files.len(),
{
    if files.len() == 0 {
        assert(files.push(f).drop_first() =~= Seq::<(Seq<char>, Seq<Seq<char>>)>::empty());
        assert(files.push(f)[0] == f);
        assert(spec_ammo_entries(Seq::<(Seq<char>, Seq<Seq<char>>)>::empty())
            == Seq::<Seq<char>>::empty());
        assert(files =~= Seq::<(Seq<char>, Seq<Seq<char>>)>::empty());
        if f.1.len() == 0 {
            assert(spec_ammo_entries(files.push(f)) =~= spec_ammo_entries(files));
        } else {
            assert(spec_ammo_entries(files.push(f)) =~= spec_ammo_entries(files) + seq![
                spec_ammo_entry(f),
            ]);
        }
    } else {
        assert(files.push(f).drop_first() =~= files.drop_first().push(f));
        lemma_ammo_entries_snoc(files.drop_first(), f);
        if f.1.len() == 0 {
            assert(spec_ammo_entries(files.push(f)) =~= spec_ammo_entries(files));
        } else {
            assert(spec_ammo_entries(files.push(f)) =~= spec_ammo_entries(files) + seq![
                spec_ammo_entry(f),
            ]);
        }
    }
}

/// The ammunition report over per-file entries: each file with a non-empty
/// list contributes one object mapping its name to its sorted array.
pub fn render_ammo_report(files: &Vec<(String, Vec<String>)>) -> (r: String)
    ensures
        r@ == spec_ammo_report(file_views(files@)),
{
    let ghost fv = file_views(files@);
    let mut out: Vec<char> = Vec::new();
    push_lit(&mut out, "{\"tanks\":[");
    let mut wrote = false;
    let mut i: usize = 0;
    while i < files.len()
        invariant
            i <= files@.len(),
            fv == file_views(files@),
            fv.len() == files@.len(),
            out@ == "{\"tanks\":["@ + spec_join(spec_ammo_entries(fv.take(i as int))),
            wrote == (spec_ammo_entries(fv.take(i as int)).len() > 0),
        decreases files@.len() - i,
    {
        let ghost entries = spec_ammo_entries(fv.take(i as int));
        proof {
            assert(fv[i as int] == (files@[i as int].0@, files@[i as int].1.deep_view()));
            assert(fv.take(i + 1) =~= fv.take(i as int).push(fv[i as int]));
            lemma_ammo_entries_snoc(fv.take(i as int), fv[i as int]);
        }
        if files[i].1.len() > 0 {
            if wrote {
                out.push(',');
            }
            out.push('{');
            push_json_string(&mut out, files[i].0.as_str());
            out.push(':');
            push_str_array(&mut out, &files[i].1);
            out.push('}');
            wrote = true;
            proof {
                let e = spec_ammo_entry(fv[i as int]);
                assert(spec_ammo_entries(fv.take(i + 1)) =~= entries.push(e));
                lemma_join_snoc(entries, e);
                assert(out@ =~= "{\"tanks\":["@ + spec_join(spec_ammo_entries(fv.take(i + 1))));
            }
        } else {
            proof {
                assert(files@[i as int].1.deep_view().len() == files@[i as int].1@.len());
            }
        }
        i = i + 1;
    }
    push_lit(&mut out, "]}");
    proof {
        assert(fv.take(fv.len() as int) =~= fv);
    }
    crate::chars::string_of(out.as_slice())
}

/// One entry of the preset report: the file name mapped to one preset name.
pub open spec fn spec_preset_entry(name: Seq<char>, p: Seq<char>) -> Seq<char> {
    seq!['{'] + spec_json_str(name) + seq![':'] + spec_json_str(p) + seq!['}']
}

/// The entries one file contributes to the preset report: one per preset.
pub open spec fn file_preset_entries(f: (Seq<char>, Seq<Seq<char>>)) -> Seq<Seq<char>> {
    f.1.map_values(|p: Seq<char>| spec_preset_entry(f.0, p))
}

/// The entries of the preset report, in file order then preset order.
pub open spec fn spec_preset_entries(files: Seq<(Seq<char>, Seq<Seq<char>>)>) -> Seq<Seq<char>>
    decreases files.len(),
{
    if files.len() == 0 {
        Seq::empty()
    } else {
        file_preset_entries(files[0]) + spec_preset_entries(files.drop_first())
    }
}

/// The whole preset report.
pub open spec fn spec_preset_report(files: Seq<(Seq<char>, Seq<Seq<char>>)>) -> Seq<char> {
    "{\"tanks\":["@ + spec_join(spec_preset_entries(files)) + "]}"@
}

pub proof fn lemma_preset_entries_snoc(
    files: Seq<(Seq<char>, Seq<Seq<char>>)>,
    f: (Seq<char>, Seq<Seq<char>>),
)
    ensures
        spec_preset_entries(files.push(f)) == spec_preset_entries(files) + file_preset_entries(f),
    decreases files.len(),
{
    if files.len() == 0 {
        assert(files.push(f).drop_first() =~= Seq::<(Seq<char>, Seq<Seq<char>>)>::empty());
        assert(files.push(f)[0] == f);
        assert(spec_preset_entries(Seq::<(Seq<char>, Seq<Seq<char>>)>::empty())
            == Seq::<Seq<char>>::empty());
        assert(files =~= Seq::<(Seq<char>, Seq<Seq<char>>)>::empty());
        assert(spec_preset_entries(files.push(f)) =~= spec_preset_entries(files)
            + file_preset_entries(f));
    } else {
        assert(files.push(f).drop_first() =~= files.drop_first().push(f));
        lemma_preset_entries_snoc(files.drop_first(), f);
        assert(spec_preset_entries(files.push(f)) =~= spec_preset_entries(files)
            + file_preset_entries(f));
    }
}

/// The preset report over per-file entries: each file contributes one
/// object per preset name, in order of appearance.
pub fn render_preset_report(files: &Vec<(String, Vec<String>)>) -> (r: String)
    ensures
        r@ == spec_preset_report(file_views(files@)),
{
    let ghost fv = file_views(files@);
    let mut out: Vec<char> = Vec::new();
    push_lit(&mut out, "{\"tanks\":[");
    let mut wrote = false;
    let mut i: usize = 0;
    while i < files.len()
        invariant
            i <= files@.len(),
            fv == file_views(files@),
            fv.len() == files@.len(),
            out@ == "{\"tanks\":["@ + spec_join(spec_preset_entries(fv.take(i as int))),
            wrote == (spec_preset_entries(fv.take(i as int)).len() > 0),
        decreases files@.len() - i,
    {
        let ghost before = spec_preset_entries(fv.take(i as int));
        let ghost cur = file_preset_entries(fv[i as int]);
        proof {
            assert(fv[i as int] == (files@[i as int].0@, files@[i as int].1.deep_view()));
            assert(cur.len() == files@[i as int].1.deep_view().len());
        }
        let mut k: usize = 0;
        while k < files[i].1.len()
            invariant
                i < files@.len(),
                k <= files@[i as int].1@.len(),
                fv == file_views(files@),
                fv.len() == files@.len(),
                fv[i as int] == (files@[i as int].0@, files@[i as int].1.deep_view()),
                before == spec_preset_entries(fv.take(i as int)),
                cur == file_preset_entries(fv[i as int]),
                cur.len() == files@[i as int].1@.len(),
                out@ == "{\"tanks\":["@ + spec_join(before + cur.take(k as int)),
                wrote == ((before + cur.take(k as int)).len() > 0),
            decreases files@[i as int].1@.len() - k,
        {
            if wrote {
                out.push(',');
            }
            out.push('{');
            push_json_string(&mut out, files[i].0.as_str());
            out.push(':');
            push_json_string(&mut out, files[i].1[k].as_str());
            out.push('}');
            wrote = true;
            k = k + 1;
            proof {
                let e = spec_preset_entry(fv[i as int].0, fv[i as int].1[k - 1]);
                assert(fv[i as int].1[k - 1] == files@[i as int].1@[k - 1]@) by {
                    assert(files@[i as int].1.deep_view()[k - 1] =~= files@[i as int].1@[k - 1]@);
                }
                assert(cur[k - 1] == e);
                assert(before + cur.take(k as int) =~= (before + cur.take(k - 1)).push(e));
                lemma_join_snoc(before + cur.take(k - 1), e);
                assert(out@ =~= "{\"tanks\":["@ + spec_join(before + cur.take(k as int)));
            }
        }
        i = i + 1;
        proof {
            assert(fv.take(i as int) =~= fv.take(i - 1).push(fv[i - 1]));
            lemma_preset_entries_snoc(fv.take(i - 1), fv[i - 1]);
            assert(cur.take(cur.len() as int) =~= cur);
            assert(spec_preset_entries(fv.take(i as int)) =~= before + cur);
        }
    }
    push_lit(&mut out, "]}");
    proof {
        assert(fv.take(fv.len() as int) =~= fv);
    }
    crate::chars::string_of(out.as_slice())
}

} // verus!
