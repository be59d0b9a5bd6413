//! The structured-JSON encoding of a document, read through `serde_json`.
//! The parse and both probes are functions of the text alone (the default
//! map keeps its keys in a fixed order), so their outcomes carry names: the
//! trusted boundary hands back plain values stated over those names, and
//! everything computed from them — the usable-name rule, trimming,
//! classification, ordering — is verified.

use vstd::prelude::*;

use crate::aggregate::FileExtraction;
use crate::ammo::{ammo_identifiers, spec_ammo_member, strictly_sorted};

verus! {

/// Whether the text parses as a JSON document.
pub uninterp spec fn spec_json_ok(text: Seq<char>) -> bool;

/// The field names of the document's `modifications` object, in the order
/// the map hands them out; empty when the field is absent or no object.
pub uninterp spec fn spec_json_mod_keys(text: Seq<char>) -> Seq<Seq<char>>;

/// The `name` of each preset entry under `weapon_presets.preset`: one
/// element per entry of an array (or one for a single entry), `None` where
/// an entry has no string name; empty for any other shape.
pub uninterp spec fn spec_json_preset_name_opts(text: Seq<char>) -> Seq<Option<Seq<char>>>;

/// The name options with the unusable entries dropped, order kept.
pub open spec fn spec_collapse_names(opts: Seq<Option<Seq<char>>>) -> Seq<Seq<char>>
    decreases opts.len(),
{
    if opts.len() == 0 {
        Seq::empty()
    } else {
        let rest = spec_collapse_names(opts.drop_first());
        match opts[0] {
            Some(n) => seq![n] + rest,
            None => rest,
        }
    }
}

/// The usable preset names of a structured document, in order.
pub open spec fn spec_json_preset_names(text: Seq<char>) -> Seq<Seq<char>> {
    spec_collapse_names(spec_json_preset_name_opts(text))
}

/// Relies on `serde_json::from_str::<Value>`, `Value::get` and
/// `Value::as_object`: `Some` exactly when the text is valid JSON, holding
/// the keys of the `modifications` object, empty when that field is absent
/// or no object.  With the default map, the parse and the key order depend
/// on the text alone.
#[verifier::external_body]
fn modification_keys(text: &str) -> (r: Option<Vec<String>>)
    ensures
        r is Some <==> spec_json_ok(text@),
        r matches Some(ks) ==> ks.deep_view() == spec_json_mod_keys(text@),
{
    match serde_json::from_str::<serde_json::Value>(text) {
        Err(_) => None,
        Ok(v) => Some(match v.get("modifications").and_then(|m| m.as_object()) {
            Some(m) => m.keys().cloned().collect(),
            None => Vec::new(),
        }),
    }
}

/// Relies on `serde_json::from_str::<Value>`, `Value::get`, `Value::as_array`
/// and `Value::as_str`: `Some` exactly when the text is valid JSON, holding
/// one name option per preset entry under `weapon_presets.preset` — per
/// array element, or one for a single entry, and none for any other shape.
/// The results depend on the text alone.
#[verifier::external_body]
fn preset_name_options(text: &str) -> (r: Option<Vec<Option<String>>>)
    ensures
        r is Some <==> spec_json_ok(text@),
        r matches Some(ns) ==> ns.deep_view() == spec_json_preset_name_opts(text@),
{
    match serde_json::from_str::<serde_json::Value>(text) {
        Err(_) => None,
        Ok(v) => Some(match v.get("weapon_presets").and_then(|w| w.get("preset")) {
            Some(serde_json::Value::Array(items)) => items
                .iter()
                .map(|p| p.get("name").and_then(|n| n.as_str()).map(str::to_owned))
                .collect(),
            Some(p) => vec![p.get("name").and_then(|n| n.as_str()).map(str::to_owned)],
            None => Vec::new(),
        }),
    }
}

pub proof fn lemma_collapse_snoc(opts: Seq<Option<Seq<char>>>, o: Option<Seq<char>>)
    ensures
        spec_collapse_names(opts.push(o)) == spec_collapse_names(opts) + (match o {
            Some(n) => seq![n],
            None => Seq::<Seq<char>>::empty(),
        }),
    decreases opts.len(),
{
    if opts.len() == 0 {
        assert(opts.push(o).drop_first() =~= Seq::<Option<Seq<char>>>::empty());
        assert(opts.push(o)[0] == o);
        assert(spec_collapse_names(Seq::<Option<Seq<char>>>::empty())
            == Seq::<Seq<char>>::empty());
        assert(opts =~= Seq::<Option<Seq<char>>>::empty());
        if o is Some {
            assert(spec_collapse_names(opts.push(o)) =~= spec_collapse_names(opts) + seq![
                o.unwrap(),
            ]);
        } else {
            assert(spec_collapse_names(opts.push(o)) =~= spec_collapse_names(opts));
        }
    } else {
        assert(opts.push(o).drop_first() =~= opts.drop_first().push(o));
        lemma_collapse_snoc(opts.drop_first(), o);
        if o is Some {
            assert(spec_collapse_names(opts.push(o)) =~= spec_collapse_names(opts) + seq![
                o.unwrap(),
            ]);
        } else {
            assert(spec_collapse_names(opts.push(o)) =~= spec_collapse_names(opts));
        }
    }
}

/// The usable names among the options, in order: entries without a string
/// name are skipped.
fn collapse_names(opts: &Vec<Option<String>>) -> (r: Vec<String>)
    ensures
        r.deep_view() == spec_collapse_names(opts.deep_view()),
{
    let ghost ov = opts.deep_view();
    let mut r: Vec<String> = Vec::new();
    let mut i: usize = 0;
    while i < opts.len()
        invariant
            i <= opts@.len(),
            ov == opts.deep_view(),
            ov.len() == opts@.len(),
            r.deep_view() == spec_collapse_names(ov.take(i as int)),
        decreases opts@.len() - i,
    {
        proof {
            assert(ov.take(i + 1) =~= ov.take(i as int).push(ov[i as int]));
            lemma_collapse_snoc(ov.take(i as int), ov[i as int]);
        }
        match &opts[i] {
            Some(s) => {
                let ghost prev = r.deep_view();
                r.push(s.as_str().to_owned());
                proof {
                    assert(ov[i as int] == Some(s@));
                    assert(r.deep_view() =~~= prev.push(s@));
                    assert(r.deep_view() =~~= spec_collapse_names(ov.take(i + 1)));
                }
            },
            None => {
                proof {
                    assert(ov[i as int] is None);
                }
            },
        }
        i = i + 1;
    }
    proof {
        assert(ov.take(ov.len() as int) =~= ov);
    }
    r
}

/// Extraction from a structured-JSON document: `Some` exactly when the text
/// parses as JSON.  The presets are the document's usable preset names in
/// order; the ammunition list holds exactly the accepted trimmed keys of the
/// document's `modifications` object, deduplicated and strictly sorted.
pub fn extract_from_structured(content: &str) -> (r: Option<FileExtraction>)
    ensures
        r is Some <==> spec_json_ok(content@),
        r matches Some(fe) ==> fe.presets.deep_view() == spec_json_preset_names(content@),
        r matches Some(fe) ==> strictly_sorted(fe.ammo.deep_view()),
        r matches Some(fe) ==> (forall|s: Seq<char>|
            fe.ammo.deep_view().contains(s) <==> spec_ammo_member(
                spec_json_mod_keys(content@),
                s,
            )),
{
    match (modification_keys(content), preset_name_options(content)) {
        (Some(keys), Some(opts)) => {
            let ammo = ammo_identifiers(&keys);
            let presets = collapse_names(&opts);
            Some(FileExtraction { presets, ammo })
        },
        _ => None,
    }
}

} // verus!
