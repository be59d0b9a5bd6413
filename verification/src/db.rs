//! The unit database: one record per document that contributed presets or
//! ammunition, rendered as a JSON array.  The display name, country, role,
//! ammunition amount and image path are fixed stub values, marked as such:
//! they are not derived from document content and stand until an enrichment
//! source resolves them.

use vstd::prelude::*;

use crate::aggregate::FileExtraction;
use crate::emit::{
    lemma_join_snoc, push_json_str, push_json_string, push_lit, push_str_array, spec_join,
    spec_json_str, spec_str_array,
};

verus! {

/// One output record: the document's stem as identifier, its preset names
/// in order, and its sorted ammunition identifiers.  The enrichment fields
/// of the rendered form are unresolved stubs, not held here.
pub struct UnitRecord {
    pub id: String,
    pub presets: Vec<String>,
    pub ammo: Vec<String>,
}

/// The fields of each record, as sequences.
pub open spec fn record_views(rs: Seq<UnitRecord>) -> Seq<(Seq<char>, Seq<Seq<char>>, Seq<
    Seq<char>,
>)> {
    rs.map_values(|r: UnitRecord| (r.id@, r.presets.deep_view(), r.ammo.deep_view()))
}

/// The stem and extraction of each input item, as sequences.
pub open spec fn item_views(items: Seq<(String, FileExtraction)>) -> Seq<(Seq<char>, Seq<
    Seq<char>,
>, Seq<Seq<char>>)> {
    items.map_values(
        |it: (String, FileExtraction)| (it.0@, it.1.presets.deep_view(), it.1.ammo.deep_view()),
    )
}

/// The records kept for the database: those with any presets or ammunition,
/// in input order.
pub open spec fn spec_kept_records(vs: Seq<(Seq<char>, Seq<Seq<char>>, Seq<Seq<char>>)>) -> Seq<
    (Seq<char>, Seq<Seq<char>>, Seq<Seq<char>>),
>
    decreases vs.len(),
{
    if vs.len() == 0 {
        Seq::empty()
    } else {
        let rest = spec_kept_records(vs.drop_first());
        if vs[0].1.len() == 0 && vs[0].2.len() == 0 {
            rest
        } else {
            seq![vs[0]] + rest
        }
    }
}

pub proof fn lemma_kept_records_snoc(
    vs: Seq<(Seq<char>, Seq<Seq<char>>, Seq<Seq<char>>)>,
    v: (Seq<char>, Seq<Seq<char>>, Seq<Seq<char>>),
)
    ensures
        spec_kept_records(vs.push(v)) == if v.1.len() == 0 && v.2.len() == 0 {
            spec_kept_records(vs)
        } else {
            spec_kept_records(vs) + seq![v]
        },
    decreases vs.len(),
{
    if vs.len() == 0 {
        assert(vs.push(v).drop_first() =~= Seq::<
            (Seq<char>, Seq<Seq<char>>, Seq<Seq<char>>),
        >::empty());
        assert(vs.push(v)[0] == v);
        assert(spec_kept_records(Seq::<(Seq<char>, Seq<Seq<char>>, Seq<Seq<char>>)>::empty())
            == Seq::<(Seq<char>, Seq<Seq<char>>, Seq<Seq<char>>)>::empty());
        assert(vs =~= Seq::<(Seq<char>, Seq<Seq<char>>, Seq<Seq<char>>)>::empty());
        if v.1.len() == 0 && v.2.len() == 0 {
            assert(spec_kept_records(vs.push(v)) =~= spec_kept_records(vs));
        } else {
            assert(spec_kept_records(vs.push(v)) =~= spec_kept_records(vs) + seq![v]);
        }
    } else {
        assert(vs.push(v).drop_first() =~= vs.drop_first().push(v));
        lemma_kept_records_snoc(vs.drop_first(), v);
        if v.1.len() == 0 && v.2.len() == 0 {
            assert(spec_kept_records(vs.push(v)) =~= spec_kept_records(vs));
        } else {
            assert(spec_kept_records(vs.push(v)) =~= spec_kept_records(vs) + seq![v]);
        }
    }
}

/// The unit records of the given per-document items: one record per item
/// with any presets or ammunition, carrying its stem and both lists.
pub fn unit_records(items: &Vec<(String, FileExtraction)>) -> (r: Vec<UnitRecord>)
    ensures
        record_views(r@) == spec_kept_records(item_views(items@)),
{
    let ghost iv = item_views(items@);
    let mut r: Vec<UnitRecord> = Vec::new();
    let mut i: usize = 0;
    while i < items.len()
        invariant
            i <= items@.len(),
            iv == item_views(items@),
            iv.len() == items@.len(),
            record_views(r@) == spec_kept_records(iv.take(i as int)),
        decreases items@.len() - i,
    {
        proof {
            assert(iv[i as int] == (
                items@[i as int].0@,
                items@[i as int].1.presets.deep_view(),
                items@[i as int].1.ammo.deep_view(),
            ));
            assert(iv.take(i + 1) =~= iv.take(i as int).push(iv[i as int]));
            lemma_kept_records_snoc(iv.take(i as int), iv[i as int]);
        }
        if items[i].1.presets.len() > 0 || items[i].1.ammo.len() > 0 {
            let rec = UnitRecord {
                id: items[i].0.as_str().to_owned(),
                presets: crate::chars::copy_strings(&items[i].1.presets),
                ammo: crate::chars::copy_strings(&items[i].1.ammo),
            };
            let ghost prev = r@;
            r.push(rec);
            proof {
                assert(record_views(r@) =~= record_views(prev).push(iv[i as int]));
                assert(record_views(r@) =~= spec_kept_records(iv.take(i + 1)));
            }
        } else {
            proof {
                assert(iv[i as int].1.len() == 0 && iv[i as int].2.len() == 0);
            }
        }
        i = i + 1;
    }
    proof {
        assert(iv.take(iv.len() as int) =~= iv);
    }
    r
}

/// The rendered form of one record.  The fixed fields are explicit stubs.
pub open spec fn spec_record_entry(v: (Seq<char>, Seq<Seq<char>>, Seq<Seq<char>>)) -> Seq<char> {
    "{\"ID\":"@ + spec_json_str(v.0) + ",\"name\":"@ + spec_json_str(v.0 + " (USA)"@)
        + ",\"country\":\"USA\",\"weapons_default\":"@ + spec_str_array(v.1)
        + ",\"ammo_amount\":25,\"image\":"@ + spec_json_str(v.0 + ".png"@)
        + ",\"role\":\"Medium tank\",\"ammo\":"@ + spec_str_array(v.2) + "}"@
}

/// The whole database report: a JSON array of the records.
pub open spec fn spec_db_report(vs: Seq<(Seq<char>, Seq<Seq<char>>, Seq<Seq<char>>)>) -> Seq<
    char,
> {
    "["@ + spec_join(vs.map_values(|v: (Seq<char>, Seq<Seq<char>>, Seq<Seq<char>>)| spec_record_entry(v)))
        + "]"@
}

/// Appends the rendered form of one record.
fn push_record(out: &mut Vec<char>, rec: &UnitRecord)
    ensures
        final(out)@ == old(out)@ + spec_record_entry(
            (rec.id@, rec.presets.deep_view(), rec.ammo.deep_view()),
        ),
{
    push_lit(out, "{\"ID\":");
    push_json_string(out, rec.id.as_str());
    push_lit(out, ",\"name\":");
    let mut name = crate::chars::chars_of(rec.id.as_str());
    crate::emit::push_all(&mut name, crate::chars::chars_of(" (USA)").as_slice());
    push_json_str(out, name.as_slice());
    push_lit(out, ",\"country\":\"USA\",\"weapons_default\":");
    push_str_array(out, &rec.presets);
    push_lit(out, ",\"ammo_amount\":25,\"image\":");
    let mut image = crate::chars::chars_of(rec.id.as_str());
    crate::emit::push_all(&mut image, crate::chars::chars_of(".png").as_slice());
    push_json_str(out, image.as_slice());
    push_lit(out, ",\"role\":\"Medium tank\",\"ammo\":");
    push_str_array(out, &rec.ammo);
    push_lit(out, "}");
    proof {
        assert(out@ =~= old(out)@ + spec_record_entry(
            (rec.id@, rec.presets.deep_view(), rec.ammo.deep_view()),
        ));
    }
}

/// The database report over the given records, in order.
pub fn render_unit_database(records: &Vec<UnitRecord>) -> (r: String)
    ensures
        r@ == spec_db_report(record_views(records@)),
{
    let ghost rv = record_views(records@);
    let ghost mapped = rv.map_values(
        |v: (Seq<char>, Seq<Seq<char>>, Seq<Seq<char>>)| spec_record_entry(v),
    );
    let mut out: Vec<char> = Vec::new();
    push_lit(&mut out, "[");
    let mut i: usize = 0;
    while i < records.len()
        invariant
            i <= records@.len(),
            rv == record_views(records@),
            mapped == rv.map_values(
                |v: (Seq<char>, Seq<Seq<char>>, Seq<Seq<char>>)| spec_record_entry(v),
            ),
            mapped.len() == records@.len(),
            out@ == "["@ + spec_join(mapped.take(i as int)),
        decreases records@.len() - i,
    {
        if i > 0 {
            out.push(',');
        }
        proof {
            assert(rv[i as int] == (
                records@[i as int].id@,
                records@[i as int].presets.deep_view(),
                records@[i as int].ammo.deep_view(),
            ));
        }
        push_record(&mut out, &records[i]);
        i = i + 1;
        proof {
            assert(mapped.take(i as int) =~= mapped.take(i - 1).push(mapped[i - 1]));
            lemma_join_snoc(mapped.take(i - 1), mapped[i - 1]);
            assert(out@ =~= "["@ + spec_join(mapped.take(i as int)));
        }
    }
    push_lit(&mut out, "]");
    proof {
        assert(mapped.take(mapped.len() as int) =~= mapped);
    }
    crate::chars::string_of(out.as_slice())
}

} // verus!
