//! One document through the whole pipeline: locate the two named blocks,
//! scan and classify candidate keys, extract preset names, and put both
//! results into one `FileExtraction`.  The raw-text path is specified
//! exactly; the structured path lives in the module that reads JSON.

use vstd::prelude::*;

use crate::ammo::{spec_ammo_member, strictly_sorted};
use crate::block::spec_find_block;
use crate::presets::spec_presets_from;
use crate::scan::spec_keys_from;

verus! {

/// What one document contributes: its preset names in order of appearance,
/// and its ammunition identifiers, deduplicated and sorted.
pub struct FileExtraction {
    pub presets: Vec<String>,
    pub ammo: Vec<String>,
}

/// The two encodings a document can come in, told apart by file extension.
#[derive(Clone, Copy, PartialEq, Eq, Structural, Debug)]
pub enum DocKind {
    RawText,
    StructuredJson,
}

/// The candidate keys of a raw-text document: the immediate child keys of
/// its `modifications` block, or nothing when the block is absent.
pub open spec fn spec_raw_keys(text: Seq<char>) -> Seq<Seq<char>> {
    match spec_find_block(text, "modifications"@) {
        None => Seq::empty(),
        Some(b) => spec_keys_from(b, 0),
    }
}

/// The preset names of a raw-text document: the `name:t = "..."` values of
/// its `weapon_presets` block, or nothing when the block is absent.
pub open spec fn spec_raw_presets(text: Seq<char>) -> Seq<Seq<char>> {
    match spec_find_block(text, "weapon_presets"@) {
        None => Seq::empty(),
        Some(b) => spec_presets_from(b, 0),
    }
}

/// Extraction from a raw-text document: the preset names in order, and the
/// ammunition identifiers of the candidate keys, deduplicated and sorted.
pub fn extract_from_raw(content: &str) -> (r: FileExtraction)
    ensures
        r.presets.deep_view() == spec_raw_presets(content@),
        strictly_sorted(r.ammo.deep_view()),
        forall|s: Seq<char>|
            r.ammo.deep_view().contains(s) <==> spec_ammo_member(spec_raw_keys(content@), s),
{
    let text = crate::chars::chars_of(content);
    let mods_key = crate::chars::chars_of("modifications");
    let presets_key = crate::chars::chars_of("weapon_presets");

    let keys: Vec<Vec<char>> = match crate::block::find_block_range(
        text.as_slice(),
        mods_key.as_slice(),
    ) {
        None => Vec::new(),
        Some(p) => {
            let b = crate::chars::copy_range(text.as_slice(), p.0, p.1);
            crate::scan::scan_keys_chars(b.as_slice())
        },
    };
    proof {
        assert(keys.deep_view() == spec_raw_keys(content@));
    }
    let ammo_chars = crate::ammo::ammo_list_chars(&keys);
    let ammo = crate::chars::strings_of(&ammo_chars);

    let names: Vec<Vec<char>> = match crate::block::find_block_range(
        text.as_slice(),
        presets_key.as_slice(),
    ) {
        None => Vec::new(),
        Some(p) => {
            let b = crate::chars::copy_range(text.as_slice(), p.0, p.1);
            crate::presets::preset_names_chars(b.as_slice())
        },
    };
    let presets = crate::chars::strings_of(&names);

    FileExtraction { presets, ammo }
}

/// The encoding a file name announces: `.blkx` is the structured form,
/// `.blk` the raw form, anything else is no document at all.  A name that
/// is nothing but an extension announces neither.
pub open spec fn spec_document_kind(name: Seq<char>) -> Option<DocKind> {
    if name.len() > 5 && name.subrange(name.len() - 5, name.len() as int) == ".blkx"@ {
        Some(DocKind::StructuredJson)
    } else if name.len() > 4 && name.subrange(name.len() - 4, name.len() as int) == ".blk"@ {
        Some(DocKind::RawText)
    } else {
        None
    }
}

/// The file name without its recognized extension; a name of another shape
/// stays whole.
pub open spec fn spec_document_stem(name: Seq<char>) -> Seq<char> {
    match spec_document_kind(name) {
        Some(DocKind::StructuredJson) => name.take(name.len() - 5),
        Some(DocKind::RawText) => name.take(name.len() - 4),
        None => name,
    }
}

/// The encoding a file name announces, or `None` for a file to skip.
pub fn document_kind(name: &str) -> (r: Option<DocKind>)
    ensures
        r == spec_document_kind(name@),
{
    let cs = crate::chars::chars_of(name);
    proof {
        reveal_strlit(".blkx");
        reveal_strlit(".blk");
    }
    if cs.len() > 5 && crate::chars::ends_with(cs.as_slice(), ".blkx") {
        Some(DocKind::StructuredJson)
    } else if cs.len() > 4 && crate::chars::ends_with(cs.as_slice(), ".blk") {
        Some(DocKind::RawText)
    } else {
        None
    }
}

/// The file name without its recognized extension.
pub fn document_stem(name: &str) -> (r: String)
    ensures
        r@ == spec_document_stem(name@),
{
    let cs = crate::chars::chars_of(name);
    proof {
        reveal_strlit(".blkx");
        reveal_strlit(".blk");
    }
    let cut: usize = match document_kind(name) {
        Some(DocKind::StructuredJson) => cs.len() - 5,
        Some(DocKind::RawText) => cs.len() - 4,
        None => cs.len(),
    };
    let stem = crate::chars::copy_range(cs.as_slice(), 0, cut);
    proof {
        assert(stem@ =~= spec_document_stem(name@));
    }
    crate::chars::string_of(stem.as_slice())
}

/// One document through the pipeline.  A raw-text document always yields an
/// extraction; a structured one yields `Some` exactly when its text parses
/// as JSON.  Either way the presets and the ammunition list are fixed by
/// the document alone.
pub fn process_document(kind: DocKind, content: &str) -> (r: Option<FileExtraction>)
    ensures
        kind == DocKind::RawText ==> r is Some,
        kind == DocKind::RawText ==> (r matches Some(fe) ==> fe.presets.deep_view()
            == spec_raw_presets(content@) && strictly_sorted(fe.ammo.deep_view()) && (forall|
            s: Seq<char>,
        |
            fe.ammo.deep_view().contains(s) <==> spec_ammo_member(spec_raw_keys(content@), s))),
        kind == DocKind::StructuredJson ==> (r is Some <==> crate::jsondoc::spec_json_ok(
            content@,
        )),
        kind == DocKind::StructuredJson ==> (r matches Some(fe) ==> fe.presets.deep_view()
            == crate::jsondoc::spec_json_preset_names(content@) && strictly_sorted(
            fe.ammo.deep_view(),
        ) && (forall|s: Seq<char>|
            fe.ammo.deep_view().contains(s) <==> spec_ammo_member(
                crate::jsondoc::spec_json_mod_keys(content@),
                s,
            ))),
{
    match kind {
        DocKind::RawText => Some(extract_from_raw(content)),
        DocKind::StructuredJson => crate::jsondoc::extract_from_structured(content),
    }
}

} // verus!
