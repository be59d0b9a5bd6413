//! Mining of game-data description files: locating named blocks in the two
//! document encodings, scanning candidate keys, classifying ammunition
//! identifiers, extracting weapon-preset names, and rendering the report and
//! database outputs.

mod aggregate;
mod ammo;
mod block;
mod chars;
mod classify;
mod db;
mod emit;
mod jsondoc;
mod laws;
mod presets;
mod scan;

pub use aggregate::{
    extract_from_raw, document_kind, document_stem, process_document, spec_document_kind,
    spec_document_stem, spec_raw_keys, spec_raw_presets, DocKind, FileExtraction,
};
pub use ammo::{ammo_identifiers, lex_lt, spec_ammo_member, spec_trim, strictly_sorted};
pub use block::{extract_modifications_block, find_named_block, spec_find_block};
pub use classify::{
    any_keyword_at, is_ammo_key, spec_contains_calibre, spec_ends_ammo_pack, spec_has_keyword,
    spec_is_ammo,
};
pub use db::{
    item_views, record_views, render_unit_database, spec_db_report, spec_kept_records,
    unit_records, UnitRecord,
};
pub use emit::{
    file_views, render_ammo_report, render_preset_report, spec_ammo_report, spec_json_str,
    spec_preset_report,
};
pub use jsondoc::{
    extract_from_structured, spec_collapse_names, spec_json_mod_keys, spec_json_ok,
    spec_json_preset_name_opts, spec_json_preset_names,
};
pub use laws::{
    brace_delta, lemma_ammo_extraction_canonical, lemma_ammo_pack_excluded,
    lemma_block_content_balanced, lemma_calibre_accepted, lemma_format_equivalence,
    lemma_keyword_accepted, lemma_raw_extraction_deterministic,
    lemma_structured_extraction_deterministic, lemma_sorted_unique,
};
pub use presets::{preset_names_from_raw, spec_presets_from};
pub use scan::{scan_candidate_keys, spec_keys_from};
