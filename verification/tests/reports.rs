use blk_extract::{
    extract_from_raw, process_document, render_ammo_report, render_preset_report,
    render_unit_database, unit_records, DocKind, FileExtraction,
};

const TIGER: &str =
    "modifications { 88mm_apcbc { } smoke_ammo_pack { } } weapon_presets { preset { name:t = \"AP belt\" } }";

#[test]
fn end_to_end_ammo_report() {
    let fe = process_document(DocKind::RawText, TIGER).unwrap();
    let files = vec![("tiger.blk".to_string(), fe.ammo)];
    assert_eq!(
        render_ammo_report(&files),
        "{\"tanks\":[{\"tiger.blk\":[\"88mm_apcbc\"]}]}"
    );
}

#[test]
fn end_to_end_preset_report() {
    let fe = process_document(DocKind::RawText, TIGER).unwrap();
    let files = vec![("tiger.blk".to_string(), fe.presets)];
    assert_eq!(
        render_preset_report(&files),
        "{\"tanks\":[{\"tiger.blk\":\"AP belt\"}]}"
    );
}

#[test]
fn end_to_end_unit_database() {
    let fe = extract_from_raw(TIGER);
    let records = unit_records(&vec![("tiger".to_string(), fe)]);
    assert_eq!(
        render_unit_database(&records),
        "[{\"ID\":\"tiger\",\"name\":\"tiger (USA)\",\"country\":\"USA\",\
         \"weapons_default\":[\"AP belt\"],\"ammo_amount\":25,\"image\":\"tiger.png\",\
         \"role\":\"Medium tank\",\"ammo\":[\"88mm_apcbc\"]}]"
    );
}

#[test]
fn round_trip_idempotence() {
    let run = || {
        let fe = extract_from_raw(TIGER);
        let files = vec![("tiger.blk".to_string(), fe.ammo)];
        render_ammo_report(&files)
    };
    assert_eq!(run(), run());
}

#[test]
fn files_without_ammo_contribute_no_entry() {
    let files = vec![
        ("empty.blk".to_string(), Vec::new()),
        ("full.blk".to_string(), vec!["85mm_he".to_string()]),
        ("bare.blk".to_string(), Vec::new()),
    ];
    assert_eq!(
        render_ammo_report(&files),
        "{\"tanks\":[{\"full.blk\":[\"85mm_he\"]}]}"
    );
}

#[test]
fn multiple_presets_make_multiple_entries() {
    let files = vec![
        ("a.blk".to_string(), vec!["One".to_string(), "Two".to_string()]),
        ("b.blk".to_string(), vec!["Three".to_string()]),
    ];
    assert_eq!(
        render_preset_report(&files),
        "{\"tanks\":[{\"a.blk\":\"One\"},{\"a.blk\":\"Two\"},{\"b.blk\":\"Three\"}]}"
    );
}

#[test]
fn empty_input_renders_empty_reports() {
    let files: Vec<(String, Vec<String>)> = Vec::new();
    assert_eq!(render_ammo_report(&files), "{\"tanks\":[]}");
    assert_eq!(render_preset_report(&files), "{\"tanks\":[]}");
    let records = unit_records(&Vec::new());
    assert_eq!(render_unit_database(&records), "[]");
}

#[test]
fn string_values_are_json_escaped() {
    let files = vec![("f.blk".to_string(), vec!["a\\b".to_string(), "c\"d\ne".to_string()])];
    assert_eq!(
        render_preset_report(&files),
        "{\"tanks\":[{\"f.blk\":\"a\\\\b\"},{\"f.blk\":\"c\\\"d\\ne\"}]}"
    );
}

#[test]
fn control_characters_use_unicode_escapes() {
    let files = vec![("f.blk".to_string(), vec!["a\u{1}b".to_string()])];
    assert_eq!(
        render_preset_report(&files),
        "{\"tanks\":[{\"f.blk\":\"a\\u0001b\"}]}"
    );
}

#[test]
fn records_skip_documents_without_content() {
    let items = vec![
        (
            "quiet".to_string(),
            FileExtraction { presets: Vec::new(), ammo: Vec::new() },
        ),
        (
            "loud".to_string(),
            FileExtraction { presets: vec!["Belt".to_string()], ammo: Vec::new() },
        ),
    ];
    let records = unit_records(&items);
    assert_eq!(records.len(), 1);
    assert_eq!(records[0].id, "loud");
    assert_eq!(records[0].presets, vec!["Belt".to_string()]);
    assert!(records[0].ammo.is_empty());
}
