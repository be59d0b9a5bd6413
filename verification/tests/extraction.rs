use blk_extract::{
    ammo_identifiers, document_kind, document_stem, extract_from_raw, extract_from_structured,
    extract_modifications_block, find_named_block, preset_names_from_raw, scan_candidate_keys,
    DocKind,
};

#[test]
fn modifications_block_inner_content() {
    let content = "header\nmodifications {\n  105mm_ap {\n    cost:i=10\n  }\n}\ntail";
    let block = extract_modifications_block(content).unwrap();
    assert_eq!(block, "\n  105mm_ap {\n    cost:i=10\n  }\n");
}

#[test]
fn key_lookup_has_no_word_boundary() {
    // The locator finds the key as a plain substring, a known limitation:
    // a larger identifier containing it still anchors the block.
    let content = "extra_modifications { 75mm_he { } }";
    let block = extract_modifications_block(content).unwrap();
    assert_eq!(block, " 75mm_he { } ");
}

#[test]
fn modifications_block_absent() {
    assert_eq!(extract_modifications_block("weapons { }"), None);
}

#[test]
fn modifications_block_unterminated() {
    assert_eq!(extract_modifications_block("modifications { open { }"), None);
}

#[test]
fn modifications_block_without_brace() {
    assert_eq!(extract_modifications_block("modifications"), None);
}

#[test]
fn first_block_wins() {
    let content = "modifications { 75mm_ap { } } modifications { 88mm_he { } }";
    let fe = extract_from_raw(content);
    assert_eq!(fe.ammo, vec!["75mm_ap".to_string()]);
}

#[test]
fn nested_block_balances_and_scan_stays_on_top_level() {
    let content = "modifications { variant_a { 105mm_ap { cost:i=10 } } }";
    let block = find_named_block(content, "modifications").unwrap();
    let opens = block.chars().filter(|c| *c == '{').count();
    let closes = block.chars().filter(|c| *c == '}').count();
    assert_eq!(opens, closes);
    let keys = scan_candidate_keys(&block);
    assert_eq!(keys, vec!["variant_a".to_string()]);
}

#[test]
fn scan_finds_line_anchored_keys_only() {
    let block = "\n  first_key {\n  }\n  second_key{\n  }\n  value:i=3\n  inline ignored {\n";
    let keys = scan_candidate_keys(block);
    assert_eq!(keys, vec!["first_key".to_string(), "second_key".to_string()]);
}

#[test]
fn dedup_and_ordering() {
    let content = "modifications {\n  125mm_ap {\n  }\n  125mm_ap {\n  }\n}";
    let fe = extract_from_raw(content);
    assert_eq!(fe.ammo, vec!["125mm_ap".to_string()]);
}

#[test]
fn ammo_output_sorted_regardless_of_source_order() {
    let content = "modifications {\n  b_heat_fs {\n  }\n  a_90mm {\n  }\n  c_apds {\n  }\n}";
    let fe = extract_from_raw(content);
    assert_eq!(
        fe.ammo,
        vec!["a_90mm".to_string(), "b_heat_fs".to_string(), "c_apds".to_string()]
    );
}

#[test]
fn ammo_identifiers_trims_and_filters() {
    let keys = vec![
        " 125mm_ap ".to_string(),
        "engine".to_string(),
        "125mm_ap".to_string(),
        "smoke_ammo_pack".to_string(),
    ];
    assert_eq!(ammo_identifiers(&keys), vec!["125mm_ap".to_string()]);
}

#[test]
fn preset_names_in_order() {
    let block = " preset { name:t = \"AP belt\" } preset { name:t=\"HE belt\" }";
    assert_eq!(
        preset_names_from_raw(block),
        vec!["AP belt".to_string(), "HE belt".to_string()]
    );
}

#[test]
fn preset_name_whitespace_tolerant_and_nonempty() {
    let block = "name:t   =   \"Spaced\" name:t = \"\" name:t \"no equals\"";
    assert_eq!(preset_names_from_raw(block), vec!["Spaced".to_string()]);
}

#[test]
fn raw_document_full_extraction() {
    let content = "modifications { 88mm_apcbc { } smoke_ammo_pack { } } \
                   weapon_presets { preset { name:t = \"AP belt\" } }";
    let fe = extract_from_raw(content);
    assert_eq!(fe.ammo, vec!["88mm_apcbc".to_string()]);
    assert_eq!(fe.presets, vec!["AP belt".to_string()]);
}

#[test]
fn format_equivalence_raw_and_structured() {
    let raw = "modifications {\n  125mm_ap {\n  }\n  smoke_ammo_pack {\n  }\n}\n\
               weapon_presets {\n  preset {\n    name:t = \"AP belt\"\n  }\n}";
    let structured = "{\"modifications\":{\"125mm_ap\":{},\"smoke_ammo_pack\":{}},\
                      \"weapon_presets\":{\"preset\":{\"name\":\"AP belt\"}}}";
    let fe_raw = extract_from_raw(raw);
    let fe_json = extract_from_structured(structured).unwrap();
    assert_eq!(fe_raw.ammo, fe_json.ammo);
    assert_eq!(fe_raw.presets, fe_json.presets);
}

#[test]
fn structured_preset_array_in_order() {
    let structured = "{\"weapon_presets\":{\"preset\":[\
                      {\"name\":\"First\"},{\"other\":1},{\"name\":\"Second\"}]}}";
    let fe = extract_from_structured(structured).unwrap();
    assert_eq!(fe.presets, vec!["First".to_string(), "Second".to_string()]);
    assert!(fe.ammo.is_empty());
}

#[test]
fn structured_preset_of_other_shape_yields_nothing() {
    let fe = extract_from_structured("{\"weapon_presets\":{\"preset\":\"bare\"}}").unwrap();
    assert!(fe.presets.is_empty());
    let fe = extract_from_structured("{\"weapon_presets\":3}").unwrap();
    assert!(fe.presets.is_empty());
}

#[test]
fn structured_parse_failure_yields_none() {
    assert!(extract_from_structured("modifications { not json }").is_none());
}

#[test]
fn structured_non_object_modifications_ignored() {
    let fe = extract_from_structured("{\"modifications\": 5}").unwrap();
    assert!(fe.ammo.is_empty());
    assert!(fe.presets.is_empty());
}

#[test]
fn structured_keys_are_trimmed() {
    let fe = extract_from_structured("{\"modifications\":{\" 125mm_ap \":{}}}").unwrap();
    assert_eq!(fe.ammo, vec!["125mm_ap".to_string()]);
}

#[test]
fn document_kind_by_extension() {
    assert_eq!(document_kind("tiger.blk"), Some(DocKind::RawText));
    assert_eq!(document_kind("tiger.blkx"), Some(DocKind::StructuredJson));
    assert_eq!(document_kind("tiger.txt"), None);
    assert_eq!(document_kind(".blk"), None);
    assert_eq!(document_kind(".blkx"), None);
    assert_eq!(document_kind("blk"), None);
}

#[test]
fn document_stem_drops_extension() {
    assert_eq!(document_stem("tiger.blk"), "tiger");
    assert_eq!(document_stem("tiger.blkx"), "tiger");
    assert_eq!(document_stem("notes.txt"), "notes.txt");
}
