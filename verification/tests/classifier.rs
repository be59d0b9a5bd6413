use blk_extract::is_ammo_key;

#[test]
fn boundary_exclusion_plain_pack() {
    assert!(!is_ammo_key("hull_ammo_pack"));
}

#[test]
fn boundary_exclusion_overrides_calibre() {
    assert!(!is_ammo_key("125mm_ammo_pack"));
}

#[test]
fn calibre_lowercase_accepted() {
    assert!(is_ammo_key("125mm_ap"));
}

#[test]
fn calibre_uppercase_accepted() {
    assert!(is_ammo_key("30MM_cannon"));
}

#[test]
fn calibre_mixed_case_accepted() {
    assert!(is_ammo_key("76Mm_round"));
}

#[test]
fn calibre_alone_accepted() {
    assert!(is_ammo_key("410mm"));
}

#[test]
fn keyword_prefix_boundary_accepted() {
    assert!(is_ammo_key("heat_fs"));
}

#[test]
fn keyword_without_boundary_rejected() {
    assert!(!is_ammo_key("wheated"));
}

#[test]
fn keyword_inner_boundaries_accepted() {
    assert!(is_ammo_key("shell_apds_long"));
}

#[test]
fn keyword_suffix_boundary_accepted() {
    assert!(is_ammo_key("m_usa"));
}

#[test]
fn keyword_not_a_token_rejected() {
    assert!(!is_ammo_key("usable"));
}

#[test]
fn keyword_whole_key_accepted() {
    assert!(is_ammo_key("heat"));
}

#[test]
fn keyword_case_insensitive() {
    assert!(is_ammo_key("HEAT_FS"));
    assert!(is_ammo_key("x_ApCbC"));
}

#[test]
fn plain_word_rejected() {
    assert!(!is_ammo_key("engine_upgrade"));
    assert!(!is_ammo_key(""));
}
