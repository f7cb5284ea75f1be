use padnorm::quirks_db::{
    dmi_field_value, find_quirk, get_dmi_quirk, match_str, DmiIdentity, DmiQuirk, InputRemap,
};

fn identity(bv: &str, bn: &str, pv: &str, pn: &str) -> DmiIdentity {
    DmiIdentity {
        board_vendor: bv.to_string(),
        board_name: bn.to_string(),
        product_vendor: pv.to_string(),
        product_name: pn.to_string(),
    }
}

fn profile(bv: &str, bn: &str, relaxed: bool, mark: u16) -> DmiQuirk {
    DmiQuirk {
        board_vendor: bv.to_string(),
        board_name: bn.to_string(),
        product_vendor: String::new(),
        product_name: String::new(),
        relaxed_name: relaxed,
        relaxed_vendor: false,
        phys_path: String::new(),
        remap_codes: vec![InputRemap::KeyToKey(mark, mark)],
    }
}

#[test]
fn match_str_empty_pattern_matches_anything() {
    assert!(match_str("", "whatever", false));
    assert!(match_str("", "", true));
}

#[test]
fn match_str_exact_is_case_sensitive_equality() {
    assert!(match_str("AYANEO", "AYANEO", false));
    assert!(!match_str("AYANEO", "ayaneo", false));
    assert!(!match_str("AYANEO", "AYANEO 2021", false));
}

#[test]
fn match_str_relaxed_matches_either_containment() {
    assert!(match_str("AIR", "AYANEO AIR Pro", true));
    assert!(match_str("AYANEO AIR Pro", "AIR", true));
    assert!(!match_str("AIR", "NEXT", true));
}

#[test]
fn first_declared_profile_wins_between_two_overlapping_matches() {
    let quirks = vec![profile("ACME", "Pad", true, 1), profile("ACME", "SuperPad", true, 2)];
    // Both profiles match this identity under relaxed board-name matching.
    let id = identity("ACME", "SuperPad", "", "");
    let hit = find_quirk(quirks, &id, "").expect("a profile must match");
    assert!(matches!(hit.remap_codes[0], InputRemap::KeyToKey(1, 1)));

    // Declared the other way round, the other one wins.
    let quirks_rev = vec![profile("ACME", "SuperPad", true, 2), profile("ACME", "Pad", true, 1)];
    let hit_rev = find_quirk(quirks_rev, &id, "").expect("a profile must match");
    assert!(matches!(hit_rev.remap_codes[0], InputRemap::KeyToKey(2, 2)));
}

#[test]
fn topology_filter_must_occur_in_the_topology_string() {
    let mut with_filter = profile("ACME", "Pad", false, 1);
    with_filter.phys_path = "usb-0000:04:00.3".to_string();
    let id = identity("ACME", "Pad", "", "");
    let quirks = vec![with_filter.clone()];
    assert!(find_quirk(quirks, &id, "usb-0000:04:00.3-2/input0").is_some());
    let quirks2 = vec![with_filter];
    assert!(find_quirk(quirks2, &id, "usb-0000:05:00.1-2/input0").is_none());
}

#[test]
fn builtin_table_matches_ayaneo_air_by_identity() {
    let id = identity("AYANEO", "AIR", "", "");
    let hit = get_dmi_quirk(&id, "").expect("the AIR profile must match");
    assert_eq!(hit.board_name, "AIR");
    assert_eq!(hit.remap_codes.len(), 2);
    assert!(matches!(hit.remap_codes[0], InputRemap::KeyToKey(88, 316)));
    assert!(matches!(hit.remap_codes[1], InputRemap::KeyToQuickAccessMenu(32)));
}

#[test]
fn builtin_table_prefers_air_when_both_profiles_match() {
    // Relaxed name matching makes both AIR and NEXT match this board name;
    // the AIR profile is declared first and must win.
    let id = identity("AYANEO", "AIRNEXT", "", "");
    let hit = get_dmi_quirk(&id, "").expect("both profiles match");
    assert_eq!(hit.board_name, "AIR");
}

#[test]
fn builtin_table_rejects_unknown_identity() {
    let id = identity("OtherCorp", "Slab", "OtherCorp", "Slab 3");
    assert!(get_dmi_quirk(&id, "").is_none());
}

#[test]
fn sentinel_identity_matches_no_builtin_profile() {
    let s = "<failed to read>";
    let id = identity(s, s, s, s);
    assert!(get_dmi_quirk(&id, "").is_none());
}

#[test]
fn dmi_field_value_takes_the_first_line() {
    assert_eq!(dmi_field_value(&Some("AYANEO\nsecond".to_string())), "AYANEO");
    assert_eq!(dmi_field_value(&Some("AYANEO".to_string())), "AYANEO");
    assert_eq!(dmi_field_value(&Some("AYANEO\r\nsecond".to_string())), "AYANEO");
    assert_eq!(dmi_field_value(&Some("AYANEO\r".to_string())), "AYANEO");
}

#[test]
fn dmi_field_value_substitutes_the_sentinel() {
    assert_eq!(dmi_field_value(&None), "<failed to read>");
    assert_eq!(dmi_field_value(&Some(String::new())), "<failed to read>");
}
