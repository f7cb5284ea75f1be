use padnorm::device::{get_device_quirks, split_quirks, EvdevQuirks};
use padnorm::quirks_db::{DmiQuirk, InputRemap};

fn air_quirk() -> DmiQuirk {
    DmiQuirk {
        board_vendor: "AYANEO".to_string(),
        board_name: "AIR".to_string(),
        product_vendor: String::new(),
        product_name: String::new(),
        relaxed_name: true,
        relaxed_vendor: false,
        phys_path: String::new(),
        remap_codes: vec![
            InputRemap::KeyToKey(88, 316),
            InputRemap::KeyToQuickAccessMenu(32),
        ],
    }
}

#[test]
fn matched_profile_overrides_the_name_and_attaches_its_remaps() {
    let quirks = get_device_quirks(
        &Some(air_quirk()),
        &Some("usb-0000:09:00.3-3/input0".to_string()),
        &Some("ACME Pad".to_string()),
    );
    assert_eq!(quirks.len(), 3);
    assert!(matches!(&quirks[0], EvdevQuirks::OverrideName(n) if n == "Built-in Controller"));
    assert!(matches!(quirks[1], EvdevQuirks::RemapCodes(InputRemap::KeyToKey(88, 316))));
    assert!(matches!(quirks[2], EvdevQuirks::RemapCodes(InputRemap::KeyToQuickAccessMenu(32))));
}

#[test]
fn without_profile_the_usb_derived_name_is_used() {
    let quirks = get_device_quirks(
        &None,
        &Some("usb-0000:09:00.3-3/input0".to_string()),
        &Some("ACME Pad".to_string()),
    );
    assert_eq!(quirks.len(), 1);
    assert!(matches!(&quirks[0], EvdevQuirks::OverrideName(n) if n == "ACME Pad"));
}

#[test]
fn without_physical_path_no_name_is_attached() {
    let quirks = get_device_quirks(&Some(air_quirk()), &None, &Some("ACME Pad".to_string()));
    assert_eq!(quirks.len(), 2);
    assert!(matches!(quirks[0], EvdevQuirks::RemapCodes(_)));
    assert!(matches!(quirks[1], EvdevQuirks::RemapCodes(_)));
}

#[test]
fn nothing_known_attaches_nothing() {
    let quirks = get_device_quirks(&None, &Some("isa-platform".to_string()), &None);
    assert_eq!(quirks.len(), 0);
    let quirks2 = get_device_quirks(&None, &None, &None);
    assert_eq!(quirks2.len(), 0);
}

#[test]
fn split_keeps_remap_order_and_the_last_name() {
    let quirks = vec![
        EvdevQuirks::OverrideName("First".to_string()),
        EvdevQuirks::RemapCodes(InputRemap::KeyToKey(88, 316)),
        EvdevQuirks::OverrideName("Second".to_string()),
        EvdevQuirks::RemapCodes(InputRemap::KeyToQuickAccessMenu(32)),
    ];
    let (name, remaps) = split_quirks(quirks);
    assert_eq!(name, Some("Second".to_string()));
    assert_eq!(
        remaps,
        vec![InputRemap::KeyToKey(88, 316), InputRemap::KeyToQuickAccessMenu(32)]
    );
}

#[test]
fn split_of_nothing_is_nothing() {
    let (name, remaps) = split_quirks(vec![]);
    assert_eq!(name, None);
    assert_eq!(remaps, vec![]);
}
