use padnorm::event::{InputEvent, EV_ABS, EV_KEY};
use padnorm::quirks_db::InputRemap;
use padnorm::remap::{remap_event, RemapError};

fn key(code: u16, value: i32) -> InputEvent {
    InputEvent { etype: EV_KEY, code, value }
}

#[test]
fn matching_button_rule_recodes_and_keeps_the_value() {
    let rules = vec![InputRemap::KeyToKey(88, 316)];
    assert_eq!(remap_event(&rules, key(88, 1)), Ok(key(316, 1)));
    assert_eq!(remap_event(&rules, key(88, 0)), Ok(key(316, 0)));
}

#[test]
fn first_matching_rule_wins() {
    let rules = vec![InputRemap::KeyToKey(88, 316), InputRemap::KeyToKey(88, 999)];
    assert_eq!(remap_event(&rules, key(88, 1)), Ok(key(316, 1)));
}

#[test]
fn unmatched_event_passes_through_a_non_empty_rule_list() {
    let rules = vec![InputRemap::KeyToKey(88, 316), InputRemap::KeyToQuickAccessMenu(32)];
    let ev = key(305, 1);
    assert_eq!(remap_event(&rules, ev), Ok(ev));
}

#[test]
fn empty_rule_list_passes_everything_through() {
    let rules = vec![];
    let ev = key(88, 1);
    assert_eq!(remap_event(&rules, ev), Ok(ev));
}

#[test]
fn non_key_events_are_never_examined() {
    let rules = vec![InputRemap::KeyToKey(0, 316)];
    let ev = InputEvent { etype: EV_ABS, code: 0, value: 128 };
    assert_eq!(remap_event(&rules, ev), Ok(ev));
}

#[test]
fn axis_remap_is_a_fatal_unimplemented_kind() {
    let rules = vec![InputRemap::KeyToAbs(88, 0)];
    assert_eq!(
        remap_event(&rules, key(88, 1)),
        Err(RemapError::Unsupported(InputRemap::KeyToAbs(88, 0)))
    );
}

#[test]
fn menu_action_remap_is_a_fatal_unimplemented_kind() {
    let rules = vec![InputRemap::KeyToQuickAccessMenu(32)];
    assert_eq!(
        remap_event(&rules, key(32, 1)),
        Err(RemapError::Unsupported(InputRemap::KeyToQuickAccessMenu(32)))
    );
}

#[test]
fn unimplemented_kind_is_not_reached_when_a_button_rule_matches_first() {
    let rules = vec![InputRemap::KeyToKey(88, 316), InputRemap::KeyToAbs(88, 0)];
    assert_eq!(remap_event(&rules, key(88, 1)), Ok(key(316, 1)));
}

#[test]
fn apply_quirk_recodes_one_matching_event() {
    let rule = InputRemap::KeyToKey(88, 316);
    assert_eq!(rule.apply_quirk(key(88, 1)), Some(key(316, 1)));
    assert_eq!(rule.apply_quirk(key(89, 1)), None);
    assert_eq!(rule.apply_quirk(InputEvent { etype: EV_ABS, code: 88, value: 1 }), None);
}
