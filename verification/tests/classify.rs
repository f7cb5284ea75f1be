use padnorm::device::{get_capabilities, is_gamepad, SourceCaps};
use padnorm::event::{ABS_X, ABS_Y, BTN_SOUTH, BTN_THUMBL, BTN_TL};

#[test]
fn confirm_button_and_both_axes_is_full() {
    let keys = Some(vec![BTN_SOUTH, BTN_TL]);
    let axes = Some(vec![ABS_X, ABS_Y]);
    assert_eq!(get_capabilities(&keys, &axes), SourceCaps::FullX360);
}

#[test]
fn confirm_button_without_axis_pair_is_dpad() {
    let keys = Some(vec![BTN_SOUTH]);
    assert_eq!(get_capabilities(&keys, &Some(vec![])), SourceCaps::DpadAndAB);
    assert_eq!(get_capabilities(&keys, &Some(vec![ABS_X])), SourceCaps::DpadAndAB);
    assert_eq!(get_capabilities(&keys, &Some(vec![ABS_Y])), SourceCaps::DpadAndAB);
}

#[test]
fn no_confirm_button_is_dpad_regardless_of_axes() {
    let keys = Some(vec![BTN_TL]);
    let axes = Some(vec![ABS_X, ABS_Y]);
    assert_eq!(get_capabilities(&keys, &axes), SourceCaps::DpadAndAB);
    assert_eq!(get_capabilities(&Some(vec![]), &axes), SourceCaps::DpadAndAB);
}

#[test]
fn unqueryable_axes_is_dpad_with_confirm_button() {
    let keys = Some(vec![BTN_SOUTH]);
    assert_eq!(get_capabilities(&keys, &None), SourceCaps::DpadAndAB);
}

// Known asymmetry, preserved deliberately: an unqueryable button set is
// treated optimistically as a full gamepad, while an unqueryable axis set
// degrades the class.
#[test]
fn unqueryable_buttons_is_optimistically_full() {
    assert_eq!(get_capabilities(&None, &None), SourceCaps::FullX360);
    assert_eq!(get_capabilities(&None, &Some(vec![])), SourceCaps::FullX360);
}

#[test]
fn device_lacking_confirm_and_thumb_click_is_excluded() {
    assert!(!is_gamepad(&Some(vec![BTN_TL])));
    assert!(!is_gamepad(&Some(vec![])));
    assert!(!is_gamepad(&None));
}

#[test]
fn device_with_confirm_or_thumb_click_is_kept() {
    assert!(is_gamepad(&Some(vec![BTN_SOUTH])));
    assert!(is_gamepad(&Some(vec![BTN_THUMBL])));
    assert!(is_gamepad(&Some(vec![BTN_SOUTH, BTN_THUMBL])));
}

#[test]
fn key_codes_match_the_kernel_numbering() {
    assert_eq!(BTN_SOUTH, evdev::KeyCode::BTN_SOUTH.code());
    assert_eq!(BTN_THUMBL, evdev::KeyCode::BTN_THUMBL.code());
    assert_eq!(BTN_TL, evdev::KeyCode::BTN_TL.code());
    assert_eq!(padnorm::event::BTN_TR, evdev::KeyCode::BTN_TR.code());
    assert_eq!(padnorm::event::BTN_TL2, evdev::KeyCode::BTN_TL2.code());
    assert_eq!(padnorm::event::BTN_TR2, evdev::KeyCode::BTN_TR2.code());
    assert_eq!(padnorm::event::BTN_MODE, evdev::KeyCode::BTN_MODE.code());
    assert_eq!(padnorm::event::KEY_F12, evdev::KeyCode::KEY_F12.code());
    assert_eq!(padnorm::event::KEY_D, evdev::KeyCode::KEY_D.code());
    assert_eq!(ABS_X, evdev::AbsoluteAxisCode::ABS_X.0);
    assert_eq!(ABS_Y, evdev::AbsoluteAxisCode::ABS_Y.0);
    assert_eq!(padnorm::event::EV_KEY, evdev::EventType::KEY.0);
    assert_eq!(padnorm::event::EV_ABS, evdev::EventType::ABSOLUTE.0);
}
