use padnorm::combine::{wait_for_lr, OpenedEventSource};
use padnorm::device::SourceCaps;
use padnorm::event::{InputEvent, BTN_SOUTH, BTN_TL, BTN_TL2, BTN_TR, BTN_TR2, EV_KEY};
use padnorm::sink::UinputSink;

fn key(code: u16, value: i32) -> InputEvent {
    InputEvent { etype: EV_KEY, code, value }
}

fn source(name: &str, caps: SourceCaps, events: Vec<InputEvent>) -> OpenedEventSource {
    OpenedEventSource { name: name.to_string(), path: "test".to_string(), caps, chan: events }
}

const MERGED: &str = "Nintendo Switch Both Joy-Cons";

#[test]
fn pair_merges_on_left_tl_and_right_tr() {
    let left = source("Left Joy-Con", SourceCaps::DpadAndAB, vec![key(BTN_TL, 1)]);
    let mut right = source("Right Joy-Con", SourceCaps::DpadAndAB, vec![key(BTN_TR, 1)]);
    // Events injected on the right half after its chord press must appear, in
    // their own order, on the merged controller's channel.
    right.send_event(key(BTN_SOUTH, 1));
    right.send_event(key(BTN_SOUTH, 0));
    let won = wait_for_lr(vec![left, right]).expect("the pair must merge");
    assert_eq!(won.name, MERGED);
    assert!(matches!(won.caps, SourceCaps::FullX360));
    assert_eq!(won.path, "test");
    assert_eq!(won.chan, vec![key(BTN_SOUTH, 1), key(BTN_SOUTH, 0)]);
}

#[test]
fn pair_merges_whatever_order_the_halves_arrive_in() {
    let left = source("Left Joy-Con", SourceCaps::DpadAndAB, vec![key(BTN_TL, 1)]);
    let right = source("Right Joy-Con", SourceCaps::DpadAndAB, vec![key(BTN_TR, 1)]);
    let won = wait_for_lr(vec![right, left]).expect("the pair must merge");
    assert_eq!(won.name, MERGED);
    assert!(matches!(won.caps, SourceCaps::FullX360));
}

#[test]
fn pair_merges_whatever_order_the_presses_arrive_in() {
    let left = source(
        "Left Joy-Con",
        SourceCaps::DpadAndAB,
        vec![key(BTN_SOUTH, 1), key(BTN_TL, 1)],
    );
    let right = source("Right Joy-Con", SourceCaps::DpadAndAB, vec![key(BTN_TR, 1)]);
    let won = wait_for_lr(vec![left, right]).expect("the pair must merge");
    assert_eq!(won.name, MERGED);
    assert!(matches!(won.caps, SourceCaps::FullX360));
    assert_eq!(won.chan, vec![]);
}

#[test]
fn lone_left_half_resolves_standalone_with_its_own_chord() {
    let left = source(
        "Left Joy-Con",
        SourceCaps::DpadAndAB,
        vec![key(BTN_TR, 1), key(BTN_TR2, 1)],
    );
    let won = wait_for_lr(vec![left]).expect("the lone half must win");
    assert_eq!(won.name, "Left Joy-Con");
    assert!(matches!(won.caps, SourceCaps::DpadAndAB));
    assert_eq!(won.chan, vec![]);
}

#[test]
fn lone_right_half_resolves_standalone_with_its_own_chord() {
    let right = source(
        "Right Joy-Con",
        SourceCaps::DpadAndAB,
        vec![key(BTN_TL, 1), key(BTN_TL2, 1)],
    );
    let won = wait_for_lr(vec![right]).expect("the lone half must win");
    assert_eq!(won.name, "Right Joy-Con");
    assert!(matches!(won.caps, SourceCaps::DpadAndAB));
}

#[test]
fn left_half_with_idle_right_half_resolves_alone() {
    let left = source(
        "Left Joy-Con",
        SourceCaps::DpadAndAB,
        vec![key(BTN_TR, 1), key(BTN_TR2, 1)],
    );
    let right = source("Right Joy-Con", SourceCaps::DpadAndAB, vec![]);
    let won = wait_for_lr(vec![left, right]).expect("the left half must win alone");
    assert_eq!(won.name, "Left Joy-Con");
    assert!(matches!(won.caps, SourceCaps::DpadAndAB));
}

#[test]
fn independent_source_wins_on_both_shoulders_held() {
    let pad = source(
        "ACME Pad",
        SourceCaps::FullX360,
        vec![key(BTN_TL, 1), key(7, 1), key(BTN_TR, 1)],
    );
    let won = wait_for_lr(vec![pad]).expect("the pad must win");
    assert_eq!(won.name, "ACME Pad");
    assert!(matches!(won.caps, SourceCaps::FullX360));
    assert_eq!(won.chan, vec![]);
}

#[test]
fn independent_source_wins_with_shoulders_in_either_order() {
    let pad = source(
        "ACME Pad",
        SourceCaps::FullX360,
        vec![key(BTN_TR, 1), key(BTN_TL, 1)],
    );
    assert!(wait_for_lr(vec![pad]).is_some());
}

#[test]
fn released_shoulder_breaks_the_chord() {
    let pad = source(
        "ACME Pad",
        SourceCaps::FullX360,
        vec![key(BTN_TL, 1), key(BTN_TL, 0), key(BTN_TR, 1)],
    );
    assert!(wait_for_lr(vec![pad]).is_none());
}

#[test]
fn no_satisfiable_chord_means_no_winner() {
    let pad = source("ACME Pad", SourceCaps::FullX360, vec![key(BTN_TL, 1)]);
    assert!(wait_for_lr(vec![pad]).is_none());
    assert!(wait_for_lr(vec![]).is_none());
}

#[test]
fn first_dispatched_watcher_wins_between_two_resolved_sources() {
    let first = source(
        "ACME Pad",
        SourceCaps::FullX360,
        vec![key(BTN_TL, 1), key(BTN_TR, 1)],
    );
    let second = source(
        "Other Pad",
        SourceCaps::FullX360,
        vec![key(BTN_TL, 1), key(BTN_TR, 1)],
    );
    let won = wait_for_lr(vec![first, second]).expect("someone must win");
    assert_eq!(won.name, "ACME Pad");
}

#[test]
fn a_later_half_replaces_an_earlier_one_in_its_slot() {
    let stale = source("Left Joy-Con", SourceCaps::DpadAndAB, vec![]);
    let fresh = source(
        "Left Joy-Con",
        SourceCaps::DpadAndAB,
        vec![key(BTN_TR, 1), key(BTN_TR2, 1)],
    );
    let won = wait_for_lr(vec![stale, fresh]).expect("the fresh half must win");
    assert_eq!(won.chan, vec![]);
}

#[test]
fn sink_captures_the_controller_it_serves() {
    let pad = source("ACME Pad", SourceCaps::FullX360, vec![]);
    let sink = UinputSink::new(&pad);
    assert_eq!(sink.name(), "Gamepad device");
    assert_eq!(sink.source_name(), "ACME Pad");
    assert!(matches!(sink.source_caps(), SourceCaps::FullX360));
}
