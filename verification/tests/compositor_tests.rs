use atlasfetch::compositor::{
    button_action, key_outcome, ButtonAction, Direction, KeyAction, KeyOutcome, BTN_LEFT, BTN_RIGHT, KEY_ENTER, KEY_Q,
    MOD_KEY_EVDEV,
};

#[test]
fn modifier_key_tracks_its_state() {
    assert_eq!(key_outcome(MOD_KEY_EVDEV, true, false, false), KeyOutcome { mod_pressed: true, action: KeyAction::Nothing, forward: true });
    assert_eq!(key_outcome(MOD_KEY_EVDEV, false, true, false).mod_pressed, false);
    assert_eq!(key_outcome(30, true, true, false).mod_pressed, true);
}

#[test]
fn keybinds_need_the_modifier() {
    assert_eq!(key_outcome(KEY_ENTER, true, true, false), KeyOutcome { mod_pressed: true, action: KeyAction::SpawnTerminal, forward: false });
    assert_eq!(key_outcome(KEY_Q, true, true, true), KeyOutcome { mod_pressed: true, action: KeyAction::CloseFocused, forward: false });
    assert_eq!(key_outcome(KEY_ENTER, true, false, false).action, KeyAction::Nothing);
    assert!(key_outcome(KEY_ENTER, true, false, false).forward);
    assert_eq!(key_outcome(KEY_ENTER, false, true, false).action, KeyAction::Nothing);
}

#[test]
fn arrows_pan_or_nudge() {
    assert_eq!(key_outcome(103, true, false, true).action, KeyAction::Pan(Direction::Up));
    assert_eq!(key_outcome(108, true, false, false).action, KeyAction::Pan(Direction::Down));
    assert_eq!(key_outcome(105, true, true, true).action, KeyAction::Nudge(Direction::Left));
    assert_eq!(key_outcome(106, true, true, false).action, KeyAction::Nothing);
    assert_eq!(key_outcome(106, false, false, true).action, KeyAction::Nothing);
}

#[test]
fn buttons_grab_release_and_focus() {
    assert_eq!(button_action(true, BTN_LEFT, true), ButtonAction::StartGrab { resize: false });
    assert_eq!(button_action(true, BTN_RIGHT, true), ButtonAction::StartGrab { resize: true });
    assert_eq!(button_action(false, BTN_RIGHT, false), ButtonAction::EndGrab);
    assert_eq!(button_action(true, BTN_LEFT, false), ButtonAction::Focus);
    assert_eq!(button_action(true, BTN_RIGHT, false), ButtonAction::Nothing);
    assert_eq!(button_action(true, 0x112, true), ButtonAction::Nothing);
}
