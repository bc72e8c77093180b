//! Input decisions of the spatial compositor: what a key or pointer button
//! event does, given whether the modifier key is held.
use vstd::prelude::*;

verus! {

/// Evdev code of the modifier key (Super).
pub const MOD_KEY_EVDEV: i32 = 125;
/// Evdev code of Enter.
pub const KEY_ENTER: i32 = 28;
/// Evdev code of Q.
pub const KEY_Q: i32 = 16;
/// Evdev code of the up arrow.
pub const KEY_UP: i32 = 103;
/// Evdev code of the down arrow.
pub const KEY_DOWN: i32 = 108;
/// Evdev code of the left arrow.
pub const KEY_LEFT: i32 = 105;
/// Evdev code of the right arrow.
pub const KEY_RIGHT: i32 = 106;
/// Pointer code of the left button.
pub const BTN_LEFT: u32 = 0x110;
/// Pointer code of the right button.
pub const BTN_RIGHT: u32 = 0x111;

/// A direction of an arrow key.
#[derive(Debug, Clone, Copy, PartialEq, Eq, Structural)]
pub enum Direction {
    Up,
    Down,
    Left,
    Right,
}

/// What a key press makes the compositor do before the key goes on to the
/// focused client.
#[derive(Debug, Clone, Copy, PartialEq, Eq, Structural)]
pub enum KeyAction {
    /// Nothing of its own.
    Nothing,
    /// Start a terminal (the key is not passed on).
    SpawnTerminal,
    /// Ask the focused window to close (the key is not passed on).
    CloseFocused,
    /// Move the camera.
    Pan(Direction),
    /// Move the focused window one step.
    Nudge(Direction),
}

/// The outcome of a key event: whether the modifier is now held, what the
/// compositor does, and whether the key is passed on to the client.
#[derive(Debug, Clone, Copy, PartialEq, Eq, Structural)]
pub struct KeyOutcome {
    pub mod_pressed: bool,
    pub action: KeyAction,
    pub forward: bool,
}

/// The direction of an arrow key's evdev code.
pub open spec fn arrow_spec(code: i32) -> Option<Direction> {
    if code == 103 {
        Some(Direction::Up)
    } else if code == 108 {
        Some(Direction::Down)
    } else if code == 105 {
        Some(Direction::Left)
    } else if code == 106 {
        Some(Direction::Right)
    } else {
        None
    }
}

/// A key event with evdev code `code`: the modifier key sets the modifier
/// state; with the modifier held a press of Enter starts a terminal and a
/// press of Q closes the focused window (neither is passed on); a press of
/// an arrow pans the camera without the modifier and nudges the focused
/// window (when there is one) with it; every other key is passed on.
pub open spec fn key_outcome_spec(code: i32, pressed: bool, mod_before: bool, has_focus: bool) -> KeyOutcome {
    let m = if code == 125 { pressed } else { mod_before };
    if pressed && m && code == 28 {
        KeyOutcome { mod_pressed: m, action: KeyAction::SpawnTerminal, forward: false }
    } else if pressed && m && code == 16 {
        KeyOutcome { mod_pressed: m, action: KeyAction::CloseFocused, forward: false }
    } else {
        let action = match arrow_spec(code) {
            Some(d) => if pressed && !m {
                KeyAction::Pan(d)
            } else if pressed && m && has_focus {
                KeyAction::Nudge(d)
            } else {
                KeyAction::Nothing
            },
            None => KeyAction::Nothing,
        };
        KeyOutcome { mod_pressed: m, action, forward: true }
    }
}

fn arrow(code: i32) -> (r: Option<Direction>)
    ensures
        r == arrow_spec(code),
{
    if code == KEY_UP {
        Some(Direction::Up)
    } else if code == KEY_DOWN {
        Some(Direction::Down)
    } else if code == KEY_LEFT {
        Some(Direction::Left)
    } else if code == KEY_RIGHT {
        Some(Direction::Right)
    } else {
        None
    }
}

/// What a key event does; `has_focus` says whether a window has focus.
pub fn key_outcome(code: i32, pressed: bool, mod_before: bool, has_focus: bool) -> (r: KeyOutcome)
    ensures
        r == key_outcome_spec(code, pressed, mod_before, has_focus),
{
    let m = if code == MOD_KEY_EVDEV { pressed } else { mod_before };
    if pressed && m && code == KEY_ENTER {
        return KeyOutcome { mod_pressed: m, action: KeyAction::SpawnTerminal, forward: false };
    }
    if pressed && m && code == KEY_Q {
        return KeyOutcome { mod_pressed: m, action: KeyAction::CloseFocused, forward: false };
    }
    let action = match arrow(code) {
        Some(d) => if pressed && !m {
            KeyAction::Pan(d)
        } else if pressed && m && has_focus {
            KeyAction::Nudge(d)
        } else {
            KeyAction::Nothing
        },
        None => KeyAction::Nothing,
    };
    KeyOutcome { mod_pressed: m, action, forward: true }
}

/// What a pointer button event makes the compositor do; the event always
/// goes on to the client.
#[derive(Debug, Clone, Copy, PartialEq, Eq, Structural)]
pub enum ButtonAction {
    /// Nothing of its own.
    Nothing,
    /// Grab the window under the pointer: to move it (left button) or to
    /// resize it (right button).
    StartGrab { resize: bool },
    /// Apply and end the current grab.
    EndGrab,
    /// Focus and raise the window under the pointer.
    Focus,
}

/// A button event: with the modifier held, pressing the left or right
/// button starts a move or resize grab; releasing either ends the grab;
/// pressing the left button without the modifier focuses.
pub open spec fn button_action_spec(press: bool, code: u32, mod_pressed: bool) -> ButtonAction {
    let left = code == 0x110;
    let right = code == 0x111;
    if press && (left || right) && mod_pressed {
        ButtonAction::StartGrab { resize: !left }
    } else if !press && (left || right) {
        ButtonAction::EndGrab
    } else if press && left && !mod_pressed {
        ButtonAction::Focus
    } else {
        ButtonAction::Nothing
    }
}

/// What a button event does.
pub fn button_action(press: bool, code: u32, mod_pressed: bool) -> (r: ButtonAction)
    ensures
        r == button_action_spec(press, code, mod_pressed),
{
    let left = code == BTN_LEFT;
    let right = code == BTN_RIGHT;
    if press && (left || right) && mod_pressed {
        ButtonAction::StartGrab { resize: !left }
    } else if !press && (left || right) {
        ButtonAction::EndGrab
    } else if press && left && !mod_pressed {
        ButtonAction::Focus
    } else {
        ButtonAction::Nothing
    }
}

} // verus!
