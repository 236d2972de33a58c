//! The control loop's decisions: what a key press asks for.

use crate::session::Focus;
use vstd::prelude::*;

verus! {

/// How long the loop waits for a key press before it goes round again, in
/// milliseconds.
pub const TICK_MS: u64 = 100;

/// The time after which the devices are discovered anew, in milliseconds.
pub const REFRESH_MS: u64 = 5000;

/// Where the control loop stands. A run starts in `Running`, a request to
/// leave takes it to `ShuttingDown`, and the shutdown to `Terminated`.
#[derive(Clone, Copy, Debug, PartialEq, Eq, Structural)]
pub enum Phase {
    Running,
    ShuttingDown,
    Terminated,
}

/// A key of the keyboard, as far as the loop tells keys apart.
#[derive(Clone, Copy, Debug, PartialEq, Eq, Structural)]
pub enum Key {
    Char(char),
    Esc,
    Enter,
    Left,
    Right,
    Up,
    Down,
    Other,
}

/// A key press with the modifiers that were held.
#[derive(Clone, Copy, Debug, PartialEq, Eq, Structural)]
pub struct KeyPress {
    pub key: Key,
    pub shift: bool,
    pub control: bool,
}

/// What the user asks for.
#[derive(Clone, Copy, Debug, PartialEq, Eq, Structural)]
pub enum Intent {
    Quit,
    Refresh,
    FocusLeft,
    FocusRight,
    Toggle,
    CloseAll,
    SelectUp,
    SelectDown,
}

/// What a key press asks for while `focus` has the keyboard. Selection and
/// toggling belong to the list of devices on the left.
pub open spec fn intent_of(press: KeyPress, focus: Focus) -> Option<Intent> {
    match press.key {
        Key::Char('q') | Key::Esc => Some(Intent::Quit),
        Key::Char('r') => Some(Intent::Refresh),
        Key::Left => Some(Intent::FocusLeft),
        Key::Right => Some(Intent::FocusRight),
        Key::Enter => if focus == Focus::Left {
            Some(Intent::Toggle)
        } else {
            None
        },
        Key::Char('C') => if press.shift {
            Some(Intent::CloseAll)
        } else {
            None
        },
        Key::Up => if focus == Focus::Left {
            Some(Intent::SelectUp)
        } else {
            None
        },
        Key::Down => if focus == Focus::Left {
            Some(Intent::SelectDown)
        } else {
            None
        },
        Key::Char('c') => if press.control {
            Some(Intent::Quit)
        } else {
            None
        },
        _ => None,
    }
}

/// What a key press asks for while `focus` has the keyboard.
pub fn intent_for(press: KeyPress, focus: Focus) -> (intent: Option<Intent>)
    ensures
        intent == intent_of(press, focus),
{
    let on_list = match focus {
        Focus::Left => true,
        Focus::Right => false,
    };
    match press.key {
        Key::Char(c) => {
            if c == 'q' {
                Some(Intent::Quit)
            } else if c == 'r' {
                Some(Intent::Refresh)
            } else if c == 'C' && press.shift {
                Some(Intent::CloseAll)
            } else if c == 'c' && press.control {
                Some(Intent::Quit)
            } else {
                None
            }
        },
        Key::Esc => Some(Intent::Quit),
        Key::Left => Some(Intent::FocusLeft),
        Key::Right => Some(Intent::FocusRight),
        Key::Enter => if on_list {
            Some(Intent::Toggle)
        } else {
            None
        },
        Key::Up => if on_list {
            Some(Intent::SelectUp)
        } else {
            None
        },
        Key::Down => if on_list {
            Some(Intent::SelectDown)
        } else {
            None
        },
        Key::Other => None,
    }
}

/// Whether the devices are due to be discovered anew at the time `now`,
/// when they were last discovered at `last`; both in milliseconds on one
/// clock that never runs backwards.
pub fn refresh_due(last: u64, now: u64) -> (due: bool)
    ensures
        due == (now - last >= REFRESH_MS),
{
    now >= last && now - last >= REFRESH_MS
}

} // verus!
