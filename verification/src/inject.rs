//! What the receiver injects for each event: the decision is here, the
//! `SendInput` call in the application. Flag values are Win32's.

use vstd::prelude::*;

use crate::scancode::{hid_scan, hid_to_scancode};
use crate::wire::{InputEvent, KeyEvent, MsgType};

verus! {

pub const KEYEVENTF_EXTENDEDKEY: u32 = 0x0001;
pub const KEYEVENTF_KEYUP: u32 = 0x0002;
pub const KEYEVENTF_SCANCODE: u32 = 0x0008;

pub const MOUSEEVENTF_MOVE: u32 = 0x0001;
pub const MOUSEEVENTF_LEFTDOWN: u32 = 0x0002;
pub const MOUSEEVENTF_LEFTUP: u32 = 0x0004;
pub const MOUSEEVENTF_RIGHTDOWN: u32 = 0x0008;
pub const MOUSEEVENTF_RIGHTUP: u32 = 0x0010;
pub const MOUSEEVENTF_MIDDLEDOWN: u32 = 0x0020;
pub const MOUSEEVENTF_MIDDLEUP: u32 = 0x0040;
pub const MOUSEEVENTF_WHEEL: u32 = 0x0800;
pub const MOUSEEVENTF_HWHEEL: u32 = 0x1000;

/// One wheel notch.
pub const WHEEL_DELTA: i32 = 120;

/// A keyboard input to inject: scancode, flags.
#[derive(Clone, Copy, PartialEq, Eq, Debug, Structural)]
pub struct KeyInput {
    pub scan: u16,
    pub flags: u32,
}

/// A mouse input to inject.
#[derive(Clone, Copy, PartialEq, Eq, Debug, Structural)]
pub struct MouseInput {
    pub dx: i32,
    pub dy: i32,
    pub mouse_data: u32,
    pub flags: u32,
}

/// The keyboard flags of a scancode event.
pub open spec fn key_flags(key_up: bool, extended: bool) -> u32 {
    (KEYEVENTF_SCANCODE + (if key_up { KEYEVENTF_KEYUP } else { 0 }) + (if extended {
        KEYEVENTF_EXTENDEDKEY
    } else {
        0
    })) as u32
}

/// What a key event injects: nothing for a usage without a scancode;
/// otherwise the scancode, pressed for Down/Repeat and released for Up.
pub open spec fn key_input_of(ev: KeyEvent) -> Option<KeyInput> {
    match hid_scan(ev.hid_usage) {
        None => None,
        Some((scan, extended)) => Some(KeyInput { scan, flags: key_flags(ev.msg == MsgType::Up, extended) }),
    }
}

/// Decide the keyboard input for a key event.
pub fn key_injection(ev: &KeyEvent) -> (r: Option<KeyInput>)
    ensures
        r == key_input_of(*ev),
{
    let (scan, extended) = match hid_to_scancode(ev.hid_usage) {
        Some(v) => v,
        None => return None,
    };
    let key_up = match ev.msg {
        MsgType::Up => true,
        _ => false,
    };
    let mut flags = KEYEVENTF_SCANCODE;
    if key_up {
        flags = flags + KEYEVENTF_KEYUP;
    }
    if extended {
        flags = flags + KEYEVENTF_EXTENDEDKEY;
    }
    Some(KeyInput { scan, flags })
}

/// The flag of a button edge; buttons other than left, right, middle have none.
pub open spec fn button_flag(button: u8, down: bool) -> Option<u32> {
    if button == 0 {
        Some(if down { MOUSEEVENTF_LEFTDOWN } else { MOUSEEVENTF_LEFTUP })
    } else if button == 1 {
        Some(if down { MOUSEEVENTF_RIGHTDOWN } else { MOUSEEVENTF_RIGHTUP })
    } else if button == 2 {
        Some(if down { MOUSEEVENTF_MIDDLEDOWN } else { MOUSEEVENTF_MIDDLEUP })
    } else {
        None
    }
}

/// A wheel input of `ticks` notches.
pub open spec fn wheel(ticks: i8, flags: u32) -> MouseInput {
    MouseInput { dx: 0, dy: 0, mouse_data: (ticks * 120) as u32, flags }
}

/// What a mouse event injects: a relative move; one button edge (nothing for
/// an unknown button); a vertical then a horizontal wheel input, each only if
/// non-zero. Key events inject no mouse input.
pub open spec fn mouse_inputs_of(ev: InputEvent) -> Seq<MouseInput> {
    match ev {
        InputEvent::Key(_) => seq![],
        InputEvent::MouseMove { dx, dy } => seq![
            MouseInput { dx: dx as i32, dy: dy as i32, mouse_data: 0, flags: MOUSEEVENTF_MOVE },
        ],
        InputEvent::MouseButton { button, down } => match button_flag(button, down) {
            Some(f) => seq![MouseInput { dx: 0, dy: 0, mouse_data: 0, flags: f }],
            None => seq![],
        },
        InputEvent::Scroll { dx, dy } => (if dy != 0 {
            seq![wheel(dy, MOUSEEVENTF_WHEEL)]
        } else {
            seq![]
        }) + (if dx != 0 {
            seq![wheel(dx, MOUSEEVENTF_HWHEEL)]
        } else {
            seq![]
        }),
    }
}

fn wheel_data(ticks: i8) -> (d: u32)
    ensures
        d == (ticks * 120) as u32,
{
    let v: i32 = (ticks as i32) * WHEEL_DELTA;
    v as u32
}

/// Decide the mouse inputs for an event.
pub fn mouse_injection(ev: &InputEvent) -> (v: Vec<MouseInput>)
    ensures
        v@ == mouse_inputs_of(*ev),
{
    let mut v: Vec<MouseInput> = Vec::new();
    match ev {
        InputEvent::Key(_) => {},
        InputEvent::MouseMove { dx, dy } => {
            v.push(MouseInput { dx: *dx as i32, dy: *dy as i32, mouse_data: 0, flags: MOUSEEVENTF_MOVE });
        },
        InputEvent::MouseButton { button, down } => {
            let f = if *button == 0 {
                if *down { MOUSEEVENTF_LEFTDOWN } else { MOUSEEVENTF_LEFTUP }
            } else if *button == 1 {
                if *down { MOUSEEVENTF_RIGHTDOWN } else { MOUSEEVENTF_RIGHTUP }
            } else if *button == 2 {
                if *down { MOUSEEVENTF_MIDDLEDOWN } else { MOUSEEVENTF_MIDDLEUP }
            } else {
                assert(v@ =~= mouse_inputs_of(*ev));
                return v;
            };
            v.push(MouseInput { dx: 0, dy: 0, mouse_data: 0, flags: f });
        },
        InputEvent::Scroll { dx, dy } => {
            if *dy != 0 {
                v.push(MouseInput { dx: 0, dy: 0, mouse_data: wheel_data(*dy), flags: MOUSEEVENTF_WHEEL });
            }
            if *dx != 0 {
                v.push(MouseInput { dx: 0, dy: 0, mouse_data: wheel_data(*dx), flags: MOUSEEVENTF_HWHEEL });
            }
        },
    }
    assert(v@ =~= mouse_inputs_of(*ev));
    v
}

}
