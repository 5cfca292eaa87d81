use keyboard_it::inject::{
    key_injection, mouse_injection, KeyInput, MouseInput, KEYEVENTF_EXTENDEDKEY, KEYEVENTF_KEYUP, KEYEVENTF_SCANCODE,
    MOUSEEVENTF_HWHEEL, MOUSEEVENTF_LEFTDOWN, MOUSEEVENTF_MIDDLEUP, MOUSEEVENTF_MOVE, MOUSEEVENTF_WHEEL,
};
use keyboard_it::keymap::mac_keycode_to_hid;
use keyboard_it::scancode::hid_to_scancode;
use keyboard_it::wire::{InputEvent, KeyEvent, MsgType};

#[test]
fn letters_and_extended() {
    assert_eq!(hid_to_scancode(0x0B), Some((0x23, false)));
    assert_eq!(hid_to_scancode(0x12), Some((0x18, false)));
    assert_eq!(hid_to_scancode(0x4F), Some((0x4D, true)));
    assert_eq!(hid_to_scancode(0x00), None);
}

#[test]
fn mac_keys_map_by_position() {
    assert_eq!(mac_keycode_to_hid(0x00), Some(0x04)); // A
    assert_eq!(mac_keycode_to_hid(0x04), Some(0x0B)); // H
    assert_eq!(mac_keycode_to_hid(0x3F), None); // Fn has no HID usage
    assert_eq!(mac_keycode_to_hid(-1), None);
    assert_eq!(mac_keycode_to_hid(1000), None);
}

#[test]
fn a_mac_key_reaches_windows_as_the_same_key() {
    // H on the Mac -> HID 0x0B -> scancode 0x23 on Windows.
    let hid = mac_keycode_to_hid(0x04).unwrap();
    assert_eq!(hid_to_scancode(hid), Some((0x23, false)));
}

#[test]
fn key_injection_flags() {
    let down = KeyEvent { msg: MsgType::Down, hid_usage: 0x0B, modifiers: 0 };
    assert_eq!(key_injection(&down), Some(KeyInput { scan: 0x23, flags: KEYEVENTF_SCANCODE }));
    let up_ext = KeyEvent { msg: MsgType::Up, hid_usage: 0x4F, modifiers: 0 };
    assert_eq!(
        key_injection(&up_ext),
        Some(KeyInput { scan: 0x4D, flags: KEYEVENTF_SCANCODE | KEYEVENTF_KEYUP | KEYEVENTF_EXTENDEDKEY })
    );
    let repeat = KeyEvent { msg: MsgType::Repeat, hid_usage: 0x0B, modifiers: 0 };
    assert_eq!(key_injection(&repeat), Some(KeyInput { scan: 0x23, flags: KEYEVENTF_SCANCODE }));
    let unknown = KeyEvent { msg: MsgType::Down, hid_usage: 0, modifiers: 0 };
    assert_eq!(key_injection(&unknown), None);
}

#[test]
fn mouse_injection_inputs() {
    assert_eq!(
        mouse_injection(&InputEvent::MouseMove { dx: -3, dy: 4 }),
        vec![MouseInput { dx: -3, dy: 4, mouse_data: 0, flags: MOUSEEVENTF_MOVE }]
    );
    assert_eq!(
        mouse_injection(&InputEvent::MouseButton { button: 0, down: true }),
        vec![MouseInput { dx: 0, dy: 0, mouse_data: 0, flags: MOUSEEVENTF_LEFTDOWN }]
    );
    assert_eq!(
        mouse_injection(&InputEvent::MouseButton { button: 2, down: false }),
        vec![MouseInput { dx: 0, dy: 0, mouse_data: 0, flags: MOUSEEVENTF_MIDDLEUP }]
    );
    assert!(mouse_injection(&InputEvent::MouseButton { button: 7, down: true }).is_empty());
    assert_eq!(
        mouse_injection(&InputEvent::Scroll { dx: 1, dy: -2 }),
        vec![
            MouseInput { dx: 0, dy: 0, mouse_data: (-240i32) as u32, flags: MOUSEEVENTF_WHEEL },
            MouseInput { dx: 0, dy: 0, mouse_data: 120, flags: MOUSEEVENTF_HWHEEL },
        ]
    );
    assert!(mouse_injection(&InputEvent::Scroll { dx: 0, dy: 0 }).is_empty());
    assert!(mouse_injection(&InputEvent::Key(KeyEvent { msg: MsgType::Down, hid_usage: 4, modifiers: 0 })).is_empty());
}

#[test]
fn command_is_control_on_windows() {
    // Cmd sends Ctrl so copy and paste keep working; Ctrl becomes the Windows key.
    assert_eq!(mac_keycode_to_hid(0x37), Some(0xE0));
    assert_eq!(mac_keycode_to_hid(0x36), Some(0xE4));
    assert_eq!(mac_keycode_to_hid(0x3B), Some(0xE3));
    assert_eq!(mac_keycode_to_hid(0x3A), Some(0xE2));
}
