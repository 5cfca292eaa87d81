//! USB HID usage (page 0x07) -> PS/2 Set-1 make scancode, plus whether the key
//! is "extended" (0xE0-prefixed; SendInput needs KEYEVENTF_EXTENDEDKEY for it).
//! Source: Microsoft's "HID to PS/2 Scan Code Translation Table".

use vstd::prelude::*;

use crate::keymap::{mac_hid, mac_letter_keycodes};

verus! {

/// The scancode and extended flag of a HID usage, if it has one.
pub open spec fn hid_scan(hid: u16) -> Option<(u16, bool)> {
    if hid == 0x04 {
        Some((0x1E, false)) // a
    } else if hid == 0x05 {
        Some((0x30, false)) // b
    } else if hid == 0x06 {
        Some((0x2E, false)) // c
    } else if hid == 0x07 {
        Some((0x20, false)) // d
    } else if hid == 0x08 {
        Some((0x12, false)) // e
    } else if hid == 0x09 {
        Some((0x21, false)) // f
    } else if hid == 0x0A {
        Some((0x22, false)) // g
    } else if hid == 0x0B {
        Some((0x23, false)) // h
    } else if hid == 0x0C {
        Some((0x17, false)) // i
    } else if hid == 0x0D {
        Some((0x24, false)) // j
    } else if hid == 0x0E {
        Some((0x25, false)) // k
    } else if hid == 0x0F {
        Some((0x26, false)) // l
    } else if hid == 0x10 {
        Some((0x32, false)) // m
    } else if hid == 0x11 {
        Some((0x31, false)) // n
    } else if hid == 0x12 {
        Some((0x18, false)) // o
    } else if hid == 0x13 {
        Some((0x19, false)) // p
    } else if hid == 0x14 {
        Some((0x10, false)) // q
    } else if hid == 0x15 {
        Some((0x13, false)) // r
    } else if hid == 0x16 {
        Some((0x1F, false)) // s
    } else if hid == 0x17 {
        Some((0x14, false)) // t
    } else if hid == 0x18 {
        Some((0x16, false)) // u
    } else if hid == 0x19 {
        Some((0x2F, false)) // v
    } else if hid == 0x1A {
        Some((0x11, false)) // w
    } else if hid == 0x1B {
        Some((0x2D, false)) // x
    } else if hid == 0x1C {
        Some((0x15, false)) // y
    } else if hid == 0x1D {
        Some((0x2C, false)) // z
    } else if hid == 0x1E {
        Some((0x02, false)) // 1
    } else if hid == 0x1F {
        Some((0x03, false)) // 2
    } else if hid == 0x20 {
        Some((0x04, false)) // 3
    } else if hid == 0x21 {
        Some((0x05, false)) // 4
    } else if hid == 0x22 {
        Some((0x06, false)) // 5
    } else if hid == 0x23 {
        Some((0x07, false)) // 6
    } else if hid == 0x24 {
        Some((0x08, false)) // 7
    } else if hid == 0x25 {
        Some((0x09, false)) // 8
    } else if hid == 0x26 {
        Some((0x0A, false)) // 9
    } else if hid == 0x27 {
        Some((0x0B, false)) // 0
    } else if hid == 0x28 {
        Some((0x1C, false)) // Enter
    } else if hid == 0x29 {
        Some((0x01, false)) // Esc
    } else if hid == 0x2A {
        Some((0x0E, false)) // Backspace
    } else if hid == 0x2B {
        Some((0x0F, false)) // Tab
    } else if hid == 0x2C {
        Some((0x39, false)) // Space
    } else if hid == 0x2D {
        Some((0x0C, false)) // -
    } else if hid == 0x2E {
        Some((0x0D, false)) // =
    } else if hid == 0x2F {
        Some((0x1A, false)) // [
    } else if hid == 0x30 {
        Some((0x1B, false)) // ]
    } else if hid == 0x31 {
        Some((0x2B, false)) // \
    } else if hid == 0x33 {
        Some((0x27, false)) // ;
    } else if hid == 0x34 {
        Some((0x28, false)) // '
    } else if hid == 0x35 {
        Some((0x29, false)) // `
    } else if hid == 0x36 {
        Some((0x33, false)) // ,
    } else if hid == 0x37 {
        Some((0x34, false)) // .
    } else if hid == 0x38 {
        Some((0x35, false)) // /
    } else if hid == 0x39 {
        Some((0x3A, false)) // CapsLock
    } else if hid == 0x49 {
        Some((0x52, true)) // Insert
    } else if hid == 0x4A {
        Some((0x47, true)) // Home
    } else if hid == 0x4B {
        Some((0x49, true)) // PageUp
    } else if hid == 0x4C {
        Some((0x53, true)) // Delete
    } else if hid == 0x4D {
        Some((0x4F, true)) // End
    } else if hid == 0x4E {
        Some((0x51, true)) // PageDown
    } else if hid == 0x4F {
        Some((0x4D, true)) // ArrowRight
    } else if hid == 0x50 {
        Some((0x4B, true)) // ArrowLeft
    } else if hid == 0x51 {
        Some((0x50, true)) // ArrowDown
    } else if hid == 0x52 {
        Some((0x48, true)) // ArrowUp
    } else if hid == 0xE0 {
        Some((0x1D, false)) // LeftCtrl
    } else if hid == 0xE1 {
        Some((0x2A, false)) // LeftShift
    } else if hid == 0xE2 {
        Some((0x38, false)) // LeftAlt
    } else if hid == 0xE3 {
        Some((0x5B, true)) // LeftGUI
    } else if hid == 0xE4 {
        Some((0x1D, true)) // RightCtrl
    } else if hid == 0xE5 {
        Some((0x36, false)) // RightShift
    } else if hid == 0xE6 {
        Some((0x38, true)) // RightAlt
    } else if hid == 0xE7 {
        Some((0x5C, true)) // RightGUI
    } else if hid == 0x64 {
        Some((0x56, false)) // HID Non-US backslash -> Set-1 make 0x56
    } else if hid == 0x3A {
        Some((0x3B, false)) // F1
    } else if hid == 0x3B {
        Some((0x3C, false)) // F2
    } else if hid == 0x3C {
        Some((0x3D, false)) // F3
    } else if hid == 0x3D {
        Some((0x3E, false)) // F4
    } else if hid == 0x3E {
        Some((0x3F, false)) // F5
    } else if hid == 0x3F {
        Some((0x40, false)) // F6
    } else if hid == 0x40 {
        Some((0x41, false)) // F7
    } else if hid == 0x41 {
        Some((0x42, false)) // F8
    } else if hid == 0x42 {
        Some((0x43, false)) // F9
    } else if hid == 0x43 {
        Some((0x44, false)) // F10
    } else if hid == 0x44 {
        Some((0x57, false)) // F11
    } else if hid == 0x45 {
        Some((0x58, false)) // F12
    } else {
        None
    }
}

/// Translate a HID usage to its Set-1 scancode; `None` = no mapping yet.
pub fn hid_to_scancode(hid: u16) -> (r: Option<(u16, bool)>)
    ensures
        r == hid_scan(hid),
{
    let v = match hid {
        0x04 => (0x1E, false), // a
        0x05 => (0x30, false), // b
        0x06 => (0x2E, false), // c
        0x07 => (0x20, false), // d
        0x08 => (0x12, false), // e
        0x09 => (0x21, false), // f
        0x0A => (0x22, false), // g
        0x0B => (0x23, false), // h
        0x0C => (0x17, false), // i
        0x0D => (0x24, false), // j
        0x0E => (0x25, false), // k
        0x0F => (0x26, false), // l
        0x10 => (0x32, false), // m
        0x11 => (0x31, false), // n
        0x12 => (0x18, false), // o
        0x13 => (0x19, false), // p
        0x14 => (0x10, false), // q
        0x15 => (0x13, false), // r
        0x16 => (0x1F, false), // s
        0x17 => (0x14, false), // t
        0x18 => (0x16, false), // u
        0x19 => (0x2F, false), // v
        0x1A => (0x11, false), // w
        0x1B => (0x2D, false), // x
        0x1C => (0x15, false), // y
        0x1D => (0x2C, false), // z
        0x1E => (0x02, false), // 1
        0x1F => (0x03, false), // 2
        0x20 => (0x04, false), // 3
        0x21 => (0x05, false), // 4
        0x22 => (0x06, false), // 5
        0x23 => (0x07, false), // 6
        0x24 => (0x08, false), // 7
        0x25 => (0x09, false), // 8
        0x26 => (0x0A, false), // 9
        0x27 => (0x0B, false), // 0
        0x28 => (0x1C, false), // Enter
        0x29 => (0x01, false), // Esc
        0x2A => (0x0E, false), // Backspace
        0x2B => (0x0F, false), // Tab
        0x2C => (0x39, false), // Space
        0x2D => (0x0C, false), // -
        0x2E => (0x0D, false), // =
        0x2F => (0x1A, false), // [
        0x30 => (0x1B, false), // ]
        0x31 => (0x2B, false), // \
        0x33 => (0x27, false), // ;
        0x34 => (0x28, false), // '
        0x35 => (0x29, false), // `
        0x36 => (0x33, false), // ,
        0x37 => (0x34, false), // .
        0x38 => (0x35, false), // /
        0x39 => (0x3A, false), // CapsLock
        0x49 => (0x52, true), // Insert
        0x4A => (0x47, true), // Home
        0x4B => (0x49, true), // PageUp
        0x4C => (0x53, true), // Delete
        0x4D => (0x4F, true), // End
        0x4E => (0x51, true), // PageDown
        0x4F => (0x4D, true), // ArrowRight
        0x50 => (0x4B, true), // ArrowLeft
        0x51 => (0x50, true), // ArrowDown
        0x52 => (0x48, true), // ArrowUp
        0xE0 => (0x1D, false), // LeftCtrl
        0xE1 => (0x2A, false), // LeftShift
        0xE2 => (0x38, false), // LeftAlt
        0xE3 => (0x5B, true), // LeftGUI
        0xE4 => (0x1D, true), // RightCtrl
        0xE5 => (0x36, false), // RightShift
        0xE6 => (0x38, true), // RightAlt
        0xE7 => (0x5C, true), // RightGUI
        0x64 => (0x56, false), // HID Non-US backslash -> Set-1 make 0x56
        0x3A => (0x3B, false), // F1
        0x3B => (0x3C, false), // F2
        0x3C => (0x3D, false), // F3
        0x3D => (0x3E, false), // F4
        0x3E => (0x3F, false), // F5
        0x3F => (0x40, false), // F6
        0x40 => (0x41, false), // F7
        0x41 => (0x42, false), // F8
        0x42 => (0x43, false), // F9
        0x43 => (0x44, false), // F10
        0x44 => (0x57, false), // F11
        0x45 => (0x58, false), // F12
        _ => return None,
    };
    Some(v)
}

/// Every key the Mac side sends has a scancode on the Windows side, so no
/// forwarded key is dropped for want of a mapping.
pub proof fn lemma_every_mac_key_injects(kc: i64)
    ensures
        mac_hid(kc) matches Some(h) ==> hid_scan(h) is Some,
{
}


// ----- the table, by key -----

/// The Set-1 make codes of the letter keys, a to z in alphabetical order
/// (the key positions of the PC/AT keyboard).
pub open spec fn set1_letter_codes() -> Seq<u16> {
    seq![
        0x1E, 0x30, 0x2E, 0x20, 0x12, 0x21, 0x22, 0x23, 0x17, 0x24, 0x25, 0x26, 0x32, 0x31, 0x18, 0x19, 0x10, 0x13, 0x1F, 0x14, 0x16, 0x2F, 0x11, 0x2D, 0x15, 0x2C
    ]
}

/// Each letter usage (0x04 for a to 0x1D for z, alphabetical) becomes the
/// make code of the same letter, without the extended prefix.
pub proof fn lemma_letters_keep_their_letter(i: int)
    requires
        0 <= i < 26,
    ensures
        hid_scan((0x04 + i) as u16) == Some((set1_letter_codes()[i], false)),
{
    let t = set1_letter_codes();
    if i == 0 {
        assert(hid_scan(0x04u16) == Some((t[0], false)));
    } else if i == 1 {
        assert(hid_scan(0x05u16) == Some((t[1], false)));
    } else if i == 2 {
        assert(hid_scan(0x06u16) == Some((t[2], false)));
    } else if i == 3 {
        assert(hid_scan(0x07u16) == Some((t[3], false)));
    } else if i == 4 {
        assert(hid_scan(0x08u16) == Some((t[4], false)));
    } else if i == 5 {
        assert(hid_scan(0x09u16) == Some((t[5], false)));
    } else if i == 6 {
        assert(hid_scan(0x0Au16) == Some((t[6], false)));
    } else if i == 7 {
        assert(hid_scan(0x0Bu16) == Some((t[7], false)));
    } else if i == 8 {
        assert(hid_scan(0x0Cu16) == Some((t[8], false)));
    } else if i == 9 {
        assert(hid_scan(0x0Du16) == Some((t[9], false)));
    } else if i == 10 {
        assert(hid_scan(0x0Eu16) == Some((t[10], false)));
    } else if i == 11 {
        assert(hid_scan(0x0Fu16) == Some((t[11], false)));
    } else if i == 12 {
        assert(hid_scan(0x10u16) == Some((t[12], false)));
    } else if i == 13 {
        assert(hid_scan(0x11u16) == Some((t[13], false)));
    } else if i == 14 {
        assert(hid_scan(0x12u16) == Some((t[14], false)));
    } else if i == 15 {
        assert(hid_scan(0x13u16) == Some((t[15], false)));
    } else if i == 16 {
        assert(hid_scan(0x14u16) == Some((t[16], false)));
    } else if i == 17 {
        assert(hid_scan(0x15u16) == Some((t[17], false)));
    } else if i == 18 {
        assert(hid_scan(0x16u16) == Some((t[18], false)));
    } else if i == 19 {
        assert(hid_scan(0x17u16) == Some((t[19], false)));
    } else if i == 20 {
        assert(hid_scan(0x18u16) == Some((t[20], false)));
    } else if i == 21 {
        assert(hid_scan(0x19u16) == Some((t[21], false)));
    } else if i == 22 {
        assert(hid_scan(0x1Au16) == Some((t[22], false)));
    } else if i == 23 {
        assert(hid_scan(0x1Bu16) == Some((t[23], false)));
    } else if i == 24 {
        assert(hid_scan(0x1Cu16) == Some((t[24], false)));
    } else if i == 25 {
        assert(hid_scan(0x1Du16) == Some((t[25], false)));
    }
}

/// The digit usages 1 to 9 and 0 (0x1E to 0x27) become the make codes of the
/// top-row digits, 0x02 to 0x0B in the same order.
pub proof fn lemma_digits_keep_their_digit(i: int)
    requires
        0 <= i < 10,
    ensures
        hid_scan((0x1E + i) as u16) == Some(((0x02 + i) as u16, false)),
{
    if i == 0 {
        assert(hid_scan(0x1Eu16) == Some((0x02u16, false)));
    } else if i == 1 {
        assert(hid_scan(0x1Fu16) == Some((0x03u16, false)));
    } else if i == 2 {
        assert(hid_scan(0x20u16) == Some((0x04u16, false)));
    } else if i == 3 {
        assert(hid_scan(0x21u16) == Some((0x05u16, false)));
    } else if i == 4 {
        assert(hid_scan(0x22u16) == Some((0x06u16, false)));
    } else if i == 5 {
        assert(hid_scan(0x23u16) == Some((0x07u16, false)));
    } else if i == 6 {
        assert(hid_scan(0x24u16) == Some((0x08u16, false)));
    } else if i == 7 {
        assert(hid_scan(0x25u16) == Some((0x09u16, false)));
    } else if i == 8 {
        assert(hid_scan(0x26u16) == Some((0x0Au16, false)));
    } else if i == 9 {
        assert(hid_scan(0x27u16) == Some((0x0Bu16, false)));
    }
}

/// F1 to F10 (usages 0x3A to 0x43) become make codes 0x3B to 0x44; F11 and
/// F12 are 0x57 and 0x58. None is extended.
pub proof fn lemma_function_keys_keep_their_number(i: int)
    requires
        0 <= i < 12,
    ensures
        hid_scan((0x3A + i) as u16) == Some((if i < 10 { (0x3B + i) as u16 } else { (0x57 + i - 10) as u16 }, false)),
{
    if i == 0 {
        assert(hid_scan(0x3Au16) == Some((0x3Bu16, false)));
    } else if i == 1 {
        assert(hid_scan(0x3Bu16) == Some((0x3Cu16, false)));
    } else if i == 2 {
        assert(hid_scan(0x3Cu16) == Some((0x3Du16, false)));
    } else if i == 3 {
        assert(hid_scan(0x3Du16) == Some((0x3Eu16, false)));
    } else if i == 4 {
        assert(hid_scan(0x3Eu16) == Some((0x3Fu16, false)));
    } else if i == 5 {
        assert(hid_scan(0x3Fu16) == Some((0x40u16, false)));
    } else if i == 6 {
        assert(hid_scan(0x40u16) == Some((0x41u16, false)));
    } else if i == 7 {
        assert(hid_scan(0x41u16) == Some((0x42u16, false)));
    } else if i == 8 {
        assert(hid_scan(0x42u16) == Some((0x43u16, false)));
    } else if i == 9 {
        assert(hid_scan(0x43u16) == Some((0x44u16, false)));
    } else if i == 10 {
        assert(hid_scan(0x44u16) == Some((0x57u16, false)));
    } else if i == 11 {
        assert(hid_scan(0x45u16) == Some((0x58u16, false)));
    }
}

/// The arrow keys and the right-hand modifiers are extended keys; the
/// left-hand modifiers are not.
pub proof fn lemma_extended_keys()
    ensures
        // ArrowRight, ArrowLeft, ArrowDown, ArrowUp
        hid_scan(0x4F) == Some((0x4Du16, true)),
        hid_scan(0x50) == Some((0x4Bu16, true)),
        hid_scan(0x51) == Some((0x50u16, true)),
        hid_scan(0x52) == Some((0x48u16, true)),
        // LeftControl, LeftShift, LeftAlt, LeftGUI
        hid_scan(0xE0) == Some((0x1Du16, false)),
        hid_scan(0xE1) == Some((0x2Au16, false)),
        hid_scan(0xE2) == Some((0x38u16, false)),
        hid_scan(0xE3) == Some((0x5Bu16, true)),
        // RightControl, RightShift, RightAlt, RightGUI
        hid_scan(0xE4) == Some((0x1Du16, true)),
        hid_scan(0xE5) == Some((0x36u16, false)),
        hid_scan(0xE6) == Some((0x38u16, true)),
        hid_scan(0xE7) == Some((0x5Cu16, true)),
{
}

/// End to end: a letter typed on the Mac is injected on the PC as the make
/// code of the same letter.
pub proof fn lemma_mac_letter_arrives_as_that_letter(i: int)
    requires
        0 <= i < 26,
    ensures
        mac_hid(mac_letter_keycodes()[i]) matches Some(h) && hid_scan(h) == Some((set1_letter_codes()[i], false)),
{
    crate::keymap::lemma_letters_keep_their_letter(i);
    lemma_letters_keep_their_letter(i);
}

}
