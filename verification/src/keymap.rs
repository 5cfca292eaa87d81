//! macOS virtual keycode (kVK_*) -> USB HID usage (page 0x07).
//!
//! Position based: a keycode names a physical key, as a HID usage does, so the
//! Windows side applies its own layout. Command and Control trade places so
//! Cmd+C is Ctrl+C on Windows. Fn (0x3F) has no HID usage and maps to nothing.

use vstd::prelude::*;

verus! {

/// The HID usage a macOS keycode stands for, if it has one.
pub open spec fn mac_hid(kc: i64) -> Option<u16> {
    if kc == 0x00 {
        Some(0x04) // A
    } else if kc == 0x0B {
        Some(0x05) // B
    } else if kc == 0x08 {
        Some(0x06) // C
    } else if kc == 0x02 {
        Some(0x07) // D
    } else if kc == 0x0E {
        Some(0x08) // E
    } else if kc == 0x03 {
        Some(0x09) // F
    } else if kc == 0x05 {
        Some(0x0A) // G
    } else if kc == 0x04 {
        Some(0x0B) // H
    } else if kc == 0x22 {
        Some(0x0C) // I
    } else if kc == 0x26 {
        Some(0x0D) // J
    } else if kc == 0x28 {
        Some(0x0E) // K
    } else if kc == 0x25 {
        Some(0x0F) // L
    } else if kc == 0x2E {
        Some(0x10) // M
    } else if kc == 0x2D {
        Some(0x11) // N
    } else if kc == 0x1F {
        Some(0x12) // O
    } else if kc == 0x23 {
        Some(0x13) // P
    } else if kc == 0x0C {
        Some(0x14) // Q
    } else if kc == 0x0F {
        Some(0x15) // R
    } else if kc == 0x01 {
        Some(0x16) // S
    } else if kc == 0x11 {
        Some(0x17) // T
    } else if kc == 0x20 {
        Some(0x18) // U
    } else if kc == 0x09 {
        Some(0x19) // V
    } else if kc == 0x0D {
        Some(0x1A) // W
    } else if kc == 0x07 {
        Some(0x1B) // X
    } else if kc == 0x10 {
        Some(0x1C) // Y
    } else if kc == 0x06 {
        Some(0x1D) // Z
    } else if kc == 0x12 {
        Some(0x1E) // 1
    } else if kc == 0x13 {
        Some(0x1F) // 2
    } else if kc == 0x14 {
        Some(0x20) // 3
    } else if kc == 0x15 {
        Some(0x21) // 4
    } else if kc == 0x17 {
        Some(0x22) // 5
    } else if kc == 0x16 {
        Some(0x23) // 6
    } else if kc == 0x1A {
        Some(0x24) // 7
    } else if kc == 0x1C {
        Some(0x25) // 8
    } else if kc == 0x19 {
        Some(0x26) // 9
    } else if kc == 0x1D {
        Some(0x27) // 0
    } else if kc == 0x24 {
        Some(0x28) // Return
    } else if kc == 0x35 {
        Some(0x29) // Escape
    } else if kc == 0x33 {
        Some(0x2A) // Delete
    } else if kc == 0x30 {
        Some(0x2B) // Tab
    } else if kc == 0x31 {
        Some(0x2C) // Space
    } else if kc == 0x1B {
        Some(0x2D) // -
    } else if kc == 0x18 {
        Some(0x2E) // =
    } else if kc == 0x21 {
        Some(0x2F) // [
    } else if kc == 0x1E {
        Some(0x30) // ]
    } else if kc == 0x2A {
        Some(0x31) // \
    } else if kc == 0x29 {
        Some(0x33) // ;
    } else if kc == 0x27 {
        Some(0x34) // '
    } else if kc == 0x32 {
        Some(0x35) // `
    } else if kc == 0x2B {
        Some(0x36) // ,
    } else if kc == 0x2F {
        Some(0x37) // .
    } else if kc == 0x2C {
        Some(0x38) // /
    } else if kc == 0x39 {
        Some(0x39) // CapsLock
    } else if kc == 0x72 {
        Some(0x49) // Help/Insert
    } else if kc == 0x73 {
        Some(0x4A) // Home
    } else if kc == 0x74 {
        Some(0x4B) // PageUp
    } else if kc == 0x75 {
        Some(0x4C) // ForwardDelete
    } else if kc == 0x77 {
        Some(0x4D) // End
    } else if kc == 0x79 {
        Some(0x4E) // PageDown
    } else if kc == 0x7C {
        Some(0x4F) // ArrowRight
    } else if kc == 0x7B {
        Some(0x50) // ArrowLeft
    } else if kc == 0x7D {
        Some(0x51) // ArrowDown
    } else if kc == 0x7E {
        Some(0x52) // ArrowUp
    } else if kc == 0x0A {
        Some(0x64) // kVK_ISO_Section -> HID Non-US backslash and pipe
    } else if kc == 0x7A {
        Some(0x3A) // F1
    } else if kc == 0x78 {
        Some(0x3B) // F2
    } else if kc == 0x63 {
        Some(0x3C) // F3
    } else if kc == 0x76 {
        Some(0x3D) // F4
    } else if kc == 0x60 {
        Some(0x3E) // F5
    } else if kc == 0x61 {
        Some(0x3F) // F6
    } else if kc == 0x62 {
        Some(0x40) // F7
    } else if kc == 0x64 {
        Some(0x41) // F8
    } else if kc == 0x65 {
        Some(0x42) // F9
    } else if kc == 0x6D {
        Some(0x43) // F10
    } else if kc == 0x67 {
        Some(0x44) // F11
    } else if kc == 0x6F {
        Some(0x45) // F12
    } else if kc == 0x37 {
        Some(0xE0) // LeftCommand -> Windows LeftControl
    } else if kc == 0x3B {
        Some(0xE3) // LeftControl -> Windows LeftGUI/Win
    } else if kc == 0x38 {
        Some(0xE1) // LeftShift
    } else if kc == 0x3A {
        Some(0xE2) // LeftOption
    } else if kc == 0x36 {
        Some(0xE4) // RightCommand -> Windows RightControl
    } else if kc == 0x3E {
        Some(0xE7) // RightControl -> Windows RightGUI/Win
    } else if kc == 0x3C {
        Some(0xE5) // RightShift
    } else if kc == 0x3D {
        Some(0xE6) // RightOption
    } else {
        None
    }
}

/// Translate a macOS keycode to its HID usage; `None` for keys without one.
pub fn mac_keycode_to_hid(kc: i64) -> (r: Option<u16>)
    ensures
        r == mac_hid(kc),
{
    let v: u16 = match kc {
        0x00 => 0x04, // A
        0x0B => 0x05, // B
        0x08 => 0x06, // C
        0x02 => 0x07, // D
        0x0E => 0x08, // E
        0x03 => 0x09, // F
        0x05 => 0x0A, // G
        0x04 => 0x0B, // H
        0x22 => 0x0C, // I
        0x26 => 0x0D, // J
        0x28 => 0x0E, // K
        0x25 => 0x0F, // L
        0x2E => 0x10, // M
        0x2D => 0x11, // N
        0x1F => 0x12, // O
        0x23 => 0x13, // P
        0x0C => 0x14, // Q
        0x0F => 0x15, // R
        0x01 => 0x16, // S
        0x11 => 0x17, // T
        0x20 => 0x18, // U
        0x09 => 0x19, // V
        0x0D => 0x1A, // W
        0x07 => 0x1B, // X
        0x10 => 0x1C, // Y
        0x06 => 0x1D, // Z
        0x12 => 0x1E, // 1
        0x13 => 0x1F, // 2
        0x14 => 0x20, // 3
        0x15 => 0x21, // 4
        0x17 => 0x22, // 5
        0x16 => 0x23, // 6
        0x1A => 0x24, // 7
        0x1C => 0x25, // 8
        0x19 => 0x26, // 9
        0x1D => 0x27, // 0
        0x24 => 0x28, // Return
        0x35 => 0x29, // Escape
        0x33 => 0x2A, // Delete
        0x30 => 0x2B, // Tab
        0x31 => 0x2C, // Space
        0x1B => 0x2D, // -
        0x18 => 0x2E, // =
        0x21 => 0x2F, // [
        0x1E => 0x30, // ]
        0x2A => 0x31, // \
        0x29 => 0x33, // ;
        0x27 => 0x34, // '
        0x32 => 0x35, // `
        0x2B => 0x36, // ,
        0x2F => 0x37, // .
        0x2C => 0x38, // /
        0x39 => 0x39, // CapsLock
        0x72 => 0x49, // Help/Insert
        0x73 => 0x4A, // Home
        0x74 => 0x4B, // PageUp
        0x75 => 0x4C, // ForwardDelete
        0x77 => 0x4D, // End
        0x79 => 0x4E, // PageDown
        0x7C => 0x4F, // ArrowRight
        0x7B => 0x50, // ArrowLeft
        0x7D => 0x51, // ArrowDown
        0x7E => 0x52, // ArrowUp
        0x0A => 0x64, // kVK_ISO_Section -> HID Non-US backslash and pipe
        0x7A => 0x3A, // F1
        0x78 => 0x3B, // F2
        0x63 => 0x3C, // F3
        0x76 => 0x3D, // F4
        0x60 => 0x3E, // F5
        0x61 => 0x3F, // F6
        0x62 => 0x40, // F7
        0x64 => 0x41, // F8
        0x65 => 0x42, // F9
        0x6D => 0x43, // F10
        0x67 => 0x44, // F11
        0x6F => 0x45, // F12
        0x37 => 0xE0, // LeftCommand -> Windows LeftControl
        0x3B => 0xE3, // LeftControl -> Windows LeftGUI/Win
        0x38 => 0xE1, // LeftShift
        0x3A => 0xE2, // LeftOption
        0x36 => 0xE4, // RightCommand -> Windows RightControl
        0x3E => 0xE7, // RightControl -> Windows RightGUI/Win
        0x3C => 0xE5, // RightShift
        0x3D => 0xE6, // RightOption
        _ => return None,
    };
    Some(v)
}

/// The keycode each produced HID usage comes from.
pub open spec fn mac_key_of_hid(h: u16) -> i64 {
    if h == 0x04 {
        0x00
    } else if h == 0x05 {
        0x0B
    } else if h == 0x06 {
        0x08
    } else if h == 0x07 {
        0x02
    } else if h == 0x08 {
        0x0E
    } else if h == 0x09 {
        0x03
    } else if h == 0x0A {
        0x05
    } else if h == 0x0B {
        0x04
    } else if h == 0x0C {
        0x22
    } else if h == 0x0D {
        0x26
    } else if h == 0x0E {
        0x28
    } else if h == 0x0F {
        0x25
    } else if h == 0x10 {
        0x2E
    } else if h == 0x11 {
        0x2D
    } else if h == 0x12 {
        0x1F
    } else if h == 0x13 {
        0x23
    } else if h == 0x14 {
        0x0C
    } else if h == 0x15 {
        0x0F
    } else if h == 0x16 {
        0x01
    } else if h == 0x17 {
        0x11
    } else if h == 0x18 {
        0x20
    } else if h == 0x19 {
        0x09
    } else if h == 0x1A {
        0x0D
    } else if h == 0x1B {
        0x07
    } else if h == 0x1C {
        0x10
    } else if h == 0x1D {
        0x06
    } else if h == 0x1E {
        0x12
    } else if h == 0x1F {
        0x13
    } else if h == 0x20 {
        0x14
    } else if h == 0x21 {
        0x15
    } else if h == 0x22 {
        0x17
    } else if h == 0x23 {
        0x16
    } else if h == 0x24 {
        0x1A
    } else if h == 0x25 {
        0x1C
    } else if h == 0x26 {
        0x19
    } else if h == 0x27 {
        0x1D
    } else if h == 0x28 {
        0x24
    } else if h == 0x29 {
        0x35
    } else if h == 0x2A {
        0x33
    } else if h == 0x2B {
        0x30
    } else if h == 0x2C {
        0x31
    } else if h == 0x2D {
        0x1B
    } else if h == 0x2E {
        0x18
    } else if h == 0x2F {
        0x21
    } else if h == 0x30 {
        0x1E
    } else if h == 0x31 {
        0x2A
    } else if h == 0x33 {
        0x29
    } else if h == 0x34 {
        0x27
    } else if h == 0x35 {
        0x32
    } else if h == 0x36 {
        0x2B
    } else if h == 0x37 {
        0x2F
    } else if h == 0x38 {
        0x2C
    } else if h == 0x39 {
        0x39
    } else if h == 0x49 {
        0x72
    } else if h == 0x4A {
        0x73
    } else if h == 0x4B {
        0x74
    } else if h == 0x4C {
        0x75
    } else if h == 0x4D {
        0x77
    } else if h == 0x4E {
        0x79
    } else if h == 0x4F {
        0x7C
    } else if h == 0x50 {
        0x7B
    } else if h == 0x51 {
        0x7D
    } else if h == 0x52 {
        0x7E
    } else if h == 0x64 {
        0x0A
    } else if h == 0x3A {
        0x7A
    } else if h == 0x3B {
        0x78
    } else if h == 0x3C {
        0x63
    } else if h == 0x3D {
        0x76
    } else if h == 0x3E {
        0x60
    } else if h == 0x3F {
        0x61
    } else if h == 0x40 {
        0x62
    } else if h == 0x41 {
        0x64
    } else if h == 0x42 {
        0x65
    } else if h == 0x43 {
        0x6D
    } else if h == 0x44 {
        0x67
    } else if h == 0x45 {
        0x6F
    } else if h == 0xE0 {
        0x37
    } else if h == 0xE3 {
        0x3B
    } else if h == 0xE1 {
        0x38
    } else if h == 0xE2 {
        0x3A
    } else if h == 0xE4 {
        0x36
    } else if h == 0xE7 {
        0x3E
    } else if h == 0xE5 {
        0x3C
    } else if h == 0xE6 {
        0x3D
    } else {
        -1i64
    }
}

/// No two keys send the same usage: the keycode is recoverable from it.
pub proof fn lemma_mac_hid_injective(a: i64, b: i64)
    ensures
        mac_hid(a) is Some && mac_hid(a) == mac_hid(b) ==> a == b,
{
    if mac_hid(a) is Some {
        assert(mac_key_of_hid(mac_hid(a)->Some_0) == a);
    }
    if mac_hid(b) is Some {
        assert(mac_key_of_hid(mac_hid(b)->Some_0) == b);
    }
}


// ----- the table, by key -----

/// The macOS keycodes of the letter keys, A to Z in alphabetical order
/// (`kVK_ANSI_A` ... `kVK_ANSI_Z` of Carbon's Events.h).
pub open spec fn mac_letter_keycodes() -> Seq<i64> {
    seq![
        0x00, 0x0B, 0x08, 0x02, 0x0E, 0x03, 0x05, 0x04, 0x22, 0x26, 0x28, 0x25, 0x2E, 0x2D, 0x1F, 0x23, 0x0C,
        0x0F, 0x01, 0x11, 0x20, 0x09, 0x0D, 0x07, 0x10, 0x06,
    ]
}

/// The macOS keycodes of the digit keys 1 to 9, then 0 (`kVK_ANSI_1` ...
/// `kVK_ANSI_9`, `kVK_ANSI_0`), the order HID numbers them in.
pub open spec fn mac_digit_keycodes() -> Seq<i64> {
    seq![0x12, 0x13, 0x14, 0x15, 0x17, 0x16, 0x1A, 0x1C, 0x19, 0x1D]
}

/// The macOS keycodes of F1 to F12 (`kVK_F1` ... `kVK_F12`).
pub open spec fn mac_function_keycodes() -> Seq<i64> {
    seq![0x7A, 0x78, 0x63, 0x76, 0x60, 0x61, 0x62, 0x64, 0x65, 0x6D, 0x67, 0x6F]
}

/// The macOS Fn key (`kVK_Function`).
pub open spec fn mac_fn_keycode() -> i64 {
    0x3F
}

/// Each letter key sends the HID usage of the same letter: HID numbers the
/// letters from 0x04 (a) to 0x1D (z) in alphabetical order.
pub proof fn lemma_letters_keep_their_letter(i: int)
    requires
        0 <= i < 26,
    ensures
        mac_hid(mac_letter_keycodes()[i]) == Some((0x04 + i) as u16),
{
    let t = mac_letter_keycodes();
    if i == 0 {
        assert(mac_hid(t[0]) == Some(0x04u16));
    } else if i == 1 {
        assert(mac_hid(t[1]) == Some(0x05u16));
    } else if i == 2 {
        assert(mac_hid(t[2]) == Some(0x06u16));
    } else if i == 3 {
        assert(mac_hid(t[3]) == Some(0x07u16));
    } else if i == 4 {
        assert(mac_hid(t[4]) == Some(0x08u16));
    } else if i == 5 {
        assert(mac_hid(t[5]) == Some(0x09u16));
    } else if i == 6 {
        assert(mac_hid(t[6]) == Some(0x0Au16));
    } else if i == 7 {
        assert(mac_hid(t[7]) == Some(0x0Bu16));
    } else if i == 8 {
        assert(mac_hid(t[8]) == Some(0x0Cu16));
    } else if i == 9 {
        assert(mac_hid(t[9]) == Some(0x0Du16));
    } else if i == 10 {
        assert(mac_hid(t[10]) == Some(0x0Eu16));
    } else if i == 11 {
        assert(mac_hid(t[11]) == Some(0x0Fu16));
    } else if i == 12 {
        assert(mac_hid(t[12]) == Some(0x10u16));
    } else if i == 13 {
        assert(mac_hid(t[13]) == Some(0x11u16));
    } else if i == 14 {
        assert(mac_hid(t[14]) == Some(0x12u16));
    } else if i == 15 {
        assert(mac_hid(t[15]) == Some(0x13u16));
    } else if i == 16 {
        assert(mac_hid(t[16]) == Some(0x14u16));
    } else if i == 17 {
        assert(mac_hid(t[17]) == Some(0x15u16));
    } else if i == 18 {
        assert(mac_hid(t[18]) == Some(0x16u16));
    } else if i == 19 {
        assert(mac_hid(t[19]) == Some(0x17u16));
    } else if i == 20 {
        assert(mac_hid(t[20]) == Some(0x18u16));
    } else if i == 21 {
        assert(mac_hid(t[21]) == Some(0x19u16));
    } else if i == 22 {
        assert(mac_hid(t[22]) == Some(0x1Au16));
    } else if i == 23 {
        assert(mac_hid(t[23]) == Some(0x1Bu16));
    } else if i == 24 {
        assert(mac_hid(t[24]) == Some(0x1Cu16));
    } else if i == 25 {
        assert(mac_hid(t[25]) == Some(0x1Du16));
    }
}

/// Each digit key sends the HID usage of the same digit: HID numbers 1 to 9
/// and then 0 from 0x1E to 0x27.
pub proof fn lemma_digits_keep_their_digit(i: int)
    requires
        0 <= i < 10,
    ensures
        mac_hid(mac_digit_keycodes()[i]) == Some((0x1E + i) as u16),
{
    let t = mac_digit_keycodes();
    if i == 0 {
        assert(mac_hid(t[0]) == Some(0x1Eu16));
    } else if i == 1 {
        assert(mac_hid(t[1]) == Some(0x1Fu16));
    } else if i == 2 {
        assert(mac_hid(t[2]) == Some(0x20u16));
    } else if i == 3 {
        assert(mac_hid(t[3]) == Some(0x21u16));
    } else if i == 4 {
        assert(mac_hid(t[4]) == Some(0x22u16));
    } else if i == 5 {
        assert(mac_hid(t[5]) == Some(0x23u16));
    } else if i == 6 {
        assert(mac_hid(t[6]) == Some(0x24u16));
    } else if i == 7 {
        assert(mac_hid(t[7]) == Some(0x25u16));
    } else if i == 8 {
        assert(mac_hid(t[8]) == Some(0x26u16));
    } else if i == 9 {
        assert(mac_hid(t[9]) == Some(0x27u16));
    }
}

/// F1 to F12 send the HID usages F1 (0x3A) to F12 (0x45).
pub proof fn lemma_function_keys_keep_their_number(i: int)
    requires
        0 <= i < 12,
    ensures
        mac_hid(mac_function_keycodes()[i]) == Some((0x3A + i) as u16),
{
    let t = mac_function_keycodes();
    if i == 0 {
        assert(mac_hid(t[0]) == Some(0x3Au16));
    } else if i == 1 {
        assert(mac_hid(t[1]) == Some(0x3Bu16));
    } else if i == 2 {
        assert(mac_hid(t[2]) == Some(0x3Cu16));
    } else if i == 3 {
        assert(mac_hid(t[3]) == Some(0x3Du16));
    } else if i == 4 {
        assert(mac_hid(t[4]) == Some(0x3Eu16));
    } else if i == 5 {
        assert(mac_hid(t[5]) == Some(0x3Fu16));
    } else if i == 6 {
        assert(mac_hid(t[6]) == Some(0x40u16));
    } else if i == 7 {
        assert(mac_hid(t[7]) == Some(0x41u16));
    } else if i == 8 {
        assert(mac_hid(t[8]) == Some(0x42u16));
    } else if i == 9 {
        assert(mac_hid(t[9]) == Some(0x43u16));
    } else if i == 10 {
        assert(mac_hid(t[10]) == Some(0x44u16));
    } else if i == 11 {
        assert(mac_hid(t[11]) == Some(0x45u16));
    }
}

/// Fn sends nothing; Command and Control trade places (Cmd+C is Ctrl+C on
/// the PC, Control is the Windows key), Shift and Option keep theirs.
pub proof fn lemma_modifiers()
    ensures
        mac_hid(mac_fn_keycode()) is None,
        // kVK_Command, kVK_RightCommand -> LeftControl, RightControl
        mac_hid(0x37) == Some(0xE0u16),
        mac_hid(0x36) == Some(0xE4u16),
        // kVK_Control, kVK_RightControl -> LeftGUI, RightGUI
        mac_hid(0x3B) == Some(0xE3u16),
        mac_hid(0x3E) == Some(0xE7u16),
        // kVK_Shift, kVK_RightShift -> LeftShift, RightShift
        mac_hid(0x38) == Some(0xE1u16),
        mac_hid(0x3C) == Some(0xE5u16),
        // kVK_Option, kVK_RightOption -> LeftAlt, RightAlt
        mac_hid(0x3A) == Some(0xE2u16),
        mac_hid(0x3D) == Some(0xE6u16),
{
}

}
