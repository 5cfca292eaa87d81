use keyboard_it::wire::{
    frame_error_message, default_pairing_port, encode_frame, check_frame_length, frame_length, DecodeError, FrameError, InputEvent,
    KeyEvent, MsgType, BUTTON_MIDDLE, BUTTON_RIGHT, INPUT_MAX_LEN, LEFT_SHIFT, WIRE_LEN, MAX_FRAME,
};

#[test]
fn roundtrip() {
    let e = KeyEvent { msg: MsgType::Down, hid_usage: 0x04, modifiers: LEFT_SHIFT };
    assert_eq!(e.encode().len(), WIRE_LEN);
    assert_eq!(KeyEvent::decode(&e.encode()).unwrap(), e);
}

#[test]
fn short_buffer_errors() {
    assert_eq!(KeyEvent::decode(&[0u8; 3]), Err(DecodeError::ShortBuffer));
}

#[test]
fn input_event_roundtrip() {
    let cases = [
        InputEvent::Key(KeyEvent { msg: MsgType::Down, hid_usage: 0x04, modifiers: LEFT_SHIFT }),
        InputEvent::MouseMove { dx: i16::MIN, dy: i16::MAX },
        InputEvent::MouseMove { dx: -1, dy: 7 },
        InputEvent::MouseButton { button: BUTTON_RIGHT, down: true },
        InputEvent::MouseButton { button: BUTTON_MIDDLE, down: false },
        InputEvent::Scroll { dx: -128, dy: 127 },
    ];
    for ev in cases {
        let (buf, len) = ev.encode();
        assert!(len <= INPUT_MAX_LEN);
        assert_eq!(InputEvent::decode(&buf[..len]).unwrap(), ev);
    }
}

#[test]
fn input_event_bad_tag() {
    assert_eq!(InputEvent::decode(&[9u8, 0, 0]), Err(DecodeError::BadTag(9)));
    assert_eq!(InputEvent::decode(&[]), Err(DecodeError::ShortBuffer));
}

#[test]
fn framed_roundtrip() {
    let e = KeyEvent { msg: MsgType::Up, hid_usage: 0x0B, modifiers: 0 };
    let mut buf = Vec::new();
    e.write_framed(&mut buf);
    assert_eq!(buf.len(), 4 + WIRE_LEN);
    assert_eq!(KeyEvent::read_framed(&buf).unwrap(), e);
}

#[test]
fn key_event_bytes_are_exact() {
    let e = KeyEvent { msg: MsgType::Repeat, hid_usage: 0x01E0, modifiers: 0x0102 };
    assert_eq!(e.encode(), [2, 0x01, 0xE0, 0x01, 0x02]);
    assert_eq!(KeyEvent::decode(&[7, 0, 4, 0, 0]), Err(DecodeError::BadMsgType(7)));
    // Trailing bytes are ignored.
    assert_eq!(
        KeyEvent::decode(&[0, 0, 4, 0, 2, 99, 99]).unwrap(),
        KeyEvent { msg: MsgType::Down, hid_usage: 4, modifiers: 2 }
    );
    assert_eq!(MsgType::from_u8(1), Ok(MsgType::Up));
    assert_eq!(MsgType::from_u8(3), Err(DecodeError::BadMsgType(3)));
}

#[test]
fn input_event_encodings_are_exact() {
    let (b, n) = InputEvent::MouseMove { dx: -2, dy: 300 }.encode();
    assert_eq!(&b[..n], &[1, 0xFF, 0xFE, 0x01, 0x2C]);
    let (b, n) = InputEvent::MouseButton { button: 0, down: true }.encode();
    assert_eq!(&b[..n], &[2, 0, 1]);
    let (b, n) = InputEvent::Scroll { dx: 1, dy: -1 }.encode();
    assert_eq!(&b[..n], &[3, 1, 0xFF]);
    let (b, n) = InputEvent::Key(KeyEvent { msg: MsgType::Up, hid_usage: 5, modifiers: 0 }).encode();
    assert_eq!(&b[..n], &[0, 1, 0, 5, 0, 0]);
    assert_eq!(InputEvent::decode(&[1, 0, 0]), Err(DecodeError::ShortBuffer));
}

#[test]
fn framing_errors_are_named() {
    assert_eq!(KeyEvent::read_framed(&[0, 0, 0]), Err(FrameError::Truncated));
    assert_eq!(KeyEvent::read_framed(&[0, 0, 0, 0]), Err(FrameError::InvalidLength));
    assert_eq!(KeyEvent::read_framed(&[0, 0, 1, 0]), Err(FrameError::InvalidLength));
    assert_eq!(KeyEvent::read_framed(&[0, 0, 0, 5, 0, 0]), Err(FrameError::Truncated));
    assert_eq!(
        KeyEvent::read_framed(&[0, 0, 0, 5, 9, 0, 0, 0, 0]),
        Err(FrameError::Decode(DecodeError::BadMsgType(9)))
    );
    assert_eq!(frame_length(0, 0, 1, 2), 258);
    assert_eq!(check_frame_length(0, 10), Err(FrameError::InvalidLength));
    assert_eq!(check_frame_length(11, 10), Err(FrameError::InvalidLength));
    assert_eq!(check_frame_length(10, 10), Ok(10));
    assert_eq!(encode_frame(&[7, 8]), vec![0, 0, 0, 2, 7, 8]);
    assert!(MAX_FRAME == 65535);
}

#[test]
fn pairing_port_follows_the_session_port() {
    assert_eq!(default_pairing_port(5599), 5600);
    assert_eq!(default_pairing_port(65535), 0);
}

#[test]
fn frame_errors_read_as_text() {
    assert_eq!(frame_error_message(FrameError::InvalidLength), "invalid frame length");
    assert_eq!(frame_error_message(FrameError::Truncated), "truncated frame");
    assert_eq!(frame_error_message(FrameError::Decode(DecodeError::BadTag(9))), "decode error: BadTag(9)");
    assert_eq!(frame_error_message(FrameError::Decode(DecodeError::BadMsgType(200))), "decode error: BadMsgType(200)");
}
