use blake2::{Blake2s256, Digest};
use keyboard_it::config::Config;
use keyboard_it::secure::{
    decode_event, session_error_kind, session_error_text, check_peer_version, empty_payload, handshake_answer, version_payload,
    base64url_nopad, generate_key, handshake_initiator_finish, handshake_initiator_start, handshake_responder,
    peer_version, psk_from_config_or_env, psk_from_env, psk_from_secret, recv_event, send_event, KeyError,
    SessionError, NOISE_PARAMS, PROTOCOL_VERSION,
};
use keyboard_it::wire::{DecodeError, FailureKind, FrameError, InputEvent, MsgType, KeyEvent};

fn body(frame: &[u8]) -> &[u8] {
    let n = u32::from_be_bytes([frame[0], frame[1], frame[2], frame[3]]) as usize;
    assert_eq!(frame.len(), 4 + n);
    &frame[4..]
}

#[test]
fn base64url_nopad_known_vectors() {
    assert_eq!(base64url_nopad(b""), "");
    assert_eq!(base64url_nopad(b"f"), "Zg");
    assert_eq!(base64url_nopad(b"fo"), "Zm8");
    assert_eq!(base64url_nopad(b"foo"), "Zm9v");
    assert_eq!(base64url_nopad(b"foobar"), "Zm9vYmFy");
    assert_eq!(base64url_nopad(&[0xfb, 0xff]), "-_8");
}

#[test]
fn generate_key_unique_length_and_charset() {
    let a = generate_key().unwrap();
    let b = generate_key().unwrap();
    assert_ne!(a, b, "two keys must differ");
    assert_eq!(a.len(), 43);
    for k in [&a, &b] {
        assert!(
            k.chars().all(|c| c.is_ascii_alphanumeric() || c == '-' || c == '_'),
            "unexpected char in key: {k}"
        );
    }
}

#[test]
fn handshake_version_ok_and_event_roundtrip() {
    let psk = psk_from_secret("test-key");
    let (hs, m1) = handshake_initiator_start(&psk).unwrap();
    let (mut rt, m2) = handshake_responder(&psk, body(&m1)).unwrap();
    let mut it = handshake_initiator_finish(hs, body(&m2)).unwrap();
    let frame = send_event(&mut it, &InputEvent::MouseMove { dx: 3, dy: -4 }).unwrap();
    assert_eq!(recv_event(&mut rt, body(&frame)).unwrap(), InputEvent::MouseMove { dx: 3, dy: -4 });
    // The frame carries the 5-byte encoding plus the 16-byte tag.
    assert_eq!(frame.len(), 4 + 5 + 16);
}

#[test]
fn versionless_legacy_sender_rejected_with_clear_error() {
    let psk = psk_from_secret("test-key");
    let mut hs = snow::Builder::new(NOISE_PARAMS.parse().unwrap())
        .psk(0, &psk)
        .unwrap()
        .build_initiator()
        .unwrap();
    let mut buf = [0u8; 65535];
    let n = hs.write_message(&[], &mut buf).unwrap();
    let err = handshake_responder(&psk, &buf[..n]).err().unwrap();
    assert_eq!(err, SessionError::VersionMismatch { local: PROTOCOL_VERSION, peer: 0 });
}

#[test]
fn a_wrong_key_fails_the_handshake() {
    let (_hs, m1) = handshake_initiator_start(&psk_from_secret("one")).unwrap();
    let err = handshake_responder(&psk_from_secret("two"), body(&m1)).err().unwrap();
    assert_eq!(err, SessionError::Noise);
}

#[test]
fn a_corrupt_event_is_refused() {
    let psk = psk_from_secret("k");
    let (hs, m1) = handshake_initiator_start(&psk).unwrap();
    let (mut rt, m2) = handshake_responder(&psk, body(&m1)).unwrap();
    let mut it = handshake_initiator_finish(hs, body(&m2)).unwrap();
    let mut frame = send_event(&mut it, &InputEvent::Key(KeyEvent { msg: MsgType::Down, hid_usage: 4, modifiers: 0 })).unwrap();
    let last = frame.len() - 1;
    frame[last] ^= 1;
    assert_eq!(recv_event(&mut rt, body(&frame)).unwrap_err(), SessionError::Noise);
    let _ = DecodeError::ShortBuffer;
}

#[test]
fn psk_is_blake2s_of_the_domain_and_the_secret() {
    let mut d = Blake2s256::new();
    d.update(b"keyboard-it psk v1\0");
    d.update(b"hunter2");
    let want: [u8; 32] = d.finalize().into();
    assert_eq!(psk_from_secret("hunter2"), want);
    assert_ne!(psk_from_secret("hunter2"), psk_from_secret("hunter3"));
}

#[test]
fn the_key_comes_from_the_config_then_the_environment() {
    let mut c = Config::default();
    assert_eq!(psk_from_config_or_env(&c, None), Err(KeyError::Missing));
    assert_eq!(psk_from_config_or_env(&c, Some("")), Err(KeyError::Missing));
    assert_eq!(psk_from_config_or_env(&c, Some("env")), Ok(psk_from_secret("env")));
    c.shared_secret = "cfg".into();
    assert_eq!(psk_from_config_or_env(&c, Some("env")), Ok(psk_from_secret("cfg")));
    assert_eq!(psk_from_env(Some("x")), Ok(psk_from_secret("x")));
    assert_eq!(psk_from_env(None), Err(KeyError::Missing));
}

#[test]
fn the_peer_version_is_the_first_payload_byte() {
    assert_eq!(peer_version(&vec![3, 9], 2), 3);
    assert_eq!(peer_version(&vec![3, 9], 0), 0);
}

#[test]
fn version_checks_and_payloads() {
    assert_eq!(check_peer_version(&vec![1, 9], 2, 1), Ok(()));
    assert_eq!(check_peer_version(&vec![2, 9], 2, 1), Err(2));
    assert_eq!(check_peer_version(&vec![1, 9], 0, 1), Err(0));
    assert_eq!(version_payload(3), [3]);
    assert_eq!(empty_payload().len(), 0);
    let psk = psk_from_secret("k");
    let mk = || {
        snow::Builder::new(NOISE_PARAMS.parse().unwrap()).psk(0, &psk).unwrap().build_responder().unwrap()
    };
    assert_eq!(
        handshake_answer(mk(), &vec![]).err(),
        Some(SessionError::VersionMismatch { local: PROTOCOL_VERSION, peer: 0 })
    );
    assert_eq!(
        handshake_answer(mk(), &vec![PROTOCOL_VERSION + 1]).err(),
        Some(SessionError::VersionMismatch { local: PROTOCOL_VERSION, peer: PROTOCOL_VERSION + 1 })
    );
}

#[test]
fn distinct_bytes_encode_differently() {
    let inputs: [&[u8]; 6] = [b"", b"\0", b"\0\0", b"\x01", b"foo", b"fop"];
    for (i, a) in inputs.iter().enumerate() {
        for (j, b) in inputs.iter().enumerate() {
            assert_eq!(base64url_nopad(a) == base64url_nopad(b), i == j);
        }
    }
}

#[test]
fn decode_event_is_the_event_decoding() {
    assert_eq!(decode_event(&[1, 0, 3, 0xff, 0xfc]), Ok(InputEvent::MouseMove { dx: 3, dy: -4 }));
    assert_eq!(decode_event(&[9, 0, 0]), Err(SessionError::Decode(DecodeError::BadTag(9))));
    assert_eq!(decode_event(&[]), Err(SessionError::Decode(DecodeError::ShortBuffer)));
}

#[test]
fn event_frames_of_bad_length_are_refused_before_decryption() {
    let psk = psk_from_secret("test-key");
    let (hs, m1) = handshake_initiator_start(&psk).unwrap();
    let (mut rt, m2) = handshake_responder(&psk, body(&m1)).unwrap();
    let mut it = handshake_initiator_finish(hs, body(&m2)).unwrap();
    assert_eq!(recv_event(&mut rt, &[]), Err(SessionError::Frame(FrameError::InvalidLength)));
    assert_eq!(recv_event(&mut rt, &[0u8; 23]), Err(SessionError::Frame(FrameError::InvalidLength)));
    // the session still works: nothing was decrypted
    let frame = send_event(&mut it, &InputEvent::Scroll { dx: 1, dy: -1 }).unwrap();
    assert_eq!(recv_event(&mut rt, body(&frame)).unwrap(), InputEvent::Scroll { dx: 1, dy: -1 });
}

#[test]
fn session_errors_read_as_the_cause() {
    let e = SessionError::VersionMismatch { local: 1, peer: 0 };
    assert_eq!(session_error_text(e), "protocol version mismatch: local 1, peer 0 — update both sides");
    assert_eq!(session_error_kind(e), FailureKind::InvalidData);
    assert_eq!(session_error_text(SessionError::Decode(DecodeError::ShortBuffer)), "decode error: ShortBuffer");
    assert_eq!(session_error_text(SessionError::Frame(FrameError::InvalidLength)), "invalid frame length");
    assert_eq!(session_error_kind(SessionError::Noise), FailureKind::Other);
}
