use blake2::{Blake2s256, Digest};
use keyboard_it::pairing::{
    pair_error_kind, pair_error_text, pair_answer_request, pair_initiator_after_reply, PAIRING_NOISE_PARAMS,
    accepted_message, code_display, code_from_digest, hello_message, pair_initiator_on_reply,
    pair_initiator_on_result, pair_initiator_start, pair_responder_answer, pair_responder_on_hello,
    pair_responder_on_request, parse_hello, parse_result, push_str, sanitize_name, take_str, Field, PairDecision,
    PairError, MAX_MSG, MAX_NAME_LEN, PAIRING_VERSION, RESULT_ACCEPTED,
};
use keyboard_it::wire::{FailureKind, FrameError};

/// The payload of a length-prefixed frame.
fn body(frame: &[u8]) -> &[u8] {
    let n = u32::from_be_bytes([frame[0], frame[1], frame[2], frame[3]]) as usize;
    assert_eq!(frame.len(), 4 + n);
    &frame[4..]
}

/// One whole exchange in memory; `allow` is what the PC's user clicks.
fn run_exchange(
    mac_name: &str,
    secret: &str,
    port: u16,
    pc_name: &str,
    allow: bool,
) -> (Result<keyboard_it::pairing::PairOutcome, PairError>, PairDecision, String) {
    let (hs, m1) = pair_initiator_start().unwrap();
    let reply = pair_responder_on_request(body(&m1)).unwrap();
    let (mut rt, rcode) = reply.session.unwrap();
    let mut init = pair_initiator_on_reply(hs, body(&reply.frame), mac_name).unwrap();
    let seen = init.code.clone();
    let req = pair_responder_on_hello(&mut rt, body(&init.hello_frame), rcode).unwrap();
    let (decision, result) = pair_responder_answer(&mut rt, req, allow, secret, port, pc_name);
    let result = result.unwrap();
    let outcome = pair_initiator_on_result(&mut init.transport, body(&result), init.code.clone());
    (outcome, decision, seen)
}

#[test]
fn accept_transfers_the_secret_and_both_sides_show_the_same_code() {
    let (outcome, decision, seen_by_initiator) =
        run_exchange("Kutay's MacBook", "s3cret-key", 5599, "DESKTOP-ABC", true);
    let outcome = outcome.unwrap();
    assert_eq!(outcome.secret, "s3cret-key");
    assert_eq!(outcome.session_port, 5599);
    assert_eq!(outcome.peer_name, "DESKTOP-ABC");
    let PairDecision::Accepted(req) = decision else { panic!("expected Accepted") };
    assert_eq!(req.peer_name, "Kutay's MacBook");
    assert_eq!(req.code, outcome.code);
    assert_eq!(seen_by_initiator, outcome.code);
}

#[test]
fn decline_reaches_the_initiator_as_permission_denied() {
    let (outcome, decision, _) = run_exchange("Mac", "s3cret", 5599, "PC", false);
    assert!(matches!(decision, PairDecision::Declined(_)));
    assert_eq!(outcome.unwrap_err(), PairError::Declined);
}

#[test]
fn hangup_before_the_answer_is_also_permission_denied() {
    // The receiver answers the handshake, reads the HELLO, then the
    // connection ends: the sender's read of the result comes back empty.
    let (hs, m1) = pair_initiator_start().unwrap();
    let reply = pair_responder_on_request(body(&m1)).unwrap();
    let (mut rt, rcode) = reply.session.unwrap();
    let mut init = pair_initiator_on_reply(hs, body(&reply.frame), "Mac").unwrap();
    pair_responder_on_hello(&mut rt, body(&init.hello_frame), rcode).unwrap();
    let err = pair_initiator_on_result(&mut init.transport, &[], init.code.clone()).unwrap_err();
    assert_ne!(err, PairError::Noise);
}

#[test]
fn version_mismatch_is_named_on_both_sides() {
    // A handshake message whose clear payload names another version.
    let (hs, m1) = pair_initiator_start().unwrap();
    drop(hs);
    let mut m = body(&m1).to_vec();
    // NN message 1 is the 32-byte ephemeral key followed by the clear payload.
    let last = m.len() - 1;
    m[last] = PAIRING_VERSION + 1;
    let reply = pair_responder_on_request(&m).unwrap();
    assert!(!reply.frame.is_empty());
    assert!(matches!(reply.session, Err(PairError::VersionMismatch(v)) if v == PAIRING_VERSION + 1));
}

#[test]
fn code_is_six_digits_and_differs_between_sessions() {
    let run = || run_exchange("Mac", "s3cret", 5599, "PC", true).0.unwrap().code;
    let a = run();
    let b = run();
    for c in [&a, &b] {
        assert_eq!(c.len(), 6, "code must be 6 digits: {c}");
        assert!(c.bytes().all(|b| b.is_ascii_digit()), "non-digit in code: {c}");
    }
    assert_ne!(a, b, "two sessions produced the same code");
    assert_eq!(code_display("482913"), "482 913");
}

#[test]
fn peer_names_from_the_network_are_sanitized_before_display() {
    assert_eq!(sanitize_name("Mac\n\rAllow: yes"), "MacAllow: yes");
    assert_eq!(sanitize_name("   "), "unknown device");
    assert_eq!(sanitize_name(""), "unknown device");
    let long = "é".repeat(100);
    let clamped = sanitize_name(&long);
    assert!(clamped.len() <= MAX_NAME_LEN);
    assert_eq!(clamped.chars().count(), MAX_NAME_LEN / 2);
}

#[test]
fn a_truncated_result_is_rejected_rather_than_half_applied() {
    assert_eq!(parse_result(&[RESULT_ACCEPTED]), Err(PairError::Truncated(Field::PairingKey)));
}

#[test]
fn result_messages_read_back() {
    let m = accepted_message("key", 7000, "PC");
    assert_eq!(m, vec![1, 3, b'k', b'e', b'y', 0x1B, 0x58, 2, b'P', b'C']);
    assert_eq!(parse_result(&m), Ok(("key".to_string(), 7000, "PC".to_string())));
    assert_eq!(parse_result(&[0]), Err(PairError::Declined));
    assert_eq!(parse_result(&[]), Err(PairError::EmptyResult));
    assert_eq!(parse_result(&[5]), Err(PairError::UnrecognizedResult));
    assert_eq!(parse_result(&accepted_message("", 7000, "PC")), Err(PairError::EmptyKey));
    assert_eq!(parse_result(&accepted_message("k", 0, "PC")), Err(PairError::InvalidSessionPort));
    assert_eq!(parse_result(&[1, 1, b'k', 0x1B]), Err(PairError::Truncated(Field::SessionPort)));
    assert_eq!(parse_result(&[1, 1, b'k', 0x1B, 0x58]), Err(PairError::Truncated(Field::PcName)));
    assert_eq!(parse_result(&[1, 1, 0xFF, 0x1B, 0x58, 0]), Err(PairError::NotUtf8(Field::PairingKey)));
}

#[test]
fn hello_messages_read_back() {
    let m = hello_message("Mac\nmini");
    assert_eq!(m, vec![7, b'M', b'a', b'c', b'm', b'i', b'n', b'i']);
    assert_eq!(parse_hello(&m), Ok("Macmini".to_string()));
    assert_eq!(parse_hello(&[5, b'a']), Err(PairError::Truncated(Field::DeviceName)));
    assert_eq!(parse_hello(&[1, 0xC3]), Err(PairError::NotUtf8(Field::DeviceName)));
    assert_eq!(parse_hello(&[]), Err(PairError::Truncated(Field::DeviceName)));
}

#[test]
fn length_prefixed_strings() {
    let mut buf = Vec::new();
    push_str(&mut buf, "ab");
    assert_eq!(buf, vec![2, b'a', b'b']);
    assert_eq!(take_str(&buf, 0, Field::PcName), Ok(("ab".to_string(), 3)));
    assert_eq!(take_str(&buf, 1, Field::PcName), Err(PairError::Truncated(Field::PcName)));
    assert_eq!(take_str(&buf, 3, Field::PcName), Err(PairError::Truncated(Field::PcName)));
}

#[test]
fn code_display_and_digest_codes() {
    assert_eq!(code_display("12"), "12");
    assert_eq!(code_display(""), "");
    // The code is the first four digest bytes, big-endian, mod 10^6, zero-padded.
    let mut d = [0u8; 32];
    d[3] = 7;
    assert_eq!(code_from_digest(&d), "000007");
    d[0] = 0xFF;
    d[1] = 0xFF;
    d[2] = 0xFF;
    d[3] = 0xFF;
    assert_eq!(code_from_digest(&d), format!("{:06}", 0xFFFF_FFFFu64 % 1_000_000));
}

#[test]
fn the_code_is_the_blake2s_digest_of_the_domain_and_the_hash() {
    let h = [0x5Au8; 32];
    let mut d = Blake2s256::new();
    d.update(b"keyboard-it sas v1\0");
    d.update(h);
    let out = d.finalize();
    let n = u32::from_be_bytes([out[0], out[1], out[2], out[3]]) % 1_000_000;
    assert_eq!(keyboard_it::pairing::sas_from_hash(&h), format!("{n:06}"));
}

#[test]
fn a_receiver_with_another_pairing_version_is_named_by_the_sender() {
    // The receiver answers with a version one higher than ours.
    let (hs, m1) = pair_initiator_start().unwrap();
    let mut resp = snow::Builder::new(PAIRING_NOISE_PARAMS.parse().unwrap()).build_responder().unwrap();
    let mut tmp = [0u8; 256];
    let n = resp.read_message(body(&m1), &mut tmp).unwrap();
    assert_eq!(&tmp[..n], &[PAIRING_VERSION]);
    let mut out = [0u8; 256];
    let n = resp.write_message(&[PAIRING_VERSION + 1], &mut out).unwrap();
    let err = pair_initiator_on_reply(hs, &out[..n], "Mac").err().unwrap();
    assert_eq!(err, PairError::VersionMismatch(PAIRING_VERSION + 1));
}

#[test]
fn the_version_decision_after_the_read() {
    // A responder that has read a real message 1.
    let mk = || {
        let (_hs, m1) = pair_initiator_start().unwrap();
        let mut r = snow::Builder::new(PAIRING_NOISE_PARAMS.parse().unwrap()).build_responder().unwrap();
        let mut tmp = [0u8; 256];
        r.read_message(body(&m1), &mut tmp).unwrap();
        r
    };
    // The receiver still frames its answer, then refuses.
    let rep = pair_answer_request(mk(), &vec![7]).unwrap();
    assert!(rep.frame.len() > 4);
    assert_eq!(rep.session.err(), Some(PairError::VersionMismatch(7)));
    let rep = pair_answer_request(mk(), &vec![]).unwrap();
    assert_eq!(rep.session.err(), Some(PairError::VersionMismatch(0)));
    let mk_i = || snow::Builder::new(PAIRING_NOISE_PARAMS.parse().unwrap()).build_initiator().unwrap();
    assert_eq!(pair_initiator_after_reply(mk_i(), &vec![], "Mac").err(), Some(PairError::VersionMismatch(0)));
    assert_eq!(pair_initiator_after_reply(mk_i(), &vec![3, 1], "Mac").err(), Some(PairError::VersionMismatch(3)));
}

#[test]
fn pairing_errors_read_as_the_cause() {
    assert_eq!(pair_error_text(PairError::Declined), "pairing was declined on the PC");
    assert_eq!(pair_error_kind(PairError::Declined), FailureKind::PermissionDenied);
    assert_eq!(
        pair_error_text(PairError::VersionMismatch(2)),
        "pairing version mismatch: local 1, peer 2 — update both machines"
    );
    assert_eq!(pair_error_kind(PairError::VersionMismatch(2)), FailureKind::InvalidData);
    assert_eq!(pair_error_text(PairError::Truncated(Field::SessionPort)), "truncated session port");
    assert_eq!(pair_error_text(PairError::NotUtf8(Field::PcName)), "PC name is not valid UTF-8");
    assert_eq!(pair_error_text(PairError::EmptyKey), "the PC sent an empty pairing key");
    assert_eq!(pair_error_kind(PairError::Noise), FailureKind::Other);
}

#[test]
fn pairing_frames_of_bad_length_are_refused_before_decryption() {
    let (hs, m1) = pair_initiator_start().unwrap();
    let reply = pair_responder_on_request(body(&m1)).unwrap();
    let (mut rt, rcode) = reply.session.unwrap();
    let mut init = pair_initiator_on_reply(hs, body(&reply.frame), "Mac").unwrap();
    let too_long = vec![0u8; MAX_MSG + 17];
    assert_eq!(
        pair_responder_on_hello(&mut rt, &too_long, rcode.clone()).unwrap_err(),
        PairError::Frame(FrameError::InvalidLength)
    );
    assert_eq!(
        pair_initiator_on_result(&mut init.transport, &too_long, init.code.clone()).unwrap_err(),
        PairError::Frame(FrameError::InvalidLength)
    );
    // nothing was decrypted: the HELLO still opens
    let req = pair_responder_on_hello(&mut rt, body(&init.hello_frame), rcode).unwrap();
    assert_eq!(req.peer_name, "Mac");
}
