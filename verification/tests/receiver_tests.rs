use keyboard_it::config::Config;
use keyboard_it::diag::{epoch_stamp, log_file_name, log_line, stamp, start_over};
use keyboard_it::netinfo::{device_name, hostname_or_default, ipv4_text, lan_ipv4s, this_pc_line};
use keyboard_it::serve::{
    decision_due, pair_decision, handshake_failure_report, have_secret, placeholder_icon_rgba, reply, reply_note, AnswerSlot, ReplyOutcome,
    secret_to_share, status_line, tray_conn_code, ConnSlot, ConnStatus, GateDecision, HeldInput, PairGate,
};
use keyboard_it::wire::{InputEvent, KeyEvent, MsgType};

fn key(msg: MsgType, hid: u16) -> InputEvent {
    InputEvent::Key(KeyEvent { msg, hid_usage: hid, modifiers: 0 })
}

#[test]
fn a_dropped_connection_releases_what_was_held() {
    let mut h = HeldInput::new();
    h.on_event(&key(MsgType::Down, 4));
    h.on_event(&key(MsgType::Repeat, 5));
    h.on_event(&key(MsgType::Down, 6));
    h.on_event(&key(MsgType::Up, 5));
    h.on_event(&InputEvent::MouseButton { button: 0, down: true });
    h.on_event(&InputEvent::MouseMove { dx: 1, dy: 1 });
    let released = h.release_all();
    // the held keys, each once and in the set's order, then the button
    assert_eq!(released.len(), 3);
    assert!(released[..2].contains(&key(MsgType::Up, 4)));
    assert!(released[..2].contains(&key(MsgType::Up, 6)));
    assert_eq!(released[2], InputEvent::MouseButton { button: 0, down: false });
    assert!(h.release_all().is_empty());
}

#[test]
fn only_the_current_connection_clears_its_slot() {
    let mut slot = ConnSlot { current: Some(2) };
    assert!(!slot.clear_if_current(1));
    assert_eq!(slot.current, Some(2));
    assert!(slot.clear_if_current(2));
    assert_eq!(slot.current, None);
    assert!(!slot.clear_if_current(2));
}

#[test]
fn one_pairing_dialog_at_a_time_and_a_cooldown_after_a_decline() {
    let mut g = PairGate::new();
    assert_eq!(g.on_request(0), GateDecision::Handle);
    assert_eq!(g.on_request(1), GateDecision::Busy);
    g.finish(false, 100);
    assert_eq!(g.on_request(5000), GateDecision::Cooling);
    assert_eq!(g.on_request(10_100), GateDecision::Handle);
    g.finish(true, 11_000);
    assert_eq!(g.on_request(11_001), GateDecision::Handle);
}

#[test]
fn the_shared_secret_comes_from_the_config_or_the_environment() {
    let mut c = Config::default();
    assert_eq!(secret_to_share(&c, Some("env")), "env");
    c.shared_secret = "cfg".into();
    assert_eq!(secret_to_share(&c, Some("env")), "cfg");
}

#[test]
fn receiver_status_texts() {
    assert_eq!(status_line(ConnStatus::Connected), "Connected — encrypted channel established.");
    assert_eq!(tray_conn_code(ConnStatus::HandshakeFailed), 2);
    assert_eq!(tray_conn_code(ConnStatus::Disconnected), 0);
}

#[test]
fn the_pairing_trace_lines() {
    assert_eq!(stamp(2024, 3, 7, 9, 5, 0, 42), "2024-03-07 09:05:00.042");
    assert_eq!(stamp(12345, 12, 31, 23, 59, 59, 999), "12345-12-31 23:59:59.999");
    assert_eq!(epoch_stamp(1700000000, 5), "epoch+1700000000.005");
    assert_eq!(log_line("T", "hello"), "T hello\n");
    assert!(!start_over(None));
    assert!(!start_over(Some(131072)));
    assert!(start_over(Some(131073)));
    assert_eq!(log_file_name(), "pairing.log");
}

#[test]
fn this_pc_identity() {
    let a = 0xC0A8_4437; // 192.168.68.55
    let lo = 0x7F00_0001;
    let apipa = 0xA9FE_0102;
    assert_eq!(ipv4_text(a), "192.168.68.55");
    assert_eq!(ipv4_text(0), "0.0.0.0");
    assert_eq!(lan_ipv4s(&[lo, a, apipa, a, 0x0A00_0001], Some(0x0A00_0002)), vec![a, 0x0A00_0001]);
    assert_eq!(lan_ipv4s(&[lo], Some(a)), vec![a]);
    assert_eq!(lan_ipv4s(&[lo], Some(apipa)), Vec::<u32>::new());
    assert_eq!(this_pc_line("PC", &[a, 0x0A00_0001]), "This PC: PC — 192.168.68.55, 10.0.0.1");
    assert_eq!(this_pc_line("PC", &[]), "This PC: PC — no LAN IPv4 found");
    assert_eq!(hostname_or_default(None), "windows-pc");
    assert_eq!(hostname_or_default(Some("DESKTOP-ABC")), "DESKTOP-ABC");
    assert_eq!(device_name(Some("  box \n")), "box");
    assert_eq!(device_name(Some("  ")), "keyboard-it PC");
    assert_eq!(device_name(None), "keyboard-it PC");
}

#[test]
fn the_pairing_dialog_is_answered_at_most_once() {
    let mut slot = AnswerSlot::new();
    assert_eq!(reply(&mut slot), None);
    slot.park(7);
    assert_eq!(reply(&mut slot), Some(7));
    assert_eq!(reply(&mut slot), None);
    assert_eq!(
        reply_note("Allow clicked", true, ReplyOutcome::Sent { delivered: false }),
        "Allow clicked -> answer=true, delivered to the pairing thread: false"
    );
    assert_eq!(
        reply_note("Stop", false, ReplyOutcome::NothingWaiting),
        "Stop -> no request waiting (already answered, or timed out)"
    );
    assert_eq!(
        reply_note("X", false, ReplyOutcome::Unavailable),
        "X -> the answer slot is poisoned; request left unanswered"
    );
}

#[test]
fn handshake_failures_and_the_tray_icon() {
    assert_eq!(handshake_failure_report(true, false), Some(ConnStatus::HandshakeFailed));
    assert_eq!(handshake_failure_report(true, true), None);
    assert_eq!(handshake_failure_report(false, false), None);
    let px = placeholder_icon_rgba();
    assert_eq!(px.len(), 1024);
    assert!(px.chunks(4).all(|c| c == [0x2e, 0x7d, 0x32, 0xff]));
}

#[test]
fn the_listener_needs_a_key_from_somewhere() {
    let mut c = Config::default();
    assert!(!have_secret(&c, None));
    assert!(!have_secret(&c, Some("")));
    assert!(have_secret(&c, Some("k")));
    c.shared_secret = "k".into();
    assert!(have_secret(&c, None));
}

#[test]
fn a_key_held_down_and_repeated_is_released_once() {
    let mut h = HeldInput::new();
    h.on_event(&key(MsgType::Down, 4));
    h.on_event(&key(MsgType::Repeat, 4));
    h.on_event(&key(MsgType::Repeat, 4));
    h.on_event(&InputEvent::MouseButton { button: 1, down: true });
    h.on_event(&InputEvent::MouseButton { button: 1, down: true });
    let v = h.release_all();
    assert_eq!(v, vec![key(MsgType::Up, 4), InputEvent::MouseButton { button: 1, down: false }]);
    assert_eq!(h.release_all(), Vec::<InputEvent>::new());
}

#[test]
fn only_an_explicit_allow_pairs() {
    assert!(pair_decision(Some(true)));
    assert!(!pair_decision(Some(false)));
    assert!(!pair_decision(None));
}

#[test]
fn the_decision_is_due_after_the_timeout() {
    assert!(!decision_due(1_000, 1_000));
    assert!(!decision_due(1_000, 120_999));
    assert!(decision_due(1_000, 121_000));
    assert!(decision_due(0, u64::MAX));
    // a clock that went back counts as no time passed
    assert!(!decision_due(500_000, 1_000));
}
