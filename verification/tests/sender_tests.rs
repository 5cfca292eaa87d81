use keyboard_it::capture::{
    clamp_i16, clamp_i8, config_ready, modifier_mask, CaptureState, TapEvent, TapKind, Verdict, FLAG_SECONDARY_FN,
    FLAG_SHIFT, FN_KEYCODE, FLAG_COMMAND,
};
use keyboard_it::config::Config;
use keyboard_it::link::{dial_deadline, link_step, retry_dial, LinkAction, LinkEvent, LinkStep};
use keyboard_it::menubar::{status_title, title_for, ConnStatus};
use keyboard_it::wire::{InputEvent, KeyEvent, MsgType};

fn ev(kind: TapKind, keycode: i64, flags: u64) -> TapEvent {
    TapEvent {
        kind,
        keycode,
        flags,
        autorepeat: 0,
        delta_x: 0,
        delta_y: 0,
        button_number: 0,
        scroll_axis1: 0,
        scroll_axis2: 0,
    }
}

fn fn_press(s: &mut CaptureState, t: u64) -> Option<bool> {
    let down = s.on_event(&ev(TapKind::FlagsChanged, FN_KEYCODE, FLAG_SECONDARY_FN), t);
    let up = s.on_event(&ev(TapKind::FlagsChanged, FN_KEYCODE, 0), t + 10);
    assert!(up.toggled.is_none());
    down.toggled
}

#[test]
fn double_tap_fn_toggles_and_single_taps_do_not() {
    let mut s = CaptureState::new();
    assert!(!s.active());
    assert_eq!(fn_press(&mut s, 1000), None);
    assert_eq!(fn_press(&mut s, 2000), None); // 1 s apart: too slow
    assert_eq!(fn_press(&mut s, 2300), Some(true));
    assert!(s.active());
    assert_eq!(fn_press(&mut s, 5000), None);
    assert_eq!(fn_press(&mut s, 5400), Some(false));
    assert!(!s.active());
}

#[test]
fn inactive_keys_stay_on_the_mac() {
    let mut s = CaptureState::new();
    let out = s.on_event(&ev(TapKind::KeyDown, 0x00, 0), 0);
    assert_eq!(out.verdict, Verdict::Keep);
    assert!(out.sends.is_empty());
}

#[test]
fn active_keys_are_forwarded_and_released_on_deactivate() {
    let mut s = CaptureState::new();
    fn_press(&mut s, 0);
    assert_eq!(fn_press(&mut s, 100), Some(true));
    let out = s.on_event(&ev(TapKind::KeyDown, 0x00, 0), 200);
    assert_eq!(out.verdict, Verdict::Drop);
    assert_eq!(out.sends, vec![InputEvent::Key(KeyEvent { msg: MsgType::Down, hid_usage: 0x04, modifiers: 0 })]);
    let shift = s.on_event(&ev(TapKind::FlagsChanged, 0x38, FLAG_SHIFT), 210);
    assert_eq!(shift.sends, vec![InputEvent::Key(KeyEvent { msg: MsgType::Down, hid_usage: 0xE1, modifiers: 0 })]);
    // Leaving ACTIVE lets go of everything still held on the PC.
    fn_press(&mut s, 1000);
    let down = s.on_event(&ev(TapKind::FlagsChanged, FN_KEYCODE, FLAG_SECONDARY_FN), 1100);
    assert_eq!(down.toggled, Some(false));
    let mut released = down.sends.clone();
    released.sort_by_key(|e| match e {
        InputEvent::Key(k) => k.hid_usage,
        _ => 0,
    });
    assert_eq!(
        released,
        vec![
            InputEvent::Key(KeyEvent { msg: MsgType::Up, hid_usage: 0x04, modifiers: 0 }),
            InputEvent::Key(KeyEvent { msg: MsgType::Up, hid_usage: 0xE1, modifiers: 0 }),
        ]
    );
}

#[test]
fn a_disabled_tap_is_reenabled() {
    let mut s = CaptureState::new();
    let out = s.on_event(&ev(TapKind::TapDisabled, 0, 0), 0);
    assert!(out.reenable);
    assert_eq!(out.verdict, Verdict::Keep);
}

#[test]
fn mouse_and_scroll_are_clamped() {
    let mut s = CaptureState::new();
    fn_press(&mut s, 0);
    fn_press(&mut s, 100);
    let mut m = ev(TapKind::MouseMoved, 0, 0);
    m.delta_x = 100_000;
    m.delta_y = -5;
    assert_eq!(s.on_event(&m, 200).sends, vec![InputEvent::MouseMove { dx: 32767, dy: -5 }]);
    let mut w = ev(TapKind::ScrollWheel, 0, 0);
    w.scroll_axis1 = -1000;
    w.scroll_axis2 = 3;
    assert_eq!(s.on_event(&w, 300).sends, vec![InputEvent::Scroll { dx: 3, dy: -128 }]);
    let mut o = ev(TapKind::OtherMouseDown, 0, 0);
    o.button_number = 4;
    assert!(s.on_event(&o, 400).sends.is_empty());
    assert_eq!(clamp_i16(-40000), -32768);
    assert_eq!(clamp_i8(5), 5);
    assert_eq!(modifier_mask(0x37), Some(FLAG_COMMAND));
    assert_eq!(modifier_mask(0x00), None);
}

#[test]
fn setup_is_ready_with_a_key_and_a_host() {
    let mut c = Config::default();
    assert!(!config_ready(&c, Some("env-key")));
    c.peer_host = "pc.local".into();
    assert!(config_ready(&c, Some("env-key")));
    assert!(!config_ready(&c, None));
    c.shared_secret = "k".into();
    assert!(config_ready(&c, None));
}

#[test]
fn the_status_byte_roundtrips_and_unknown_is_setup_needed() {
    for s in [
        ConnStatus::ConfigNeeded,
        ConnStatus::Connecting,
        ConnStatus::Connected,
        ConnStatus::Disconnected,
        ConnStatus::HandshakeFailed,
    ] {
        assert_eq!(ConnStatus::from_u8(s.to_u8()), s);
    }
    assert_eq!(ConnStatus::from_u8(200), ConnStatus::ConfigNeeded);
}

#[test]
fn menu_bar_titles() {
    assert_eq!(title_for(true, ConnStatus::Connected), "\u{1F7E2} ACTIVE");
    assert_eq!(title_for(false, ConnStatus::Connected), "\u{1F512} INACTIVE");
    assert_eq!(title_for(true, ConnStatus::Disconnected), "\u{26A0}\u{FE0F} ACTIVE (no connection)");
    assert_eq!(title_for(false, ConnStatus::Connecting), "\u{23F3} Connecting\u{2026}");
    assert_eq!(title_for(true, ConnStatus::ConfigNeeded), "\u{2699}\u{FE0F} Setup needed");
    assert_eq!(status_title(true, 2, true), "\u{26D4} Permission needed");
    assert_eq!(status_title(false, 4, false), "\u{1F511} Key mismatch");
}

#[test]
fn the_connection_loop() {
    assert_eq!(
        link_step(LinkEvent::Attempt { ready: false }),
        LinkStep { status: Some(ConnStatus::ConfigNeeded), action: LinkAction::Retry }
    );
    assert_eq!(
        link_step(LinkEvent::Attempt { ready: true }),
        LinkStep { status: Some(ConnStatus::Connecting), action: LinkAction::Dial }
    );
    assert_eq!(link_step(LinkEvent::Dialed { ok: true }), LinkStep { status: None, action: LinkAction::Handshake });
    assert_eq!(
        link_step(LinkEvent::Dialed { ok: false }),
        LinkStep { status: Some(ConnStatus::Disconnected), action: LinkAction::Retry }
    );
    assert_eq!(
        link_step(LinkEvent::Handshake { ok: false }),
        LinkStep { status: Some(ConnStatus::HandshakeFailed), action: LinkAction::Retry }
    );
    assert_eq!(
        link_step(LinkEvent::Handshake { ok: true }),
        LinkStep { status: Some(ConnStatus::Connected), action: LinkAction::StartSending }
    );
    assert_eq!(
        link_step(LinkEvent::Pass { dirty: true, sent: None }),
        LinkStep { status: Some(ConnStatus::Connecting), action: LinkAction::Reconnect }
    );
    assert_eq!(
        link_step(LinkEvent::Pass { dirty: false, sent: Some(false) }),
        LinkStep { status: Some(ConnStatus::Disconnected), action: LinkAction::Reconnect }
    );
    assert_eq!(link_step(LinkEvent::Pass { dirty: false, sent: Some(true) }), LinkStep { status: None, action: LinkAction::Send });
    assert_eq!(link_step(LinkEvent::Pass { dirty: false, sent: None }), LinkStep { status: None, action: LinkAction::Send });
    assert_eq!(dial_deadline(1000), 5000);
    assert_eq!(dial_deadline(u64::MAX - 1), u64::MAX);
    assert!(retry_dial(4999, 5000));
    assert!(!retry_dial(5000, 5000));
}

#[test]
fn double_tap_counts_from_the_last_press_with_other_events_between() {
    let mut s = CaptureState::new();
    assert_eq!(fn_press(&mut s, 0), None);
    assert_eq!(fn_press(&mut s, 400), Some(true)); // exactly the window: toggles
    // typing between the two presses does not disturb the count
    assert_eq!(fn_press(&mut s, 10_000), None);
    let k = s.on_event(&ev(TapKind::KeyDown, 0x00, 0), 10_050);
    assert_eq!(k.verdict, Verdict::Drop);
    let fn_down = s.on_event(&ev(TapKind::FlagsChanged, FN_KEYCODE, FLAG_SECONDARY_FN), 10_401);
    // 401 ms after the last press: no toggle, and this press becomes the one to beat
    assert_eq!(fn_down.toggled, None);
    assert_eq!(fn_down.verdict, Verdict::Drop);
    assert!(fn_down.sends.is_empty());
    s.on_event(&ev(TapKind::FlagsChanged, FN_KEYCODE, 0), 10_420);
    let off = s.on_event(&ev(TapKind::FlagsChanged, FN_KEYCODE, FLAG_SECONDARY_FN), 10_700);
    assert_eq!(off.toggled, Some(false));
    // Fn itself is passed on to the Mac once INACTIVE, and never sent
    assert_eq!(off.verdict, Verdict::Keep);
    assert_eq!(off.sends, vec![InputEvent::Key(KeyEvent { msg: MsgType::Up, hid_usage: 0x04, modifiers: 0 })]);
}
