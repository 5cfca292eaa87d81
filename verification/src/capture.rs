//! The sender's capture state machine: double-tap Fn toggles between INACTIVE
//! (the Mac works normally, nothing is sent) and ACTIVE (every key and mouse
//! event is translated, sent, and suppressed on the Mac). The event tap feeds
//! each event in; what to send, whether to suppress, and whether the cursor
//! must be frozen or released come back out.

use std::collections::HashSet;

use vstd::prelude::*;

use crate::config::Config;
use crate::held::{lists_once, set_elements};
use crate::keymap::{mac_hid, mac_keycode_to_hid};
use crate::secure::{psk_from_config_or_env, psk_of};
use crate::wire::{InputEvent, KeyEvent, MsgType, BUTTON_LEFT, BUTTON_MIDDLE, BUTTON_RIGHT};

verus! {

broadcast use vstd::std_specs::hash::group_hash_axioms;

/// kVK_Function (Fn / Globe).
pub const FN_KEYCODE: i64 = 0x3F;
/// kVK_CapsLock: its flag is a toggle, not a physical state.
pub const CAPSLOCK_KEYCODE: i64 = 0x39;
/// Two Fn presses at most this far apart are a double tap.
pub const DOUBLE_TAP_MS: u64 = 400;
/// Events queued while disconnected beyond this are dropped.
pub const EVENT_QUEUE_CAP: usize = 128;

/// CGEventFlags bits.
pub const FLAG_ALPHA_SHIFT: u64 = 0x0001_0000;
pub const FLAG_SHIFT: u64 = 0x0002_0000;
pub const FLAG_CONTROL: u64 = 0x0004_0000;
pub const FLAG_ALTERNATE: u64 = 0x0008_0000;
pub const FLAG_COMMAND: u64 = 0x0010_0000;
pub const FLAG_SECONDARY_FN: u64 = 0x0080_0000;

/// Which kind of event the tap delivered.
#[derive(Clone, Copy, PartialEq, Eq, Debug, Structural)]
pub enum TapKind {
    /// The system disabled the tap (timeout or user input).
    TapDisabled,
    KeyDown,
    KeyUp,
    FlagsChanged,
    MouseMoved,
    LeftMouseDragged,
    RightMouseDragged,
    OtherMouseDragged,
    LeftMouseDown,
    LeftMouseUp,
    RightMouseDown,
    RightMouseUp,
    OtherMouseDown,
    OtherMouseUp,
    ScrollWheel,
    Other,
}

/// The fields the tap reads from an event.
#[derive(Clone, Copy, PartialEq, Eq, Debug, Structural)]
pub struct TapEvent {
    pub kind: TapKind,
    pub keycode: i64,
    pub flags: u64,
    pub autorepeat: i64,
    pub delta_x: i64,
    pub delta_y: i64,
    pub button_number: i64,
    pub scroll_axis1: i64,
    pub scroll_axis2: i64,
}

/// What the tap does with the event on the Mac.
#[derive(Clone, Copy, PartialEq, Eq, Debug, Structural)]
pub enum Verdict {
    Keep,
    Drop,
}

/// What handling one event produced.
pub struct TapOutcome {
    pub verdict: Verdict,
    /// Events to queue for the peer, in order.
    pub sends: Vec<InputEvent>,
    /// `Some(true)`: just became ACTIVE (freeze the cursor); `Some(false)`:
    /// just became INACTIVE (release it).
    pub toggled: Option<bool>,
    /// The tap was disabled by the system and must be re-enabled.
    pub reenable: bool,
}

/// The capture state.
pub struct CaptureState {
    active: bool,
    fn_down: bool,
    last_fn_press: Option<u64>,
    /// HID usages sent Down to the peer while ACTIVE.
    held: HashSet<u16>,
}

/// The CGEventFlags mask that tells a modifier key's state.
pub open spec fn modifier_mask_of(kc: i64) -> Option<u64> {
    if kc == 0x37 || kc == 0x36 {
        Some(FLAG_COMMAND)
    } else if kc == 0x38 || kc == 0x3C {
        Some(FLAG_SHIFT)
    } else if kc == 0x3A || kc == 0x3D {
        Some(FLAG_ALTERNATE)
    } else if kc == 0x3B || kc == 0x3E {
        Some(FLAG_CONTROL)
    } else if kc == 0x39 {
        Some(FLAG_ALPHA_SHIFT)
    } else {
        None
    }
}

/// The flag whose state says whether a modifier key is down, if the key is
/// a modifier.
pub fn modifier_mask(kc: i64) -> (r: Option<u64>)
    ensures
        r == modifier_mask_of(kc),
{
    if kc == 0x37 || kc == 0x36 {
        Some(FLAG_COMMAND)
    } else if kc == 0x38 || kc == 0x3C {
        Some(FLAG_SHIFT)
    } else if kc == 0x3A || kc == 0x3D {
        Some(FLAG_ALTERNATE)
    } else if kc == 0x3B || kc == 0x3E {
        Some(FLAG_CONTROL)
    } else if kc == 0x39 {
        Some(FLAG_ALPHA_SHIFT)
    } else {
        None
    }
}

/// `v` clamped to the i16 range.
pub open spec fn clamp16(v: i64) -> i16 {
    if v < -32768 {
        -32768i16
    } else if v > 32767 {
        32767i16
    } else {
        v as i16
    }
}

/// `v` clamped to the i8 range.
pub open spec fn clamp8(v: i64) -> i8 {
    if v < -128 {
        -128i8
    } else if v > 127 {
        127i8
    } else {
        v as i8
    }
}

/// `v` clamped to the i16 range.
pub fn clamp_i16(v: i64) -> (r: i16)
    ensures
        r == clamp16(v),
{
    if v < -32768 {
        -32768
    } else if v > 32767 {
        32767
    } else {
        v as i16
    }
}

/// `v` clamped to the i8 range.
pub fn clamp_i8(v: i64) -> (r: i8)
    ensures
        r == clamp8(v),
{
    if v < -128 {
        -128
    } else if v > 127 {
        127
    } else {
        v as i8
    }
}

/// A key record with no modifiers.
pub open spec fn key(msg: MsgType, hid: u16) -> InputEvent {
    InputEvent::Key(KeyEvent { msg, hid_usage: hid, modifiers: 0 })
}

/// Time since `t`, zero if the clock went backwards.
pub open spec fn since(now: u64, t: u64) -> u64 {
    if now >= t {
        (now - t) as u64
    } else {
        0
    }
}

/// The events an ACTIVE tap sends for a non-Fn event.
pub open spec fn active_sends(ev: TapEvent) -> Seq<InputEvent> {
    let kc = ev.keycode;
    match ev.kind {
        TapKind::KeyDown => if ev.autorepeat == 0 && mac_hid(kc) is Some {
            seq![key(MsgType::Down, mac_hid(kc)->Some_0)]
        } else {
            seq![]
        },
        TapKind::KeyUp => if mac_hid(kc) is Some {
            seq![key(MsgType::Up, mac_hid(kc)->Some_0)]
        } else {
            seq![]
        },
        TapKind::FlagsChanged => if kc == CAPSLOCK_KEYCODE {
            if mac_hid(kc) is Some {
                seq![key(MsgType::Down, mac_hid(kc)->Some_0), key(MsgType::Up, mac_hid(kc)->Some_0)]
            } else {
                seq![]
            }
        } else if mac_hid(kc) is Some && modifier_mask_of(kc) is Some {
            seq![
                key(
                    if ev.flags & modifier_mask_of(kc)->Some_0 != 0 {
                        MsgType::Down
                    } else {
                        MsgType::Up
                    },
                    mac_hid(kc)->Some_0,
                ),
            ]
        } else {
            seq![]
        },
        TapKind::MouseMoved | TapKind::LeftMouseDragged | TapKind::RightMouseDragged
        | TapKind::OtherMouseDragged => if clamp16(ev.delta_x) != 0 || clamp16(ev.delta_y) != 0 {
            seq![InputEvent::MouseMove { dx: clamp16(ev.delta_x), dy: clamp16(ev.delta_y) }]
        } else {
            seq![]
        },
        TapKind::LeftMouseDown => seq![InputEvent::MouseButton { button: BUTTON_LEFT, down: true }],
        TapKind::LeftMouseUp => seq![InputEvent::MouseButton { button: BUTTON_LEFT, down: false }],
        TapKind::RightMouseDown => seq![InputEvent::MouseButton { button: BUTTON_RIGHT, down: true }],
        TapKind::RightMouseUp => seq![InputEvent::MouseButton { button: BUTTON_RIGHT, down: false }],
        TapKind::OtherMouseDown => if ev.button_number == 2 {
            seq![InputEvent::MouseButton { button: BUTTON_MIDDLE, down: true }]
        } else {
            seq![]
        },
        TapKind::OtherMouseUp => if ev.button_number == 2 {
            seq![InputEvent::MouseButton { button: BUTTON_MIDDLE, down: false }]
        } else {
            seq![]
        },
        TapKind::ScrollWheel => if clamp8(ev.scroll_axis2) != 0 || clamp8(ev.scroll_axis1) != 0 {
            seq![InputEvent::Scroll { dx: clamp8(ev.scroll_axis2), dy: clamp8(ev.scroll_axis1) }]
        } else {
            seq![]
        },
        _ => seq![],
    }
}

/// The usage an ACTIVE tap starts holding for an event, if any.
pub open spec fn pressed_by(ev: TapEvent) -> Option<u16> {
    let kc = ev.keycode;
    if ev.kind == TapKind::KeyDown && ev.autorepeat == 0 {
        mac_hid(kc)
    } else if ev.kind == TapKind::FlagsChanged && kc != CAPSLOCK_KEYCODE && mac_hid(kc) is Some
        && modifier_mask_of(kc) is Some && ev.flags & modifier_mask_of(kc)->Some_0 != 0 {
        mac_hid(kc)
    } else {
        None
    }
}

/// The usage an ACTIVE tap stops holding for an event, if any.
pub open spec fn released_by(ev: TapEvent) -> Option<u16> {
    let kc = ev.keycode;
    if ev.kind == TapKind::KeyUp {
        mac_hid(kc)
    } else if ev.kind == TapKind::FlagsChanged && kc != CAPSLOCK_KEYCODE && mac_hid(kc) is Some
        && modifier_mask_of(kc) is Some && ev.flags & modifier_mask_of(kc)->Some_0 == 0 {
        mac_hid(kc)
    } else {
        None
    }
}

/// What the Fn toggle remembers between events.
pub struct FnModel {
    pub active: bool,
    pub fn_down: bool,
    pub last_press: Option<u64>,
}

/// An event of the Fn key itself (not a disabled-tap notice).
pub open spec fn is_fn_event(ev: TapEvent) -> bool {
    ev.kind != TapKind::TapDisabled && ev.keycode == FN_KEYCODE
}

/// The event reports Fn as down.
pub open spec fn fn_pressed(ev: TapEvent) -> bool {
    ev.flags & FLAG_SECONDARY_FN != 0
}

/// How one event at `now` moves the Fn toggle: only Fn events count; a rising
/// edge within `DOUBLE_TAP_MS` of the remembered press flips ACTIVE and
/// forgets the press, any other rising edge is remembered.
pub open spec fn fn_step(m: FnModel, ev: TapEvent, now: u64) -> FnModel {
    if !is_fn_event(ev) {
        m
    } else {
        let rising = fn_pressed(ev) && !m.fn_down;
        let double = rising && (m.last_press matches Some(t) && since(now, t) <= DOUBLE_TAP_MS);
        FnModel {
            active: if double { !m.active } else { m.active },
            fn_down: fn_pressed(ev),
            last_press: if double { None } else if rising { Some(now) } else { m.last_press },
        }
    }
}

/// The Fn toggle after a sequence of timed events.
pub open spec fn fn_run(m: FnModel, evs: Seq<(TapEvent, u64)>) -> FnModel
    decreases evs.len(),
{
    if evs.len() == 0 {
        m
    } else {
        fn_run(fn_step(m, evs[0].0, evs[0].1), evs.drop_first())
    }
}

/// No event of `evs` reports Fn down.
pub open spec fn no_fn_press(evs: Seq<(TapEvent, u64)>) -> bool {
    forall|i: int| 0 <= i < evs.len() ==> !(is_fn_event(#[trigger] evs[i].0) && fn_pressed(evs[i].0))
}

/// Some event of `evs` reports Fn up.
pub open spec fn has_fn_release(evs: Seq<(TapEvent, u64)>) -> bool {
    exists|i: int| 0 <= i < evs.len() && is_fn_event(#[trigger] evs[i].0) && !fn_pressed(evs[i].0)
}

proof fn lemma_fn_run_append(m: FnModel, a: Seq<(TapEvent, u64)>, b: Seq<(TapEvent, u64)>)
    ensures
        fn_run(m, a + b) == fn_run(fn_run(m, a), b),
    decreases a.len(),
{
    if a.len() == 0 {
        assert(a + b =~= b);
    } else {
        assert((a + b)[0] == a[0]);
        assert((a + b).drop_first() =~= a.drop_first() + b);
        lemma_fn_run_append(fn_step(m, a[0].0, a[0].1), a.drop_first(), b);
    }
}

proof fn lemma_fn_run_releases(m: FnModel, evs: Seq<(TapEvent, u64)>)
    requires
        no_fn_press(evs),
    ensures
        fn_run(m, evs).active == m.active,
        fn_run(m, evs).last_press == m.last_press,
        fn_run(m, evs).fn_down == (if has_fn_release(evs) { false } else { m.fn_down }),
    decreases evs.len(),
{
    if evs.len() > 0 {
        let m1 = fn_step(m, evs[0].0, evs[0].1);
        let rest = evs.drop_first();
        assert(no_fn_press(rest)) by {
            assert forall|i: int| 0 <= i < rest.len() implies !(is_fn_event(#[trigger] rest[i].0) && fn_pressed(rest[i].0)) by {
                assert(rest[i] == evs[i + 1]);
            }
        }
        assert(!(is_fn_event(evs[0].0) && fn_pressed(evs[0].0)));
        lemma_fn_run_releases(m1, rest);
        if has_fn_release(rest) {
            let k = choose|k: int| 0 <= k < rest.len() && is_fn_event(#[trigger] rest[k].0) && !fn_pressed(rest[k].0);
            assert(evs[k + 1] == rest[k]);
            assert(has_fn_release(evs));
        } else if is_fn_event(evs[0].0) {
            assert(has_fn_release(evs));
        } else if has_fn_release(evs) {
            let k = choose|k: int| 0 <= k < evs.len() && is_fn_event(#[trigger] evs[k].0) && !fn_pressed(evs[k].0);
            assert(k != 0);
            assert(rest[k - 1] == evs[k]);
        }
    }
}

/// The double tap, over a whole run of events: a press of Fn at `t1` that
/// does not itself complete a double tap, then events that let Fn go and
/// never press it, then a press at `t2`.  Within `DOUBLE_TAP_MS` the second
/// press flips ACTIVE (and a further such pair flips it back); later than
/// that it flips nothing and becomes the press to beat.
pub proof fn lemma_double_tap(
    m: FnModel,
    first: TapEvent,
    t1: u64,
    between: Seq<(TapEvent, u64)>,
    second: TapEvent,
    t2: u64,
)
    requires
        !m.fn_down,
        !(m.last_press matches Some(t) && since(t1, t) <= DOUBLE_TAP_MS),
        is_fn_event(first) && fn_pressed(first),
        is_fn_event(second) && fn_pressed(second),
        no_fn_press(between),
        has_fn_release(between),
        t1 <= t2,
    ensures
        ({
            let r = fn_run(m, seq![(first, t1)] + between + seq![(second, t2)]);
            &&& t2 - t1 <= DOUBLE_TAP_MS ==> r.active == !m.active && r.last_press is None
            &&& t2 - t1 > DOUBLE_TAP_MS ==> r.active == m.active && r.last_press == Some(t2)
            &&& r.fn_down
        }),
{
    let a = seq![(first, t1)];
    let c = seq![(second, t2)];
    lemma_fn_run_append(m, a + between, c);
    lemma_fn_run_append(m, a, between);
    let m1 = fn_run(m, a);
    assert(a.drop_first() =~= Seq::<(TapEvent, u64)>::empty());
    assert(a[0] == (first, t1));
    assert(fn_run(fn_step(m, first, t1), a.drop_first()) == fn_step(m, first, t1));
    assert(m1 == fn_step(m, first, t1));
    assert(m1.last_press == Some(t1) && m1.fn_down && m1.active == m.active);
    lemma_fn_run_releases(m1, between);
    let m2 = fn_run(m1, between);
    assert(c.drop_first() =~= Seq::<(TapEvent, u64)>::empty());
    assert(c[0] == (second, t2));
    assert(fn_run(fn_step(m2, second, t2), c.drop_first()) == fn_step(m2, second, t2));
    assert(fn_run(m2, c) == fn_step(m2, second, t2));
}

/// Buttons keep their identity: the left button is the PC's left button,
/// the right button its right one, the Mac's third button its middle one;
/// each event is one press or release, and no other button is forwarded.
pub proof fn lemma_mouse_buttons_keep_their_button(ev: TapEvent)
    ensures
        ev.kind == TapKind::LeftMouseDown ==> active_sends(ev) == seq![
            (InputEvent::MouseButton { button: BUTTON_LEFT, down: true }),
        ],
        ev.kind == TapKind::LeftMouseUp ==> active_sends(ev) == seq![
            (InputEvent::MouseButton { button: BUTTON_LEFT, down: false }),
        ],
        ev.kind == TapKind::RightMouseDown ==> active_sends(ev) == seq![
            (InputEvent::MouseButton { button: BUTTON_RIGHT, down: true }),
        ],
        ev.kind == TapKind::RightMouseUp ==> active_sends(ev) == seq![
            (InputEvent::MouseButton { button: BUTTON_RIGHT, down: false }),
        ],
        (ev.kind == TapKind::OtherMouseDown && ev.button_number == 2) ==> active_sends(ev) == seq![
            (InputEvent::MouseButton { button: BUTTON_MIDDLE, down: true }),
        ],
        (ev.kind == TapKind::OtherMouseUp && ev.button_number == 2) ==> active_sends(ev) == seq![
            (InputEvent::MouseButton { button: BUTTON_MIDDLE, down: false }),
        ],
        ((ev.kind == TapKind::OtherMouseDown || ev.kind == TapKind::OtherMouseUp) && ev.button_number != 2)
            ==> active_sends(ev).len() == 0,
        BUTTON_LEFT != BUTTON_RIGHT && BUTTON_RIGHT != BUTTON_MIDDLE && BUTTON_LEFT != BUTTON_MIDDLE,
{
}

/// A press with no remembered press before it never toggles.
pub proof fn lemma_lone_press_keeps_state(m: FnModel, ev: TapEvent, now: u64)
    requires
        m.last_press is None,
    ensures
        fn_step(m, ev, now).active == m.active,
{
}

impl CaptureState {
    /// ACTIVE (forwarding) or INACTIVE.
    pub closed spec fn is_active(&self) -> bool {
        self.active
    }

    /// The usages currently held down on the peer.
    pub closed spec fn held_keys(&self) -> Set<u16> {
        self.held@
    }

    /// Whether the Fn key is currently down.
    pub closed spec fn fn_is_down(&self) -> bool {
        self.fn_down
    }

    /// When Fn was last pressed without completing a double tap.
    pub closed spec fn last_press(&self) -> Option<u64> {
        self.last_fn_press
    }

    /// The Fn toggle's memory.
    pub open spec fn fn_model(&self) -> FnModel {
        FnModel { active: self.is_active(), fn_down: self.fn_is_down(), last_press: self.last_press() }
    }

    /// INACTIVE, nothing held, no Fn press seen.
    pub fn new() -> (s: CaptureState)
        ensures
            !s.is_active(),
            s.held_keys() == Set::<u16>::empty(),
            !s.fn_is_down(),
            s.last_press() is None,
    {
        CaptureState { active: false, fn_down: false, last_fn_press: None, held: HashSet::new() }
    }

    /// Is the tap ACTIVE (forwarding and suppressing)?
    pub fn active(&self) -> (b: bool)
        ensures
            b == self.is_active(),
    {
        self.active
    }

    /// Handle one tap event at time `now_ms`.
    pub fn on_event(&mut self, ev: &TapEvent, now_ms: u64) -> (out: TapOutcome)
        ensures
            // a disabled tap is re-enabled and nothing else happens
            ev.kind == TapKind::TapDisabled ==> out.reenable && out.verdict == Verdict::Keep
                && out.sends@.len() == 0 && out.toggled is None && final(self).is_active() == old(self).is_active()
                && final(self).held_keys() == old(self).held_keys(),
            ev.kind != TapKind::TapDisabled ==> !out.reenable,
            // the Fn toggle's memory moves by `fn_step`
            final(self).fn_model() == fn_step(old(self).fn_model(), *ev, now_ms),
            // Fn: a rising edge within DOUBLE_TAP_MS of the last press toggles
            (ev.kind != TapKind::TapDisabled && ev.keycode == FN_KEYCODE) ==> {
                let now_down = ev.flags & FLAG_SECONDARY_FN != 0;
                let rising = now_down && !old(self).fn_is_down();
                let double = rising && (old(self).last_press() matches Some(t) && since(now_ms, t) <= DOUBLE_TAP_MS);
                &&& final(self).fn_is_down() == now_down
                &&& final(self).is_active() == (if double { !old(self).is_active() } else { old(self).is_active() })
                &&& out.toggled == (if double { Some(final(self).is_active()) } else { None })
                &&& final(self).last_press() == (if double { None } else if rising { Some(now_ms) } else { old(self).last_press() })
                // leaving ACTIVE releases every held key on the peer, and nothing stays held
                &&& (double && old(self).is_active()) ==> ((exists|ks: Seq<u16>|
                    #[trigger] lists_once(ks, old(self).held_keys()) && out.sends@ == ks.map_values(
                        |h: u16| key(MsgType::Up, h),
                    )) && out.sends@.no_duplicates() && final(self).held_keys() == Set::<u16>::empty())
                &&& !(double && old(self).is_active()) ==> (out.sends@.len() == 0
                    && final(self).held_keys() == old(self).held_keys())
                // Fn itself is never forwarded, and is suppressed only while ACTIVE
                &&& out.verdict == (if final(self).is_active() { Verdict::Drop } else { Verdict::Keep })
            },
            // INACTIVE: the Mac works normally; nothing is sent or suppressed
            (ev.kind != TapKind::TapDisabled && ev.keycode != FN_KEYCODE && !old(self).is_active())
                ==> out.verdict == Verdict::Keep && out.sends@.len() == 0 && out.toggled is None
                && !final(self).is_active() && final(self).held_keys() == old(self).held_keys(),
            // ACTIVE: each mouse button is forwarded as exactly one press or
            // release of that same button (other buttons than the middle one
            // are not forwarded)
            (ev.kind != TapKind::TapDisabled && ev.keycode != FN_KEYCODE && old(self).is_active()) ==> {
                &&& ev.kind == TapKind::LeftMouseDown ==> out.sends@ == seq![
                    (InputEvent::MouseButton { button: BUTTON_LEFT, down: true }),
                ]
                &&& ev.kind == TapKind::LeftMouseUp ==> out.sends@ == seq![
                    (InputEvent::MouseButton { button: BUTTON_LEFT, down: false }),
                ]
                &&& ev.kind == TapKind::RightMouseDown ==> out.sends@ == seq![
                    (InputEvent::MouseButton { button: BUTTON_RIGHT, down: true }),
                ]
                &&& ev.kind == TapKind::RightMouseUp ==> out.sends@ == seq![
                    (InputEvent::MouseButton { button: BUTTON_RIGHT, down: false }),
                ]
                &&& (ev.kind == TapKind::OtherMouseDown && ev.button_number == 2) ==> out.sends@ == seq![
                    (InputEvent::MouseButton { button: BUTTON_MIDDLE, down: true }),
                ]
                &&& (ev.kind == TapKind::OtherMouseUp && ev.button_number == 2) ==> out.sends@ == seq![
                    (InputEvent::MouseButton { button: BUTTON_MIDDLE, down: false }),
                ]
                &&& ((ev.kind == TapKind::OtherMouseDown || ev.kind == TapKind::OtherMouseUp) && ev.button_number != 2)
                    ==> out.sends@.len() == 0
            },
            // ACTIVE: translate, send, suppress, and track what is held
            (ev.kind != TapKind::TapDisabled && ev.keycode != FN_KEYCODE && old(self).is_active())
                ==> out.verdict == Verdict::Drop && out.sends@ == active_sends(*ev) && out.toggled is None
                && final(self).is_active() && (forall|x: u16| final(self).held_keys().contains(x) <==> (
                (old(self).held_keys().contains(x) && released_by(*ev) != Some(x)) || pressed_by(*ev) == Some(x))),
    {
        let mut sends: Vec<InputEvent> = Vec::new();
        if ev.kind == TapKind::TapDisabled {
            return TapOutcome { verdict: Verdict::Keep, sends, toggled: None, reenable: true };
        }
        let kc = ev.keycode;
        if kc == FN_KEYCODE {
            let now_down = ev.flags & FLAG_SECONDARY_FN != 0;
            let mut toggled: Option<bool> = None;
            if now_down && !self.fn_down {
                let is_double = match self.last_fn_press {
                    Some(t) => {
                        let elapsed = if now_ms >= t {
                            now_ms - t
                        } else {
                            0
                        };
                        elapsed <= DOUBLE_TAP_MS
                    },
                    None => false,
                };
                if is_double {
                    self.last_fn_press = None;
                    self.active = !self.active;
                    if !self.active {
                        let ks = set_elements(&self.held);
                        let mut i: usize = 0;
                        while i < ks.len()
                            invariant
                                i <= ks@.len(),
                                sends@ == ks@.subrange(0, i as int).map_values(|h: u16| key(MsgType::Up, h)),
                            decreases ks@.len() - i,
                        {
                            sends.push(InputEvent::Key(KeyEvent { msg: MsgType::Up, hid_usage: ks[i], modifiers: 0 }));
                            i += 1;
                            assert(sends@ =~= ks@.subrange(0, i as int).map_values(|h: u16| key(MsgType::Up, h)));
                        }
                        assert(ks@.subrange(0, ks@.len() as int) =~= ks@);
                        assert forall|a: int, b: int| 0 <= a < b < sends@.len() implies sends@[a] != sends@[b] by {
                            assert(sends@[a] == key(MsgType::Up, ks@[a]) && sends@[b] == key(MsgType::Up, ks@[b]));
                            assert(ks@[a] != ks@[b]);
                        }
                        assert(lists_once(ks@, old(self).held_keys()));
                        self.held.clear();
                    }
                    toggled = Some(self.active);
                } else {
                    self.last_fn_press = Some(now_ms);
                }
            }
            self.fn_down = now_down;
            let verdict = if self.active {
                Verdict::Drop
            } else {
                Verdict::Keep
            };
            return TapOutcome { verdict, sends, toggled, reenable: false };
        }
        if !self.active {
            return TapOutcome { verdict: Verdict::Keep, sends, toggled: None, reenable: false };
        }
        match ev.kind {
            TapKind::KeyDown => {
                if ev.autorepeat == 0 {
                    if let Some(hid) = mac_keycode_to_hid(kc) {
                        self.held.insert(hid);
                        sends.push(InputEvent::Key(KeyEvent { msg: MsgType::Down, hid_usage: hid, modifiers: 0 }));
                    }
                }
            },
            TapKind::KeyUp => {
                if let Some(hid) = mac_keycode_to_hid(kc) {
                    self.held.remove(&hid);
                    sends.push(InputEvent::Key(KeyEvent { msg: MsgType::Up, hid_usage: hid, modifiers: 0 }));
                }
            },
            TapKind::FlagsChanged => {
                if kc == CAPSLOCK_KEYCODE {
                    if let Some(hid) = mac_keycode_to_hid(kc) {
                        sends.push(InputEvent::Key(KeyEvent { msg: MsgType::Down, hid_usage: hid, modifiers: 0 }));
                        sends.push(InputEvent::Key(KeyEvent { msg: MsgType::Up, hid_usage: hid, modifiers: 0 }));
                    }
                } else {
                    match (mac_keycode_to_hid(kc), modifier_mask(kc)) {
                        (Some(hid), Some(mask)) => {
                            let down = ev.flags & mask != 0;
                            if down {
                                self.held.insert(hid);
                            } else {
                                self.held.remove(&hid);
                            }
                            let msg = if down {
                                MsgType::Down
                            } else {
                                MsgType::Up
                            };
                            sends.push(InputEvent::Key(KeyEvent { msg, hid_usage: hid, modifiers: 0 }));
                        },
                        _ => {},
                    }
                }
            },
            TapKind::MouseMoved | TapKind::LeftMouseDragged | TapKind::RightMouseDragged
            | TapKind::OtherMouseDragged => {
                let dx = clamp_i16(ev.delta_x);
                let dy = clamp_i16(ev.delta_y);
                if dx != 0 || dy != 0 {
                    sends.push(InputEvent::MouseMove { dx, dy });
                }
            },
            TapKind::LeftMouseDown => {
                sends.push(InputEvent::MouseButton { button: BUTTON_LEFT, down: true });
            },
            TapKind::LeftMouseUp => {
                sends.push(InputEvent::MouseButton { button: BUTTON_LEFT, down: false });
            },
            TapKind::RightMouseDown => {
                sends.push(InputEvent::MouseButton { button: BUTTON_RIGHT, down: true });
            },
            TapKind::RightMouseUp => {
                sends.push(InputEvent::MouseButton { button: BUTTON_RIGHT, down: false });
            },
            TapKind::OtherMouseDown | TapKind::OtherMouseUp => {
                let down = ev.kind == TapKind::OtherMouseDown;
                if ev.button_number == 2 {
                    sends.push(InputEvent::MouseButton { button: BUTTON_MIDDLE, down });
                }
            },
            TapKind::ScrollWheel => {
                let dy = clamp_i8(ev.scroll_axis1);
                let dx = clamp_i8(ev.scroll_axis2);
                if dx != 0 || dy != 0 {
                    sends.push(InputEvent::Scroll { dx, dy });
                }
            },
            _ => {},
        }
        assert(sends@ =~= active_sends(*ev));
        TapOutcome { verdict: Verdict::Drop, sends, toggled: None, reenable: false }
    }
}

/// Is sender-side setup complete? A key in the config or the environment (its
/// value passed in), and a peer host.
pub fn config_ready(cfg: &Config, env_key: Option<&str>) -> (b: bool)
    ensures
        b == ((cfg.shared_secret@.len() > 0 || (env_key matches Some(s) && s@.len() > 0))
            && cfg.peer_host@.len() > 0),
{
    let k = psk_from_config_or_env(cfg, env_key);
    k.is_ok() && !cfg.peer_host.as_str().is_empty()
}

}
