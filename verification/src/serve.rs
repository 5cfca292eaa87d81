//! The receiver's bookkeeping: which keys and buttons the peer holds down (so
//! a dropped connection releases them), which connection is current, and the
//! guard that keeps pairing requests to one dialog at a time.

use std::collections::HashSet;

use vstd::prelude::*;

use crate::config::Config;
use crate::held::{lists_once, set_elements};
use crate::pairing::PAIR_DECISION_TIMEOUT_SECS;
use crate::text::{chars_of, extend_chars, string_from_chars};
use crate::wire::{InputEvent, KeyEvent, MsgType};

verus! {

broadcast use vstd::std_specs::hash::group_hash_axioms;

/// Connection state shown in the receiver's status line and tray.
#[derive(Clone, Copy, PartialEq, Eq, Debug, Structural)]
pub enum ConnStatus {
    /// Encrypted channel established.
    Connected,
    /// Connection closed or lost; listening again.
    Disconnected,
    /// Handshake failed: most likely the pairing key differs.
    HandshakeFailed,
}

/// After a decline, further pairing requests are refused for this long.
pub const PAIR_COOLDOWN_MS: u64 = 10_000;

/// What the peer holds down on this machine.
pub struct HeldInput {
    keys: HashSet<u16>,
    buttons: HashSet<u8>,
}

/// The release of a held key.
pub open spec fn key_up(h: u16) -> InputEvent {
    InputEvent::Key(KeyEvent { msg: MsgType::Up, hid_usage: h, modifiers: 0 })
}

/// The release of a held button.
pub open spec fn button_up(b: u8) -> InputEvent {
    InputEvent::MouseButton { button: b, down: false }
}

/// The held keys after an event: Down and Repeat hold a key, Up lets it go.
pub open spec fn keys_after(keys: Set<u16>, ev: InputEvent) -> Set<u16> {
    match ev {
        InputEvent::Key(k) => if k.msg == MsgType::Up {
            keys.remove(k.hid_usage)
        } else {
            keys.insert(k.hid_usage)
        },
        _ => keys,
    }
}

/// The held buttons after an event: a press holds the button, its release
/// lets it go.
pub open spec fn buttons_after(buttons: Set<u8>, ev: InputEvent) -> Set<u8> {
    match ev {
        InputEvent::MouseButton { button, down } => if down {
            buttons.insert(button)
        } else {
            buttons.remove(button)
        },
        _ => buttons,
    }
}

impl HeldInput {
    /// Held keys.
    pub closed spec fn keys_view(&self) -> Set<u16> {
        self.keys@
    }

    /// Held mouse buttons.
    pub closed spec fn buttons_view(&self) -> Set<u8> {
        self.buttons@
    }

    /// Nothing held.
    pub fn new() -> (h: HeldInput)
        ensures
            h.keys_view() == Set::<u16>::empty(),
            h.buttons_view() == Set::<u8>::empty(),
    {
        HeldInput { keys: HashSet::new(), buttons: HashSet::new() }
    }

    /// Note an incoming event: Down and Repeat hold a key, Up releases it; a
    /// button press holds the button, its release lets go. Moves and scrolls
    /// change nothing.
    pub fn on_event(&mut self, ev: &InputEvent)
        ensures
            final(self).keys_view() == keys_after(old(self).keys_view(), *ev),
            final(self).buttons_view() == buttons_after(old(self).buttons_view(), *ev),
    {
        match ev {
            InputEvent::Key(k) => match k.msg {
                MsgType::Down | MsgType::Repeat => {
                    self.keys.insert(k.hid_usage);
                },
                MsgType::Up => {
                    self.keys.remove(&k.hid_usage);
                },
            },
            InputEvent::MouseButton { button, down } => {
                if *down {
                    self.buttons.insert(*button);
                } else {
                    self.buttons.remove(button);
                }
            },
            _ => {},
        }
    }

    /// The connection is gone: release everything the peer held, each held
    /// key once and then each held button once. Afterwards nothing is held.
    pub fn release_all(&mut self) -> (v: Vec<InputEvent>)
        ensures
            final(self).keys_view() == Set::<u16>::empty(),
            final(self).buttons_view() == Set::<u8>::empty(),
            exists|ks: Seq<u16>, bs: Seq<u8>|
                #![trigger lists_once(ks, old(self).keys_view()), lists_once(bs, old(self).buttons_view())]
                lists_once(ks, old(self).keys_view()) && lists_once(bs, old(self).buttons_view()) && v@
                    == ks.map_values(|h: u16| key_up(h)) + bs.map_values(|b: u8| button_up(b)),
            // one release per held key and per held button, none twice
            v@.no_duplicates(),
    {
        let ks = set_elements(&self.keys);
        let bs = set_elements(&self.buttons);
        let mut v: Vec<InputEvent> = Vec::new();
        let mut i: usize = 0;
        while i < ks.len()
            invariant
                i <= ks@.len(),
                v@ == ks@.subrange(0, i as int).map_values(|h: u16| key_up(h)),
            decreases ks@.len() - i,
        {
            v.push(InputEvent::Key(KeyEvent { msg: MsgType::Up, hid_usage: ks[i], modifiers: 0 }));
            i += 1;
            assert(v@ =~= ks@.subrange(0, i as int).map_values(|h: u16| key_up(h)));
        }
        assert(ks@.subrange(0, ks@.len() as int) =~= ks@);
        let ghost after_keys = v@;
        let mut j: usize = 0;
        while j < bs.len()
            invariant
                j <= bs@.len(),
                v@ == after_keys + bs@.subrange(0, j as int).map_values(|b: u8| button_up(b)),
            decreases bs@.len() - j,
        {
            v.push(InputEvent::MouseButton { button: bs[j], down: false });
            j += 1;
            assert(v@ =~= after_keys + bs@.subrange(0, j as int).map_values(|b: u8| button_up(b)));
        }
        assert(bs@.subrange(0, bs@.len() as int) =~= bs@);
        proof {
            assert(lists_once(ks@, old(self).keys_view()) && lists_once(bs@, old(self).buttons_view()));
            assert(v@ == ks@.map_values(|h: u16| key_up(h)) + bs@.map_values(|b: u8| button_up(b)));
            let nk = ks@.len() as int;
            assert forall|a: int, b: int| 0 <= a < b < v@.len() implies v@[a] != v@[b] by {
                if b < nk {
                    assert(v@[a] == key_up(ks@[a]) && v@[b] == key_up(ks@[b]));
                    assert(ks@[a] != ks@[b]);
                } else if a >= nk {
                    assert(v@[a] == button_up(bs@[a - nk]) && v@[b] == button_up(bs@[b - nk]));
                    assert(bs@[a - nk] != bs@[b - nk]);
                } else {
                    assert(v@[a] == key_up(ks@[a]) && v@[b] == button_up(bs@[b - nk]));
                }
            }
        }
        self.keys.clear();
        self.buttons.clear();
        v
    }
}

/// The current connection's generation. A connection that dies late must not
/// clear the record of the newer one that replaced it.
pub struct ConnSlot {
    pub current: Option<u64>,
}

impl ConnSlot {
    /// Clear the slot if it still holds `my_gen`. True when it did: reporting
    /// the connection's status is then this connection's job.
    pub fn clear_if_current(&mut self, my_gen: u64) -> (b: bool)
        ensures
            b == (old(self).current == Some(my_gen)),
            final(self).current == (if b { None } else { old(self).current }),
    {
        match self.current {
            Some(g) => {
                if g == my_gen {
                    self.current = None;
                    true
                } else {
                    false
                }
            },
            None => false,
        }
    }
}

/// What the pairing guard does with an incoming request.
#[derive(Clone, Copy, PartialEq, Eq, Debug, Structural)]
pub enum GateDecision {
    /// Handle it: it now owns the dialog.
    Handle,
    /// Hang up: cooling down after a recent decline.
    Cooling,
    /// Hang up: another request owns the dialog.
    Busy,
}

/// One pairing dialog at a time, and a cooldown after a decline.
pub struct PairGate {
    pub busy: bool,
    pub cooldown_until: Option<u64>,
}

/// The answer to a pairing request at `now`: refused while cooling down, then
/// while another request is in flight, taken on otherwise.
pub open spec fn gate_decision(busy: bool, cooldown_until: Option<u64>, now: u64) -> GateDecision {
    if cooldown_until matches Some(t) && now < t {
        GateDecision::Cooling
    } else if busy {
        GateDecision::Busy
    } else {
        GateDecision::Handle
    }
}

/// When the cooldown a request finishing at `now` starts ends.
pub open spec fn cooldown_end(now: u64) -> u64 {
    if now <= u64::MAX - PAIR_COOLDOWN_MS {
        (now + PAIR_COOLDOWN_MS) as u64
    } else {
        u64::MAX
    }
}

impl PairGate {
    /// Nothing in flight, no cooldown.
    pub fn new() -> (g: PairGate)
        ensures
            !g.busy,
            g.cooldown_until is None,
    {
        PairGate { busy: false, cooldown_until: None }
    }

    /// A request arrives at `now`. One that is taken on holds the dialog.
    pub fn on_request(&mut self, now: u64) -> (d: GateDecision)
        ensures
            d == gate_decision(old(self).busy, old(self).cooldown_until, now),
            final(self).busy == (old(self).busy || d == GateDecision::Handle),
            final(self).cooldown_until == old(self).cooldown_until,
    {
        let cooling = match self.cooldown_until {
            Some(t) => now < t,
            None => false,
        };
        if cooling {
            return GateDecision::Cooling;
        }
        if self.busy {
            return GateDecision::Busy;
        }
        self.busy = true;
        GateDecision::Handle
    }

    /// The request that held the dialog finished at `now`. One that did not end in an
    /// accepted pairing starts the cooldown. The dialog is free again.
    pub fn finish(&mut self, accepted: bool, now: u64)
        ensures
            !final(self).busy,
            final(self).cooldown_until == (if accepted {
                old(self).cooldown_until
            } else {
                Some(cooldown_end(now))
            }),
    {
        if !accepted {
            let until = if now <= u64::MAX - PAIR_COOLDOWN_MS {
                now + PAIR_COOLDOWN_MS
            } else {
                u64::MAX
            };
            self.cooldown_until = Some(until);
        }
        self.busy = false;
    }
}

/// One dialog at a time: while a request is in flight no other is handled.
/// After a decline at `t`, no request before `t + PAIR_COOLDOWN_MS` is
/// handled.
pub proof fn lemma_gate_limits(busy: bool, cooldown_until: Option<u64>, t: u64, now: u64)
    requires
        t + PAIR_COOLDOWN_MS <= u64::MAX,
    ensures
        busy ==> gate_decision(busy, cooldown_until, now) != GateDecision::Handle,
        (t <= now && now < t + PAIR_COOLDOWN_MS) ==> gate_decision(busy, Some(cooldown_end(t)), now)
            == GateDecision::Cooling,
{
}

/// The pairing key to hand out: the config's, else `KEYBOARD_IT_KEY` (its
/// value passed in), else empty — the same precedence the session PSK uses,
/// so a pairing never hands over a key the listener does not expect.
pub fn secret_to_share(cfg: &Config, env_key: Option<&str>) -> (s: String)
    ensures
        s@ == (if cfg.shared_secret@.len() > 0 {
            cfg.shared_secret@
        } else {
            match env_key {
                Some(k) => k@,
                None => Seq::<char>::empty(),
            }
        }),
{
    if !cfg.shared_secret.as_str().is_empty() {
        return cfg.shared_secret.clone();
    }
    match env_key {
        Some(k) => k.to_owned(),
        None => String::new(),
    }
}

/// The receiver's status line for a connection state.
pub fn status_line(s: ConnStatus) -> (t: &'static str)
    ensures
        t@ == (match s {
            ConnStatus::Connected => "Connected — encrypted channel established."@,
            ConnStatus::Disconnected => "Connection closed — listening."@,
            ConnStatus::HandshakeFailed => "A Mac tried to connect with an old key — pair it again from the Mac."@,
        }),
{
    match s {
        ConnStatus::Connected => "Connected — encrypted channel established.",
        ConnStatus::Disconnected => "Connection closed — listening.",
        ConnStatus::HandshakeFailed => "A Mac tried to connect with an old key — pair it again from the Mac.",
    }
}

/// The tray's connection code: 0 waiting, 1 connected, 2 old key.
pub fn tray_conn_code(s: ConnStatus) -> (c: i32)
    ensures
        c == (match s {
            ConnStatus::Connected => 1i32,
            ConnStatus::Disconnected => 0i32,
            ConnStatus::HandshakeFailed => 2i32,
        }),
{
    match s {
        ConnStatus::Connected => 1,
        ConnStatus::Disconnected => 0,
        ConnStatus::HandshakeFailed => 2,
    }
}

/// Is there a key to listen with, in the configuration or the environment
/// (its value passed in)?  The listener starts on its own when there is; the
/// receiver makes one on first run so that there always is.
pub fn have_secret(cfg: &Config, env_key: Option<&str>) -> (b: bool)
    ensures
        b == (cfg.shared_secret@.len() > 0 || (env_key matches Some(k) && k@.len() > 0)),
{
    if !cfg.shared_secret.as_str().is_empty() {
        return true;
    }
    match env_key {
        Some(k) => !k.is_empty(),
        None => false,
    }
}

/// What a failed session handshake reports: `HandshakeFailed`, but only when
/// this connection is still the current one (a newer connection or a stop
/// owns the status otherwise) and the failure was not the network's (a
/// timeout, a reset or an early close is a scanner or a dropped link, not a
/// wrong key).
pub fn handshake_failure_report(still_current: bool, network_error: bool) -> (r: Option<ConnStatus>)
    ensures
        r == (if still_current && !network_error { Some(ConnStatus::HandshakeFailed) } else { None }),
{
    if still_current && !network_error {
        Some(ConnStatus::HandshakeFailed)
    } else {
        None
    }
}

// ----- the pairing dialog's answer -----

/// Where a pairing request waits for the user's answer.  The request parks
/// its reply channel here; the first click takes it, so a second click, or a
/// close after a click, answers nothing.
pub struct AnswerSlot<T> {
    waiting: Option<T>,
}

impl<T> AnswerSlot<T> {
    /// What is waiting for an answer.
    pub closed spec fn pending(&self) -> Option<T> {
        self.waiting
    }

    /// Nothing waiting.
    pub fn new() -> (s: AnswerSlot<T>)
        ensures
            s.pending() is None,
    {
        AnswerSlot { waiting: None }
    }

    /// A request waits for its answer.
    pub fn park(&mut self, t: T)
        ensures
            final(self).pending() == Some(t),
    {
        self.waiting = Some(t);
    }
}

/// Take what waits for an answer, at most once: afterwards nothing waits.
pub fn reply<T>(slot: &mut AnswerSlot<T>) -> (r: Option<T>)
    ensures
        r == old(slot).pending(),
        final(slot).pending() is None,
{
    slot.waiting.take()
}

/// What the PC answers a pairing request: only an explicit Allow pairs. No
/// answer (the deadline passed, or the dialog went away before a click) is a
/// decline, so an unattended PC never pairs itself.
pub fn pair_decision(answer: Option<bool>) -> (b: bool)
    ensures
        b == (answer == Some(true)),
{
    match answer {
        Some(yes) => yes,
        None => false,
    }
}

/// Milliseconds the dialog waits for a click before declining on its own.
pub open spec fn decision_timeout_ms() -> int {
    PAIR_DECISION_TIMEOUT_SECS * 1000
}

/// Whether a request shown at `shown_ms` has waited out its deadline at
/// `now_ms` (a clock that went back counts as no time passed).
pub fn decision_due(shown_ms: u64, now_ms: u64) -> (b: bool)
    ensures
        b == (now_ms >= shown_ms && now_ms - shown_ms >= decision_timeout_ms()),
{
    now_ms >= shown_ms && now_ms - shown_ms >= PAIR_DECISION_TIMEOUT_SECS * 1000
}

/// How answering went.
#[derive(Clone, Copy, PartialEq, Eq, Debug, Structural)]
pub enum ReplyOutcome {
    /// The answer was sent; whether the pairing thread was still there to
    /// receive it.
    Sent { delivered: bool },
    /// No request was waiting.
    NothingWaiting,
    /// The slot could not be read; the request stays unanswered.
    Unavailable,
}

fn bool_text(b: bool) -> (s: &'static str)
    ensures
        s@ == (if b { "true"@ } else { "false"@ }),
{
    if b { "true" } else { "false" }
}

/// The trace line for an answer: who answered, and what became of it.
pub open spec fn reply_note_text(who: Seq<char>, yes: bool, outcome: ReplyOutcome) -> Seq<char> {
    match outcome {
        ReplyOutcome::Sent { delivered } => who + " -> answer="@ + (if yes { "true"@ } else { "false"@ })
            + ", delivered to the pairing thread: "@ + (if delivered { "true"@ } else { "false"@ }),
        ReplyOutcome::NothingWaiting => who + " -> no request waiting (already answered, or timed out)"@,
        ReplyOutcome::Unavailable => who + " -> the answer slot is poisoned; request left unanswered"@,
    }
}

/// The trace line for an answer.
pub fn reply_note(who: &str, yes: bool, outcome: ReplyOutcome) -> (s: String)
    ensures
        s@ == reply_note_text(who@, yes, outcome),
{
    let mut cs: Vec<char> = chars_of(who);
    match outcome {
        ReplyOutcome::Sent { delivered } => {
            extend_chars(&mut cs, " -> answer=");
            extend_chars(&mut cs, bool_text(yes));
            extend_chars(&mut cs, ", delivered to the pairing thread: ");
            extend_chars(&mut cs, bool_text(delivered));
        },
        ReplyOutcome::NothingWaiting => {
            extend_chars(&mut cs, " -> no request waiting (already answered, or timed out)");
        },
        ReplyOutcome::Unavailable => {
            extend_chars(&mut cs, " -> the answer slot is poisoned; request left unanswered");
        },
    }
    string_from_chars(&cs)
}

/// The tray's placeholder icon: 16 by 16 pixels of one green, as RGBA.
pub fn placeholder_icon_rgba() -> (v: Vec<u8>)
    ensures
        v@.len() == 16 * 16 * 4,
        forall|i: int| 0 <= i < 256 ==> #[trigger] v@.subrange(4 * i, 4 * i + 4) == seq![0x2eu8, 0x7du8, 0x32u8, 0xffu8],
{
    let mut v: Vec<u8> = Vec::new();
    let mut k: usize = 0;
    while k < 256
        invariant
            k <= 256,
            v@.len() == 4 * k,
            forall|i: int| 0 <= i < k ==> #[trigger] v@.subrange(4 * i, 4 * i + 4) == seq![0x2eu8, 0x7du8, 0x32u8, 0xffu8],
        decreases 256 - k,
    {
        let ghost before = v@;
        v.push(0x2e);
        v.push(0x7d);
        v.push(0x32);
        v.push(0xff);
        assert forall|i: int| 0 <= i < k + 1 implies #[trigger] v@.subrange(4 * i, 4 * i + 4) == seq![0x2eu8, 0x7du8, 0x32u8, 0xffu8] by {
            if i < k {
                assert(v@.subrange(4 * i, 4 * i + 4) =~= before.subrange(4 * i, 4 * i + 4));
            } else {
                assert(v@.subrange(4 * i, 4 * i + 4) =~= seq![0x2eu8, 0x7du8, 0x32u8, 0xffu8]);
            }
        }
        k += 1;
    }
    v
}

}
