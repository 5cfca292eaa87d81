//! The permission walkthrough on the Mac: three permissions in a fixed
//! order (Input Monitoring, Accessibility, Local Network), each row's state
//! and button, when the next system prompt fires, when a row counts as stuck,
//! and what the footer says.  The probes, the prompts and the window belong
//! to the application; it reads the probes once a second, hands them here,
//! and acts on and draws what comes back.

use vstd::prelude::*;

use crate::discovery::DISCOVERY_GRACE_MS;
use crate::text::{chars_of, extend_chars, string_from_chars};

verus! {

/// How long a fired system prompt gets to change something before the row
/// also offers the recovery, in milliseconds.
pub const STUCK_GRACE_MS: u64 = 30000;

/// Never two system prompts within this many milliseconds.
pub const PROMPT_SPACING_MS: u64 = 2000;

/// How long "Copied" stays on the copy button, in milliseconds.
pub const COPIED_HOLD_MS: u64 = 4000;

/// How many permissions the walkthrough has.
pub const PERMISSION_COUNT: usize = 3;

/// A permission's state as the window shows it.
#[derive(Clone, Copy, PartialEq, Eq, Debug, Structural)]
pub enum PermState {
    /// Local Network only: its turn has not come, nothing has been asked.
    NotChecked,
    /// Local Network only: asked, no answer yet.
    Checking,
    /// Local Network only: nothing answered in the grace period, and macOS
    /// offers no way to read the permission; not a denial.
    Unknowable,
    Granted,
    /// Input Monitoring / Accessibility: macOS says no.
    Missing,
}

/// The three permissions.
#[derive(Clone, Copy, PartialEq, Eq, Debug, Structural)]
pub enum PermissionKind {
    InputMonitoring,
    Accessibility,
    LocalNetwork,
}

/// The walkthrough order: Input Monitoring, Accessibility, Local Network.
pub open spec fn kind_at(i: int) -> PermissionKind {
    if i == 0 {
        PermissionKind::InputMonitoring
    } else if i == 1 {
        PermissionKind::Accessibility
    } else {
        PermissionKind::LocalNetwork
    }
}

/// The permission in row `i`.
pub fn order_at(i: usize) -> (k: PermissionKind)
    requires
        i < PERMISSION_COUNT,
    ensures
        k == kind_at(i as int),
{
    if i == 0 {
        PermissionKind::InputMonitoring
    } else if i == 1 {
        PermissionKind::Accessibility
    } else {
        PermissionKind::LocalNetwork
    }
}

impl PermissionKind {
    /// The row's title.
    pub fn title(self) -> (t: &'static str)
        ensures
            t@ == (match self {
                PermissionKind::InputMonitoring => "Input Monitoring"@,
                PermissionKind::Accessibility => "Accessibility"@,
                PermissionKind::LocalNetwork => "Local Network"@,
            }),
    {
        match self {
            PermissionKind::InputMonitoring => "Input Monitoring",
            PermissionKind::Accessibility => "Accessibility",
            PermissionKind::LocalNetwork => "Local Network",
        }
    }

    /// Why the app needs it.
    pub fn why(self) -> (t: &'static str)
        ensures
            t@ == (match self {
                PermissionKind::InputMonitoring => "Lets keyboard-it see your keystrokes, so it can forward them."@,
                PermissionKind::Accessibility => "Lets it stop those keystrokes from also typing on the Mac."@,
                PermissionKind::LocalNetwork => "Lets it find your PC here \u{2014} no IP address to type."@,
            }),
    {
        match self {
            PermissionKind::InputMonitoring => "Lets keyboard-it see your keystrokes, so it can forward them.",
            PermissionKind::Accessibility => "Lets it stop those keystrokes from also typing on the Mac.",
            PermissionKind::LocalNetwork => "Lets it find your PC here \u{2014} no IP address to type.",
        }
    }
}

/// What the silent probes reported this tick.
#[derive(Clone, Copy, PartialEq, Eq, Debug, Structural)]
pub struct Probes {
    /// Input Monitoring is granted.
    pub input_monitoring: bool,
    /// Accessibility is granted.
    pub accessibility: bool,
    /// Proof that local network access works: something answered the
    /// browse, or a session with the PC is up.
    pub network_answered: bool,
    /// How long the browse has run; `None` before it started.
    pub browse_elapsed_ms: Option<u64>,
}

/// A permission's state from the probes.  Local Network has no API: it is
/// granted on evidence, not checked before the browse starts, being checked
/// during the grace period, and unknowable after it.
pub open spec fn state_of(kind: PermissionKind, p: Probes) -> PermState {
    match kind {
        PermissionKind::InputMonitoring => if p.input_monitoring { PermState::Granted } else { PermState::Missing },
        PermissionKind::Accessibility => if p.accessibility { PermState::Granted } else { PermState::Missing },
        PermissionKind::LocalNetwork => if p.network_answered {
            PermState::Granted
        } else {
            match p.browse_elapsed_ms {
                None => PermState::NotChecked,
                Some(d) => if d >= DISCOVERY_GRACE_MS { PermState::Unknowable } else { PermState::Checking },
            }
        },
    }
}

/// A permission's state from the probes.
pub fn check(kind: PermissionKind, p: &Probes) -> (s: PermState)
    ensures
        s == state_of(kind, *p),
{
    match kind {
        PermissionKind::InputMonitoring => if p.input_monitoring { PermState::Granted } else { PermState::Missing },
        PermissionKind::Accessibility => if p.accessibility { PermState::Granted } else { PermState::Missing },
        PermissionKind::LocalNetwork => if p.network_answered {
            PermState::Granted
        } else {
            match p.browse_elapsed_ms {
                None => PermState::NotChecked,
                Some(d) => if d >= DISCOVERY_GRACE_MS { PermState::Unknowable } else { PermState::Checking },
            }
        },
    }
}

/// The two permissions the event tap depends on.
pub fn tap_permissions_granted(input_monitoring: bool, accessibility: bool) -> (b: bool)
    ensures
        b == (input_monitoring && accessibility),
{
    input_monitoring && accessibility
}

/// A row needs nothing more: granted, or unknowable (waiting cannot turn a
/// missing API into an answer).
pub open spec fn settled(s: PermState) -> bool {
    s == PermState::Granted || s == PermState::Unknowable
}

/// The row to act on: the first one in order that is not settled, or
/// `PERMISSION_COUNT` when all are.
pub open spec fn current_of(states: Seq<PermState>) -> int {
    if !settled(states[0]) {
        0
    } else if !settled(states[1]) {
        1
    } else if !settled(states[2]) {
        2
    } else {
        3
    }
}

/// The row to act on.
pub fn current_step(states: &[PermState; 3]) -> (c: usize)
    ensures
        c == current_of(states@),
        c <= PERMISSION_COUNT,
        forall|i: int| 0 <= i < c ==> settled(#[trigger] states@[i]),
        c < PERMISSION_COUNT ==> !settled(states@[c as int]),
{
    let mut i: usize = 0;
    while i < 3
        invariant
            i <= 3,
            forall|j: int| 0 <= j < i ==> settled(#[trigger] states@[j]),
        decreases 3 - i,
    {
        let s = states[i];
        if !(s == PermState::Granted || s == PermState::Unknowable) {
            return i;
        }
        i += 1;
    }
    i
}

/// The states of the three rows, in order.
pub open spec fn states_of(p: Probes) -> Seq<PermState> {
    seq![state_of(kind_at(0), p), state_of(kind_at(1), p), state_of(kind_at(2), p)]
}

/// What a row's button does when clicked.
#[derive(Clone, Copy, PartialEq, Eq, Debug, Structural)]
pub enum RowAction {
    /// Fire the permission's system prompt.
    Request,
    /// Open the permission's System Settings pane.
    OpenPane,
}

/// The walkthrough's memory between ticks.
pub struct PermissionsController {
    /// Each row's prompt fires at most once per process.
    pub requested: [bool; 3],
    /// When each row's prompt fired.
    pub prompted_at: [Option<u64>; 3],
    /// When the last prompt fired, of any row.
    pub last_prompt: Option<u64>,
    /// Both tap permissions read as granted, yet the tap failed: the grant
    /// belongs to an earlier build.
    pub stale_grant: bool,
    /// "Copied" stays on the copy button until then.
    pub copied_until: Option<u64>,
}

/// The controller after row `i`'s prompt fired at `now_ms`.
pub open spec fn prompted(c: PermissionsController, i: int, now_ms: u64) -> bool {
    &&& c.requested@[i]
    &&& c.prompted_at@[i] == Some(now_ms)
    &&& c.last_prompt == Some(now_ms)
}

/// `c` and `d` agree on everything but row `i`'s request bookkeeping and the
/// last prompt time.
pub open spec fn same_but_row(c: PermissionsController, d: PermissionsController, i: int) -> bool {
    &&& forall|j: int| 0 <= j < 3 && j != i ==> c.requested@[j] == d.requested@[j]
    &&& forall|j: int| 0 <= j < 3 && j != i ==> c.prompted_at@[j] == d.prompted_at@[j]
    &&& c.stale_grant == d.stale_grant
    &&& c.copied_until == d.copied_until
}

/// Should the current row's prompt fire now?  Not past the last row, not a
/// second time, not within the spacing of the last prompt, and not while the
/// window is in the background.
pub open spec fn should_prompt(c: PermissionsController, current: int, now_ms: u64, key_window: bool) -> bool {
    &&& current < 3
    &&& !c.requested@[current]
    &&& match c.last_prompt {
        Some(t) => !(now_ms >= t && now_ms - t < PROMPT_SPACING_MS),
        None => true,
    }
    &&& key_window
}

impl PermissionsController {
    /// Nothing asked yet.
    pub fn new() -> (c: PermissionsController)
        ensures
            forall|i: int| 0 <= i < 3 ==> !c.requested@[i] && c.prompted_at@[i] is None,
            c.last_prompt is None,
            !c.stale_grant,
            c.copied_until is None,
    {
        PermissionsController {
            requested: [false, false, false],
            prompted_at: [None, None, None],
            last_prompt: None,
            stale_grant: false,
            copied_until: None,
        }
    }

    fn mark_prompted(&mut self, i: usize, now_ms: u64)
        requires
            i < 3,
        ensures
            prompted(*final(self), i as int, now_ms),
            same_but_row(*final(self), *old(self), i as int),
    {
        self.requested.set(i, true);
        self.prompted_at.set(i, Some(now_ms));
        self.last_prompt = Some(now_ms);
    }

    /// Fire the current row's prompt if it is due: at most once per row,
    /// never two within the spacing, never into a background window.
    /// Answers the row whose prompt the caller must now fire.
    pub fn maybe_auto_prompt(&mut self, current: usize, now_ms: u64, key_window: bool) -> (r: Option<usize>)
        ensures
            should_prompt(*old(self), current as int, now_ms, key_window) ==> {
                &&& r == Some(current)
                &&& prompted(*final(self), current as int, now_ms)
                &&& same_but_row(*final(self), *old(self), current as int)
            },
            !should_prompt(*old(self), current as int, now_ms, key_window) ==> {
                &&& r is None
                &&& *final(self) == *old(self)
            },
    {
        if current >= 3 || self.requested[current] {
            return None;
        }
        if let Some(t) = self.last_prompt {
            if now_ms >= t && now_ms - t < PROMPT_SPACING_MS {
                return None;
            }
        }
        if !key_window {
            return None;
        }
        self.mark_prompted(current, now_ms);
        Some(current)
    }

    /// Re-check everything and advance the flow: the rows' states, the row to
    /// act on, and the row whose prompt the caller must fire now, if any.
    pub fn refresh(&mut self, probes: &Probes, now_ms: u64, key_window: bool) -> (r: ([PermState; 3], usize, Option<usize>))
        ensures
            r.0@ == states_of(*probes),
            r.1 == current_of(states_of(*probes)),
            should_prompt(*old(self), r.1 as int, now_ms, key_window) ==> {
                &&& r.2 == Some(r.1)
                &&& prompted(*final(self), r.1 as int, now_ms)
                &&& same_but_row(*final(self), *old(self), r.1 as int)
            },
            !should_prompt(*old(self), r.1 as int, now_ms, key_window) ==> {
                &&& r.2 is None
                &&& *final(self) == *old(self)
            },
    {
        let states = [
            check(PermissionKind::InputMonitoring, probes),
            check(PermissionKind::Accessibility, probes),
            check(PermissionKind::LocalNetwork, probes),
        ];
        assert(states@ =~= states_of(*probes));
        let current = current_step(&states);
        let fire = self.maybe_auto_prompt(current, now_ms, key_window);
        (states, current, fire)
    }

    /// A row whose prompt fired long ago and changed nothing: macOS already
    /// holds an answer for this app and will not ask again.  Local Network is
    /// exempt, since silence there means an empty network as often as a
    /// refusal.
    pub fn stuck(&self, i: usize, state: PermState, now_ms: u64) -> (b: bool)
        requires
            i < 3,
        ensures
            b == (kind_at(i as int) != PermissionKind::LocalNetwork && state == PermState::Missing
                && match self.prompted_at@[i as int] {
                    Some(t) => now_ms >= t && now_ms - t >= STUCK_GRACE_MS,
                    None => false,
                }),
    {
        if i == 2 || state != PermState::Missing {
            return false;
        }
        match self.prompted_at[i] {
            Some(t) => now_ms >= t && now_ms - t >= STUCK_GRACE_MS,
            None => false,
        }
    }

    /// A row's button was clicked.  A stale row already reads as granted, so
    /// only its pane helps; otherwise the first click fires the prompt and
    /// later clicks open the pane.
    pub fn row_action(&mut self, i: usize, state: PermState, now_ms: u64) -> (a: RowAction)
        requires
            i < 3,
        ensures
            ({
                let stale = old(self).stale_grant && kind_at(i as int) != PermissionKind::LocalNetwork
                    && state == PermState::Granted;
                if !stale && !old(self).requested@[i as int] {
                    &&& a == RowAction::Request
                    &&& prompted(*final(self), i as int, now_ms)
                    &&& same_but_row(*final(self), *old(self), i as int)
                } else {
                    &&& a == RowAction::OpenPane
                    &&& *final(self) == *old(self)
                }
            }),
    {
        let stale = self.stale_grant && i != 2 && state == PermState::Granted;
        if !stale && !self.requested[i] {
            self.mark_prompted(i, now_ms);
            RowAction::Request
        } else {
            RowAction::OpenPane
        }
    }

    /// The reset command was copied at `now_ms`: the button says so for a
    /// few seconds.
    pub fn note_copied(&mut self, now_ms: u64)
        ensures
            final(self).copied_until == Some(if now_ms <= u64::MAX - COPIED_HOLD_MS {
                (now_ms + COPIED_HOLD_MS) as u64
            } else {
                u64::MAX
            }),
            final(self).requested == old(self).requested,
            final(self).prompted_at == old(self).prompted_at,
            final(self).last_prompt == old(self).last_prompt,
            final(self).stale_grant == old(self).stale_grant,
    {
        self.copied_until = Some(if now_ms <= u64::MAX - COPIED_HOLD_MS { now_ms + COPIED_HOLD_MS } else { u64::MAX });
    }
}

/// The tap failed although both of its permissions read as granted.  Sticky.
pub fn note_stale_grant(c: &mut PermissionsController)
    ensures
        final(c).stale_grant,
        final(c).requested == old(c).requested,
        final(c).prompted_at == old(c).prompted_at,
        final(c).last_prompt == old(c).last_prompt,
        final(c).copied_until == old(c).copied_until,
{
    c.stale_grant = true;
}

// ----- what the window draws -----

/// The colour of a row's status line.
#[derive(Clone, Copy, PartialEq, Eq, Debug, Structural)]
pub enum Tone {
    Green,
    Orange,
    Secondary,
}

/// A row's status text and colour.  `stale_row`: a stale grant on one of
/// the tap's permissions; `stuck`: the row's prompt changed nothing.
pub open spec fn row_status_spec(state: PermState, stale_row: bool, stuck: bool) -> (Seq<char>, Tone) {
    match state {
        PermState::Granted => if stale_row {
            ("Switched on, but macOS still refused capture"@, Tone::Orange)
        } else {
            ("Granted"@, Tone::Green)
        },
        PermState::NotChecked => ("Waiting for the steps above"@, Tone::Secondary),
        PermState::Checking => ("Checking\u{2026}"@, Tone::Secondary),
        PermState::Unknowable => ("macOS offers no way to read this one \u{2014} allow it if asked"@, Tone::Secondary),
        PermState::Missing => if stuck {
            ("Still not granted \u{2014} if no prompt appeared, see below"@, Tone::Orange)
        } else {
            ("Not granted yet"@, Tone::Orange)
        },
    }
}

/// A row's status text and colour.
pub fn row_status(state: PermState, stale_row: bool, stuck: bool) -> (r: (&'static str, Tone))
    ensures
        (r.0@, r.1) == row_status_spec(state, stale_row, stuck),
{
    match state {
        PermState::Granted => if stale_row {
            ("Switched on, but macOS still refused capture", Tone::Orange)
        } else {
            ("Granted", Tone::Green)
        },
        PermState::NotChecked => ("Waiting for the steps above", Tone::Secondary),
        PermState::Checking => ("Checking\u{2026}", Tone::Secondary),
        PermState::Unknowable => ("macOS offers no way to read this one \u{2014} allow it if asked", Tone::Secondary),
        PermState::Missing => if stuck {
            ("Still not granted \u{2014} if no prompt appeared, see below", Tone::Orange)
        } else {
            ("Not granted yet", Tone::Orange)
        },
    }
}

/// A row's button title.
pub open spec fn button_title_spec(kind: PermissionKind, state: PermState, requested: bool, stale_row: bool, stuck: bool) -> Seq<char> {
    if stale_row || stuck {
        "Open System Settings"@
    } else if state == PermState::Granted {
        "Granted"@
    } else if !requested {
        if kind == PermissionKind::LocalNetwork { "Check network access"@ } else { "Grant\u{2026}"@ }
    } else {
        "Open System Settings"@
    }
}

/// A row's button title.
pub fn button_title(kind: PermissionKind, state: PermState, requested: bool, stale_row: bool, stuck: bool) -> (t: &'static str)
    ensures
        t@ == button_title_spec(kind, state, requested, stale_row, stuck),
{
    if stale_row || stuck {
        "Open System Settings"
    } else if state == PermState::Granted {
        "Granted"
    } else if !requested {
        match kind {
            PermissionKind::LocalNetwork => "Check network access",
            _ => "Grant\u{2026}",
        }
    } else {
        "Open System Settings"
    }
}

/// How one row is drawn.
#[derive(Clone, Copy, Debug)]
pub struct RowLook {
    pub status: &'static str,
    pub tone: Tone,
    pub button: &'static str,
    /// The button is live: anything but a (genuinely) granted row.
    pub enabled: bool,
    /// Return triggers this row's button: the current row only.
    pub default_button: bool,
}

/// How row `i` is drawn, given the rows' states, the row to act on, whether
/// the row's prompt was fired, the stale-grant flag and whether the row is
/// stuck.  A stale grant concerns only the tap's two permissions.
pub fn row_look(i: usize, state: PermState, current: usize, requested: bool, stale: bool, stuck: bool) -> (l: RowLook)
    requires
        i < 3,
    ensures
        ({
            let stale_row = stale && kind_at(i as int) != PermissionKind::LocalNetwork;
            &&& (l.status@, l.tone) == row_status_spec(state, stale_row, stuck)
            &&& l.button@ == button_title_spec(kind_at(i as int), state, requested, stale_row, stuck)
            &&& l.enabled == (stale_row || state != PermState::Granted)
            &&& l.default_button == (i == current && current < 3)
        }),
{
    let kind = order_at(i);
    let stale_row = stale && i != 2;
    let (status, tone) = row_status(state, stale_row, stuck);
    RowLook {
        status,
        tone,
        button: button_title(kind, state, requested, stale_row, stuck),
        enabled: stale_row || state != PermState::Granted,
        default_button: i == current && current < 3,
    }
}

/// The footer, most certain cause first.
pub open spec fn footer_spec(stale: bool, any_stuck: bool, tap_ok: bool, can_relaunch: bool, network: PermState) -> Seq<char> {
    if stale {
        "keyboard-it looks switched on above, but macOS refused capture \u{2014} that entry belongs to an earlier build. Select keyboard-it in the list, remove it with \u{2212}, add it back with \u{002B}, then restart."@
    } else if any_stuck {
        "If no prompt appeared: macOS keeps one saved answer per app, and an unsigned build changes identity on every update, so the row outlives the permission. Remove keyboard-it from the list with \u{2212}, add it back with \u{002B}, then restart."@
    } else if !tap_ok {
        "macOS only applies a permission when the app starts \u{2014} one restart at the end is all that is needed."@
    } else if !can_relaunch {
        "Running outside an .app bundle: keyboard-it cannot restart itself, so quit and start it again by hand."@
    } else if network == PermState::Unknowable {
        "Local Network has no API to read, so keyboard-it can only confirm it once your PC answers. Nothing is wrong if it stays unread \u{2014} restart and pair as usual."@
    } else {
        "All set. Restart to apply the permissions."@
    }
}

/// The footer text.
pub fn footer_text(stale: bool, any_stuck: bool, tap_ok: bool, can_relaunch: bool, network: PermState) -> (t: &'static str)
    ensures
        t@ == footer_spec(stale, any_stuck, tap_ok, can_relaunch, network),
{
    if stale {
        "keyboard-it looks switched on above, but macOS refused capture \u{2014} that entry belongs to an earlier build. Select keyboard-it in the list, remove it with \u{2212}, add it back with \u{002B}, then restart."
    } else if any_stuck {
        "If no prompt appeared: macOS keeps one saved answer per app, and an unsigned build changes identity on every update, so the row outlives the permission. Remove keyboard-it from the list with \u{2212}, add it back with \u{002B}, then restart."
    } else if !tap_ok {
        "macOS only applies a permission when the app starts \u{2014} one restart at the end is all that is needed."
    } else if !can_relaunch {
        "Running outside an .app bundle: keyboard-it cannot restart itself, so quit and start it again by hand."
    } else if network == PermState::Unknowable {
        "Local Network has no API to read, so keyboard-it can only confirm it once your PC answers. Nothing is wrong if it stays unread \u{2014} restart and pair as usual."
    } else {
        "All set. Restart to apply the permissions."
    }
}

/// How the window's bottom strip is drawn.
#[derive(Clone, Copy, Debug)]
pub struct FooterLook {
    pub footer: &'static str,
    /// Restart is live (and the Return target) once the tap's two
    /// permissions are granted; Local Network never gates it.
    pub restart_enabled: bool,
    pub restart_title: &'static str,
    /// The reset-command button shows only while a row is stuck or stale.
    pub copy_visible: bool,
    pub copy_title: &'static str,
}

/// The bottom strip from the rows' states and flags at `now_ms`.
pub fn footer_look(states: &[PermState; 3], stuck: &[bool; 3], c: &PermissionsController, can_relaunch: bool, now_ms: u64) -> (l: FooterLook)
    ensures
        ({
            let tap_ok = states@[0] == PermState::Granted && states@[1] == PermState::Granted;
            let any_stuck = stuck@[0] || stuck@[1] || stuck@[2];
            let copied = match c.copied_until {
                Some(t) => now_ms < t,
                None => false,
            };
            &&& l.footer@ == footer_spec(c.stale_grant, any_stuck, tap_ok, can_relaunch, states@[2])
            &&& l.restart_enabled == tap_ok
            &&& l.restart_title@ == (if can_relaunch { "Restart keyboard-it"@ } else { "Quit keyboard-it"@ })
            &&& l.copy_visible == (any_stuck || c.stale_grant)
            &&& l.copy_title@ == (if copied {
                "Copied \u{2713} \u{2014} run it in Terminal"@
            } else {
                "Copy reset command"@
            })
        }),
{
    let tap_ok = states[0] == PermState::Granted && states[1] == PermState::Granted;
    let any_stuck = stuck[0] || stuck[1] || stuck[2];
    let copied = match c.copied_until {
        Some(t) => now_ms < t,
        None => false,
    };
    FooterLook {
        footer: footer_text(c.stale_grant, any_stuck, tap_ok, can_relaunch, states[2]),
        restart_enabled: tap_ok,
        restart_title: if can_relaunch { "Restart keyboard-it" } else { "Quit keyboard-it" },
        copy_visible: any_stuck || c.stale_grant,
        copy_title: if copied { "Copied \u{2713} \u{2014} run it in Terminal" } else { "Copy reset command" },
    }
}

/// One tick of the watcher installed after the tap failed: once both tap
/// permissions read as granted, a permission is no longer missing, only a
/// restart is; the watcher then stops (returns true).
pub fn watch_tick(granted: bool, permission_needed: &mut bool, restart_needed: &mut bool) -> (stop: bool)
    ensures
        stop == granted,
        granted ==> !*final(permission_needed) && *final(restart_needed),
        !granted ==> *final(permission_needed) == *old(permission_needed)
            && *final(restart_needed) == *old(restart_needed),
{
    if !granted {
        return false;
    }
    *permission_needed = false;
    *restart_needed = true;
    true
}

// ----- the bundle -----

/// Does `s` hold, at position `end`, the end of a path component named
/// "<something>.app"?
pub open spec fn app_component_ends_at(s: Seq<char>, end: int) -> bool {
    &&& 5 <= end <= s.len()
    &&& s.subrange(end - 4, end) == ".app"@
    &&& s[end - 5] != '/'
    &&& (end == s.len() || s[end] == '/')
}

/// The executable runs from inside an application bundle: some component of
/// its path has the extension "app".
pub open spec fn in_app_bundle(path: Seq<char>) -> bool {
    exists|end: int| app_component_ends_at(path, end)
}

fn app_component_at(cs: &Vec<char>, end: usize) -> (b: bool)
    requires
        5 <= end <= cs@.len(),
    ensures
        b == app_component_ends_at(cs@, end as int),
{
    proof {
        reveal_strlit(".app");
    }
    let hit = cs[end - 4] == '.' && cs[end - 3] == 'a' && cs[end - 2] == 'p' && cs[end - 1] == 'p'
        && cs[end - 5] != '/' && (end == cs.len() || cs[end] == '/');
    proof {
        if hit {
            assert(cs@.subrange(end - 4, end as int) =~= ".app"@);
        } else if app_component_ends_at(cs@, end as int) {
            assert(cs@.subrange(end - 4, end as int)[0] == '.');
            assert(cs@.subrange(end - 4, end as int)[1] == 'a');
            assert(cs@.subrange(end - 4, end as int)[2] == 'p');
            assert(cs@.subrange(end - 4, end as int)[3] == 'p');
        }
    }
    hit
}

/// Can the app restart itself?  Only from inside an application bundle;
/// `None` when the executable's path is unknown.
pub fn can_relaunch(exe_path: Option<&str>) -> (b: bool)
    ensures
        b == (match exe_path {
            Some(p) => in_app_bundle(p@),
            None => false,
        }),
{
    let p = match exe_path {
        Some(p) => p,
        None => return false,
    };
    let cs = chars_of(p);
    let n = cs.len();
    if n < 5 {
        assert forall|e: int| !app_component_ends_at(p@, e) by {}
        return false;
    }
    let mut end: usize = 5;
    while end < n
        invariant
            n == cs@.len(),
            cs@ == p@,
            exe_path == Some(p),
            5 <= end <= n,
            forall|e: int| 5 <= e < end ==> !app_component_ends_at(p@, e),
        decreases n - end,
    {
        if app_component_at(&cs, end) {
            assert(app_component_ends_at(p@, end as int));
            return true;
        }
        end += 1;
    }
    if app_component_at(&cs, n) {
        assert(app_component_ends_at(p@, n as int));
        return true;
    }
    assert forall|e: int| !app_component_ends_at(p@, e) by {
        if 5 <= e <= p@.len() && e < n {
            assert(e < end);
        }
    }
    false
}

/// The app's bundle identifier: what the bundle reported, or the built-in one.
pub fn bundle_id(reported: Option<&str>) -> (s: String)
    ensures
        s@ == (match reported {
            Some(r) => r@,
            None => "com.keyboard-it.keyboard-it"@,
        }),
{
    match reported {
        Some(r) => string_from_chars(&chars_of(r)),
        None => string_from_chars(&chars_of("com.keyboard-it.keyboard-it")),
    }
}

/// The command that clears macOS's saved answers for the app.
pub fn reset_command(bundle: &str) -> (s: String)
    ensures
        s@ == "sudo tccutil reset All "@ + bundle@,
{
    let mut cs: Vec<char> = Vec::new();
    extend_chars(&mut cs, "sudo tccutil reset All ");
    extend_chars(&mut cs, bundle);
    string_from_chars(&cs)
}

// ----- the first-run wizard -----

/// The wizard's next step: Input Monitoring first, then Accessibility (each
/// grant needs a restart anyway); `None` when both are already granted.
pub fn wizard_next(input_monitoring: bool, accessibility: bool) -> (k: Option<PermissionKind>)
    ensures
        k == (if !input_monitoring {
            Some(PermissionKind::InputMonitoring)
        } else if !accessibility {
            Some(PermissionKind::Accessibility)
        } else {
            None
        }),
{
    if !input_monitoring {
        Some(PermissionKind::InputMonitoring)
    } else if !accessibility {
        Some(PermissionKind::Accessibility)
    } else {
        None
    }
}

/// What a click in the wizard's waiting dialog leads to.
#[derive(Clone, Copy, PartialEq, Eq, Debug, Structural)]
pub enum WizardAction {
    /// The permission is granted: restart so it applies.
    Relaunch,
    /// Checked, not granted yet: say so and ask again.
    NotYet,
    /// Open the System Settings pane and ask again.
    OpenPane,
    /// "Later": leave the wizard.
    Postpone,
}

/// The waiting dialog's buttons are "I granted it — check & restart" (0),
/// "Open System Settings" (1) and "Later" (anything else).
pub fn wizard_choice(choice: usize, granted: bool) -> (a: WizardAction)
    ensures
        a == (if choice == 0 {
            if granted { WizardAction::Relaunch } else { WizardAction::NotYet }
        } else if choice == 1 {
            WizardAction::OpenPane
        } else {
            WizardAction::Postpone
        }),
{
    if choice == 0 {
        if granted { WizardAction::Relaunch } else { WizardAction::NotYet }
    } else if choice == 1 {
        WizardAction::OpenPane
    } else {
        WizardAction::Postpone
    }
}

/// The waiting dialog's title: "<name> — waiting for the permission".
pub fn wizard_waiting_title(name: &str) -> (s: String)
    ensures
        s@ == name@ + " \u{2014} waiting for the permission"@,
{
    let mut cs: Vec<char> = chars_of(name);
    extend_chars(&mut cs, " \u{2014} waiting for the permission");
    string_from_chars(&cs)
}

/// The waiting dialog's text, naming the permission twice.
pub fn wizard_waiting_text(name: &str) -> (s: String)
    ensures
        s@ == "Switch keyboard-it ON in the "@ + name@
            + " prompt (or under System Settings \u{2192} Privacy & Security \u{2192} "@ + name@
            + "), then come back here.\n\nmacOS applies the permission only after a restart, so keyboard-it restarts itself once you confirm."@,
{
    let mut cs: Vec<char> = Vec::new();
    extend_chars(&mut cs, "Switch keyboard-it ON in the ");
    extend_chars(&mut cs, name);
    extend_chars(&mut cs, " prompt (or under System Settings \u{2192} Privacy & Security \u{2192} ");
    extend_chars(&mut cs, name);
    extend_chars(&mut cs, "), then come back here.\n\nmacOS applies the permission only after a restart, so keyboard-it restarts itself once you confirm.");
    string_from_chars(&cs)
}

/// The notice after a check that found nothing: "<name> is not granted yet".
pub fn wizard_not_granted_title(name: &str) -> (s: String)
    ensures
        s@ == name@ + " is not granted yet"@,
{
    let mut cs: Vec<char> = chars_of(name);
    extend_chars(&mut cs, " is not granted yet");
    string_from_chars(&cs)
}

}
