//! The sender's connection loop, as decisions.  The application's thread
//! reads the configuration, dials, runs the handshake and sends the queued
//! input events; after each of those it reports what happened here and gets
//! back what to store as the connection state and what to do next.

use vstd::prelude::*;

use crate::menubar::ConnStatus;

verus! {

/// How long one address is retried before the attempt gives up, in
/// milliseconds.
pub const CONNECT_BUDGET_MS: u64 = 4000;

/// What the connection thread just learned.
#[derive(Clone, Copy, PartialEq, Eq, Debug, Structural)]
pub enum LinkEvent {
    /// A new attempt read the configuration: `ready` when it holds a key and
    /// a peer to dial.
    Attempt { ready: bool },
    /// Dialing finished.
    Dialed { ok: bool },
    /// The handshake finished.
    Handshake { ok: bool },
    /// One pass of the send loop: the settings changed (`dirty`), and the
    /// event sent in this pass, if one was queued, went out (`sent`).
    Pass { dirty: bool, sent: Option<bool> },
}

/// What the connection thread does next.
#[derive(Clone, Copy, PartialEq, Eq, Debug, Structural)]
pub enum LinkAction {
    /// Drop the queued events, wait a second, and start a new attempt.
    Retry,
    /// Dial the peer.
    Dial,
    /// Run the handshake on the new connection.
    Handshake,
    /// Drop the events queued during the outage, then start sending.
    StartSending,
    /// Keep sending.
    Send,
    /// Drop the connection and start a new attempt at once.
    Reconnect,
}

/// One decision: the state to store (`None` leaves it) and the next action.
#[derive(Clone, Copy, PartialEq, Eq, Debug, Structural)]
pub struct LinkStep {
    pub status: Option<ConnStatus>,
    pub action: LinkAction,
}

/// The decision for each event.
pub open spec fn link_step_spec(e: LinkEvent) -> LinkStep {
    match e {
        LinkEvent::Attempt { ready } => if ready {
            LinkStep { status: Some(ConnStatus::Connecting), action: LinkAction::Dial }
        } else {
            LinkStep { status: Some(ConnStatus::ConfigNeeded), action: LinkAction::Retry }
        },
        LinkEvent::Dialed { ok } => if ok {
            LinkStep { status: None, action: LinkAction::Handshake }
        } else {
            LinkStep { status: Some(ConnStatus::Disconnected), action: LinkAction::Retry }
        },
        LinkEvent::Handshake { ok } => if ok {
            LinkStep { status: Some(ConnStatus::Connected), action: LinkAction::StartSending }
        } else {
            LinkStep { status: Some(ConnStatus::HandshakeFailed), action: LinkAction::Retry }
        },
        LinkEvent::Pass { dirty, sent } => if dirty {
            LinkStep { status: Some(ConnStatus::Connecting), action: LinkAction::Reconnect }
        } else if sent == Some(false) {
            LinkStep { status: Some(ConnStatus::Disconnected), action: LinkAction::Reconnect }
        } else {
            LinkStep { status: None, action: LinkAction::Send }
        },
    }
}

/// Decide what follows an event.  Settings that changed win over a send in
/// the same pass: the new address and key apply at once.
pub fn link_step(e: LinkEvent) -> (s: LinkStep)
    ensures
        s == link_step_spec(e),
{
    match e {
        LinkEvent::Attempt { ready } => if ready {
            LinkStep { status: Some(ConnStatus::Connecting), action: LinkAction::Dial }
        } else {
            LinkStep { status: Some(ConnStatus::ConfigNeeded), action: LinkAction::Retry }
        },
        LinkEvent::Dialed { ok } => if ok {
            LinkStep { status: None, action: LinkAction::Handshake }
        } else {
            LinkStep { status: Some(ConnStatus::Disconnected), action: LinkAction::Retry }
        },
        LinkEvent::Handshake { ok } => if ok {
            LinkStep { status: Some(ConnStatus::Connected), action: LinkAction::StartSending }
        } else {
            LinkStep { status: Some(ConnStatus::HandshakeFailed), action: LinkAction::Retry }
        },
        LinkEvent::Pass { dirty, sent } => if dirty {
            LinkStep { status: Some(ConnStatus::Connecting), action: LinkAction::Reconnect }
        } else {
            match sent {
                Some(false) => LinkStep { status: Some(ConnStatus::Disconnected), action: LinkAction::Reconnect },
                _ => LinkStep { status: None, action: LinkAction::Send },
            }
        },
    }
}

/// The state is only ever set to `Connected` by a handshake that succeeded,
/// and every failure leads back to a new attempt.
pub proof fn lemma_connected_only_after_handshake(e: LinkEvent)
    ensures
        link_step_spec(e).status == Some(ConnStatus::Connected) <==> e == (LinkEvent::Handshake { ok: true }),
        (e matches LinkEvent::Dialed { ok } && !ok) ==> link_step_spec(e).action == LinkAction::Retry,
        (e matches LinkEvent::Handshake { ok } && !ok) ==> link_step_spec(e).action == LinkAction::Retry,
        (e matches LinkEvent::Pass { sent, .. } && sent == Some(false)) ==> link_step_spec(e).action
            == LinkAction::Reconnect,
{
}

/// After a failed dial at `now_ms`, try again?  Only before the deadline;
/// the deadline is checked after an attempt, so a slow address is still
/// tried once.
pub fn retry_dial(now_ms: u64, deadline_ms: u64) -> (b: bool)
    ensures
        b == (now_ms < deadline_ms),
{
    now_ms < deadline_ms
}

/// The deadline for dialing that starts at `now_ms`.
pub fn dial_deadline(now_ms: u64) -> (d: u64)
    ensures
        d == (if now_ms <= u64::MAX - CONNECT_BUDGET_MS { (now_ms + CONNECT_BUDGET_MS) as u64 } else { u64::MAX }),
{
    if now_ms <= u64::MAX - CONNECT_BUDGET_MS {
        now_ms + CONNECT_BUDGET_MS
    } else {
        u64::MAX
    }
}

}
