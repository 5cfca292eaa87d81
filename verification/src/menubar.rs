//! The sender's connection state and the menu bar title that shows it.
//!
//! The connection thread stores the state as a byte; the menu bar timer reads
//! the byte back and picks the title.  Drawing the title is the
//! application's job.

use vstd::prelude::*;

verus! {

/// The sender's connection state.
#[derive(Clone, Copy, PartialEq, Eq, Debug, Structural)]
pub enum ConnStatus {
    /// No pairing key or no peer yet: setup is needed.
    ConfigNeeded,
    /// A TCP connection to the peer is being attempted.
    Connecting,
    /// The encrypted channel is up.
    Connected,
    /// The connection closed or dropped; retrying in the background.
    Disconnected,
    /// The peer rejected the handshake: the keys differ.
    HandshakeFailed,
}

/// The byte each state is stored as.
pub open spec fn code_of(s: ConnStatus) -> u8 {
    match s {
        ConnStatus::ConfigNeeded => 0,
        ConnStatus::Connecting => 1,
        ConnStatus::Connected => 2,
        ConnStatus::Disconnected => 3,
        ConnStatus::HandshakeFailed => 4,
    }
}

/// The state a stored byte stands for; an unknown byte reads as
/// `ConfigNeeded`, the most harmless.
pub open spec fn status_of(v: u8) -> ConnStatus {
    if v == 1 {
        ConnStatus::Connecting
    } else if v == 2 {
        ConnStatus::Connected
    } else if v == 3 {
        ConnStatus::Disconnected
    } else if v == 4 {
        ConnStatus::HandshakeFailed
    } else {
        ConnStatus::ConfigNeeded
    }
}

impl ConnStatus {
    /// The byte this state is stored as.
    pub fn to_u8(self) -> (v: u8)
        ensures
            v == code_of(self),
    {
        match self {
            ConnStatus::ConfigNeeded => 0,
            ConnStatus::Connecting => 1,
            ConnStatus::Connected => 2,
            ConnStatus::Disconnected => 3,
            ConnStatus::HandshakeFailed => 4,
        }
    }

    /// The state a stored byte stands for (unknown bytes: `ConfigNeeded`).
    pub fn from_u8(v: u8) -> (s: ConnStatus)
        ensures
            s == status_of(v),
    {
        match v {
            1 => ConnStatus::Connecting,
            2 => ConnStatus::Connected,
            3 => ConnStatus::Disconnected,
            4 => ConnStatus::HandshakeFailed,
            _ => ConnStatus::ConfigNeeded,
        }
    }
}

/// Reading back a stored state gives the state that was stored.
pub proof fn lemma_status_byte_roundtrip(s: ConnStatus)
    ensures
        status_of(code_of(s)) == s,
        code_of(s) <= 4,
{
}

/// The menu bar title for the capture state and the connection state.
pub open spec fn title_text(active: bool, conn: ConnStatus) -> Seq<char> {
    match conn {
        ConnStatus::ConfigNeeded => "\u{2699}\u{FE0F} Setup needed"@,
        ConnStatus::HandshakeFailed => "\u{1F511} Key mismatch"@,
        ConnStatus::Connecting => if active {
            "\u{26A0}\u{FE0F} ACTIVE (connecting\u{2026})"@
        } else {
            "\u{23F3} Connecting\u{2026}"@
        },
        ConnStatus::Disconnected => if active {
            "\u{26A0}\u{FE0F} ACTIVE (no connection)"@
        } else {
            "\u{1F50C} No connection"@
        },
        ConnStatus::Connected => if active {
            "\u{1F7E2} ACTIVE"@
        } else {
            "\u{1F512} INACTIVE"@
        },
    }
}

/// The menu bar title: whether capture is on, and how the connection stands,
/// so a dropped connection shows from the menu bar.
pub fn title_for(active: bool, conn: ConnStatus) -> (t: &'static str)
    ensures
        t@ == title_text(active, conn),
{
    match conn {
        ConnStatus::ConfigNeeded => "\u{2699}\u{FE0F} Setup needed",
        ConnStatus::HandshakeFailed => "\u{1F511} Key mismatch",
        ConnStatus::Connecting => if active {
            "\u{26A0}\u{FE0F} ACTIVE (connecting\u{2026})"
        } else {
            "\u{23F3} Connecting\u{2026}"
        },
        ConnStatus::Disconnected => if active {
            "\u{26A0}\u{FE0F} ACTIVE (no connection)"
        } else {
            "\u{1F50C} No connection"
        },
        ConnStatus::Connected => if active {
            "\u{1F7E2} ACTIVE"
        } else {
            "\u{1F512} INACTIVE"
        },
    }
}

/// The title the menu bar timer shows for the stored bytes: a missing
/// permission overrides every other state, since nothing can be captured
/// without it.
pub open spec fn status_title_text(active: bool, conn: u8, permission_needed: bool) -> Seq<char> {
    if permission_needed {
        "\u{26D4} Permission needed"@
    } else {
        title_text(active, status_of(conn))
    }
}

/// The title for what the timer read: the capture flag, the stored
/// connection byte and the permission flag.
pub fn status_title(active: bool, conn: u8, permission_needed: bool) -> (t: &'static str)
    ensures
        t@ == status_title_text(active, conn, permission_needed),
{
    if permission_needed {
        "\u{26D4} Permission needed"
    } else {
        title_for(active, ConnStatus::from_u8(conn))
    }
}

}
