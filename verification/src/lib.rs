//! keyboard-it: the verified core of a software KVM that forwards a Mac's
//! keyboard and trackpad to a Windows PC over an encrypted LAN connection.
//!
//! The modules hold the logic both sides share (wire format, configuration,
//! pairing and session protocol steps) and the decisions each side makes
//! (key tables, the capture state machine, the receiver's bookkeeping, the
//! permission walkthrough).  Sockets, windows and OS calls live in `app/`.

pub mod addr;
pub mod autostart;
pub mod capture;
pub mod config;
pub mod diag;
pub mod discovery;
pub mod held;
pub mod inject;
pub mod keymap;
pub mod link;
pub mod menubar;
pub mod netinfo;
pub mod pairing;
pub mod permissions;
pub mod scancode;
pub mod secure;
pub mod serve;
pub mod settings;
pub mod text;
pub mod wire;
