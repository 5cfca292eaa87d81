# keyboard-it

A software KVM: a Mac's keyboard and trackpad drive a Windows PC over an
encrypted LAN connection.  Double-tapping Fn on the Mac toggles forwarding;
the PC pairs with the Mac once (a six-digit code shown on both sides) and
hands over the key the session uses.

## Layout

- `src/` — the verified library (Verus).  What the two sides decide and
  compute lives here, with contracts; what snow, the OS and the user answer
  (the Noise cryptography, randomness, the Allow click) comes from outside
  and is handed in:
  - `wire` — the key and input event encodings and their framing;
  - `held` — keys and buttons held down on the other side, and their
    release, each once;
  - `config`, `secure`, `pairing` — the configuration, the Noise session
    and the pairing protocol as step functions (the socket I/O between
    steps is the caller's);
  - `capture`, `keymap`, `link`, `menubar`, `settings`, `permissions`,
    `discovery`, `addr`, `autostart` — the sender's state machines and
    decisions;
  - `serve`, `inject`, `scancode`, `netinfo`, `diag` — the receiver's.
- `tests/` — tests of the library.
- `app/` — a command-line program around the library: configuration file,
  sockets, mDNS, threads.  The macOS and Windows user interfaces and OS
  input hooks are not part of it.  In place of the PC's dialog, the
  receiver asks on its terminal whether to allow a pairing request and
  shows the code to compare; without an answer by the deadline it declines.
