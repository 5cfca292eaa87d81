//! One-click pairing: how two machines that share no secret get one.
//!
//! Plain `Noise_NN` (ephemeral keys only) gives an encrypted, unauthenticated
//! channel; the user's click on the PC is the authorisation. Both sides can
//! derive a 6-digit code from the handshake hash. Messages after the handshake:
//!
//! ```text
//!   -> HELLO   [u8 len][name UTF-8]
//!   <- RESULT  [0x00]                                              declined
//!              [0x01][u8 len][secret][u16 BE port][u8 len][name]   accepted
//! ```
//!
//! Each step takes what arrived and returns what to send; the application
//! moves the frames and asks the user.

use vstd::prelude::*;
use vstd::string::*;
use vstd::utf8::*;

use crate::secure::{
    blake2s256, blake2s256_digest, noise_build_initiator, noise_build_responder, noise_builder,
    noise_params, frame_prefix, hs_handshake_hash, hs_into_transport,
    check_peer_version, hs_read_message, hs_write_message, is_frame, payload_version, ts_read_message,
    version_payload,
    ts_write_message, zeroed,
};
use crate::text::{
    char_width, chars_of, decimal, digit_char, extend_chars, is_control, is_control_char, push_char,
    push_decimal, string_from_chars, trim_chars, trimmed, utf8_width,
};
use crate::wire::{
    be_u16, check_frame_length, frame_error_text, hi_byte, lo_byte, push_frame_error, slice_range, FailureKind,
    FrameError,
};

verus! {

/// Pairing wire version, independent of the session protocol version.
pub const PAIRING_VERSION: u8 = 1;

/// No PSK and no static keys: nothing is shared yet.
pub const PAIRING_NOISE_PARAMS: &'static str = "Noise_NN_25519_ChaChaPoly_BLAKE2s";

/// Ceiling for a pairing handshake message.
pub const MAX_HANDSHAKE: usize = 256;

/// Ceiling for a post-handshake pairing message's plaintext.
pub const MAX_MSG: usize = 1024;

/// Longest accepted device name, in UTF-8 bytes.
pub const MAX_NAME_LEN: usize = 64;

/// How long the PC waits for its user to answer before declining on its
/// own, in seconds.  Both sides go by it: the Mac waits this long for the
/// answer.
pub const PAIR_DECISION_TIMEOUT_SECS: u64 = 120;

/// The result message's status byte: declined, or accepted.
pub const RESULT_DECLINED: u8 = 0;
pub const RESULT_ACCEPTED: u8 = 1;

/// What the receiver learned about the machine asking to pair.
#[derive(Debug)]
pub struct PairRequest {
    /// The initiator's self-reported name, already sanitized; untrusted text.
    pub peer_name: String,
    /// 6 decimal digits.
    pub code: String,
}

/// The receiver's answer, carrying the request either way.
#[derive(Debug)]
pub enum PairDecision {
    Accepted(PairRequest),
    Declined(PairRequest),
}

/// What the sender walks away with.
#[derive(Debug)]
pub struct PairOutcome {
    /// The receiver's pairing key.
    pub secret: String,
    /// The receiver's session port (not the pairing port).
    pub session_port: u16,
    /// The receiver's display name.
    pub peer_name: String,
    /// The 6-digit code.
    pub code: String,
}

/// Which length-prefixed field a message was missing or garbled.
#[derive(Clone, Copy, PartialEq, Eq, Debug, Structural)]
pub enum Field {
    DeviceName,
    PairingKey,
    SessionPort,
    PcName,
}

/// Why a pairing step failed.
#[derive(Clone, Copy, PartialEq, Eq, Debug, Structural)]
pub enum PairError {
    /// snow refused.
    Noise,
    /// The peer speaks another pairing version (0: it sent none).
    VersionMismatch(u8),
    /// A field ends before its announced length.
    Truncated(Field),
    /// A string field is not UTF-8.
    NotUtf8(Field),
    /// The result message is empty.
    EmptyResult,
    /// The result's status byte is neither declined nor accepted.
    UnrecognizedResult,
    /// The PC sent an empty pairing key.
    EmptyKey,
    /// The PC sent session port 0.
    InvalidSessionPort,
    /// The user on the PC declined.
    Declined,
    /// A frame's length is out of bounds.
    Frame(FrameError),
}

// ----- how a failed pairing reads -----

/// How a message field is named in errors.
pub open spec fn field_text(f: Field) -> Seq<char> {
    match f {
        Field::DeviceName => "device name"@,
        Field::PairingKey => "pairing key"@,
        Field::SessionPort => "session port"@,
        Field::PcName => "PC name"@,
    }
}

fn field_name(f: Field) -> (s: &'static str)
    ensures
        s@ == field_text(f),
{
    match f {
        Field::DeviceName => "device name",
        Field::PairingKey => "pairing key",
        Field::SessionPort => "session port",
        Field::PcName => "PC name",
    }
}

/// What a failed pairing step says.
pub open spec fn pair_error_message(e: PairError) -> Seq<char> {
    match e {
        PairError::Noise => "noise: the cryptographic step was refused"@,
        PairError::VersionMismatch(peer) => "pairing version mismatch: local "@ + decimal(PAIRING_VERSION as nat)
            + ", peer "@ + decimal(peer as nat) + " — update both machines"@,
        PairError::Truncated(f) => "truncated "@ + field_text(f),
        PairError::NotUtf8(f) => field_text(f) + " is not valid UTF-8"@,
        PairError::EmptyResult => "empty pairing result"@,
        PairError::UnrecognizedResult => "unrecognized pairing result"@,
        PairError::EmptyKey => "the PC sent an empty pairing key"@,
        PairError::InvalidSessionPort => "the PC sent an invalid session port"@,
        PairError::Declined => "pairing was declined on the PC"@,
        PairError::Frame(fe) => frame_error_text(fe),
    }
}

/// The kind of a failed pairing step: a decline is a refusal of permission,
/// snow's refusal is other, and everything the peer sent wrong is bad data.
pub open spec fn pair_error_class(e: PairError) -> FailureKind {
    match e {
        PairError::Noise => FailureKind::Other,
        PairError::Declined => FailureKind::PermissionDenied,
        _ => FailureKind::InvalidData,
    }
}

/// The kind of a failed pairing step.
pub fn pair_error_kind(e: PairError) -> (k: FailureKind)
    ensures
        k == pair_error_class(e),
{
    match e {
        PairError::Noise => FailureKind::Other,
        PairError::Declined => FailureKind::PermissionDenied,
        _ => FailureKind::InvalidData,
    }
}

/// The message of a failed pairing step.
pub fn pair_error_text(e: PairError) -> (s: String)
    ensures
        s@ == pair_error_message(e),
{
    let mut cs: Vec<char> = Vec::new();
    match e {
        PairError::Noise => extend_chars(&mut cs, "noise: the cryptographic step was refused"),
        PairError::VersionMismatch(peer) => {
            extend_chars(&mut cs, "pairing version mismatch: local ");
            push_decimal(&mut cs, PAIRING_VERSION as u64);
            extend_chars(&mut cs, ", peer ");
            push_decimal(&mut cs, peer as u64);
            extend_chars(&mut cs, " — update both machines");
        },
        PairError::Truncated(f) => {
            extend_chars(&mut cs, "truncated ");
            extend_chars(&mut cs, field_name(f));
        },
        PairError::NotUtf8(f) => {
            extend_chars(&mut cs, field_name(f));
            extend_chars(&mut cs, " is not valid UTF-8");
        },
        PairError::EmptyResult => extend_chars(&mut cs, "empty pairing result"),
        PairError::UnrecognizedResult => extend_chars(&mut cs, "unrecognized pairing result"),
        PairError::EmptyKey => extend_chars(&mut cs, "the PC sent an empty pairing key"),
        PairError::InvalidSessionPort => extend_chars(&mut cs, "the PC sent an invalid session port"),
        PairError::Declined => extend_chars(&mut cs, "pairing was declined on the PC"),
        PairError::Frame(fe) => push_frame_error(&mut cs, fe),
    }
    assert(cs@ =~= pair_error_message(e));
    string_from_chars(&cs)
}

// ----- the code shown to people -----

/// Domain-separation prefix for the code: "keyboard-it sas v1\0".
pub open spec fn sas_domain() -> Seq<u8> {
    seq![107u8, 101, 121, 98, 111, 97, 114, 100, 45, 105, 116, 32, 115, 97, 115, 32, 118, 49, 0]
}

/// `n` as exactly six decimal digits, zero-padded (`n < 1_000_000`).
pub open spec fn six_digits(n: nat) -> Seq<char> {
    seq![
        digit_char(n / 100000),
        digit_char((n / 10000) % 10),
        digit_char((n / 1000) % 10),
        digit_char((n / 100) % 10),
        digit_char((n / 10) % 10),
        digit_char(n % 10),
    ]
}

/// The code a digest gives: its first four bytes, big-endian, mod 1_000_000.
pub open spec fn code_of_digest(d: Seq<u8>) -> Seq<char> {
    six_digits(((d[0] * 16777216 + d[1] * 65536 + d[2] * 256 + d[3]) % 1000000) as nat)
}

/// The code a handshake hash gives.
pub open spec fn code_of_hash(h: Seq<u8>) -> Seq<char> {
    code_of_digest(blake2s256(sas_domain() + h))
}

fn digit_of(d: u64) -> (c: char)
    requires
        d < 10,
    ensures
        c == digit_char(d as nat),
{
    match d {
        0 => '0',
        1 => '1',
        2 => '2',
        3 => '3',
        4 => '4',
        5 => '5',
        6 => '6',
        7 => '7',
        8 => '8',
        _ => '9',
    }
}

/// The six-digit code of a 32-byte digest.
pub fn code_from_digest(d: &[u8; 32]) -> (s: String)
    ensures
        s@ == code_of_digest(d@),
{
    let n: u64 = ((d[0] as u64) * 16777216 + (d[1] as u64) * 65536 + (d[2] as u64) * 256 + (
    d[3] as u64)) % 1000000;
    let v: Vec<char> = vec![
        digit_of(n / 100000),
        digit_of((n / 10000) % 10),
        digit_of((n / 1000) % 10),
        digit_of((n / 100) % 10),
        digit_of((n / 10) % 10),
        digit_of(n % 10),
    ];
    assert(v@ =~= code_of_digest(d@));
    string_from_chars(v.as_slice())
}

/// Derive the short authentication string from the Noise handshake hash.
pub fn sas_from_hash(h: &[u8]) -> (s: String)
    ensures
        s@ == code_of_hash(h@),
{
    let mut data: Vec<u8> = Vec::new();
    let prefix: [u8; 19] = [107, 101, 121, 98, 111, 97, 114, 100, 45, 105, 116, 32, 115, 97, 115, 32, 118, 49, 0];
    let mut i: usize = 0;
    while i < 19
        invariant
            i <= 19,
            prefix@ == sas_domain(),
            data@ == prefix@.subrange(0, i as int),
        decreases 19 - i,
    {
        data.push(prefix[i]);
        i += 1;
        assert(data@ =~= prefix@.subrange(0, i as int));
    }
    let mut j: usize = 0;
    while j < h.len()
        invariant
            j <= h@.len(),
            data@ == sas_domain() + h@.subrange(0, j as int),
        decreases h@.len() - j,
    {
        data.push(h[j]);
        j += 1;
        assert(data@ =~= sas_domain() + h@.subrange(0, j as int));
    }
    assert(h@.subrange(0, h@.len() as int) =~= h@);
    let d = blake2s256_digest(data.as_slice());
    code_from_digest(&d)
}

/// Where splitting `s` after `budget` UTF-8 bytes lands on a character
/// boundary, the number of characters before it.
pub open spec fn split_point(s: Seq<char>, budget: nat) -> Option<nat>
    decreases s.len(),
{
    if budget == 0 {
        Some(0)
    } else if s.len() == 0 || char_width(s[0]) > budget {
        None
    } else {
        match split_point(s.drop_first(), (budget - char_width(s[0])) as nat) {
            Some(k) => Some(k + 1),
            None => None,
        }
    }
}

/// "482913" -> "482 913": a space after the first three bytes when they end on
/// a character boundary, the text unchanged otherwise.
pub open spec fn code_display_text(code: Seq<char>) -> Seq<char> {
    match split_point(code, 3) {
        Some(k) => code.subrange(0, k as int) + seq![' '] + code.subrange(k as int, code.len() as int),
        None => code,
    }
}

/// Render a code for humans: "482913" -> "482 913".
pub fn code_display(code: &str) -> (s: String)
    ensures
        s@ == code_display_text(code@),
{
    let cs = chars_of(code);
    let mut k: usize = 0;
    let mut budget: usize = 3;
    assert(cs@.subrange(0, cs@.len() as int) =~= cs@);
    while budget > 0 && k < cs.len() && utf8_width(cs[k]) <= budget
        invariant
            k <= cs@.len(),
            budget <= 3,
            split_point(cs@, 3) == (match split_point(cs@.subrange(k as int, cs@.len() as int), budget as nat) {
                Some(j) => Some((j + k) as nat),
                None => None::<nat>,
            }),
        decreases cs@.len() - k,
    {
        let w = utf8_width(cs[k]);
        assert(cs@.subrange(k as int, cs@.len() as int).drop_first() =~= cs@.subrange(k + 1, cs@.len() as int));
        budget -= w;
        k += 1;
    }
    if budget == 0 {
        let mut out: Vec<char> = Vec::new();
        let mut i: usize = 0;
        while i < cs.len()
            invariant
                k <= cs@.len(),
                i <= cs@.len(),
                out@ == (if i <= k {
                    cs@.subrange(0, i as int)
                } else {
                    cs@.subrange(0, k as int) + seq![' '] + cs@.subrange(k as int, i as int)
                }),
            decreases cs@.len() - i,
        {
            if i == k {
                out.push(' ');
            }
            out.push(cs[i]);
            i += 1;
            assert(out@ =~= (if i <= k {
                cs@.subrange(0, i as int)
            } else {
                cs@.subrange(0, k as int) + seq![' '] + cs@.subrange(k as int, i as int)
            }));
        }
        if k == cs.len() {
            out.push(' ');
            assert(out@ =~= cs@.subrange(0, k as int) + seq![' '] + cs@.subrange(k as int, k as int));
        }
        string_from_chars(out.as_slice())
    } else {
        string_from_chars(cs.as_slice())
    }
}

// ----- names from the network -----

/// `s` with its control characters removed.
pub open spec fn drop_controls(s: Seq<char>) -> Seq<char> {
    s.filter(|c: char| !is_control(c))
}

/// The longest prefix of `s` whose UTF-8 encoding fits in `budget` bytes.
pub open spec fn fit_prefix(s: Seq<char>, budget: nat) -> Seq<char>
    decreases s.len(),
{
    if s.len() == 0 || char_width(s[0]) > budget {
        seq![]
    } else {
        seq![s[0]] + fit_prefix(s.drop_first(), (budget - char_width(s[0])) as nat)
    }
}

/// A network-supplied name made safe for a dialog: control characters
/// dropped, whitespace trimmed, cut to `MAX_NAME_LEN` bytes on a character
/// boundary, and "unknown device" if nothing is left.
pub open spec fn sanitized(raw: Seq<char>) -> Seq<char> {
    let out = fit_prefix(trimmed(drop_controls(raw)), 64);
    if out.len() == 0 {
        "unknown device"@
    } else {
        out
    }
}

proof fn lemma_fit_prefix_shape(s: Seq<char>, budget: nat)
    ensures
        fit_prefix(s, budget).len() <= s.len(),
        fit_prefix(s, budget) == s.subrange(0, fit_prefix(s, budget).len() as int),
        encode_utf8(fit_prefix(s, budget)).len() <= budget,
    decreases s.len(),
{
    if s.len() == 0 || char_width(s[0]) > budget {
        assert(encode_utf8(Seq::<char>::empty()) =~= Seq::<u8>::empty());
    } else {
        let rest = fit_prefix(s.drop_first(), (budget - char_width(s[0])) as nat);
        lemma_fit_prefix_shape(s.drop_first(), (budget - char_width(s[0])) as nat);
        let f = fit_prefix(s, budget);
        assert(f.drop_first() =~= rest);
        assert(f =~= s.subrange(0, f.len() as int));
    }
}

proof fn lemma_trim_shape(s: Seq<char>)
    ensures
        forall|i: int| 0 <= i < trimmed(s).len() ==> s.contains(#[trigger] trimmed(s)[i]),
{
    lemma_trim_start_sub(s);
    lemma_trim_end_sub(crate::text::trim_start(s));
    assert forall|i: int| 0 <= i < trimmed(s).len() implies s.contains(#[trigger] trimmed(s)[i]) by {
        let t = crate::text::trim_start(s);
        assert(t.contains(trimmed(s)[i]));
        let k = choose|k: int| 0 <= k < t.len() && t[k] == trimmed(s)[i];
        assert(s.contains(t[k]));
    }
}

proof fn lemma_trim_start_sub(s: Seq<char>)
    ensures
        forall|i: int| 0 <= i < crate::text::trim_start(s).len() ==> s.contains(#[trigger] crate::text::trim_start(s)[i]),
    decreases s.len(),
{
    if s.len() > 0 && crate::text::is_whitespace(s[0]) {
        lemma_trim_start_sub(s.drop_first());
        assert forall|i: int| 0 <= i < crate::text::trim_start(s).len() implies s.contains(
            #[trigger] crate::text::trim_start(s)[i],
        ) by {
            let x = crate::text::trim_start(s)[i];
            assert(crate::text::trim_start(s) == crate::text::trim_start(s.drop_first()));
            assert(crate::text::trim_start(s.drop_first())[i] == x);
            assert(s.drop_first().contains(x));
            let k = choose|k: int| 0 <= k < s.drop_first().len() && s.drop_first()[k] == x;
            assert(s[k + 1] == x);
        }
    } else {
        assert forall|i: int| 0 <= i < crate::text::trim_start(s).len() implies s.contains(
            #[trigger] crate::text::trim_start(s)[i],
        ) by {
            assert(s[i] == crate::text::trim_start(s)[i]);
        }
    }
}

proof fn lemma_trim_end_sub(s: Seq<char>)
    ensures
        forall|i: int| 0 <= i < crate::text::trim_end(s).len() ==> s.contains(#[trigger] crate::text::trim_end(s)[i]),
    decreases s.len(),
{
    if s.len() > 0 && crate::text::is_whitespace(s.last()) {
        lemma_trim_end_sub(s.drop_last());
        assert forall|i: int| 0 <= i < crate::text::trim_end(s).len() implies s.contains(
            #[trigger] crate::text::trim_end(s)[i],
        ) by {
            let x = crate::text::trim_end(s)[i];
            assert(crate::text::trim_end(s) == crate::text::trim_end(s.drop_last()));
            assert(crate::text::trim_end(s.drop_last())[i] == x);
            assert(s.drop_last().contains(x));
            let k = choose|k: int| 0 <= k < s.drop_last().len() && s.drop_last()[k] == x;
            assert(s[k] == x);
        }
    } else {
        assert forall|i: int| 0 <= i < crate::text::trim_end(s).len() implies s.contains(
            #[trigger] crate::text::trim_end(s)[i],
        ) by {
            assert(s[i] == crate::text::trim_end(s)[i]);
        }
    }
}

/// A sanitized name is never empty, fits in `MAX_NAME_LEN` UTF-8 bytes, and
/// holds no control character.
pub proof fn lemma_sanitized_shape(raw: Seq<char>)
    ensures
        sanitized(raw).len() > 0,
        encode_utf8(sanitized(raw)).len() <= MAX_NAME_LEN,
        forall|i: int| 0 <= i < sanitized(raw).len() ==> !is_control(#[trigger] sanitized(raw)[i]),
{
    let f = drop_controls(raw);
    let t = trimmed(f);
    let out = fit_prefix(t, 64);
    lemma_fit_prefix_shape(t, 64);
    if out.len() == 0 {
        reveal_strlit("unknown device");
        is_ascii_chars_encode_utf8("unknown device"@);
        assert(is_ascii_chars("unknown device"@));
    } else {
        lemma_trim_shape(f);
        assert forall|i: int| 0 <= i < out.len() implies !is_control(#[trigger] out[i]) by {
            assert(out[i] == t[i]);
            assert(f.contains(t[i]));
            let k = choose|k: int| 0 <= k < f.len() && f[k] == t[i];
            raw.lemma_filter_pred(|c: char| !is_control(c), k);
        }
    }
}

/// Clamp a network-supplied device name to something safe to show.
pub fn sanitize_name(raw: &str) -> (s: String)
    ensures
        s@ == sanitized(raw@),
{
    let cs = chars_of(raw);
    let mut cleaned: Vec<char> = Vec::new();
    let mut i: usize = 0;
    while i < cs.len()
        invariant
            i <= cs@.len(),
            cleaned@ == cs@.subrange(0, i as int).filter(|c: char| !is_control(c)),
        decreases cs@.len() - i,
    {
        let c = cs[i];
        proof {
            reveal(Seq::filter);
            assert(cs@.subrange(0, i + 1).drop_last() =~= cs@.subrange(0, i as int));
        }
        if !is_control_char(c) {
            cleaned.push(c);
        }
        i += 1;
    }
    assert(cs@.subrange(0, cs@.len() as int) =~= cs@);
    let t = trim_chars(cleaned.as_slice());
    let mut out: Vec<char> = Vec::new();
    let mut used: usize = 0;
    let mut j: usize = 0;
    assert(t@.subrange(0, t@.len() as int) =~= t@);
    while j < t.len() && used + utf8_width(t[j]) <= MAX_NAME_LEN
        invariant
            j <= t@.len(),
            used <= MAX_NAME_LEN,
            fit_prefix(t@, 64) == out@ + fit_prefix(t@.subrange(j as int, t@.len() as int), (64 - used) as nat),
        decreases t@.len() - j,
    {
        let w = utf8_width(t[j]);
        assert(t@.subrange(j as int, t@.len() as int).drop_first() =~= t@.subrange(j + 1, t@.len() as int));
        assert(out@.push(t[j as int]) + fit_prefix(t@.subrange(j + 1, t@.len() as int), (64 - used - w) as nat)
            =~= out@ + (seq![t@[j as int]] + fit_prefix(t@.subrange(j + 1, t@.len() as int), (64 - used - w) as nat)));
        out.push(t[j]);
        used += w;
        j += 1;
    }
    assert(out@ + Seq::<char>::empty() =~= out@);
    if out.len() == 0 {
        String::from_str("unknown device")
    } else {
        string_from_chars(out.as_slice())
    }
}

// ----- length-prefixed strings -----

/// A byte string behind its one-byte length, cut at 255 bytes.
pub open spec fn length_prefixed(b: Seq<u8>) -> Seq<u8> {
    let n = if b.len() <= 255 {
        b.len()
    } else {
        255
    };
    seq![n as u8] + b.subrange(0, n as int)
}

/// Append `s` as a length-prefixed string. Longer than 255 bytes is cut there
/// (callers keep names and keys far shorter).
pub fn push_str(buf: &mut Vec<u8>, s: &str)
    ensures
        final(buf)@ == old(buf)@ + length_prefixed(encode_utf8(s@)),
{
    let bytes = s.as_bytes();
    let n: usize = if bytes.len() <= 255 {
        bytes.len()
    } else {
        255
    };
    buf.push(n as u8);
    let mut i: usize = 0;
    while i < n
        invariant
            i <= n <= bytes@.len(),
            n <= 255,
            bytes@ == encode_utf8(s@),
            n == (if bytes@.len() <= 255 { bytes@.len() } else { 255 }),
            buf@ == old(buf)@ + seq![n as u8] + bytes@.subrange(0, i as int),
        decreases n - i,
    {
        buf.push(bytes[i]);
        i += 1;
        assert(buf@ =~= old(buf)@ + seq![n as u8] + bytes@.subrange(0, i as int));
    }
    assert(old(buf)@ + seq![n as u8] + bytes@.subrange(0, n as int) =~= old(buf)@ + length_prefixed(encode_utf8(s@)));
}

/// `std::str::from_utf8`, owned: succeeds exactly on valid UTF-8, and the
/// string's UTF-8 bytes are the input.
#[verifier::external_body]
fn utf8_to_string(b: &[u8]) -> (r: Option<String>)
    ensures
        r is Some <==> valid_utf8(b@),
        r matches Some(s) ==> encode_utf8(s@) == b@,
{
    std::str::from_utf8(b).ok().map(|s| s.to_string())
}

/// Reading a length-prefixed string at `pos`: the string and the position
/// after it.
pub open spec fn take_str_at(msg: Seq<u8>, pos: int, what: Field) -> Result<(Seq<char>, int), PairError> {
    if pos >= msg.len() {
        Err(PairError::Truncated(what))
    } else if msg.len() - (pos + 1) < msg[pos] {
        Err(PairError::Truncated(what))
    } else {
        let b = msg.subrange(pos + 1, pos + 1 + msg[pos]);
        if valid_utf8(b) {
            Ok((decode_utf8(b), pos + 1 + msg[pos]))
        } else {
            Err(PairError::NotUtf8(what))
        }
    }
}

/// Read a length-prefixed string starting at `pos`.
pub fn take_str(msg: &[u8], pos: usize, what: Field) -> (r: Result<(String, usize), PairError>)
    requires
        pos <= msg@.len(),
    ensures
        match take_str_at(msg@, pos as int, what) {
            Ok((s, p)) => r matches Ok((rs, rp)) && rs@ == s && rp == p,
            Err(e) => r == Err::<(String, usize), PairError>(e),
        },
{
    if pos >= msg.len() {
        return Err(PairError::Truncated(what));
    }
    let len = msg[pos] as usize;
    if msg.len() - (pos + 1) < len {
        return Err(PairError::Truncated(what));
    }
    let b = slice_range(msg, pos + 1, pos + 1 + len);
    match utf8_to_string(b.as_slice()) {
        Some(s) => {
            proof {
                encode_utf8_decode_utf8(s@);
            }
            Ok((s, pos + 1 + len))
        },
        None => Err(PairError::NotUtf8(what)),
    }
}

// ----- HELLO and RESULT -----

/// The HELLO message: the sanitized name, length-prefixed.
pub open spec fn hello_bytes(my_name: Seq<char>) -> Seq<u8> {
    length_prefixed(encode_utf8(sanitized(my_name)))
}

/// What the receiver reads from a HELLO: the sanitized device name.
pub open spec fn hello_view(msg: Seq<u8>) -> Result<Seq<char>, PairError> {
    match take_str_at(msg, 0, Field::DeviceName) {
        Ok((name, _)) => Ok(sanitized(name)),
        Err(e) => Err(e),
    }
}

/// The accepted RESULT: status, the secret, the session port, the sanitized
/// name of the PC.
pub open spec fn accepted_bytes(secret: Seq<char>, session_port: u16, my_name: Seq<char>) -> Seq<u8> {
    seq![RESULT_ACCEPTED] + length_prefixed(encode_utf8(secret)) + seq![
        hi_byte(session_port),
        lo_byte(session_port),
    ] + length_prefixed(encode_utf8(sanitized(my_name)))
}

/// What the sender reads from a RESULT.
pub open spec fn result_view(msg: Seq<u8>) -> Result<(Seq<char>, u16, Seq<char>), PairError> {
    if msg.len() == 0 {
        Err(PairError::EmptyResult)
    } else if msg[0] == RESULT_DECLINED {
        Err(PairError::Declined)
    } else if msg[0] != RESULT_ACCEPTED {
        Err(PairError::UnrecognizedResult)
    } else {
        match take_str_at(msg, 1, Field::PairingKey) {
            Err(e) => Err(e),
            Ok((secret, p)) => if secret.len() == 0 {
                Err(PairError::EmptyKey)
            } else if msg.len() < p + 2 {
                Err(PairError::Truncated(Field::SessionPort))
            } else if be_u16(msg[p], msg[p + 1]) == 0 {
                Err(PairError::InvalidSessionPort)
            } else {
                match take_str_at(msg, p + 2, Field::PcName) {
                    Err(e) => Err(e),
                    Ok((name, _)) => Ok((secret, be_u16(msg[p], msg[p + 1]), sanitized(name))),
                }
            },
        }
    }
}

/// Build the HELLO message.
pub fn hello_message(my_name: &str) -> (m: Vec<u8>)
    ensures
        m@ == hello_bytes(my_name@),
{
    let name = sanitize_name(my_name);
    let mut m: Vec<u8> = Vec::new();
    push_str(&mut m, name.as_str());
    assert(m@ =~= hello_bytes(my_name@));
    m
}

/// Read a HELLO message.
pub fn parse_hello(msg: &[u8]) -> (r: Result<String, PairError>)
    ensures
        match hello_view(msg@) {
            Ok(n) => r matches Ok(s) && s@ == n,
            Err(e) => r == Err::<String, PairError>(e),
        },
{
    let (name, _) = take_str(msg, 0, Field::DeviceName)?;
    Ok(sanitize_name(name.as_str()))
}

/// Build the accepted RESULT message.
pub fn accepted_message(secret: &str, session_port: u16, my_name: &str) -> (m: Vec<u8>)
    ensures
        m@ == accepted_bytes(secret@, session_port, my_name@),
{
    let mut m: Vec<u8> = Vec::new();
    m.push(RESULT_ACCEPTED);
    push_str(&mut m, secret);
    m.push((session_port / 256) as u8);
    m.push((session_port % 256) as u8);
    let name = sanitize_name(my_name);
    push_str(&mut m, name.as_str());
    assert(m@ =~= accepted_bytes(secret@, session_port, my_name@));
    m
}

/// Read a RESULT message.
pub fn parse_result(msg: &[u8]) -> (r: Result<(String, u16, String), PairError>)
    ensures
        match result_view(msg@) {
            Ok((s, p, n)) => r matches Ok((rs, rp, rn)) && rs@ == s && rp == p && rn@ == n,
            Err(e) => r == Err::<(String, u16, String), PairError>(e),
        },
{
    if msg.len() == 0 {
        return Err(PairError::EmptyResult);
    }
    if msg[0] == RESULT_DECLINED {
        return Err(PairError::Declined);
    }
    if msg[0] != RESULT_ACCEPTED {
        return Err(PairError::UnrecognizedResult);
    }
    let (secret, p) = take_str(msg, 1, Field::PairingKey)?;
    if secret.as_str().is_empty() {
        return Err(PairError::EmptyKey);
    }
    if msg.len() - p < 2 {
        return Err(PairError::Truncated(Field::SessionPort));
    }
    let port = (msg[p] as u16) * 256 + (msg[p + 1] as u16);
    if port == 0 {
        return Err(PairError::InvalidSessionPort);
    }
    let (name, _) = take_str(msg, p + 2, Field::PcName)?;
    Ok((secret, port, sanitize_name(name.as_str())))
}

proof fn lemma_take_str_roundtrip(prefix: Seq<u8>, s: Seq<char>, rest: Seq<u8>, what: Field)
    requires
        encode_utf8(s).len() <= 255,
    ensures
        take_str_at(prefix + length_prefixed(encode_utf8(s)) + rest, prefix.len() as int, what) == Ok::<
            (Seq<char>, int),
            PairError,
        >((s, (prefix.len() + 1 + encode_utf8(s).len()) as int)),
{
    let b = encode_utf8(s);
    let msg = prefix + length_prefixed(b) + rest;
    let p = prefix.len() as int;
    assert(msg[p] == b.len() as u8);
    assert(msg.subrange(p + 1, p + 1 + b.len()) =~= b);
    encode_utf8_valid_utf8(s);
    encode_utf8_decode_utf8(s);
}

/// The receiver reads back exactly the sanitized name the sender's HELLO
/// carried, sanitized once more.
pub proof fn lemma_hello_roundtrip(my_name: Seq<char>)
    ensures
        hello_view(hello_bytes(my_name)) == Ok::<Seq<char>, PairError>(sanitized(sanitized(my_name))),
{
    lemma_sanitized_shape(my_name);
    lemma_take_str_roundtrip(Seq::<u8>::empty(), sanitized(my_name), Seq::<u8>::empty(), Field::DeviceName);
    assert(Seq::<u8>::empty() + hello_bytes(my_name) + Seq::<u8>::empty() =~= hello_bytes(my_name));
}

/// Accepting transfers the secret and the session port unchanged, and the
/// PC's sanitized name: the sender reads back what the receiver wrote,
/// whenever the secret is non-empty and at most 255 bytes and the port is not 0.
pub proof fn lemma_result_roundtrip(secret: Seq<char>, session_port: u16, my_name: Seq<char>)
    requires
        secret.len() > 0,
        encode_utf8(secret).len() <= 255,
        session_port != 0,
    ensures
        result_view(accepted_bytes(secret, session_port, my_name)) == Ok::<
            (Seq<char>, u16, Seq<char>),
            PairError,
        >((secret, session_port, sanitized(sanitized(my_name)))),
{
    let b = encode_utf8(secret);
    let port_bytes = seq![hi_byte(session_port), lo_byte(session_port)];
    let tail = port_bytes + length_prefixed(encode_utf8(sanitized(my_name)));
    let msg = accepted_bytes(secret, session_port, my_name);
    assert(msg =~= seq![RESULT_ACCEPTED] + length_prefixed(b) + tail);
    lemma_take_str_roundtrip(seq![RESULT_ACCEPTED], secret, tail, Field::PairingKey);
    let p = (2 + b.len()) as int;
    let head = seq![RESULT_ACCEPTED] + length_prefixed(b);
    assert(length_prefixed(b) =~= seq![b.len() as u8] + b);
    assert(head.len() == p);
    assert(msg =~= head + tail);
    assert(msg[p] == tail[0]);
    assert(msg[p + 1] == tail[1]);
    assert(msg[p] == hi_byte(session_port));
    assert(msg[p + 1] == lo_byte(session_port));
    crate::wire::lemma_be_u16_roundtrip(session_port);
    lemma_sanitized_shape(my_name);
    let pre = seq![RESULT_ACCEPTED] + length_prefixed(b) + port_bytes;
    assert(msg =~= pre + length_prefixed(encode_utf8(sanitized(my_name))) + Seq::<u8>::empty());
    lemma_take_str_roundtrip(pre, sanitized(my_name), Seq::<u8>::empty(), Field::PcName);
}

/// A decline reaches the sender as `Declined`.
pub proof fn lemma_declined_is_declined()
    ensures
        result_view(seq![RESULT_DECLINED]) == Err::<(Seq<char>, u16, Seq<char>), PairError>(
            PairError::Declined,
        ),
{
}


// ----- the protocol steps -----

/// The initiator after the handshake: the session, the code both sides can
/// derive, and the HELLO frame to send.
pub struct InitiatorSession {
    pub transport: snow::TransportState,
    pub code: String,
    pub hello_frame: Vec<u8>,
}

/// The responder's answer to message 1: the frame to send back (always, so the
/// peer can report a version mismatch), then the session or why there is none.
pub struct ResponderReply {
    pub frame: Vec<u8>,
    pub session: Result<(snow::TransportState, String), PairError>,
}

fn pairing_builder<'a>() -> (r: Result<snow::Builder<'a>, PairError>)
    ensures
        r matches Err(e) ==> e == PairError::Noise,
{
    match noise_params(PAIRING_NOISE_PARAMS) {
        Ok(p) => Ok(noise_builder(p)),
        Err(_) => Err(PairError::Noise),
    }
}

/// Encrypt a pairing message and frame it: the frame carries the message plus
/// the 16-byte tag.
fn seal(t: &mut snow::TransportState, plain: &[u8]) -> (r: Result<Vec<u8>, PairError>)
    ensures
        r matches Ok(f) ==> is_frame(f@) && f@.len() == 4 + plain@.len() + 16,
        r matches Err(e) ==> e == PairError::Noise,
{
    let mut ct = zeroed(MAX_MSG + 16);
    let n = match ts_write_message(t, plain, &mut ct) {
        Ok(n) => n,
        Err(_) => return Err(PairError::Noise),
    };
    Ok(frame_prefix(&ct, n))
}

/// Decrypt a pairing message. Ciphertext longer than the receive buffer
/// (`MAX_MSG` + 16) is refused before decryption.
fn open(t: &mut snow::TransportState, ct: &[u8]) -> (r: Result<Vec<u8>, PairError>)
    ensures
        ct@.len() == 0 || ct@.len() > MAX_MSG + 16 ==> r == Err::<Vec<u8>, PairError>(
            PairError::Frame(FrameError::InvalidLength),
        ),
        r matches Ok(p) ==> p@.len() + 16 == ct@.len(),
        r matches Err(e) ==> e == (if ct@.len() == 0 || ct@.len() > MAX_MSG + 16 {
            PairError::Frame(FrameError::InvalidLength)
        } else {
            PairError::Noise
        }),
{
    match check_frame_length(ct.len() as u64, MAX_MSG + 16) {
        Ok(_) => {},
        Err(_) => return Err(PairError::Frame(FrameError::InvalidLength)),
    }
    let mut out = zeroed(MAX_MSG);
    let m = match ts_read_message(t, ct, &mut out) {
        Ok(m) => m,
        Err(_) => return Err(PairError::Noise),
    };
    Ok(slice_range(out.as_slice(), 0, m))
}

/// Sender, step 1: the NN initiator and message 1, whose payload (in the
/// clear: NN has no key yet) is `PAIRING_VERSION`.
pub fn pair_initiator_start() -> (r: Result<(snow::HandshakeState, Vec<u8>), PairError>)
    ensures
        r matches Ok((_, f)) ==> is_frame(f@) && f@.len() <= 4 + MAX_HANDSHAKE,
        r matches Err(e) ==> e == PairError::Noise,
{
    let b = pairing_builder()?;
    let mut hs = match noise_build_initiator(b) {
        Ok(h) => h,
        Err(_) => return Err(PairError::Noise),
    };
    let mut buf = zeroed(MAX_HANDSHAKE);
    let payload = version_payload(PAIRING_VERSION);
    let n = match hs_write_message(&mut hs, &payload, &mut buf) {
        Ok(n) => n,
        Err(_) => return Err(PairError::Noise),
    };
    Ok((hs, frame_prefix(&buf, n)))
}

/// Sender, step 2: read message 2, check the receiver's pairing version,
/// derive the code from the handshake hash, switch to transport mode, and seal
/// the HELLO carrying this machine's sanitized name.
pub fn pair_initiator_on_reply(hs: snow::HandshakeState, msg: &[u8], my_name: &str) -> (r: Result<
    InitiatorSession,
    PairError,
>)
    ensures
        r matches Ok(s) ==> is_frame(s.hello_frame@) && s.hello_frame@.len() == 4 + hello_bytes(
            my_name@,
        ).len() + 16,
        r matches Ok(s) ==> exists|h: Seq<u8>| s.code@ == #[trigger] code_of_hash(h),
        r matches Err(e) ==> e == PairError::Noise || (e matches PairError::VersionMismatch(v)
            && v != PAIRING_VERSION),
{
    let mut hs = hs;
    let mut tmp = zeroed(MAX_HANDSHAKE);
    let m = match hs_read_message(&mut hs, msg, &mut tmp) {
        Ok(m) => m,
        Err(_) => return Err(PairError::Noise),
    };
    let payload = slice_range(tmp.as_slice(), 0, m);
    pair_initiator_after_reply(hs, &payload, my_name)
}

/// Sender, step 2 once message 2 is read and `payload` is what it carried:
/// a receiver with another pairing version (or none) is refused with
/// `VersionMismatch` naming its version; otherwise the code is derived from
/// the handshake hash, the session switches to transport mode, and the HELLO
/// carrying this machine's sanitized name is sealed.
pub fn pair_initiator_after_reply(hs: snow::HandshakeState, payload: &Vec<u8>, my_name: &str) -> (r: Result<
    InitiatorSession,
    PairError,
>)
    ensures
        payload_version(payload@) != PAIRING_VERSION ==> r == Err::<InitiatorSession, PairError>(
            PairError::VersionMismatch(payload_version(payload@)),
        ),
        r matches Ok(s) ==> is_frame(s.hello_frame@) && s.hello_frame@.len() == 4 + hello_bytes(
            my_name@,
        ).len() + 16,
        r matches Ok(s) ==> exists|h: Seq<u8>| s.code@ == #[trigger] code_of_hash(h),
        payload_version(payload@) == PAIRING_VERSION ==> (r matches Err(e) ==> e == PairError::Noise),
{
    assert(payload@.subrange(0, payload@.len() as int) =~= payload@);
    match check_peer_version(payload, payload.len(), PAIRING_VERSION) {
        Ok(()) => {},
        Err(peer) => return Err(PairError::VersionMismatch(peer)),
    }
    let h = hs_handshake_hash(&hs);
    let code = sas_from_hash(h.as_slice());
    let mut t = match hs_into_transport(hs) {
        Ok(t) => t,
        Err(_) => return Err(PairError::Noise),
    };
    let hello = hello_message(my_name);
    let hello_frame = seal(&mut t, hello.as_slice())?;
    Ok(InitiatorSession { transport: t, code, hello_frame })
}

/// Sender, step 3: open the RESULT and read it. A decline is `Declined`.
pub fn pair_initiator_on_result(t: &mut snow::TransportState, ct: &[u8], code: String) -> (r: Result<
    PairOutcome,
    PairError,
>)
    ensures
        // the length check comes first, and it alone gives `InvalidLength`
        (ct@.len() == 0 || ct@.len() > MAX_MSG + 16) <==> r == Err::<PairOutcome, PairError>(
            PairError::Frame(FrameError::InvalidLength),
        ),
        // otherwise the RESULT is what the decrypted plaintext reads as, or
        // decryption itself failed
        r matches Ok(o) ==> o.code@ == code@ && exists|p: Seq<u8>|
            p.len() + 16 == ct@.len() && #[trigger] result_view(p) == Ok::<(Seq<char>, u16, Seq<char>), PairError>(
                (o.secret@, o.session_port, o.peer_name@),
            ),
        r matches Err(e) ==> e == PairError::Noise || e == PairError::Frame(FrameError::InvalidLength)
            || exists|p: Seq<u8>| p.len() + 16 == ct@.len() && #[trigger] result_view(p) == Err::<
                (Seq<char>, u16, Seq<char>),
                PairError,
            >(e),
{
    let plain = open(t, ct)?;
    match parse_result(plain.as_slice()) {
        Ok((secret, session_port, peer_name)) => Ok(PairOutcome { secret, session_port, peer_name, code }),
        Err(e) => Err(e),
    }
}

/// Receiver, step 1: read message 1 (clear payload: the sender's pairing
/// version) and answer with message 2 carrying `PAIRING_VERSION`, even on a
/// mismatch so the sender can name the cause; then fail on a mismatch, or
/// derive the code and switch to transport mode.
pub fn pair_responder_on_request(msg: &[u8]) -> (r: Result<ResponderReply, PairError>)
    ensures
        r matches Ok(rep) ==> is_frame(rep.frame@) && rep.frame@.len() <= 4 + MAX_HANDSHAKE,
        r matches Ok(rep) ==> (rep.session matches Ok((_, code)) ==> exists|h: Seq<u8>|
            code@ == #[trigger] code_of_hash(h)),
        r matches Ok(rep) ==> (rep.session matches Err(e) ==> e == PairError::Noise || (e matches PairError::VersionMismatch(v)
            && v != PAIRING_VERSION)),
        r matches Err(e) ==> e == PairError::Noise,
{
    let b = pairing_builder()?;
    let mut hs = match noise_build_responder(b) {
        Ok(h) => h,
        Err(_) => return Err(PairError::Noise),
    };
    let mut tmp = zeroed(MAX_HANDSHAKE);
    let m = match hs_read_message(&mut hs, msg, &mut tmp) {
        Ok(m) => m,
        Err(_) => return Err(PairError::Noise),
    };
    let payload = slice_range(tmp.as_slice(), 0, m);
    pair_answer_request(hs, &payload)
}

/// Receiver, step 1 once message 1 is read and `payload` is what it carried:
/// message 2, carrying `PAIRING_VERSION`, is framed whatever the sender's
/// version, so the sender can name a mismatch; then a sender with another
/// pairing version (or none) is refused with `VersionMismatch` naming its
/// version, and otherwise the code is derived and the session switches to
/// transport mode.
pub fn pair_answer_request(hs: snow::HandshakeState, payload: &Vec<u8>) -> (r: Result<ResponderReply, PairError>)
    ensures
        r matches Ok(rep) ==> is_frame(rep.frame@) && rep.frame@.len() <= 4 + MAX_HANDSHAKE,
        r matches Ok(rep) ==> (payload_version(payload@) != PAIRING_VERSION ==> rep.session == Err::<
            (snow::TransportState, String),
            PairError,
        >(PairError::VersionMismatch(payload_version(payload@)))),
        r matches Ok(rep) ==> (payload_version(payload@) == PAIRING_VERSION ==> (rep.session matches Err(e)
            ==> e == PairError::Noise)),
        r matches Ok(rep) ==> (rep.session matches Ok((_, code)) ==> exists|h: Seq<u8>|
            code@ == #[trigger] code_of_hash(h)),
        r matches Err(e) ==> e == PairError::Noise,
{
    let mut hs = hs;
    assert(payload@.subrange(0, payload@.len() as int) =~= payload@);
    let verdict = check_peer_version(payload, payload.len(), PAIRING_VERSION);
    let mut buf = zeroed(MAX_HANDSHAKE);
    let reply = version_payload(PAIRING_VERSION);
    let n = match hs_write_message(&mut hs, &reply, &mut buf) {
        Ok(n) => n,
        Err(_) => return Err(PairError::Noise),
    };
    let frame = frame_prefix(&buf, n);
    if let Err(peer) = verdict {
        return Ok(ResponderReply { frame, session: Err(PairError::VersionMismatch(peer)) });
    }
    let h = hs_handshake_hash(&hs);
    let code = sas_from_hash(h.as_slice());
    let session = match hs_into_transport(hs) {
        Ok(t) => Ok((t, code)),
        Err(_) => Err(PairError::Noise),
    };
    Ok(ResponderReply { frame, session })
}

/// Receiver, step 2: open the HELLO and build the request to show the user.
pub fn pair_responder_on_hello(t: &mut snow::TransportState, ct: &[u8], code: String) -> (r: Result<
    PairRequest,
    PairError,
>)
    ensures
        // the length check comes first, and it alone gives `InvalidLength`
        (ct@.len() == 0 || ct@.len() > MAX_MSG + 16) <==> r == Err::<PairRequest, PairError>(
            PairError::Frame(FrameError::InvalidLength),
        ),
        // otherwise the HELLO is what the decrypted plaintext reads as, or
        // decryption itself failed
        r matches Ok(req) ==> req.code@ == code@ && exists|p: Seq<u8>|
            p.len() + 16 == ct@.len() && #[trigger] hello_view(p) == Ok::<Seq<char>, PairError>(req.peer_name@),
        r matches Err(e) ==> e == PairError::Noise || e == PairError::Frame(FrameError::InvalidLength)
            || exists|p: Seq<u8>| p.len() + 16 == ct@.len() && #[trigger] hello_view(p) == Err::<Seq<char>, PairError>(e),
{
    let plain = open(t, ct)?;
    let peer_name = parse_hello(plain.as_slice())?;
    Ok(PairRequest { peer_name, code })
}

/// Receiver, step 3: seal the answer the user gave. Declined sends the
/// one-byte decline; accepted sends the secret, the session port and this
/// PC's sanitized name. The decision carries the request either way.
pub fn pair_responder_answer(
    t: &mut snow::TransportState,
    req: PairRequest,
    accepted: bool,
    secret: &str,
    session_port: u16,
    my_name: &str,
) -> (r: (PairDecision, Result<Vec<u8>, PairError>))
    ensures
        accepted ==> (r.0 matches PairDecision::Accepted(q) && q.peer_name@ == req.peer_name@
            && q.code@ == req.code@),
        !accepted ==> (r.0 matches PairDecision::Declined(q) && q.peer_name@ == req.peer_name@
            && q.code@ == req.code@),
        r.1 matches Ok(f) ==> is_frame(f@) && f@.len() == 4 + 16 + (if accepted {
            accepted_bytes(secret@, session_port, my_name@).len()
        } else {
            1
        }),
        r.1 matches Err(e) ==> e == PairError::Noise,
{
    if !accepted {
        let msg: [u8; 1] = [RESULT_DECLINED];
        let f = seal(t, &msg);
        return (PairDecision::Declined(req), f);
    }
    let msg = accepted_message(secret, session_port, my_name);
    let f = seal(t, msg.as_slice());
    (PairDecision::Accepted(req), f)
}

}
