//! The encrypted session: Noise_NNpsk0 with a PSK derived from the shared
//! secret, the protocol-version check carried in the first handshake message,
//! and sealing/opening of input events. Each step takes the bytes that arrived
//! and returns the frame to send; the application moves the frames.

use vstd::prelude::*;
use vstd::utf8::*;

use crate::config::Config;
use crate::text::{decimal, extend_chars, push_decimal, string_from_chars};
use crate::wire::{
    check_frame_length, decode_error_text, encode_frame, frame_error_text, framed, input_decode, push_decode_error,
    push_frame_error, slice_range, DecodeError, FailureKind, FrameError, InputEvent, INPUT_MAX_LEN, MAX_FRAME,
};

verus! {

// ----- outside types -----

#[verifier::external_type_specification]
#[verifier::external_body]
pub struct ExNoiseParams(snow::params::NoiseParams);

#[verifier::external_type_specification]
#[verifier::external_body]
pub struct ExNoiseBuilder<'a>(snow::Builder<'a>);

#[verifier::external_type_specification]
#[verifier::external_body]
pub struct ExHandshakeState(snow::HandshakeState);

#[verifier::external_type_specification]
#[verifier::external_body]
pub struct ExTransportState(snow::TransportState);

#[verifier::external_type_specification]
#[verifier::external_body]
pub struct ExNoiseError(snow::Error);

#[verifier::external_type_specification]
#[verifier::external_body]
pub struct ExRandomError(getrandom::Error);

// ----- BLAKE2s -----

/// The BLAKE2s-256 digest of a byte string.
pub uninterp spec fn blake2s256(data: Seq<u8>) -> Seq<u8>;

/// `blake2::Blake2s256::digest`: the 32-byte BLAKE2s-256 digest of `data`,
/// named by `blake2s256`.
#[verifier::external_body]
pub(crate) fn blake2s256_digest(data: &[u8]) -> (d: [u8; 32])
    ensures
        d@ == blake2s256(data@),
{
    let out = <blake2::Blake2s256 as blake2::Digest>::digest(data);
    let mut d = [0u8; 32];
    d.copy_from_slice(&out);
    d
}

// ----- OS randomness -----

/// `getrandom::fill`: fills the buffer from the OS random source. What the
/// bytes are is chance; the buffer keeps its length.
#[verifier::external_body]
fn os_random_fill(dest: &mut [u8; 32]) -> (r: Result<(), getrandom::Error>) {
    getrandom::fill(dest)
}

// ----- snow -----

/// `NoiseParams::from_str`: parses a Noise protocol name.
#[verifier::external_body]
pub(crate) fn noise_params(name: &str) -> (r: Result<snow::params::NoiseParams, snow::Error>) {
    name.parse()
}

/// `snow::Builder::new` with snow's default crypto resolver.
#[verifier::external_body]
pub(crate) fn noise_builder<'a>(params: snow::params::NoiseParams) -> (b: snow::Builder<'a>) {
    snow::Builder::new(params)
}

/// `snow::Builder::psk`: registers a pre-shared key at a pattern position.
#[verifier::external_body]
fn noise_builder_psk<'a>(b: snow::Builder<'a>, location: u8, key: &'a [u8; 32]) -> (r: Result<
    snow::Builder<'a>,
    snow::Error,
>) {
    b.psk(location, key)
}

/// `snow::Builder::build_initiator`.
#[verifier::external_body]
pub(crate) fn noise_build_initiator<'a>(b: snow::Builder<'a>) -> (r: Result<snow::HandshakeState, snow::Error>) {
    b.build_initiator()
}

/// `snow::Builder::build_responder`.
#[verifier::external_body]
pub(crate) fn noise_build_responder<'a>(b: snow::Builder<'a>) -> (r: Result<snow::HandshakeState, snow::Error>) {
    b.build_responder()
}

/// `HandshakeState::write_message`: writes the next handshake message carrying
/// `payload` into `out`. snow checks every write against the buffer, so a
/// success reports no more bytes than `out` holds; the bytes depend on fresh
/// ephemeral keys and are not stated.
#[verifier::external_body]
pub(crate) fn hs_write_message(
    hs: &mut snow::HandshakeState,
    payload: &[u8],
    out: &mut Vec<u8>,
) -> (r: Result<usize, snow::Error>)
    ensures
        final(out)@.len() == old(out)@.len(),
        r matches Ok(n) ==> n <= old(out)@.len(),
{
    hs.write_message(payload, &mut out[..])
}

/// `HandshakeState::read_message`: processes a handshake message and writes
/// its payload into `out`. snow rejects an `out` too small for the payload, so
/// a success reports no more bytes than `out` holds.
#[verifier::external_body]
pub(crate) fn hs_read_message(
    hs: &mut snow::HandshakeState,
    message: &[u8],
    out: &mut Vec<u8>,
) -> (r: Result<usize, snow::Error>)
    ensures
        final(out)@.len() == old(out)@.len(),
        r matches Ok(n) ==> n <= old(out)@.len(),
{
    hs.read_message(message, &mut out[..])
}

/// `HandshakeState::get_handshake_hash`, copied out. Its length is the
/// hash's output length, which snow's hashers fix at 32 bytes (BLAKE2s,
/// SHA-256) or 64 (BLAKE2b, SHA-512); which one a state uses is not visible
/// here. The bytes depend on the handshake's random ephemeral keys and are
/// left unsaid.
#[verifier::external_body]
pub(crate) fn hs_handshake_hash(hs: &snow::HandshakeState) -> (h: Vec<u8>)
    ensures
        h@.len() == 32 || h@.len() == 64,
{
    hs.get_handshake_hash().to_vec()
}

/// `HandshakeState::into_transport_mode`: fails unless the handshake finished.
#[verifier::external_body]
pub(crate) fn hs_into_transport(hs: snow::HandshakeState) -> (r: Result<
    snow::TransportState,
    snow::Error,
>) {
    hs.into_transport_mode()
}

/// `TransportState::write_message`: encrypts `payload` into `out`. snow only
/// succeeds when payload plus the 16-byte tag fits in `out`, and then reports
/// exactly that many bytes.
#[verifier::external_body]
pub(crate) fn ts_write_message(
    t: &mut snow::TransportState,
    payload: &[u8],
    out: &mut Vec<u8>,
) -> (r: Result<usize, snow::Error>)
    ensures
        final(out)@.len() == old(out)@.len(),
        r matches Ok(n) ==> n == payload@.len() + 16 && n <= old(out)@.len(),
{
    t.write_message(payload, &mut out[..])
}

/// `TransportState::read_message`: decrypts and authenticates `message` into
/// `out`. On success the plaintext is the message minus its 16-byte tag and
/// fits in `out`; what it holds depends on the session keys.
#[verifier::external_body]
pub(crate) fn ts_read_message(
    t: &mut snow::TransportState,
    message: &[u8],
    out: &mut Vec<u8>,
) -> (r: Result<usize, snow::Error>)
    ensures
        final(out)@.len() == old(out)@.len(),
        r matches Ok(n) ==> n + 16 == message@.len() && n <= old(out)@.len(),
{
    t.read_message(message, &mut out[..])
}

// ----- buffers -----

/// A buffer of `n` zero bytes.
pub(crate) fn zeroed(n: usize) -> (v: Vec<u8>)
    ensures
        v@.len() == n,
        forall|i: int| 0 <= i < n ==> v@[i] == 0,
{
    let mut v: Vec<u8> = Vec::new();
    let mut i: usize = 0;
    while i < n
        invariant
            i <= n,
            v@.len() == i,
            forall|k: int| 0 <= k < i ==> v@[k] == 0,
        decreases n - i,
    {
        v.push(0);
        i += 1;
    }
    v
}

/// A frame is a 4-byte length followed by exactly that many bytes, at most
/// `MAX_FRAME` of them.
pub open spec fn is_frame(f: Seq<u8>) -> bool {
    f.len() >= 4 && f.len() <= 4 + MAX_FRAME && f == framed(f.subrange(4, f.len() as int))
}

/// Frame the first `n` bytes of `buf`.
pub(crate) fn frame_prefix(buf: &Vec<u8>, n: usize) -> (f: Vec<u8>)
    requires
        n <= buf@.len(),
        n <= MAX_FRAME,
    ensures
        f@ == framed(buf@.subrange(0, n as int)),
        is_frame(f@),
{
    let p = slice_range(buf.as_slice(), 0, n);
    let f = encode_frame(p.as_slice());
    assert(f@.subrange(4, f@.len() as int) =~= p@);
    f
}

// ----- keys -----

/// Wire protocol version, carried in the first handshake message.
pub const PROTOCOL_VERSION: u8 = 1;

/// Noise protocol of the session.
pub const NOISE_PARAMS: &'static str = "Noise_NNpsk0_25519_ChaChaPoly_BLAKE2s";

/// Domain-separation prefix hashed in front of the secret: "keyboard-it psk v1\0".
pub open spec fn psk_domain() -> Seq<u8> {
    seq![107u8, 101, 121, 98, 111, 97, 114, 100, 45, 105, 116, 32, 112, 115, 107, 32, 118, 49, 0]
}

/// The session PSK a secret gives: BLAKE2s-256 over the domain prefix and the
/// secret's UTF-8 bytes.
pub open spec fn psk_of(secret: Seq<char>) -> Seq<u8> {
    blake2s256(psk_domain() + encode_utf8(secret))
}

/// Compress a passphrase of any length into the 32-byte session PSK.
pub fn psk_from_secret(secret: &str) -> (psk: [u8; 32])
    ensures
        psk@ == psk_of(secret@),
{
    let mut data: Vec<u8> = Vec::new();
    let prefix: [u8; 19] = [107, 101, 121, 98, 111, 97, 114, 100, 45, 105, 116, 32, 112, 115, 107, 32, 118, 49, 0];
    let mut i: usize = 0;
    while i < 19
        invariant
            i <= 19,
            prefix@ == psk_domain(),
            data@ == prefix@.subrange(0, i as int),
        decreases 19 - i,
    {
        data.push(prefix[i]);
        i += 1;
        assert(data@ =~= prefix@.subrange(0, i as int));
    }
    let bytes = secret.as_bytes();
    let mut j: usize = 0;
    while j < bytes.len()
        invariant
            j <= bytes@.len(),
            bytes@ == encode_utf8(secret@),
            prefix@ == psk_domain(),
            data@ == psk_domain() + bytes@.subrange(0, j as int),
        decreases bytes@.len() - j,
    {
        data.push(bytes[j]);
        j += 1;
        assert(data@ =~= psk_domain() + bytes@.subrange(0, j as int));
    }
    assert(bytes@.subrange(0, bytes@.len() as int) =~= bytes@);
    blake2s256_digest(data.as_slice())
}

/// Why no PSK could be had.
#[derive(Clone, Copy, PartialEq, Eq, Debug, Structural)]
pub enum KeyError {
    /// Neither the config nor the environment holds a key.
    Missing,
}

/// The PSK from `KEYBOARD_IT_KEY` (its value is passed in): missing or empty is
/// an error.
pub fn psk_from_env(env_key: Option<&str>) -> (r: Result<[u8; 32], KeyError>)
    ensures
        match env_key {
            Some(s) if s@.len() > 0 => (r matches Ok(p) && p@ == psk_of(s@)),
            _ => r == Err::<[u8; 32], KeyError>(KeyError::Missing),
        },
{
    match env_key {
        Some(s) => {
            if s.is_empty() {
                Err(KeyError::Missing)
            } else {
                Ok(psk_from_secret(s))
            }
        },
        None => Err(KeyError::Missing),
    }
}

/// The PSK from the config's secret, falling back to `KEYBOARD_IT_KEY` (its
/// value is passed in) only when the config holds none.
pub fn psk_from_config_or_env(cfg: &Config, env_key: Option<&str>) -> (r: Result<[u8; 32], KeyError>)
    ensures
        cfg.shared_secret@.len() > 0 ==> (r matches Ok(p) && p@ == psk_of(cfg.shared_secret@)),
        cfg.shared_secret@.len() == 0 ==> match env_key {
            Some(s) if s@.len() > 0 => (r matches Ok(p) && p@ == psk_of(s@)),
            _ => r == Err::<[u8; 32], KeyError>(KeyError::Missing),
        },
{
    if !cfg.shared_secret.as_str().is_empty() {
        return Ok(psk_from_secret(cfg.shared_secret.as_str()));
    }
    psk_from_env(env_key)
}

// ----- base64url -----

/// The base64url alphabet (RFC 4648 section 5): A-Z, a-z, 0-9, '-', '_'.
pub open spec fn b64_char(v: nat) -> char {
    if v < 26 {
        (65 + v) as char
    } else if v < 52 {
        (97 + (v - 26)) as char
    } else if v < 62 {
        (48 + (v - 52)) as char
    } else if v == 62 {
        '-'
    } else {
        '_'
    }
}

/// Unpadded base64url of a byte string, three bytes to four characters, a
/// trailing one or two bytes to two or three.
pub open spec fn b64url(d: Seq<u8>) -> Seq<char>
    decreases d.len(),
{
    if d.len() == 0 {
        seq![]
    } else if d.len() == 1 {
        seq![b64_char((d[0] / 4) as nat), b64_char(((d[0] % 4) * 16) as nat)]
    } else if d.len() == 2 {
        seq![
            b64_char((d[0] / 4) as nat),
            b64_char(((d[0] % 4) * 16 + d[1] / 16) as nat),
            b64_char(((d[1] % 16) * 4) as nat),
        ]
    } else {
        seq![
            b64_char((d[0] / 4) as nat),
            b64_char(((d[0] % 4) * 16 + d[1] / 16) as nat),
            b64_char(((d[1] % 16) * 4 + d[2] / 64) as nat),
            b64_char((d[2] % 64) as nat),
        ] + b64url(d.subrange(3, d.len() as int))
    }
}

/// A character of the base64url alphabet.
pub open spec fn is_b64url_char(c: char) -> bool {
    (65 <= (c as u32) <= 90) || (97 <= (c as u32) <= 122) || (48 <= (c as u32) <= 57) || c == '-'
        || c == '_'
}

fn b64_char_exec(v: u8) -> (c: char)
    requires
        v < 64,
    ensures
        c == b64_char(v as nat),
{
    if v < 26 {
        (65 + v) as char
    } else if v < 52 {
        (97 + (v - 26)) as char
    } else if v < 62 {
        (48 + (v - 52)) as char
    } else if v == 62 {
        '-'
    } else {
        '_'
    }
}

/// Unpadded base64url: n bytes give (4n + 2) / 3 characters, all from the
/// url-safe alphabet.
pub proof fn lemma_b64url_shape(d: Seq<u8>)
    ensures
        b64url(d).len() == (4 * d.len() + 2) / 3,
        forall|i: int| 0 <= i < b64url(d).len() ==> is_b64url_char(#[trigger] b64url(d)[i]),
    decreases d.len(),
{
    assert forall|v: nat| v < 64 implies is_b64url_char(#[trigger] b64_char(v)) by {}
    if d.len() >= 3 {
        lemma_b64url_shape(d.subrange(3, d.len() as int));
        let head = seq![
            b64_char((d[0] / 4) as nat),
            b64_char(((d[0] % 4) * 16 + d[1] / 16) as nat),
            b64_char(((d[1] % 16) * 4 + d[2] / 64) as nat),
            b64_char((d[2] % 64) as nat),
        ];
        let tail = b64url(d.subrange(3, d.len() as int));
        assert forall|i: int| 0 <= i < b64url(d).len() implies is_b64url_char(
            #[trigger] b64url(d)[i],
        ) by {
            if i >= 4 {
                assert(b64url(d)[i] == tail[i - 4]);
            }
        }
    }
}

proof fn lemma_b64_char_injective(a: nat, b: nat)
    requires
        a < 64,
        b < 64,
        b64_char(a) == b64_char(b),
    ensures
        a == b,
{
    assert(b64_char(a) as int == (if a < 26 { 65 + a as int } else if a < 52 { 71 + a as int } else if a < 62 { a - 4 } else if a == 62 { 45int } else { 95int }));
    assert(b64_char(b) as int == (if b < 26 { 65 + b as int } else if b < 52 { 71 + b as int } else if b < 62 { b - 4 } else if b == 62 { 45int } else { 95int }));
}

proof fn lemma_b64_length_grows(n: nat, m: nat)
    requires
        n < m,
    ensures
        (4 * n + 2) / 3 < (4 * m + 2) / 3,
{
}

/// Different byte strings have different encodings: the encoding loses
/// nothing.
pub proof fn lemma_b64url_injective(d1: Seq<u8>, d2: Seq<u8>)
    requires
        d1 != d2,
    ensures
        b64url(d1) != b64url(d2),
    decreases d1.len(),
{
    if b64url(d1) == b64url(d2) {
        lemma_b64url_shape(d1);
        lemma_b64url_shape(d2);
        if d1.len() < d2.len() {
            lemma_b64_length_grows(d1.len(), d2.len());
        } else if d2.len() < d1.len() {
            lemma_b64_length_grows(d2.len(), d1.len());
        }
        assert(d1.len() == d2.len());
        let e = b64url(d1);
        if d1.len() == 0 {
            assert(d1 =~= d2);
        } else {
            assert(e[0] == b64url(d2)[0]);
            assert(e[1] == b64url(d2)[1]);
            lemma_b64_char_injective((d1[0] / 4) as nat, (d2[0] / 4) as nat);
            if d1.len() == 1 {
                lemma_b64_char_injective(((d1[0] % 4) * 16) as nat, ((d2[0] % 4) * 16) as nat);
                assert(d1[0] == d2[0]);
                assert(d1 =~= d2);
            } else {
                lemma_b64_char_injective(
                    ((d1[0] % 4) * 16 + d1[1] / 16) as nat,
                    ((d2[0] % 4) * 16 + d2[1] / 16) as nat,
                );
                assert(d1[0] == d2[0]);
                assert(e[2] == b64url(d2)[2]);
                if d1.len() == 2 {
                    lemma_b64_char_injective(((d1[1] % 16) * 4) as nat, ((d2[1] % 16) * 4) as nat);
                    assert(d1[1] == d2[1]);
                    assert(d1 =~= d2);
                } else {
                    lemma_b64_char_injective(
                        ((d1[1] % 16) * 4 + d1[2] / 64) as nat,
                        ((d2[1] % 16) * 4 + d2[2] / 64) as nat,
                    );
                    assert(d1[1] == d2[1]);
                    assert(e[3] == b64url(d2)[3]);
                    lemma_b64_char_injective((d1[2] % 64) as nat, (d2[2] % 64) as nat);
                    assert(d1[2] == d2[2]);
                    let t1 = d1.subrange(3, d1.len() as int);
                    let t2 = d2.subrange(3, d2.len() as int);
                    assert(b64url(t1) =~= e.subrange(4, e.len() as int));
                    assert(b64url(t2) =~= b64url(d2).subrange(4, e.len() as int));
                    if t1 != t2 {
                        lemma_b64url_injective(t1, t2);
                    }
                    assert(t1 =~= t2);
                    assert forall|i: int| 0 <= i < d1.len() implies d1[i] == d2[i] by {
                        if i >= 3 {
                            assert(d1[i] == t1[i - 3]);
                            assert(d2[i] == t2[i - 3]);
                        }
                    }
                    assert(d1 =~= d2);
                }
            }
        }
    }
}

/// Minimal base64url encoder (RFC 4648 section 5) without padding.
pub fn base64url_nopad(data: &[u8]) -> (s: String)
    ensures
        s@ == b64url(data@),
{
    let n = data.len();
    let mut out: Vec<char> = Vec::new();
    let mut i: usize = 0;
    assert(data@.subrange(0, n as int) =~= data@);
    while i < n
        invariant
            i <= n == data@.len(),
            b64url(data@) == out@ + b64url(data@.subrange(i as int, n as int)),
        decreases n - i,
    {
        let rest = n - i;
        let ghost r = data@.subrange(i as int, n as int);
        let d0 = data[i];
        if rest == 1 {
            out.push(b64_char_exec(d0 / 4));
            out.push(b64_char_exec((d0 % 4) * 16));
            i = n;
        } else if rest == 2 {
            let d1 = data[i + 1];
            out.push(b64_char_exec(d0 / 4));
            out.push(b64_char_exec((d0 % 4) * 16 + d1 / 16));
            out.push(b64_char_exec((d1 % 16) * 4));
            i = n;
        } else {
            let d1 = data[i + 1];
            let d2 = data[i + 2];
            out.push(b64_char_exec(d0 / 4));
            out.push(b64_char_exec((d0 % 4) * 16 + d1 / 16));
            out.push(b64_char_exec((d1 % 16) * 4 + d2 / 64));
            out.push(b64_char_exec(d2 % 64));
            assert(r.subrange(3, r.len() as int) =~= data@.subrange(i + 3, n as int));
            i += 3;
        }
        assert(b64url(data@.subrange(n as int, n as int)) =~= Seq::<char>::empty());
    }
    assert(b64url(data@.subrange(n as int, n as int)) =~= Seq::<char>::empty());
    assert(out@ + Seq::<char>::empty() =~= out@);
    crate::text::string_from_chars(out.as_slice())
}

/// Why no key could be generated.
#[derive(Clone, Copy, PartialEq, Eq, Debug, Structural)]
pub enum KeyGenError {
    /// The OS random source failed.
    RandomUnavailable,
}

/// A fresh pairing key: 32 OS-random bytes as unpadded base64url, so 43
/// characters from A-Z a-z 0-9 - _.
pub fn generate_key() -> (r: Result<String, KeyGenError>)
    ensures
        r matches Ok(k) ==> exists|b: Seq<u8>| b.len() == 32 && k@ == b64url(b),
        r matches Ok(k) ==> k@.len() == 43 && forall|i: int|
            0 <= i < k@.len() ==> is_b64url_char(#[trigger] k@[i]),
{
    let mut bytes = [0u8; 32];
    match os_random_fill(&mut bytes) {
        Ok(()) => {},
        Err(_) => return Err(KeyGenError::RandomUnavailable),
    }
    let k = base64url_nopad(&bytes);
    proof {
        lemma_b64url_shape(bytes@);
    }
    Ok(k)
}

// ----- the session handshake -----

/// Why a session step failed.
#[derive(Clone, Copy, PartialEq, Eq, Debug, Structural)]
pub enum SessionError {
    /// snow refused (wrong PSK, corrupt message, exhausted nonce, ...).
    Noise,
    /// The peer speaks another protocol version (0: it sent none).
    VersionMismatch { local: u8, peer: u8 },
    /// A frame's length is out of bounds.
    Frame(FrameError),
    /// A decrypted event did not decode.
    Decode(DecodeError),
}

/// What a failed session step says.
pub open spec fn session_error_message(e: SessionError) -> Seq<char> {
    match e {
        SessionError::Noise => "noise: the cryptographic step was refused"@,
        SessionError::VersionMismatch { local, peer } => "protocol version mismatch: local "@ + decimal(
            local as nat,
        ) + ", peer "@ + decimal(peer as nat) + " — update both sides"@,
        SessionError::Frame(fe) => frame_error_text(fe),
        SessionError::Decode(d) => "decode error: "@ + decode_error_text(d),
    }
}

/// The kind of a failed session step: snow's refusal is other, everything
/// the peer sent wrong is bad data.
pub open spec fn session_error_class(e: SessionError) -> FailureKind {
    match e {
        SessionError::Noise => FailureKind::Other,
        _ => FailureKind::InvalidData,
    }
}

/// The kind of a failed session step.
pub fn session_error_kind(e: SessionError) -> (k: FailureKind)
    ensures
        k == session_error_class(e),
{
    match e {
        SessionError::Noise => FailureKind::Other,
        _ => FailureKind::InvalidData,
    }
}

/// The message of a failed session step.
pub fn session_error_text(e: SessionError) -> (s: String)
    ensures
        s@ == session_error_message(e),
{
    let mut cs: Vec<char> = Vec::new();
    match e {
        SessionError::Noise => extend_chars(&mut cs, "noise: the cryptographic step was refused"),
        SessionError::VersionMismatch { local, peer } => {
            extend_chars(&mut cs, "protocol version mismatch: local ");
            push_decimal(&mut cs, local as u64);
            extend_chars(&mut cs, ", peer ");
            push_decimal(&mut cs, peer as u64);
            extend_chars(&mut cs, " — update both sides");
        },
        SessionError::Frame(fe) => push_frame_error(&mut cs, fe),
        SessionError::Decode(d) => {
            extend_chars(&mut cs, "decode error: ");
            push_decode_error(&mut cs, d);
        },
    }
    assert(cs@ =~= session_error_message(e));
    string_from_chars(&cs)
}

/// The version a first-message payload carries: its first byte, 0 when empty.
pub open spec fn payload_version(payload: Seq<u8>) -> u8 {
    if payload.len() >= 1 {
        payload[0]
    } else {
        0
    }
}

/// The version byte in the first `n` bytes of `buf` (0 when `n` is zero).
pub fn peer_version(buf: &Vec<u8>, n: usize) -> (v: u8)
    requires
        n <= buf@.len(),
    ensures
        v == payload_version(buf@.subrange(0, n as int)),
{
    if n >= 1 {
        buf[0]
    } else {
        0
    }
}

/// Check a peer's version against ours: the first byte of the first `n`
/// bytes of `buf` (0 when there are none) must be `local`.  A mismatch
/// answers the peer's version.
pub fn check_peer_version(buf: &Vec<u8>, n: usize, local: u8) -> (r: Result<(), u8>)
    requires
        n <= buf@.len(),
    ensures
        r == (if payload_version(buf@.subrange(0, n as int)) == local {
            Ok::<(), u8>(())
        } else {
            Err::<(), u8>(payload_version(buf@.subrange(0, n as int)))
        }),
{
    let peer = peer_version(buf, n);
    if peer == local {
        Ok(())
    } else {
        Err(peer)
    }
}

/// The payload a version is announced with: the version byte alone.
pub fn version_payload(v: u8) -> (p: [u8; 1])
    ensures
        p@ == seq![v],
{
    let p: [u8; 1] = [v];
    assert(p@ =~= seq![v]);
    p
}

/// The payload of a message that carries nothing.
pub fn empty_payload() -> (p: [u8; 0])
    ensures
        p@ == Seq::<u8>::empty(),
{
    let p: [u8; 0] = [];
    assert(p@ =~= Seq::<u8>::empty());
    p
}

fn session_builder<'a>(psk: &'a [u8; 32]) -> (r: Result<snow::Builder<'a>, SessionError>)
    ensures
        r matches Err(e) ==> e == SessionError::Noise,
{
    let params = match noise_params(NOISE_PARAMS) {
        Ok(p) => p,
        Err(_) => return Err(SessionError::Noise),
    };
    match noise_builder_psk(noise_builder(params), 0, psk) {
        Ok(b) => Ok(b),
        Err(_) => Err(SessionError::Noise),
    }
}

/// Sender side, first step: build the NNpsk0 initiator (PSK mixed in before
/// message 1) and frame message 1, whose payload is `PROTOCOL_VERSION`.
pub fn handshake_initiator_start(psk: &[u8; 32]) -> (r: Result<
    (snow::HandshakeState, Vec<u8>),
    SessionError,
>)
    ensures
        r matches Ok((_, f)) ==> is_frame(f@),
        r matches Err(e) ==> e == SessionError::Noise,
{
    let b = session_builder(psk)?;
    let mut hs = match noise_build_initiator(b) {
        Ok(h) => h,
        Err(_) => return Err(SessionError::Noise),
    };
    let mut buf = zeroed(MAX_FRAME);
    let payload = version_payload(PROTOCOL_VERSION);
    let n = match hs_write_message(&mut hs, &payload, &mut buf) {
        Ok(n) => n,
        Err(_) => return Err(SessionError::Noise),
    };
    let f = frame_prefix(&buf, n);
    Ok((hs, f))
}

/// Sender side, second step: read message 2 (the frame's payload) and switch
/// to transport mode.
pub fn handshake_initiator_finish(hs: snow::HandshakeState, msg: &[u8]) -> (r: Result<
    snow::TransportState,
    SessionError,
>)
    ensures
        r matches Err(e) ==> e == SessionError::Noise,
{
    let mut hs = hs;
    let mut tmp = zeroed(MAX_FRAME);
    match hs_read_message(&mut hs, msg, &mut tmp) {
        Ok(_) => {},
        Err(_) => return Err(SessionError::Noise),
    }
    match hs_into_transport(hs) {
        Ok(t) => Ok(t),
        Err(_) => Err(SessionError::Noise),
    }
}

/// Receiver side: read message 1 (a wrong PSK fails here), check the peer's
/// protocol version, and answer with message 2. A peer with another version,
/// or none, gets `VersionMismatch` naming both versions and no answer.
pub fn handshake_responder(psk: &[u8; 32], msg: &[u8]) -> (r: Result<
    (snow::TransportState, Vec<u8>),
    SessionError,
>)
    ensures
        r matches Ok((_, f)) ==> is_frame(f@),
        r matches Err(e) ==> (e == SessionError::Noise || (e matches SessionError::VersionMismatch {
            local,
            peer,
        } && local == PROTOCOL_VERSION && peer != PROTOCOL_VERSION)),
{
    let b = session_builder(psk)?;
    let mut hs = match noise_build_responder(b) {
        Ok(h) => h,
        Err(_) => return Err(SessionError::Noise),
    };
    let mut tmp = zeroed(MAX_FRAME);
    let m = match hs_read_message(&mut hs, msg, &mut tmp) {
        Ok(m) => m,
        Err(_) => return Err(SessionError::Noise),
    };
    let payload = slice_range(tmp.as_slice(), 0, m);
    handshake_answer(hs, &payload)
}

/// Receiver side, once message 1 is read and `payload` is what it carried:
/// a peer with another protocol version, or none (an empty payload), is
/// refused with `VersionMismatch` naming both versions and gets no answer;
/// otherwise message 2, with an empty payload, is framed and the session
/// switches to transport mode.
pub fn handshake_answer(hs: snow::HandshakeState, payload: &Vec<u8>) -> (r: Result<
    (snow::TransportState, Vec<u8>),
    SessionError,
>)
    ensures
        payload_version(payload@) != PROTOCOL_VERSION ==> r == Err::<(snow::TransportState, Vec<u8>), SessionError>(
            SessionError::VersionMismatch { local: PROTOCOL_VERSION, peer: payload_version(payload@) },
        ),
        payload_version(payload@) == PROTOCOL_VERSION ==> (r matches Ok((_, f)) ==> is_frame(f@)),
        payload_version(payload@) == PROTOCOL_VERSION ==> (r matches Err(e) ==> e == SessionError::Noise),
{
    let mut hs = hs;
    assert(payload@.subrange(0, payload@.len() as int) =~= payload@);
    match check_peer_version(payload, payload.len(), PROTOCOL_VERSION) {
        Ok(()) => {},
        Err(peer) => return Err(SessionError::VersionMismatch { local: PROTOCOL_VERSION, peer }),
    }
    let mut buf = zeroed(MAX_FRAME);
    let empty = empty_payload();
    let n = match hs_write_message(&mut hs, &empty, &mut buf) {
        Ok(n) => n,
        Err(_) => return Err(SessionError::Noise),
    };
    let f = frame_prefix(&buf, n);
    match hs_into_transport(hs) {
        Ok(t) => Ok((t, f)),
        Err(_) => Err(SessionError::Noise),
    }
}

/// Largest ciphertext an event frame may carry: the event plus its tag.
pub const EVENT_FRAME_MAX: usize = 22;

/// Encrypt one input event and frame it. The frame carries the event's
/// encoding plus the 16-byte tag.
pub fn send_event(t: &mut snow::TransportState, ev: &InputEvent) -> (r: Result<Vec<u8>, SessionError>)
    ensures
        r matches Ok(f) ==> is_frame(f@) && f@.len() == 4 + ev.wire_bytes().len() + 16,
        r matches Err(e) ==> e == SessionError::Noise,
{
    let (plain, plen) = ev.encode();
    let p = slice_range(&plain, 0, plen);
    let mut ct = zeroed(EVENT_FRAME_MAX);
    let n = match ts_write_message(t, p.as_slice(), &mut ct) {
        Ok(n) => n,
        Err(_) => return Err(SessionError::Noise),
    };
    Ok(frame_prefix(&ct, n))
}

/// Decode a decrypted event: exactly `InputEvent::decode` of the plaintext,
/// its error carried as `Decode`.
pub fn decode_event(plain: &[u8]) -> (r: Result<InputEvent, SessionError>)
    ensures
        match input_decode(plain@) {
            Ok(ev) => r == Ok::<InputEvent, SessionError>(ev),
            Err(e) => r == Err::<InputEvent, SessionError>(SessionError::Decode(e)),
        },
{
    match InputEvent::decode(plain) {
        Ok(ev) => Ok(ev),
        Err(e) => Err(SessionError::Decode(e)),
    }
}

/// Decrypt one event frame's payload and decode it. Ciphertext longer than
/// `EVENT_FRAME_MAX` is refused before decryption, as the receive buffer is
/// that long. Decoding is exactly `decode_event` of the plaintext.
pub fn recv_event(t: &mut snow::TransportState, ct: &[u8]) -> (r: Result<InputEvent, SessionError>)
    ensures
        // the length check comes first, and it alone gives `InvalidLength`
        (ct@.len() == 0 || ct@.len() > EVENT_FRAME_MAX) <==> r == Err::<InputEvent, SessionError>(
            SessionError::Frame(FrameError::InvalidLength),
        ),
        // otherwise the event, or the decode error, is that of the decrypted
        // plaintext (16 bytes shorter than the ciphertext), or decryption failed
        r matches Ok(ev) ==> exists|p: Seq<u8>|
            p.len() + 16 == ct@.len() && #[trigger] input_decode(p) == Ok::<InputEvent, DecodeError>(ev),
        r matches Err(SessionError::Decode(e)) ==> exists|p: Seq<u8>|
            p.len() + 16 == ct@.len() && #[trigger] input_decode(p) == Err::<InputEvent, DecodeError>(e),
        r matches Err(e) ==> e == SessionError::Noise || e == SessionError::Frame(FrameError::InvalidLength)
            || e is Decode,
{
    match check_frame_length(ct.len() as u64, EVENT_FRAME_MAX) {
        Ok(_) => {},
        Err(e) => return Err(SessionError::Frame(e)),
    }
    let mut plain = zeroed(EVENT_FRAME_MAX);
    let m = match ts_read_message(t, ct, &mut plain) {
        Ok(m) => m,
        Err(_) => return Err(SessionError::Noise),
    };
    let p = slice_range(plain.as_slice(), 0, m);
    decode_event(p.as_slice())
}

}
