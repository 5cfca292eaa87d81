//! The wire format shared by sender and receiver: a fixed 5-byte key record,
//! the tagged input event that wraps it, and the 4-byte length framing.

use vstd::prelude::*;

use crate::text::{decimal, extend_chars, push_decimal, string_from_chars};

verus! {

/// Fixed length of one key record on the wire.
pub const WIRE_LEN: usize = 5;

/// Largest input-event encoding: one tag byte plus a key record.
pub const INPUT_MAX_LEN: usize = 6;

/// Default TCP port: the sender connects to it, the receiver listens on it.
pub const DEFAULT_PORT: u16 = 5599;

/// Largest payload a framed key record may announce.
pub const MAX_KEY_FRAME: usize = 64;

/// Modifier bits (the USB HID boot-keyboard modifier byte, widened to u16).
pub const LEFT_CTRL: u16 = 1;
pub const LEFT_SHIFT: u16 = 2;
pub const LEFT_ALT: u16 = 4;
pub const LEFT_GUI: u16 = 8;
pub const RIGHT_CTRL: u16 = 16;
pub const RIGHT_SHIFT: u16 = 32;
pub const RIGHT_ALT: u16 = 64;
pub const RIGHT_GUI: u16 = 128;

/// Tag bytes selecting the input-event variant.
pub const TAG_KEY: u8 = 0;
pub const TAG_MOUSE_MOVE: u8 = 1;
pub const TAG_MOUSE_BUTTON: u8 = 2;
pub const TAG_SCROLL: u8 = 3;

/// Mouse button ids.
pub const BUTTON_LEFT: u8 = 0;
pub const BUTTON_RIGHT: u8 = 1;
pub const BUTTON_MIDDLE: u8 = 2;

/// Message type of a key record, a single tag byte on the wire.
#[derive(Clone, Copy, PartialEq, Eq, Debug, Structural)]
pub enum MsgType {
    Down,
    Up,
    Repeat,
}

/// Why a buffer did not decode.
#[derive(Clone, Copy, PartialEq, Eq, Debug, Structural)]
pub enum DecodeError {
    ShortBuffer,
    BadMsgType(u8),
    BadTag(u8),
}

/// One key transition: message type, USB HID usage (page 0x07), modifier mask.
#[derive(Clone, Copy, PartialEq, Eq, Debug, Structural)]
pub struct KeyEvent {
    pub msg: MsgType,
    pub hid_usage: u16,
    pub modifiers: u16,
}

/// Everything the sender forwards. Mouse motion is relative.
#[allow(inconsistent_fields)]
#[derive(Clone, Copy, PartialEq, Eq, Debug, Structural)]
pub enum InputEvent {
    Key(KeyEvent),
    MouseMove { dx: i16, dy: i16 },
    MouseButton { button: u8, down: bool },
    Scroll { dx: i8, dy: i8 },
}

/// Why a framed record could not be read back.
#[derive(Clone, Copy, PartialEq, Eq, Debug, Structural)]
pub enum FrameError {
    /// The buffer ends before the announced bytes (a closed connection).
    Truncated,
    /// The length prefix is zero or larger than allowed.
    InvalidLength,
    /// The payload arrived but is not a valid record.
    Decode(DecodeError),
}

// ----- byte-level building blocks -----

/// High byte of a big-endian u16.
pub open spec fn hi_byte(v: u16) -> u8 {
    (v / 256) as u8
}

/// Low byte of a big-endian u16.
pub open spec fn lo_byte(v: u16) -> u8 {
    (v % 256) as u8
}

/// The u16 that two big-endian bytes spell.
pub open spec fn be_u16(hi: u8, lo: u8) -> u16 {
    (hi * 256 + lo) as u16
}

/// Big-endian encoding of a 32-bit length.
pub open spec fn be32_bytes(n: nat) -> Seq<u8> {
    seq![(n / 16777216) as u8, ((n / 65536) % 256) as u8, ((n / 256) % 256) as u8, (n % 256) as u8]
}

/// The number four big-endian bytes spell.
pub open spec fn be32_value(b: Seq<u8>) -> nat {
    (b[0] * 16777216 + b[1] * 65536 + b[2] * 256 + b[3]) as nat
}

/// A payload framed with its big-endian 32-bit length.
pub open spec fn framed(payload: Seq<u8>) -> Seq<u8> {
    be32_bytes(payload.len()) + payload
}

/// A u16 split into its two bytes reads back as itself.
pub proof fn lemma_be_u16_roundtrip(v: u16)
    ensures
        be_u16(hi_byte(v), lo_byte(v)) == v,
{
}

/// A length written as four big-endian bytes reads back as itself.
pub proof fn lemma_be32_roundtrip(n: nat)
    requires
        n <= u32::MAX,
    ensures
        be32_bytes(n).len() == 4,
        be32_value(be32_bytes(n)) == n,
{
    let b = be32_bytes(n);
    assert(b[0] == n / 16777216) by (nonlinear_arith)
        requires n <= u32::MAX, b[0] == (n / 16777216) as u8;
    assert(b[0] * 16777216 + b[1] * 65536 + b[2] * 256 + b[3] == n) by (nonlinear_arith)
        requires
            n <= u32::MAX,
            b[0] == n / 16777216,
            b[1] == (n / 65536) % 256,
            b[2] == (n / 256) % 256,
            b[3] == n % 256,
    ;
}

proof fn lemma_i16_u16(v: i16)
    ensures
        ((v as u16) as i16) == v,
{
    assert(((v as u16) as i16) == v) by (bit_vector);
}

proof fn lemma_i8_u8(v: i8)
    ensures
        ((v as u8) as i8) == v,
{
    assert(((v as u8) as i8) == v) by (bit_vector);
}

fn u16_be(v: u16) -> (r: (u8, u8))
    ensures
        r.0 == hi_byte(v),
        r.1 == lo_byte(v),
{
    ((v / 256) as u8, (v % 256) as u8)
}

fn u16_from_be(hi: u8, lo: u8) -> (r: u16)
    ensures
        r == be_u16(hi, lo),
{
    (hi as u16) * 256 + (lo as u16)
}

// ----- message types -----

impl MsgType {
    /// The tag byte a message type travels as.
    pub open spec fn tag(self) -> u8 {
        match self {
            MsgType::Down => 0,
            MsgType::Up => 1,
            MsgType::Repeat => 2,
        }
    }

    /// The tag byte.
    pub fn to_u8(&self) -> (b: u8)
        ensures
            b == self.tag(),
    {
        match self {
            MsgType::Down => 0,
            MsgType::Up => 1,
            MsgType::Repeat => 2,
        }
    }

    /// Decode a tag byte; anything but 0, 1, 2 is an error naming the byte.
    pub fn from_u8(b: u8) -> (r: Result<MsgType, DecodeError>)
        ensures
            r == msg_from_byte(b),
    {
        match b {
            0 => Ok(MsgType::Down),
            1 => Ok(MsgType::Up),
            2 => Ok(MsgType::Repeat),
            _ => Err(DecodeError::BadMsgType(b)),
        }
    }
}

/// The message type a tag byte names.
pub open spec fn msg_from_byte(b: u8) -> Result<MsgType, DecodeError> {
    if b == 0 {
        Ok(MsgType::Down)
    } else if b == 1 {
        Ok(MsgType::Up)
    } else if b == 2 {
        Ok(MsgType::Repeat)
    } else {
        Err(DecodeError::BadMsgType(b))
    }
}

// ----- key records -----

impl KeyEvent {
    /// The five bytes of a key record: type, usage (big-endian), modifiers (big-endian).
    pub open spec fn wire_bytes(self) -> Seq<u8> {
        seq![
            self.msg.tag(),
            hi_byte(self.hid_usage),
            lo_byte(self.hid_usage),
            hi_byte(self.modifiers),
            lo_byte(self.modifiers),
        ]
    }

    /// Encode into the fixed 5-byte record.
    pub fn encode(&self) -> (b: [u8; 5])
        ensures
            b@ == self.wire_bytes(),
    {
        let (u0, u1) = u16_be(self.hid_usage);
        let (m0, m1) = u16_be(self.modifiers);
        let b = [self.msg.to_u8(), u0, u1, m0, m1];
        assert(b@ =~= self.wire_bytes());
        b
    }

    /// Decode from the first five bytes of `buf`; trailing bytes are ignored.
    pub fn decode(buf: &[u8]) -> (r: Result<KeyEvent, DecodeError>)
        ensures
            r == key_decode(buf@),
    {
        if buf.len() < WIRE_LEN {
            return Err(DecodeError::ShortBuffer);
        }
        let msg = MsgType::from_u8(buf[0])?;
        Ok(KeyEvent {
            msg,
            hid_usage: u16_from_be(buf[1], buf[2]),
            modifiers: u16_from_be(buf[3], buf[4]),
        })
    }

    /// Append the record framed as "4-byte big-endian length + payload".
    pub fn write_framed(&self, out: &mut Vec<u8>)
        ensures
            final(out)@ == old(out)@ + framed(self.wire_bytes()),
    {
        let payload = self.encode();
        out.push(0);
        out.push(0);
        out.push(0);
        out.push(WIRE_LEN as u8);
        let mut i: usize = 0;
        while i < WIRE_LEN
            invariant
                i <= WIRE_LEN,
                payload@ == self.wire_bytes(),
                out@ == old(out)@ + seq![0u8, 0u8, 0u8, 5u8] + payload@.subrange(0, i as int),
            decreases WIRE_LEN - i,
        {
            out.push(payload[i]);
            i += 1;
            assert(payload@.subrange(0, i as int) =~= payload@.subrange(0, i - 1 as int).push(payload@[i - 1]));
        }
        assert(payload@.subrange(0, 5) =~= payload@);
        assert(be32_bytes(5) =~= seq![0u8, 0u8, 0u8, 5u8]);
        assert(framed(self.wire_bytes()) =~= seq![0u8, 0u8, 0u8, 5u8] + self.wire_bytes());
        assert(old(out)@ + seq![0u8, 0u8, 0u8, 5u8] + payload@ =~= old(out)@ + (seq![0u8, 0u8, 0u8, 5u8] + payload@));
    }

    /// Read one framed record from the front of `buf`. A buffer that ends too
    /// early is `Truncated` (the peer went away); a zero or over-long length is
    /// `InvalidLength`.
    pub fn read_framed(buf: &[u8]) -> (r: Result<KeyEvent, FrameError>)
        ensures
            r == key_read_framed(buf@),
    {
        if buf.len() < 4 {
            return Err(FrameError::Truncated);
        }
        let n = frame_length(buf[0], buf[1], buf[2], buf[3]);
        if n == 0 || n > MAX_KEY_FRAME as u64 {
            return Err(FrameError::InvalidLength);
        }
        let n = n as usize;
        if buf.len() - 4 < n {
            return Err(FrameError::Truncated);
        }
        let payload = slice_range(buf, 4, 4 + n);
        match KeyEvent::decode(&payload) {
            Ok(e) => Ok(e),
            Err(e) => Err(FrameError::Decode(e)),
        }
    }
}

/// What decoding the front of a buffer as a key record gives.
pub open spec fn key_decode(b: Seq<u8>) -> Result<KeyEvent, DecodeError> {
    if b.len() < 5 {
        Err(DecodeError::ShortBuffer)
    } else {
        match msg_from_byte(b[0]) {
            Err(e) => Err(e),
            Ok(msg) => Ok(KeyEvent { msg, hid_usage: be_u16(b[1], b[2]), modifiers: be_u16(b[3], b[4]) }),
        }
    }
}

/// What reading a framed key record from the front of a buffer gives.
pub open spec fn key_read_framed(b: Seq<u8>) -> Result<KeyEvent, FrameError> {
    if b.len() < 4 {
        Err(FrameError::Truncated)
    } else {
        let n = be32_value(b);
        if n == 0 || n > MAX_KEY_FRAME {
            Err(FrameError::InvalidLength)
        } else if b.len() < 4 + n {
            Err(FrameError::Truncated)
        } else {
            match key_decode(b.subrange(4, 4 + n as int)) {
                Ok(e) => Ok(e),
                Err(e) => Err(FrameError::Decode(e)),
            }
        }
    }
}

/// The length a 4-byte big-endian prefix announces.
pub fn frame_length(b0: u8, b1: u8, b2: u8, b3: u8) -> (n: u64)
    ensures
        n == be32_value(seq![b0, b1, b2, b3]),
{
    (b0 as u64) * 16777216 + (b1 as u64) * 65536 + (b2 as u64) * 256 + (b3 as u64)
}

/// Copy `buf[from..to]` into a fresh vector.
pub fn slice_range(buf: &[u8], from: usize, to: usize) -> (v: Vec<u8>)
    requires
        from <= to <= buf@.len(),
    ensures
        v@ == buf@.subrange(from as int, to as int),
{
    let mut v: Vec<u8> = Vec::new();
    let mut i = from;
    while i < to
        invariant
            from <= i <= to <= buf@.len(),
            v@ == buf@.subrange(from as int, i as int),
        decreases to - i,
    {
        v.push(buf[i]);
        i += 1;
        assert(v@ =~= buf@.subrange(from as int, i as int));
    }
    v
}


// ----- input events -----

/// The on-wire bytes of a u16 taken as two's complement of an i16.
pub open spec fn i16_bytes(v: i16) -> Seq<u8> {
    seq![hi_byte(v as u16), lo_byte(v as u16)]
}

impl InputEvent {
    /// The bytes an input event travels as: its tag, then the variant's payload.
    pub open spec fn wire_bytes(self) -> Seq<u8> {
        match self {
            InputEvent::Key(k) => seq![TAG_KEY] + k.wire_bytes(),
            InputEvent::MouseMove { dx, dy } => seq![TAG_MOUSE_MOVE] + i16_bytes(dx) + i16_bytes(dy),
            InputEvent::MouseButton { button, down } => seq![
                TAG_MOUSE_BUTTON,
                button,
                if down { 1u8 } else { 0u8 },
            ],
            InputEvent::Scroll { dx, dy } => seq![TAG_SCROLL, dx as u8, dy as u8],
        }
    }

    /// Encode into a fixed buffer; returns the buffer and how much of it is used.
    /// Unused bytes stay zero.
    pub fn encode(&self) -> (r: ([u8; 6], usize))
        ensures
            r.1 == self.wire_bytes().len(),
            r.1 <= INPUT_MAX_LEN,
            r.0@.subrange(0, r.1 as int) == self.wire_bytes(),
            forall|i: int| r.1 <= i < 6 ==> r.0@[i] == 0,
    {
        match self {
            InputEvent::Key(k) => {
                let kb = k.encode();
                let b = [TAG_KEY, kb[0], kb[1], kb[2], kb[3], kb[4]];
                assert(b@.subrange(0, 6) =~= self.wire_bytes());
                (b, 6)
            },
            InputEvent::MouseMove { dx, dy } => {
                let (x0, x1) = u16_be(*dx as u16);
                let (y0, y1) = u16_be(*dy as u16);
                let b = [TAG_MOUSE_MOVE, x0, x1, y0, y1, 0];
                assert(b@.subrange(0, 5) =~= self.wire_bytes());
                (b, 5)
            },
            InputEvent::MouseButton { button, down } => {
                let d: u8 = if *down { 1 } else { 0 };
                let b = [TAG_MOUSE_BUTTON, *button, d, 0, 0, 0];
                assert(b@.subrange(0, 3) =~= self.wire_bytes());
                (b, 3)
            },
            InputEvent::Scroll { dx, dy } => {
                let b = [TAG_SCROLL, *dx as u8, *dy as u8, 0, 0, 0];
                assert(b@.subrange(0, 3) =~= self.wire_bytes());
                (b, 3)
            },
        }
    }

    /// Decode from the leading tag byte; each variant checks its own length and
    /// ignores trailing bytes.
    pub fn decode(buf: &[u8]) -> (r: Result<InputEvent, DecodeError>)
        ensures
            r == input_decode(buf@),
    {
        if buf.len() == 0 {
            return Err(DecodeError::ShortBuffer);
        }
        let t = buf[0];
        let n = buf.len() - 1;
        if t == TAG_KEY {
            let rest = slice_range(buf, 1, buf.len());
            assert(rest@ =~= buf@.drop_first());
            match KeyEvent::decode(&rest) {
                Ok(k) => Ok(InputEvent::Key(k)),
                Err(e) => Err(e),
            }
        } else if t == TAG_MOUSE_MOVE {
            if n < 4 {
                return Err(DecodeError::ShortBuffer);
            }
            let dx = u16_from_be(buf[1], buf[2]) as i16;
            let dy = u16_from_be(buf[3], buf[4]) as i16;
            Ok(InputEvent::MouseMove { dx, dy })
        } else if t == TAG_MOUSE_BUTTON {
            if n < 2 {
                return Err(DecodeError::ShortBuffer);
            }
            Ok(InputEvent::MouseButton { button: buf[1], down: buf[2] != 0 })
        } else if t == TAG_SCROLL {
            if n < 2 {
                return Err(DecodeError::ShortBuffer);
            }
            Ok(InputEvent::Scroll { dx: buf[1] as i8, dy: buf[2] as i8 })
        } else {
            Err(DecodeError::BadTag(t))
        }
    }
}

/// What decoding the front of a buffer as an input event gives.
pub open spec fn input_decode(b: Seq<u8>) -> Result<InputEvent, DecodeError> {
    if b.len() == 0 {
        Err(DecodeError::ShortBuffer)
    } else {
        let t = b[0];
        let rest = b.drop_first();
        if t == TAG_KEY {
            match key_decode(rest) {
                Ok(k) => Ok(InputEvent::Key(k)),
                Err(e) => Err(e),
            }
        } else if t == TAG_MOUSE_MOVE {
            if rest.len() < 4 {
                Err(DecodeError::ShortBuffer)
            } else {
                Ok(InputEvent::MouseMove {
                    dx: be_u16(rest[0], rest[1]) as i16,
                    dy: be_u16(rest[2], rest[3]) as i16,
                })
            }
        } else if t == TAG_MOUSE_BUTTON {
            if rest.len() < 2 {
                Err(DecodeError::ShortBuffer)
            } else {
                Ok(InputEvent::MouseButton { button: rest[0], down: rest[1] != 0 })
            }
        } else if t == TAG_SCROLL {
            if rest.len() < 2 {
                Err(DecodeError::ShortBuffer)
            } else {
                Ok(InputEvent::Scroll { dx: rest[0] as i8, dy: rest[1] as i8 })
            }
        } else {
            Err(DecodeError::BadTag(t))
        }
    }
}

/// Decoding inverts encoding for key records, whatever follows the record.
pub proof fn lemma_key_roundtrip(e: KeyEvent, rest: Seq<u8>)
    ensures
        key_decode(e.wire_bytes() + rest) == Ok::<KeyEvent, DecodeError>(e),
{
    let b = e.wire_bytes() + rest;
    lemma_be_u16_roundtrip(e.hid_usage);
    lemma_be_u16_roundtrip(e.modifiers);
    assert(b[0] == e.msg.tag());
    assert(b[1] == hi_byte(e.hid_usage) && b[2] == lo_byte(e.hid_usage));
    assert(b[3] == hi_byte(e.modifiers) && b[4] == lo_byte(e.modifiers));
}

/// Decoding inverts encoding for every input event, whatever follows it, and no
/// encoding is longer than `INPUT_MAX_LEN`.
pub proof fn lemma_input_roundtrip(e: InputEvent, rest: Seq<u8>)
    ensures
        input_decode(e.wire_bytes() + rest) == Ok::<InputEvent, DecodeError>(e),
        e.wire_bytes().len() <= INPUT_MAX_LEN,
{
    let b = e.wire_bytes() + rest;
    match e {
        InputEvent::Key(k) => {
            assert(b.drop_first() =~= k.wire_bytes() + rest);
            lemma_key_roundtrip(k, rest);
        },
        InputEvent::MouseMove { dx, dy } => {
            lemma_be_u16_roundtrip(dx as u16);
            lemma_be_u16_roundtrip(dy as u16);
            lemma_i16_u16(dx);
            lemma_i16_u16(dy);
            assert(b[1] == hi_byte(dx as u16) && b[2] == lo_byte(dx as u16));
            assert(b[3] == hi_byte(dy as u16) && b[4] == lo_byte(dy as u16));
        },
        InputEvent::MouseButton { button, down } => {
            assert(b[1] == button);
        },
        InputEvent::Scroll { dx, dy } => {
            lemma_i8_u8(dx);
            lemma_i8_u8(dy);
            assert(b[1] == dx as u8 && b[2] == dy as u8);
        },
    }
}

/// Reading back a framed key record gives the record that was written,
/// whatever follows the frame.
pub proof fn lemma_key_framed_roundtrip(e: KeyEvent, rest: Seq<u8>)
    ensures
        key_read_framed(framed(e.wire_bytes()) + rest) == Ok::<KeyEvent, FrameError>(e),
{
    let b = framed(e.wire_bytes()) + rest;
    lemma_be32_roundtrip(5);
    assert(b.subrange(0, 4) =~= be32_bytes(5));
    assert(be32_value(b) == be32_value(b.subrange(0, 4)));
    assert(b.subrange(4, 9) =~= e.wire_bytes() + Seq::<u8>::empty());
    lemma_key_roundtrip(e, Seq::<u8>::empty());
}


// ----- ports and generic framing -----

/// Noise message ceiling: no frame may announce more than this.
pub const MAX_FRAME: usize = 65535;

/// Default pairing port: one above the session port, wrapping at the top.
pub fn default_pairing_port(session_port: u16) -> (p: u16)
    ensures
        p == (if session_port == u16::MAX { 0 } else { session_port + 1 }),
{
    if session_port == u16::MAX {
        0
    } else {
        session_port + 1
    }
}

/// Frame `data` as "4-byte big-endian length + data".
pub fn encode_frame(data: &[u8]) -> (f: Vec<u8>)
    requires
        data@.len() <= u32::MAX,
    ensures
        f@ == framed(data@),
{
    let n = data.len() as u64;
    let mut f: Vec<u8> = Vec::new();
    f.push((n / 16777216) as u8);
    f.push(((n / 65536) % 256) as u8);
    f.push(((n / 256) % 256) as u8);
    f.push((n % 256) as u8);
    assert(f@ =~= be32_bytes(data@.len()));
    let mut i: usize = 0;
    while i < data.len()
        invariant
            i <= data@.len(),
            f@ == be32_bytes(data@.len()) + data@.subrange(0, i as int),
        decreases data@.len() - i,
    {
        f.push(data[i]);
        i += 1;
        assert(f@ =~= be32_bytes(data@.len()) + data@.subrange(0, i as int));
    }
    assert(data@.subrange(0, data@.len() as int) =~= data@);
    f
}

/// Check a frame's announced length against the receive buffer: zero, more
/// than `MAX_FRAME`, or more than the buffer holds is `InvalidLength`.
pub fn check_frame_length(n: u64, capacity: usize) -> (r: Result<usize, FrameError>)
    ensures
        (n == 0 || n > MAX_FRAME || n > capacity) <==> r == Err::<usize, FrameError>(FrameError::InvalidLength),
        r is Ok ==> r->Ok_0 == n,
        r is Err ==> r == Err::<usize, FrameError>(FrameError::InvalidLength),
{
    if n == 0 || n > MAX_FRAME as u64 || n > capacity as u64 {
        Err(FrameError::InvalidLength)
    } else {
        Ok(n as usize)
    }
}


// ----- how failures read -----

/// How a failure is classed among the operating system's error kinds.
#[derive(Clone, Copy, PartialEq, Eq, Debug, Structural)]
pub enum FailureKind {
    /// The peer sent something this side cannot accept.
    InvalidData,
    /// A person said no.
    PermissionDenied,
    /// The cryptography refused.
    Other,
}

/// A decode error as its variant reads: `ShortBuffer`, `BadMsgType(n)`,
/// `BadTag(n)`.
pub open spec fn decode_error_text(e: DecodeError) -> Seq<char> {
    match e {
        DecodeError::ShortBuffer => "ShortBuffer"@,
        DecodeError::BadMsgType(b) => "BadMsgType("@ + decimal(b as nat) + ")"@,
        DecodeError::BadTag(b) => "BadTag("@ + decimal(b as nat) + ")"@,
    }
}

/// Append the text of a decode error.
pub fn push_decode_error(out: &mut Vec<char>, e: DecodeError)
    ensures
        final(out)@ == old(out)@ + decode_error_text(e),
{
    match e {
        DecodeError::ShortBuffer => extend_chars(out, "ShortBuffer"),
        DecodeError::BadMsgType(b) => {
            extend_chars(out, "BadMsgType(");
            push_decimal(out, b as u64);
            extend_chars(out, ")");
        },
        DecodeError::BadTag(b) => {
            extend_chars(out, "BadTag(");
            push_decimal(out, b as u64);
            extend_chars(out, ")");
        },
    }
}

/// What a frame error says.
pub open spec fn frame_error_text(e: FrameError) -> Seq<char> {
    match e {
        FrameError::Truncated => "truncated frame"@,
        FrameError::InvalidLength => "invalid frame length"@,
        FrameError::Decode(d) => "decode error: "@ + decode_error_text(d),
    }
}

/// Append the text of a frame error.
pub fn push_frame_error(out: &mut Vec<char>, e: FrameError)
    ensures
        final(out)@ == old(out)@ + frame_error_text(e),
{
    match e {
        FrameError::Truncated => extend_chars(out, "truncated frame"),
        FrameError::InvalidLength => extend_chars(out, "invalid frame length"),
        FrameError::Decode(d) => {
            extend_chars(out, "decode error: ");
            push_decode_error(out, d);
            assert(out@ =~= old(out)@ + frame_error_text(e));
        },
    }
}

/// The message of a frame error.
pub fn frame_error_message(e: FrameError) -> (s: String)
    ensures
        s@ == frame_error_text(e),
{
    let mut cs: Vec<char> = Vec::new();
    push_frame_error(&mut cs, e);
    assert(cs@ =~= frame_error_text(e));
    string_from_chars(&cs)
}

}
