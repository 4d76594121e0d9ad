//! Wire protocol between a client and the relay server.
//!
//! Frames are length-prefixed and, for anything carrying user data, the body is
//! an opaque AEAD box the relay cannot read:
//!
//! ```text
//! +------------+----------+----------------------+
//! | len: u32be | kind: u8 | body: len-1 bytes    |
//! +------------+----------+----------------------+
//! ```
//!
//! Handshake:
//!
//! ```text
//! client --> Hello    { proto, room_id, device_id }
//! server --> Challenge{ nonce }
//! client --> Auth     { hmac(auth_key, nonce) }
//! server --> Welcome  { server_time, peers }        (or Error)
//!   ...then Relay / Presence / Ping frames in both directions
//! ```
//!
//! The relay only learns the room id, device ids and message sizes. `Relay`
//! bodies are end-to-end encrypted with the room's message key.

use base64::Engine;
use vstd::prelude::*;

use crate::text::{clone_strings, decimal, decimal_text};
use crate::{MAX_FRAME_LEN, PROTOCOL_VERSION, VERSION};

verus! {

/// Frame discriminants. Their codes are on the wire.
#[derive(Debug, Clone, Copy, PartialEq, Eq, Structural)]
pub enum FrameKind {
    Hello,
    Challenge,
    Auth,
    Welcome,
    Error,
    /// Encrypted peer payload, forwarded verbatim to the other devices.
    Relay,
    /// A peer connected or disconnected.
    Presence,
    Ping,
    Pong,
}

/// Why bytes are not a frame, or a frame not bytes.
#[derive(Debug, PartialEq, Eq)]
pub enum ProtoError {
    /// The byte names no frame kind.
    UnknownKind(u8),
    /// A frame to be sent is this long, and that is too long.
    TooLarge(usize),
    /// The length field is zero.
    Empty,
    /// The length field holds this, and that is too long.
    Oversized(usize),
    /// The text is not canonical base64, for this reason.
    Base64(String),
}

impl ProtoError {
    pub open spec fn text(self) -> Seq<char> {
        match self {
            ProtoError::UnknownKind(v) => "未知帧类型: "@ + decimal(v as nat),
            ProtoError::TooLarge(len) => "帧过大: "@ + decimal(len as nat) + " 字节"@,
            ProtoError::Empty => "帧长度为 0"@,
            ProtoError::Oversized(len) => "帧长度超限: "@ + decimal(len as nat) + " > "@ + decimal(
                MAX_FRAME_LEN as nat,
            ),
            ProtoError::Base64(why) => "base64 解码失败: "@ + why@,
        }
    }

    pub fn message(&self) -> (r: String)
        ensures
            r@ == self.text(),
    {
        match self {
            ProtoError::UnknownKind(v) => "未知帧类型: ".to_string().concat(
                decimal_text(*v as u64).as_str(),
            ),
            ProtoError::TooLarge(len) => "帧过大: ".to_string().concat(
                decimal_text(*len as u64).as_str(),
            ).concat(" 字节"),
            ProtoError::Empty => "帧长度为 0".to_string(),
            ProtoError::Oversized(len) => "帧长度超限: ".to_string().concat(
                decimal_text(*len as u64).as_str(),
            ).concat(" > ").concat(decimal_text(MAX_FRAME_LEN as u64).as_str()),
            ProtoError::Base64(why) => "base64 解码失败: ".to_string().concat(why.as_str()),
        }
    }
}

impl FrameKind {
    /// The byte that stands for this kind on the wire.
    pub open spec fn code_spec(self) -> u8 {
        match self {
            FrameKind::Hello => 1,
            FrameKind::Challenge => 2,
            FrameKind::Auth => 3,
            FrameKind::Welcome => 4,
            FrameKind::Error => 5,
            FrameKind::Relay => 6,
            FrameKind::Presence => 7,
            FrameKind::Ping => 8,
            FrameKind::Pong => 9,
        }
    }

    pub fn code(self) -> (r: u8)
        ensures
            r == self.code_spec(),
            1 <= r <= 9,
    {
        match self {
            FrameKind::Hello => 1,
            FrameKind::Challenge => 2,
            FrameKind::Auth => 3,
            FrameKind::Welcome => 4,
            FrameKind::Error => 5,
            FrameKind::Relay => 6,
            FrameKind::Presence => 7,
            FrameKind::Ping => 8,
            FrameKind::Pong => 9,
        }
    }

    /// The kind that a byte stands for: the one with this code, if there is one.
    pub fn from_u8(v: u8) -> (r: Result<FrameKind, ProtoError>)
        ensures
            r is Ok <==> 1 <= v <= 9,
            r matches Ok(kind) ==> kind.code_spec() == v,
            r matches Err(e) ==> e == ProtoError::UnknownKind(v),
    {
        match v {
            1 => Ok(FrameKind::Hello),
            2 => Ok(FrameKind::Challenge),
            3 => Ok(FrameKind::Auth),
            4 => Ok(FrameKind::Welcome),
            5 => Ok(FrameKind::Error),
            6 => Ok(FrameKind::Relay),
            7 => Ok(FrameKind::Presence),
            8 => Ok(FrameKind::Ping),
            9 => Ok(FrameKind::Pong),
            other => Err(ProtoError::UnknownKind(other)),
        }
    }
}

/// No two kinds share a code.
pub proof fn frame_codes_are_distinct(a: FrameKind, b: FrameKind)
    ensures
        a.code_spec() == b.code_spec() ==> a == b,
{
}

#[derive(Debug)]
pub struct Hello {
    pub proto: u16,
    /// Hex room id from [`crate::crypto::RoomKeys::room_id_hex`].
    pub room: String,
    /// Stable per-installation id, so the same person on two devices shows up
    /// twice.
    pub device_id: String,
    /// Client build, for diagnostics only.
    pub version: String,
    /// Nickname of the person, for grouping devices in the relay's panel. Empty
    /// when the client names none.
    pub user: String,
    /// Display name of the device, for the relay's panel. May be empty.
    pub name: String,
}

impl Clone for Hello {
    fn clone(&self) -> (r: Hello)
        ensures
            r == *self,
    {
        Hello {
            proto: self.proto,
            room: self.room.clone(),
            device_id: self.device_id.clone(),
            version: self.version.clone(),
            user: self.user.clone(),
            name: self.name.clone(),
        }
    }
}

#[derive(Debug)]
pub struct Challenge {
    /// Base64 (standard, padded) 32-byte nonce.
    pub nonce: String,
}

impl Clone for Challenge {
    fn clone(&self) -> (r: Challenge)
        ensures
            r == *self,
    {
        Challenge {
            nonce: self.nonce.clone(),
        }
    }
}

#[derive(Debug)]
pub struct Auth {
    /// Base64 HMAC over the challenge.
    pub mac: String,
}

impl Clone for Auth {
    fn clone(&self) -> (r: Auth)
        ensures
            r == *self,
    {
        Auth {
            mac: self.mac.clone(),
        }
    }
}

#[derive(Debug)]
pub struct Welcome {
    /// Relay clock in unix ms, so clients can warn about large skew.
    pub server_time: i64,
    /// Device ids already in the room.
    pub peers: Vec<String>,
    /// How often the relay expects a Ping, in seconds.
    pub heartbeat_secs: u32,
}

impl Clone for Welcome {
    fn clone(&self) -> (r: Welcome)
        ensures
            r.server_time == self.server_time,
            r.peers@ == self.peers@,
            r.heartbeat_secs == self.heartbeat_secs,
    {
        Welcome {
            server_time: self.server_time,
            peers: clone_strings(&self.peers),
            heartbeat_secs: self.heartbeat_secs,
        }
    }
}

#[derive(Debug)]
pub struct ErrorFrame {
    pub code: String,
    pub message: String,
}

impl Clone for ErrorFrame {
    fn clone(&self) -> (r: ErrorFrame)
        ensures
            r == *self,
    {
        ErrorFrame {
            code: self.code.clone(),
            message: self.message.clone(),
        }
    }
}

/// Encrypted peer payload. Only `body` is confidential; the rest is routing
/// metadata the relay needs and is bound into the AEAD `aad`.
#[derive(Debug)]
pub struct Relay {
    /// Sender device id. Filled by the sender and re-checked by the relay.
    pub from: String,
    /// Base64 `nonce || ciphertext`.
    pub body: String,
    /// Retain slot name when the relay should remember this as latest state.
    pub retain: Option<String>,
}

impl Clone for Relay {
    fn clone(&self) -> (r: Relay)
        ensures
            r == *self,
    {
        Relay {
            from: self.from.clone(),
            body: self.body.clone(),
            retain: match &self.retain {
                Some(slot) => Some(slot.clone()),
                None => None,
            },
        }
    }
}

#[derive(Debug)]
pub struct Presence {
    pub device_id: String,
    pub online: bool,
    pub platform_hint: Option<String>,
}

impl Clone for Presence {
    fn clone(&self) -> (r: Presence)
        ensures
            r == *self,
    {
        Presence {
            device_id: self.device_id.clone(),
            online: self.online,
            platform_hint: match &self.platform_hint {
                Some(hint) => Some(hint.clone()),
                None => None,
            },
        }
    }
}

/// A decoded frame.
#[derive(Debug)]
pub enum Frame {
    Hello(Hello),
    Challenge(Challenge),
    Auth(Auth),
    Welcome(Welcome),
    Error(ErrorFrame),
    Relay(Relay),
    Presence(Presence),
    Ping,
    Pong,
}

impl Clone for Frame {
    fn clone(&self) -> (r: Frame)
        ensures
            !(self is Welcome) ==> r == *self,
            r is Welcome <==> self is Welcome,
            *self matches Frame::Welcome(w) ==> (r matches Frame::Welcome(c) && {
                &&& c.server_time == w.server_time
                &&& c.peers@ == w.peers@
                &&& c.heartbeat_secs == w.heartbeat_secs
            }),
    {
        match self {
            Frame::Hello(v) => Frame::Hello(v.clone()),
            Frame::Challenge(v) => Frame::Challenge(v.clone()),
            Frame::Auth(v) => Frame::Auth(v.clone()),
            Frame::Welcome(v) => Frame::Welcome(v.clone()),
            Frame::Error(v) => Frame::Error(v.clone()),
            Frame::Relay(v) => Frame::Relay(v.clone()),
            Frame::Presence(v) => Frame::Presence(v.clone()),
            Frame::Ping => Frame::Ping,
            Frame::Pong => Frame::Pong,
        }
    }
}

impl Frame {
    pub open spec fn kind_spec(self) -> FrameKind {
        match self {
            Frame::Hello(_) => FrameKind::Hello,
            Frame::Challenge(_) => FrameKind::Challenge,
            Frame::Auth(_) => FrameKind::Auth,
            Frame::Welcome(_) => FrameKind::Welcome,
            Frame::Error(_) => FrameKind::Error,
            Frame::Relay(_) => FrameKind::Relay,
            Frame::Presence(_) => FrameKind::Presence,
            Frame::Ping => FrameKind::Ping,
            Frame::Pong => FrameKind::Pong,
        }
    }

    pub fn kind(&self) -> (r: FrameKind)
        ensures
            r == self.kind_spec(),
    {
        match self {
            Frame::Hello(_) => FrameKind::Hello,
            Frame::Challenge(_) => FrameKind::Challenge,
            Frame::Auth(_) => FrameKind::Auth,
            Frame::Welcome(_) => FrameKind::Welcome,
            Frame::Error(_) => FrameKind::Error,
            Frame::Relay(_) => FrameKind::Relay,
            Frame::Presence(_) => FrameKind::Presence,
            Frame::Ping => FrameKind::Ping,
            Frame::Pong => FrameKind::Pong,
        }
    }

    /// Convenience constructor for the common error reply.
    pub fn error(code: &str, message: String) -> (r: Frame)
        ensures
            r matches Frame::Error(e) && e.code@ == code@ && e.message == message,
    {
        Frame::Error(ErrorFrame { code: code.to_string(), message })
    }

    /// The opening frame of a device that names neither its user nor itself.
    pub fn hello(room: String, device_id: String) -> (r: Frame)
        ensures
            r matches Frame::Hello(h) && {
                &&& h.proto == PROTOCOL_VERSION
                &&& h.room == room
                &&& h.device_id == device_id
                &&& h.version@ == VERSION@
                &&& h.user@ == Seq::<char>::empty()
                &&& h.name@ == Seq::<char>::empty()
            },
    {
        Frame::Hello(
            Hello {
                proto: PROTOCOL_VERSION,
                room,
                device_id,
                version: VERSION.to_string(),
                user: String::new(),
                name: String::new(),
            },
        )
    }
}

// ---------------------------------------------------------------------------
// Framing
// ---------------------------------------------------------------------------

/// A 32-bit number as four bytes, the most significant first.
pub open spec fn be32(n: int) -> Seq<u8> {
    seq![
        (n / 0x100_0000) as u8,
        (n / 0x1_0000 % 256) as u8,
        (n / 256 % 256) as u8,
        (n % 256) as u8,
    ]
}

/// The number that four bytes stand for, the most significant first.
pub open spec fn from_be32(b: Seq<u8>) -> int {
    b[0] * 0x100_0000 + b[1] * 0x1_0000 + b[2] * 256 + b[3]
}

/// A frame on the wire.
pub open spec fn framed(kind: FrameKind, body: Seq<u8>) -> Seq<u8> {
    be32(body.len() as int + 1) + seq![kind.code_spec()] + body
}

/// The bytes of a frame, or the refusal of one that no reader would take.
pub fn encode_frame(kind: FrameKind, body: &[u8]) -> (r: Result<Vec<u8>, ProtoError>)
    requires
        body@.len() < usize::MAX,
    ensures
        r is Ok <==> body@.len() + 1 <= MAX_FRAME_LEN,
        r matches Ok(bytes) ==> bytes@ == framed(kind, body@),
        r matches Err(e) ==> e == ProtoError::TooLarge((body@.len() + 1) as usize),
{
    let len: usize = body.len() + 1;
    if len > MAX_FRAME_LEN {
        return Err(ProtoError::TooLarge(len));
    }
    let mut out: Vec<u8> = Vec::new();
    out.push((len / 0x100_0000) as u8);
    out.push((len / 0x1_0000 % 256) as u8);
    out.push((len / 256 % 256) as u8);
    out.push((len % 256) as u8);
    out.push(kind.code());
    out.extend_from_slice(body);
    assert(out@ == framed(kind, body@));
    Ok(out)
}

/// Length of what follows a header: the kind byte and the body. Refused before
/// anything is allocated, since this is the memory bound per connection.
pub fn frame_len(header: [u8; 4]) -> (r: Result<usize, ProtoError>)
    ensures
        r is Ok <==> 1 <= from_be32(header@) <= MAX_FRAME_LEN,
        r matches Ok(len) ==> len == from_be32(header@),
        r matches Err(e) ==> e == (if from_be32(header@) == 0 {
            ProtoError::Empty
        } else {
            ProtoError::Oversized(from_be32(header@) as usize)
        }),
{
    let n: u32 = header[0] as u32 * 0x100_0000 + header[1] as u32 * 0x1_0000 + header[2] as u32
        * 256 + header[3] as u32;
    let len: usize = n as usize;
    if len == 0 {
        return Err(ProtoError::Empty);
    }
    if len > MAX_FRAME_LEN {
        return Err(ProtoError::Oversized(len));
    }
    Ok(len)
}

/// The kind and the body of what follows a header.
pub fn split_frame(payload: &[u8]) -> (r: Result<(FrameKind, Vec<u8>), ProtoError>)
    requires
        payload@.len() >= 1,
    ensures
        r is Ok <==> 1 <= payload@[0] <= 9,
        r matches Ok((kind, body)) ==> kind.code_spec() == payload@[0] && body@ == payload@.skip(1),
        r matches Err(e) ==> e == ProtoError::UnknownKind(payload@[0]),
{
    match FrameKind::from_u8(payload[0]) {
        Ok(kind) => {
            let (_, rest) = payload.split_at(1);
            let mut body: Vec<u8> = Vec::new();
            body.extend_from_slice(rest);
            assert(body@ == payload@.skip(1));
            Ok((kind, body))
        },
        Err(e) => Err(e),
    }
}

/// Reading takes apart what writing put together: the header of a frame gives
/// the length of the rest, and the rest gives its kind and its body.
pub proof fn frames_read_back(kind: FrameKind, body: Seq<u8>)
    requires
        body.len() + 1 <= MAX_FRAME_LEN,
    ensures
        from_be32(framed(kind, body).take(4)) == body.len() + 1,
        framed(kind, body).skip(4).len() == body.len() + 1,
        framed(kind, body).skip(4)[0] == kind.code_spec(),
        framed(kind, body).skip(4).skip(1) == body,
{
    let bytes = framed(kind, body);
    assert(bytes.skip(4).skip(1) == body);
}

// ---------------------------------------------------------------------------
// Base64
// ---------------------------------------------------------------------------

/// The symbol of a 6-bit value in the standard alphabet.
pub open spec fn base64_symbol(v: int) -> char {
    if v < 26 {
        (65 + v) as char
    } else if v < 52 {
        (71 + v) as char
    } else if v < 62 {
        (v - 4) as char
    } else if v == 62 {
        '+'
    } else {
        '/'
    }
}

/// Standard base64 with padding: four symbols for each three bytes.
pub open spec fn base64_text(d: Seq<u8>) -> Seq<char>
    decreases d.len(),
{
    if d.len() == 0 {
        seq![]
    } else if d.len() == 1 {
        seq![base64_symbol(d[0] as int / 4), base64_symbol(d[0] as int % 4 * 16), '=', '=']
    } else if d.len() == 2 {
        seq![
            base64_symbol(d[0] as int / 4),
            base64_symbol(d[0] as int % 4 * 16 + d[1] as int / 16),
            base64_symbol(d[1] as int % 16 * 4),
            '=',
        ]
    } else {
        seq![
            base64_symbol(d[0] as int / 4),
            base64_symbol(d[0] as int % 4 * 16 + d[1] as int / 16),
            base64_symbol(d[1] as int % 16 * 4 + d[2] as int / 64),
            base64_symbol(d[2] as int % 64),
        ] + base64_text(d.skip(3))
    }
}

/// `base64::Engine::encode` of the standard engine: the standard alphabet, with
/// padding. The crate panics when the length of the text overflows.
#[verifier::external_body]
fn base64_encode(data: &[u8]) -> (r: String)
    requires
        (data@.len() + 2) / 3 * 4 <= isize::MAX,
    ensures
        r@ == base64_text(data@),
{
    base64::engine::general_purpose::STANDARD.encode(data)
}

/// What `base64`'s decoder says is wrong with a text.
pub uninterp spec fn base64_error(text: Seq<char>) -> Seq<char>;

/// What is said of a text that is not base64.
pub open spec fn not_base64(text: Seq<char>) -> Seq<char> {
    "base64 解码失败: "@ + base64_error(text)
}

/// `base64::Engine::decode` of the standard engine, which demands canonical
/// padding and no stray trailing bits: it accepts exactly the texts that encoding
/// gives, and gives back what was encoded. What it says of another text is a
/// function of that text.
#[verifier::external_body]
fn base64_decode(text: &str) -> (r: Result<Vec<u8>, String>)
    ensures
        r matches Ok(d) ==> text@ == base64_text(d@),
        r is Err ==> forall|d: Seq<u8>| #[trigger] base64_text(d) != text@,
        r matches Err(why) ==> why@ == base64_error(text@),
{
    base64::engine::general_purpose::STANDARD.decode(text).map_err(|e| e.to_string())
}

/// Base64 text of some bytes, kept here so both ends agree on the alphabet.
pub fn b64(data: &[u8]) -> (r: String)
    requires
        (data@.len() + 2) / 3 * 4 <= isize::MAX,
    ensures
        r@ == base64_text(data@),
{
    base64_encode(data)
}

/// The bytes that a base64 text stands for. Exactly the texts that [`b64`] makes
/// are accepted.
pub fn unb64(text: &str) -> (r: Result<Vec<u8>, ProtoError>)
    ensures
        r is Ok <==> exists|d: Seq<u8>| #[trigger] base64_text(d) == text@,
        r matches Ok(d) ==> base64_text(d@) == text@,
        r matches Err(e) ==> e.text() == not_base64(text@) && e is Base64,
{
    match base64_decode(text) {
        Ok(d) => Ok(d),
        Err(why) => Err(ProtoError::Base64(why)),
    }
}

proof fn base64_symbols_are_distinct(a: int, b: int)
    requires
        0 <= a < 64,
        0 <= b < 64,
        base64_symbol(a) == base64_symbol(b),
    ensures
        a == b,
{
}

proof fn base64_symbol_is_no_padding(a: int)
    requires
        0 <= a < 64,
    ensures
        base64_symbol(a) != '=',
{
}

/// A text stands for one sequence of bytes only, so decoding gives back what was
/// encoded.
pub proof fn base64_reads_back(a: Seq<u8>, b: Seq<u8>)
    requires
        base64_text(a) == base64_text(b),
    ensures
        a == b,
    decreases a.len(),
{
    let s = base64_text(a);
    let t = base64_text(b);
    if a.len() > 0 {
        assert(s.len() >= 4);
        assert(b.len() > 0);
        let a0 = a[0] as int;
        let b0 = b[0] as int;
        let a1 = if a.len() > 1 { a[1] as int } else { 0 };
        let b1 = if b.len() > 1 { b[1] as int } else { 0 };
        let a2 = if a.len() > 2 { a[2] as int } else { 0 };
        let b2 = if b.len() > 2 { b[2] as int } else { 0 };
        assert(s[0] == base64_symbol(a0 / 4));
        assert(t[0] == base64_symbol(b0 / 4));
        assert(s[1] == base64_symbol(a0 % 4 * 16 + a1 / 16));
        assert(t[1] == base64_symbol(b0 % 4 * 16 + b1 / 16));
        base64_symbols_are_distinct(a0 / 4, b0 / 4);
        base64_symbols_are_distinct(a0 % 4 * 16 + a1 / 16, b0 % 4 * 16 + b1 / 16);
        base64_symbol_is_no_padding(a1 % 16 * 4 + a2 / 64);
        base64_symbol_is_no_padding(b1 % 16 * 4 + b2 / 64);
        base64_symbol_is_no_padding(a2 % 64);
        base64_symbol_is_no_padding(b2 % 64);
        assert(a0 == b0);
        assert(a.len() == 1 <==> s[2] == '=');
        assert(b.len() == 1 <==> t[2] == '=');
        assert(a.len() <= 2 <==> s[3] == '=');
        assert(b.len() <= 2 <==> t[3] == '=');
        if a.len() == 1 {
            assert(a == b);
        } else {
            assert(s[2] == base64_symbol(a1 % 16 * 4 + a2 / 64));
            assert(t[2] == base64_symbol(b1 % 16 * 4 + b2 / 64));
            base64_symbols_are_distinct(a1 % 16 * 4 + a2 / 64, b1 % 16 * 4 + b2 / 64);
            assert(a1 == b1);
            if a.len() == 2 {
                assert(a == b);
            } else {
                base64_symbols_are_distinct(a2 % 64, b2 % 64);
                assert(a2 == b2);
                assert(s.skip(4) == base64_text(a.skip(3)));
                assert(t.skip(4) == base64_text(b.skip(3)));
                base64_reads_back(a.skip(3), b.skip(3));
                assert(a == a.take(3) + a.skip(3));
                assert(b == b.take(3) + b.skip(3));
                assert(a.take(3) == b.take(3));
            }
        }
    } else {
        if b.len() > 0 {
            assert(t.len() >= 4);
        }
        assert(a == b);
    }
}

/// Frames of one kind are of one shape: no two shapes share a kind.
pub proof fn frame_kinds_are_distinct(a: Frame, b: Frame)
    requires
        a.kind_spec() == b.kind_spec(),
    ensures
        a is Hello <==> b is Hello,
        a is Challenge <==> b is Challenge,
        a is Auth <==> b is Auth,
        a is Welcome <==> b is Welcome,
        a is Error <==> b is Error,
        a is Relay <==> b is Relay,
        a is Presence <==> b is Presence,
        a is Ping <==> b is Ping,
        a is Pong <==> b is Pong,
{
}

/// A length that was written in four bytes is read back, and no two lengths are
/// written alike.
pub proof fn lengths_read_back(n: int)
    requires
        0 <= n <= 0xffff_ffff,
    ensures
        be32(n).len() == 4,
        from_be32(be32(n)) == n,
        be32(n)[3] == n % 256,
{
}

}
