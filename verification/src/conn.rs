//! One connection: handshake, then frames in both directions.
//!
//! What a relay does about each frame of a client stands here; the task that owns
//! the socket reads, calls and writes.

use vstd::prelude::*;
use vstd::utf8::*;

use crate::client::Client;
use crate::crypto::{auth_tag, hex, hex_digit, normalised, opened, same_code_same_keys};
use crate::debug::{frame_text, show_frame};
use crate::hub::{
    announces, arrival, attributed, relay_reaches_the_others, welcomes, DeviceState, Hub, HubError,
    HubState, Joined, RoomState,
};
use crate::limiter::{Bucket, RateLimiter};
use crate::proto::{
    b64, base64_reads_back, base64_text, not_base64, unb64, Challenge, Frame, Hello, ProtoError, Relay, Welcome,
};
use crate::text::{chars_of, decimal, decimal_text};
use crate::PROTOCOL_VERSION;

verus! {

/// Why a handshake fails.
#[derive(Debug)]
pub enum Refusal {
    /// The first frame was another one.
    NotHello(Frame),
    /// There was no first frame.
    NoHello,
    /// The client speaks another version.
    Version(u16),
    BadRoom,
    BadDevice,
    /// The frame after the challenge was another one.
    NotAuth(Frame),
    /// There was no frame after the challenge.
    NoAuth,
    BadMac(ProtoError),
    MacLength,
    Hub(HubError),
}

impl Refusal {
    pub open spec fn text(self) -> Seq<char> {
        match self {
            Refusal::NotHello(f) => "首帧应为 Hello，收到 "@ + frame_text(f),
            Refusal::NoHello => "客户端未发送 Hello"@,
            Refusal::Version(v) => "协议版本不匹配：服务器 "@ + decimal(PROTOCOL_VERSION as nat)
                + "，客户端 "@ + decimal(v as nat),
            Refusal::BadRoom => "房间标识格式错误"@,
            Refusal::BadDevice => "设备标识长度非法"@,
            Refusal::NotAuth(f) => "应为 Auth 帧，收到 "@ + frame_text(f),
            Refusal::NoAuth => "客户端未完成认证"@,
            Refusal::BadMac(e) => e.text(),
            Refusal::MacLength => "认证响应长度错误"@,
            Refusal::Hub(e) => e.text(),
        }
    }

    pub fn message(&self) -> (r: String)
        ensures
            r@ == self.text(),
    {
        match self {
            Refusal::NotHello(f) => "首帧应为 Hello，收到 ".to_string().concat(
                show_frame(f).as_str(),
            ),
            Refusal::NoHello => "客户端未发送 Hello".to_string(),
            Refusal::Version(v) => "协议版本不匹配：服务器 ".to_string().concat(
                decimal_text(PROTOCOL_VERSION as u64).as_str(),
            ).concat("，客户端 ").concat(decimal_text(*v as u64).as_str()),
            Refusal::BadRoom => "房间标识格式错误".to_string(),
            Refusal::BadDevice => "设备标识长度非法".to_string(),
            Refusal::NotAuth(f) => "应为 Auth 帧，收到 ".to_string().concat(
                show_frame(f).as_str(),
            ),
            Refusal::NoAuth => "客户端未完成认证".to_string(),
            Refusal::BadMac(e) => e.message(),
            Refusal::MacLength => "认证响应长度错误".to_string(),
            Refusal::Hub(e) => e.message().to_string(),
        }
    }

    /// What the client is told before the connection closes, so the UI can show it
    /// instead of a bare disconnect.
    pub fn frame(&self) -> (r: Frame)
        ensures
            r matches Frame::Error(e) && e.code@ == "auth"@ && e.message@ == self.text(),
    {
        Frame::error("auth", self.message())
    }
}

/// What a client is told that said nothing in time.
pub fn timeout_frame() -> (r: Frame)
    ensures
        r matches Frame::Error(e) && e.code@ == "timeout"@ && e.message@ == "握手超时"@,
{
    Frame::error("timeout", "握手超时".to_string())
}

pub open spec fn is_hex(c: char) -> bool {
    '0' <= c <= '9' || 'a' <= c <= 'f' || 'A' <= c <= 'F'
}

/// Room ids are hex-encoded 16-byte values.
pub open spec fn is_room_id(s: Seq<char>) -> bool {
    s.len() == 32 && forall|i: int| 0 <= i < s.len() ==> is_hex(#[trigger] s[i])
}

/// Device ids have 1 to 64 bytes.
pub open spec fn is_device_id(s: Seq<char>) -> bool {
    0 < encode_utf8(s).len() <= 64
}

fn room_id_ok(room: &str) -> (r: bool)
    ensures
        r == is_room_id(room@),
{
    let cs = chars_of(room);
    if cs.len() != 32 {
        return false;
    }
    let mut i: usize = 0;
    while i < cs.len()
        invariant
            cs@ == room@,
            i <= cs@.len(),
            forall|k: int| 0 <= k < i ==> is_hex(#[trigger] cs@[k]),
        decreases cs@.len() - i,
    {
        let c = cs[i];
        if !(('0' <= c && c <= '9') || ('a' <= c && c <= 'f') || ('A' <= c && c <= 'F')) {
            assert(!is_hex(cs@[i as int]));
            return false;
        }
        i = i + 1;
    }
    true
}

/// Why the first frame of a connection is refused, if it is.
pub open spec fn hello_refusal(frame: Option<Frame>) -> Option<Refusal> {
    match frame {
        None => Some(Refusal::NoHello),
        Some(Frame::Hello(h)) => if h.proto != PROTOCOL_VERSION {
            Some(Refusal::Version(h.proto))
        } else if !is_room_id(h.room@) {
            Some(Refusal::BadRoom)
        } else if !is_device_id(h.device_id@) {
            Some(Refusal::BadDevice)
        } else {
            None
        },
        Some(other) => Some(Refusal::NotHello(other)),
    }
}

/// Checks the first frame of a connection. A room id that is none is rejected
/// before it becomes a map key.
pub fn check_hello(frame: Option<Frame>) -> (r: Result<Hello, Refusal>)
    ensures
        match hello_refusal(frame) {
            Some(why) => r == Err::<Hello, _>(why),
            None => r matches Ok(h) && frame == Some(Frame::Hello(h)),
        },
{
    match frame {
        None => Err(Refusal::NoHello),
        Some(Frame::Hello(h)) => {
            if h.proto != PROTOCOL_VERSION {
                return Err(Refusal::Version(h.proto));
            }
            if !room_id_ok(h.room.as_str()) {
                return Err(Refusal::BadRoom);
            }
            let bytes = h.device_id.as_str().as_bytes();
            if bytes.len() == 0 || bytes.len() > 64 {
                return Err(Refusal::BadDevice);
            }
            Ok(h)
        },
        Some(other) => Err(Refusal::NotHello(other)),
    }
}

/// First half of the handshake: a client that may try gets the challenge of its
/// room.
pub fn greet(hub: &mut Hub, frame: Option<Frame>, now: u64) -> (r: Result<(Hello, Frame), Refusal>)
    requires
        old(hub).wf(),
    ensures
        final(hub).wf(),
        final(hub).same_setup(old(hub)),
        match hello_refusal(frame) {
            Some(why) => r == Err::<(Hello, Frame), _>(why) && *final(hub) == *old(hub),
            None => {
                let h = frame->0->Hello_0;
                if old(hub).refuses_room(h.room@) {
                    r == Err::<(Hello, Frame), _>(Refusal::Hub(HubError::RoomsFull))
                        && *final(hub) == *old(hub)
                } else {
                    &&& r matches Ok((hello, Frame::Challenge(c))) && hello == h && {
                        &&& final(hub)@.rooms.contains_key(h.room@)
                        &&& c.nonce@ == base64_text(final(hub)@.rooms[h.room@].challenge)
                    }
                    &&& old(hub)@.rooms.contains_key(h.room@) ==> *final(hub) == *old(hub)
                    &&& !old(hub)@.rooms.contains_key(h.room@) ==> final(hub)@ == (HubState {
                        rooms: old(hub)@.rooms.insert(
                            h.room@,
                            RoomState::fresh(final(hub)@.rooms[h.room@].challenge, now),
                        ),
                        ..old(hub)@
                    })
                }
            },
        },
{
    let hello = match check_hello(frame) {
        Ok(h) => h,
        Err(why) => {
            return Err(why);
        },
    };
    match hub.challenge_for(hello.room.as_str(), now) {
        Ok(challenge) => {
            let nonce = b64(challenge.as_slice());
            Ok((hello, Frame::Challenge(Challenge { nonce })))
        },
        Err(e) => Err(Refusal::Hub(e)),
    }
}

/// Why the answer to a challenge is refused before it is compared, if it is.
pub open spec fn auth_refused(frame: Option<Frame>, why: Refusal) -> bool {
    match frame {
        None => why == Refusal::NoAuth,
        Some(Frame::Auth(a)) => {
            ||| (forall|d: Seq<u8>| #[trigger] base64_text(d) != a.mac@) && (why matches
                Refusal::BadMac(e) && e.text() == not_base64(a.mac@))
            ||| (exists|d: Seq<u8>| #[trigger] base64_text(d) == a.mac@ && d.len() != 32) && why
                == Refusal::MacLength
        },
        Some(other) => why == Refusal::NotAuth(other),
    }
}

/// The answer to a challenge: 32 bytes.
pub open spec fn answers(frame: Option<Frame>, mac: Seq<u8>) -> bool {
    frame matches Some(Frame::Auth(a)) && base64_text(mac) == a.mac@ && mac.len() == 32
}

/// Checks the form of the answer to a challenge.
pub fn check_auth(frame: Option<Frame>) -> (r: Result<Vec<u8>, Refusal>)
    ensures
        r matches Ok(mac) ==> answers(frame, mac@),
        r matches Err(why) ==> auth_refused(frame, why) && forall|mac: Seq<u8>|
            !#[trigger] answers(frame, mac),
{
    match frame {
        None => Err(Refusal::NoAuth),
        Some(Frame::Auth(a)) => match unb64(a.mac.as_str()) {
            Ok(mac) => {
                if mac.len() != 32 {
                    proof {
                        assert forall|other: Seq<u8>| !#[trigger] answers(frame, other) by {
                            if answers(frame, other) {
                                base64_reads_back(other, mac@);
                            }
                        }
                    }
                    Err(Refusal::MacLength)
                } else {
                    Ok(mac)
                }
            },
            Err(e) => Err(Refusal::BadMac(e)),
        },
        Some(other) => Err(Refusal::NotAuth(other)),
    }
}

/// A connection that finished its handshake.
#[derive(Debug)]
pub struct Session {
    pub room: String,
    pub device: String,
    /// Names the connection when it collects its frames.
    pub rx: u64,
}

/// What a client is sent when it is let in: a welcome, then the state that the
/// others left, so that it does not have to wait for their next update.
pub open spec fn welcome_frames(
    frames: Seq<Frame>,
    j: Joined,
    server_time: i64,
    heartbeat_secs: u32,
) -> bool {
    &&& frames.len() == 1 + j.retained@.len()
    &&& frames[0] matches Frame::Welcome(w) && w.server_time == server_time && w.peers == j.peers
        && w.heartbeat_secs == heartbeat_secs
    &&& forall|i: int|
        0 <= i < j.retained@.len() ==> #[trigger] frames[i + 1] == Frame::Relay(j.retained@[i])
}

fn welcome(joined: Joined, server_time: i64, heartbeat_secs: u32) -> (r: Vec<Frame>)
    ensures
        welcome_frames(r@, joined, server_time, heartbeat_secs),
{
    let mut out: Vec<Frame> = Vec::new();
    out.push(
        Frame::Welcome(Welcome { server_time, peers: joined.peers, heartbeat_secs }),
    );
    for i in 0..joined.retained.len()
        invariant
            out@.len() == 1 + i,
            out@[0] == Frame::Welcome(
                Welcome { server_time, peers: joined.peers, heartbeat_secs },
            ),
            forall|k: int|
                0 <= k < i ==> #[trigger] out@[k + 1] == Frame::Relay(joined.retained@[k]),
    {
        let ghost was = out@;
        out.push(Frame::Relay(joined.retained[i].clone()));
        assert forall|k: int| 0 <= k < i + 1 implies #[trigger] out@[k + 1] == Frame::Relay(
            joined.retained@[k],
        ) by {
            if k < i {
                assert(out@[k + 1] == was[k + 1]);
            }
        }
    }
    out
}

/// Second half of the handshake: a client with the right answer is let into its
/// room.
pub fn let_in(
    hub: &mut Hub,
    hello: Hello,
    frame: Option<Frame>,
    now: u64,
    server_time: i64,
    heartbeat_secs: u32,
) -> (r: Result<(Session, Vec<Frame>), Refusal>)
    requires
        old(hub).wf(),
        old(hub).next_ticket < u64::MAX,
    ensures
        final(hub).wf(),
        final(hub).same_setup(old(hub)),
        (forall|mac: Seq<u8>| !#[trigger] answers(frame, mac)) ==> {
            &&& r matches Err(why) && auth_refused(frame, why)
            &&& *final(hub) == *old(hub)
        },
        forall|mac: Seq<u8>| #[trigger]
            answers(frame, mac) ==> match old(hub).refuses_device(
                hello.room@,
                hello.device_id@,
                mac,
            ) {
                Some(e) => r == Err::<(Session, Vec<Frame>), _>(Refusal::Hub(e)) && final(hub)@
                    == old(hub)@,
                None => {
                    let room = old(hub)@.rooms[hello.room@];
                    let ticket = old(hub)@.next_ticket;
                    &&& r matches Ok((session, frames)) && {
                        &&& session.room == hello.room
                        &&& session.device == hello.device_id
                        &&& session.rx == ticket
                        &&& exists|j: Joined| #[trigger]
                            welcomes(j, room, hello.device_id@, ticket) && welcome_frames(
                                frames@,
                                j,
                                server_time,
                                heartbeat_secs,
                            )
                    }
                    &&& exists|a: Frame| #[trigger]
                        announces(a, hello.device_id@, true) && final(hub)@ == old(hub)@.joins(
                            hello.room@,
                            hello.device_id@,
                            mac,
                            arrival(ticket, hello.user, hello.name, now),
                            a,
                            now,
                        )
                },
            },
{
    let mac = match check_auth(frame) {
        Ok(mac) => mac,
        Err(why) => {
            return Err(why);
        },
    };
    proof {
        assert forall|other: Seq<u8>| #[trigger] answers(frame, other) implies other == mac@ by {
            base64_reads_back(other, mac@);
        }
    }
    let ghost before = hub@;
    let joined = hub.join(
        hello.room.as_str(),
        hello.device_id.as_str(),
        mac.as_slice(),
        hello.user,
        hello.name,
        now,
    );
    match joined {
        Ok(j) => {
            let session = Session { room: hello.room, device: hello.device_id, rx: j.rx };
            let ghost told = j;
            let frames = welcome(j, server_time, heartbeat_secs);
            assert(welcomes(told, before.rooms[hello.room@], hello.device_id@, before.next_ticket));
            Ok((session, frames))
        },
        Err(e) => Err(Refusal::Hub(e)),
    }
}

/// What a connection does about a frame of its client.
#[derive(Debug)]
pub struct Reply {
    /// To be written, if there is anything.
    pub frame: Option<Frame>,
    /// Whether the connection stays open.
    pub open: bool,
}

/// The frame is an error of this kind, with this text.
pub open spec fn is_error(frame: Option<Frame>, code: Seq<char>, text: Seq<char>) -> bool {
    frame matches Some(Frame::Error(e)) && e.code@ == code && e.message@ == text
}

/// What is done about a frame of an authenticated client: what the hub holds after
/// it, and what is answered.
pub open spec fn replies(
    frame: Frame,
    session: Session,
    hub: HubState,
    bucket: Bucket,
    now_ns: u64,
    after: HubState,
    outcome: Result<Reply, HubError>,
) -> bool {
    match frame {
        Frame::Relay(relay) => if !bucket.grants(now_ns as int) {
            &&& after == hub
            &&& outcome matches Ok(reply) && reply.open && is_error(
                reply.frame,
                "rate_limited"@,
                "发送过于频繁，已丢弃该消息"@,
            )
        } else if !hub.rooms.contains_key(session.room@) {
            after == hub && outcome == Err::<Reply, _>(HubError::NoRoom)
        } else {
            &&& outcome matches Ok(reply) && reply.open && reply.frame is None
            &&& exists|m: Relay| #[trigger]
                attributed(relay, session.device@, m) && after == hub.relays(
                    session.room@,
                    session.device@,
                    m,
                    (now_ns / 1_000_000) as u64,
                )
        },
        Frame::Ping => outcome matches Ok(reply) && reply.open && reply.frame == Some(Frame::Pong),
        Frame::Hello(_) => outcome matches Ok(reply) && !reply.open && is_error(
            reply.frame,
            "protocol"@,
            "连接已认证，不能重复握手"@,
        ),
        Frame::Auth(_) => outcome matches Ok(reply) && !reply.open && is_error(
            reply.frame,
            "protocol"@,
            "连接已认证，不能重复握手"@,
        ),
        _ => outcome matches Ok(reply) && reply.open && reply.frame is None,
    }
}

/// Handles a frame of an authenticated client. A payload is relayed under the name
/// of the connection, as far as the rate allows it; too much traffic costs the
/// frame but not the connection, since a burst is usually a bug, not an attack,
/// and killing the link would make the user's status disappear.
pub fn handle(
    frame: Frame,
    session: &Session,
    hub: &mut Hub,
    limiter: &mut RateLimiter,
    now_ns: u64,
) -> (r: Result<Reply, HubError>)
    requires
        old(hub).wf(),
        old(limiter).wf(),
    ensures
        final(hub).wf(),
        final(hub).same_setup(old(hub)),
        final(limiter).wf(),
        !(frame is Relay) ==> *final(hub) == *old(hub) && *final(limiter) == *old(limiter),
        frame is Relay ==> final(limiter)@ == old(limiter)@.asked(now_ns as int),
        frame is Relay && (!old(limiter)@.grants(now_ns as int) || !old(hub)@.rooms.contains_key(
            session.room@,
        )) ==> *final(hub) == *old(hub),
        replies(frame, *session, old(hub)@, old(limiter)@, now_ns, final(hub)@, r),
{
    match frame {
        Frame::Relay(relay) => {
            if !limiter.allow(now_ns) {
                return Ok(
                    Reply {
                        frame: Some(
                            Frame::error("rate_limited", "发送过于频繁，已丢弃该消息".to_string()),
                        ),
                        open: true,
                    },
                );
            }
            match hub.relay(
                session.room.as_str(),
                session.device.as_str(),
                relay,
                now_ns / 1_000_000,
            ) {
                Ok(()) => Ok(Reply { frame: None, open: true }),
                Err(e) => Err(e),
            }
        },
        Frame::Ping => Ok(Reply { frame: Some(Frame::Pong), open: true }),
        // Re-handshaking on a live connection is not allowed; the client should
        // open a new one.
        Frame::Hello(_) | Frame::Auth(_) => Ok(
            Reply {
                frame: Some(Frame::error("protocol", "连接已认证，不能重复握手".to_string())),
                open: false,
            },
        ),
        _ => Ok(Reply { frame: None, open: true }),
    }
}

/// A client greets its room by a name that is never refused: the hexadecimal form
/// of the sixteen bytes of its room.
pub proof fn own_hello_is_accepted(client: Client, frame: Frame)
    requires
        is_device_id(client.cfg.device_id@),
        frame matches Frame::Hello(h) && h.proto == PROTOCOL_VERSION && h.room@ == hex(
            client.keys@.room_id,
        ) && h.device_id == client.cfg.device_id,
    ensures
        hello_refusal(Some(frame)) is None,
{
    client.keys.lengths();
    let bytes = client.keys@.room_id;
    let room = hex(bytes);
    assert forall|i: int| 0 <= i < room.len() implies is_hex(#[trigger] room[i]) by {
        let b = bytes[i / 2] as int;
        assert(0 <= b / 16 < 16 && 0 <= b % 16 < 16);
        assert(is_hex(hex_digit(b / 16)));
        assert(is_hex(hex_digit(b % 16)));
    }
}

/// Devices with one code get into one room: the first of them sets the answer that
/// is expected, and the others give the very same. Only a full room keeps one
/// out.
pub proof fn same_code_gets_in(
    a: Client,
    b: Client,
    room: RoomState,
    device: DeviceState,
    announcement: Frame,
    now: u64,
    max_devices: int,
)
    requires
        a.wf(),
        b.wf(),
        normalised(a.cfg.invite_code@) == normalised(b.cfg.invite_code@),
        room.expected_mac is None,
        max_devices > 0 && room.devices == Map::<Seq<char>, DeviceState>::empty(),
    ensures
        a.keys@.room_id == b.keys@.room_id,
        ({
            let mac = auth_tag(a.keys@, room.challenge);
            let entered = room.joined(a.cfg.device_id@, mac, device, announcement, now);
            &&& room.accepts(a.cfg.device_id@, mac, max_devices) is None
            &&& entered.challenge == room.challenge
            &&& entered.devices.dom().len() < max_devices ==> entered.accepts(
                b.cfg.device_id@,
                auth_tag(b.keys@, entered.challenge),
                max_devices,
            ) is None
        }),
{
    same_code_same_keys(a.cfg.invite_code@, b.cfg.invite_code@);
    assert(room.devices.dom() =~= Set::<Seq<char>>::empty());
}

/// What a device seals, the other device with the same code reads off the relay,
/// which hands the payload on untouched and under the sender's own name.
pub proof fn relayed_payloads_are_read(
    a: Client,
    b: Client,
    sealed: Seq<u8>,
    plain: Seq<u8>,
    sent: Relay,
    relayed: Relay,
)
    requires
        a.wf(),
        b.wf(),
        normalised(a.cfg.invite_code@) == normalised(b.cfg.invite_code@),
        opened(a.keys@, sealed, encode_utf8(a.cfg.device_id@)) == Some(plain),
        sent.body@ == base64_text(sealed),
        attributed(sent, a.cfg.device_id@, relayed),
    ensures
        b.payload(relayed, sealed) == Some(plain),
{
    same_code_same_keys(a.cfg.invite_code@, b.cfg.invite_code@);
}

/// A greeting is taken exactly when it speaks our version of the protocol, names a room
/// by thirty-two hexadecimal digits, and a device by one to sixty-four bytes.
pub proof fn who_is_greeted(h: Hello, i: int)
    ensures
        hello_refusal(Some(Frame::Hello(h))) is None ==> {
            &&& h.proto == PROTOCOL_VERSION
            &&& h.room@.len() == 32
            &&& 0 <= i < 32 ==> {
                let c = h.room@[i];
                c == '0' || '1' <= c <= '9' || 'a' <= c <= 'f' || 'A' <= c <= 'F'
            }
            &&& 1 <= encode_utf8(h.device_id@).len() <= 64
        },
        h.proto == PROTOCOL_VERSION && h.room@.len() == 32 && (forall|k: int|
            0 <= k < 32 ==> '0' <= #[trigger] h.room@[k] <= '9' || 'a' <= h.room@[k] <= 'f' || 'A'
                <= h.room@[k] <= 'F') && 1 <= encode_utf8(h.device_id@).len() <= 64
            ==> hello_refusal(Some(Frame::Hello(h))) is None,
{
    if hello_refusal(Some(Frame::Hello(h))) is None && 0 <= i < 32 {
        assert(is_hex(h.room@[i]));
    }
}

/// Nothing but a greeting opens a connection, and nothing but an answer of thirty-two
/// bytes gets past the challenge.
pub proof fn only_the_handshake_gets_in(frame: Frame, mac: Seq<u8>)
    ensures
        !(frame is Hello) ==> hello_refusal(Some(frame)) is Some,
        hello_refusal(None) is Some,
        !(frame is Auth) ==> !answers(Some(frame), mac),
        !answers(None, mac),
        answers(Some(frame), mac) ==> mac.len() == 32 && frame->Auth_0.mac@ == base64_text(mac),
        frame is Auth && frame->Auth_0.mac@ == base64_text(mac) && mac.len() == 32 ==> answers(
            Some(frame),
            mac,
        ),
{
}

/// A payload that the rate allows goes to everyone else in the room, under the name
/// of the connection that it came on, whatever name it bore; the connection stays.
pub proof fn payloads_are_passed_on(
    relay: Relay,
    session: Session,
    hub: HubState,
    bucket: Bucket,
    now_ns: u64,
    after: HubState,
    outcome: Result<Reply, HubError>,
    k: Seq<char>,
)
    requires
        replies(Frame::Relay(relay), session, hub, bucket, now_ns, after, outcome),
        bucket.grants(now_ns as int),
        hub.holds(session.room@, k),
        k != session.device@,
        hub.rooms[session.room@].devices[k].queue.len() < 64,
    ensures
        outcome is Ok,
        outcome->Ok_0.open,
        outcome->Ok_0.frame is None,
        after.holds(session.room@, k),
        ({
            let before = hub.rooms[session.room@].devices[k].queue;
            let queue = after.rooms[session.room@].devices[k].queue;
            &&& queue.len() == before.len() + 1
            &&& queue.drop_last() == before
            &&& queue.last() matches Frame::Relay(m) && m.from@ == session.device@ && m.body
                == relay.body && m.retain == relay.retain
        }),
{
    let m = choose|m: Relay| #[trigger]
        attributed(relay, session.device@, m) && after == hub.relays(
            session.room@,
            session.device@,
            m,
            (now_ns / 1_000_000) as u64,
        );
    relay_reaches_the_others(
        hub.rooms[session.room@],
        session.device@,
        m,
        (now_ns / 1_000_000) as u64,
        k,
    );
}

/// Too much traffic costs the frame and an error, but neither the connection nor
/// anything in the room. A payload for a room that is gone ends the session. A ping
/// is answered. A second handshake closes the connection. What else a client may
/// send changes nothing.
pub proof fn other_frames_leave_the_hub_alone(
    frame: Frame,
    session: Session,
    hub: HubState,
    bucket: Bucket,
    now_ns: u64,
    after: HubState,
    outcome: Result<Reply, HubError>,
)
    requires
        replies(frame, session, hub, bucket, now_ns, after, outcome),
    ensures
        frame is Relay && !bucket.grants(now_ns as int) ==> after == hub && outcome is Ok
            && outcome->Ok_0.open && (outcome->Ok_0.frame matches Some(Frame::Error(e)) && e.code@
            == "rate_limited"@),
        frame is Relay && bucket.grants(now_ns as int) && !hub.rooms.contains_key(session.room@)
            ==> after == hub && outcome == Err::<Reply, HubError>(HubError::NoRoom),
        frame is Ping ==> outcome is Ok && outcome->Ok_0.open && outcome->Ok_0.frame == Some(
            Frame::Pong,
        ),
        frame is Hello || frame is Auth ==> outcome is Ok && !outcome->Ok_0.open
            && outcome->Ok_0.frame is Some && outcome->Ok_0.frame->0 is Error,
        frame is Pong || frame is Presence || frame is Challenge || frame is Welcome || frame is Error
            ==> outcome is Ok && outcome->Ok_0.open && outcome->Ok_0.frame is None,
{
}

/// A newcomer is told the time of the server, who is there and the rhythm of the
/// heartbeat first, and then what the others last published.
pub proof fn newcomers_are_briefed(
    frames: Seq<Frame>,
    j: Joined,
    server_time: i64,
    heartbeat_secs: u32,
    i: int,
)
    requires
        welcome_frames(frames, j, server_time, heartbeat_secs),
    ensures
        frames.len() == j.retained@.len() + 1,
        frames[0] is Welcome,
        frames[0]->Welcome_0.server_time == server_time,
        frames[0]->Welcome_0.peers == j.peers,
        frames[0]->Welcome_0.heartbeat_secs == heartbeat_secs,
        1 <= i < frames.len() ==> frames[i] == Frame::Relay(j.retained@[i - 1]),
{
    if 1 <= i < frames.len() {
        assert(frames[(i - 1) + 1] == Frame::Relay(j.retained@[i - 1]));
    }
}

/// Why an answer to the challenge is refused: there is none, it is another frame, it is
/// no base64, or it has another length than thirty-two bytes.
pub proof fn refused_answers_are_told_why(frame: Option<Frame>, why: Refusal)
    requires
        auth_refused(frame, why),
    ensures
        frame is None <==> why is NoAuth,
        frame is Some && !(frame->0 is Auth) <==> why is NotAuth,
        why is MacLength ==> exists|d: Seq<u8>| #[trigger]
            base64_text(d) == frame->0->Auth_0.mac@ && d.len() != 32,
        why is BadMac ==> forall|d: Seq<u8>| #[trigger] base64_text(d)
            != frame->0->Auth_0.mac@,
        why is NoAuth || why is NotAuth || why is MacLength || why is BadMac,
{
}

}
