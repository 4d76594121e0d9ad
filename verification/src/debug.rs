//! Frames and answers in full, for messages about unexpected ones.
//!
//! The texts are those that a derived `Debug` prints on one line.

use vstd::prelude::*;

use crate::admin::{DeviceInfo, Response, RoomInfo, Snapshot, Status, UserGroup};
use crate::proto::{ErrorFrame, Frame, Hello, Presence, Relay, Welcome};
use crate::text::{decimal, decimal_int, decimal_text, say, signed_text, texts};

verus! {

/// What `Debug` prints for a text: quotation marks around it, and escapes in it.
pub uninterp spec fn quoted_text(s: Seq<char>) -> Seq<char>;

/// `<str as Debug>::fmt`, through `format!`. What it prints is a function of the
/// text. Which characters it escapes is left to the standard library.
#[verifier::external_body]
fn quote(s: &str) -> (r: String)
    ensures
        r@ == quoted_text(s@),
{
    format!("{s:?}")
}

pub open spec fn bool_text(b: bool) -> Seq<char> {
    if b {
        "true"@
    } else {
        "false"@
    }
}

fn show_bool(b: bool) -> (r: &'static str)
    ensures
        r@ == bool_text(b),
{
    if b {
        "true"
    } else {
        "false"
    }
}

pub open spec fn optional_text(o: Option<String>) -> Seq<char> {
    match o {
        Some(s) => "Some("@ + quoted_text(s@) + ")"@,
        None => "None"@,
    }
}

fn show_optional(o: &Option<String>) -> (r: String)
    ensures
        r@ == optional_text(*o),
{
    match o {
        Some(s) => "Some(".to_string().concat(quote(s.as_str()).as_str()).concat(")"),
        None => "None".to_string(),
    }
}

/// Texts with a comma and a space between them.
pub open spec fn enumerated(parts: Seq<Seq<char>>) -> Seq<char>
    decreases parts.len(),
{
    if parts.len() == 0 {
        Seq::empty()
    } else if parts.len() == 1 {
        parts[0]
    } else {
        enumerated(parts.drop_last()) + ", "@ + parts.last()
    }
}

/// A list, in brackets.
pub open spec fn list_text(parts: Seq<Seq<char>>) -> Seq<char> {
    "["@ + enumerated(parts) + "]"@
}

fn show_list(parts: &Vec<String>) -> (r: String)
    ensures
        r@ == list_text(texts(parts@)),
{
    let ghost t = texts(parts@);
    let mut out = String::new();
    assert(t.take(0).len() == 0);
    for i in 0..parts.len()
        invariant
            t == texts(parts@),
            out@ == enumerated(t.take(i as int)),
    {
        assert(t.take(i + 1).drop_last() == t.take(i as int));
        assert(t.take(i + 1).last() == parts@[i as int]@);
        if i > 0 {
            out.append(", ");
        } else {
            assert(out@ == Seq::<char>::empty());
            assert(Seq::<char>::empty() + parts@[i as int]@ == parts@[i as int]@);
        }
        out.append(parts[i].as_str());
    }
    assert(t.take(t.len() as int) == t);
    "[".to_string().concat(out.as_str()).concat("]")
}

// -------------------------------------------------------------------- frames

pub open spec fn hello_text(h: Hello) -> Seq<char> {
    "Hello { proto: "@ + decimal(h.proto as nat) + ", room: "@ + quoted_text(h.room@)
        + ", device_id: "@ + quoted_text(h.device_id@) + ", version: "@ + quoted_text(h.version@)
        + ", user: "@ + quoted_text(h.user@) + ", name: "@ + quoted_text(h.name@) + " }"@
}

fn show_hello(h: &Hello) -> (r: String)
    ensures
        r@ == hello_text(*h),
{
    "Hello { proto: ".to_string().concat(decimal_text(h.proto as u64).as_str()).concat(
        ", room: ",
    ).concat(quote(h.room.as_str()).as_str()).concat(", device_id: ").concat(
        quote(h.device_id.as_str()).as_str(),
    ).concat(", version: ").concat(quote(h.version.as_str()).as_str()).concat(", user: ").concat(
        quote(h.user.as_str()).as_str(),
    ).concat(", name: ").concat(quote(h.name.as_str()).as_str()).concat(" }")
}

/// Texts in quotation marks.
pub open spec fn all_quoted(list: Seq<String>) -> Seq<Seq<char>> {
    list.map_values(|s: String| quoted_text(s@))
}

fn quote_all(list: &Vec<String>) -> (r: Vec<String>)
    ensures
        texts(r@) == all_quoted(list@),
{
    let mut out: Vec<String> = Vec::new();
    let ghost all = all_quoted(list@);
    assert(texts(out@) == all.take(0));
    for i in 0..list.len()
        invariant
            all == all_quoted(list@),
            texts(out@) == all.take(i as int),
    {
        say(&mut out, quote(list[i].as_str()));
        assert(all.take(i + 1) == all.take(i as int).push(all[i as int]));
    }
    assert(all.take(all.len() as int) == all);
    out
}

pub open spec fn welcome_text(w: Welcome) -> Seq<char> {
    "Welcome { server_time: "@ + decimal_int(w.server_time as int) + ", peers: "@ + list_text(
        all_quoted(w.peers@),
    ) + ", heartbeat_secs: "@ + decimal(w.heartbeat_secs as nat) + " }"@
}

fn show_welcome(w: &Welcome) -> (r: String)
    ensures
        r@ == welcome_text(*w),
{
    "Welcome { server_time: ".to_string().concat(signed_text(w.server_time).as_str()).concat(
        ", peers: ",
    ).concat(show_list(&quote_all(&w.peers)).as_str()).concat(", heartbeat_secs: ").concat(
        decimal_text(w.heartbeat_secs as u64).as_str(),
    ).concat(" }")
}

pub open spec fn error_text(e: ErrorFrame) -> Seq<char> {
    "ErrorFrame { code: "@ + quoted_text(e.code@) + ", message: "@ + quoted_text(e.message@)
        + " }"@
}

fn show_error(e: &ErrorFrame) -> (r: String)
    ensures
        r@ == error_text(*e),
{
    "ErrorFrame { code: ".to_string().concat(quote(e.code.as_str()).as_str()).concat(
        ", message: ",
    ).concat(quote(e.message.as_str()).as_str()).concat(" }")
}

pub open spec fn relay_text(r: Relay) -> Seq<char> {
    "Relay { from: "@ + quoted_text(r.from@) + ", body: "@ + quoted_text(r.body@) + ", retain: "@
        + optional_text(r.retain) + " }"@
}

fn show_relay(v: &Relay) -> (r: String)
    ensures
        r@ == relay_text(*v),
{
    "Relay { from: ".to_string().concat(quote(v.from.as_str()).as_str()).concat(
        ", body: ",
    ).concat(quote(v.body.as_str()).as_str()).concat(", retain: ").concat(
        show_optional(&v.retain).as_str(),
    ).concat(" }")
}

pub open spec fn presence_text(p: Presence) -> Seq<char> {
    "Presence { device_id: "@ + quoted_text(p.device_id@) + ", online: "@ + bool_text(p.online)
        + ", platform_hint: "@ + optional_text(p.platform_hint) + " }"@
}

fn show_presence(p: &Presence) -> (r: String)
    ensures
        r@ == presence_text(*p),
{
    "Presence { device_id: ".to_string().concat(quote(p.device_id.as_str()).as_str()).concat(
        ", online: ",
    ).concat(show_bool(p.online)).concat(", platform_hint: ").concat(
        show_optional(&p.platform_hint).as_str(),
    ).concat(" }")
}

/// A frame in full.
pub open spec fn frame_text(f: Frame) -> Seq<char> {
    match f {
        Frame::Hello(v) => "Hello("@ + hello_text(v) + ")"@,
        Frame::Challenge(v) => "Challenge(Challenge { nonce: "@ + quoted_text(v.nonce@) + " })"@,
        Frame::Auth(v) => "Auth(Auth { mac: "@ + quoted_text(v.mac@) + " })"@,
        Frame::Welcome(v) => "Welcome("@ + welcome_text(v) + ")"@,
        Frame::Error(v) => "Error("@ + error_text(v) + ")"@,
        Frame::Relay(v) => "Relay("@ + relay_text(v) + ")"@,
        Frame::Presence(v) => "Presence("@ + presence_text(v) + ")"@,
        Frame::Ping => "Ping"@,
        Frame::Pong => "Pong"@,
    }
}

/// A frame in full.
pub fn show_frame(f: &Frame) -> (r: String)
    ensures
        r@ == frame_text(*f),
{
    match f {
        Frame::Hello(v) => "Hello(".to_string().concat(show_hello(v).as_str()).concat(")"),
        Frame::Challenge(v) => "Challenge(Challenge { nonce: ".to_string().concat(
            quote(v.nonce.as_str()).as_str(),
        ).concat(" })"),
        Frame::Auth(v) => "Auth(Auth { mac: ".to_string().concat(
            quote(v.mac.as_str()).as_str(),
        ).concat(" })"),
        Frame::Welcome(v) => "Welcome(".to_string().concat(show_welcome(v).as_str()).concat(")"),
        Frame::Error(v) => "Error(".to_string().concat(show_error(v).as_str()).concat(")"),
        Frame::Relay(v) => "Relay(".to_string().concat(show_relay(v).as_str()).concat(")"),
        Frame::Presence(v) => "Presence(".to_string().concat(show_presence(v).as_str()).concat(
            ")",
        ),
        Frame::Ping => "Ping".to_string(),
        Frame::Pong => "Pong".to_string(),
    }
}

// ------------------------------------------------------------------- answers

pub open spec fn status_text(s: Status) -> Seq<char> {
    "Status { version: "@ + quoted_text(s.version@) + ", uptime_secs: "@ + decimal(
        s.uptime_secs as nat,
    ) + ", bind: "@ + quoted_text(s.bind@) + ", tls: "@ + bool_text(s.tls) + ", rooms: "@
        + decimal(s.rooms as nat) + ", devices: "@ + decimal(s.devices as nat) + ", accepted: "@
        + decimal(s.accepted as nat) + ", rejected: "@ + decimal(s.rejected as nat) + " }"@
}

fn show_status(s: &Status) -> (r: String)
    ensures
        r@ == status_text(*s),
{
    "Status { version: ".to_string().concat(quote(s.version.as_str()).as_str()).concat(
        ", uptime_secs: ",
    ).concat(decimal_text(s.uptime_secs).as_str()).concat(", bind: ").concat(
        quote(s.bind.as_str()).as_str(),
    ).concat(", tls: ").concat(show_bool(s.tls)).concat(", rooms: ").concat(
        decimal_text(s.rooms as u64).as_str(),
    ).concat(", devices: ").concat(decimal_text(s.devices as u64).as_str()).concat(
        ", accepted: ",
    ).concat(decimal_text(s.accepted).as_str()).concat(", rejected: ").concat(
        decimal_text(s.rejected).as_str(),
    ).concat(" }")
}

pub open spec fn device_text(d: DeviceInfo) -> Seq<char> {
    "DeviceInfo { id: "@ + quoted_text(d.id@) + ", name: "@ + quoted_text(d.name@) + ", user: "@
        + quoted_text(d.user@) + ", connected_secs: "@ + decimal(d.connected_secs as nat) + " }"@
}

fn show_device(d: &DeviceInfo) -> (r: String)
    ensures
        r@ == device_text(*d),
{
    "DeviceInfo { id: ".to_string().concat(quote(d.id.as_str()).as_str()).concat(
        ", name: ",
    ).concat(quote(d.name.as_str()).as_str()).concat(", user: ").concat(
        quote(d.user.as_str()).as_str(),
    ).concat(", connected_secs: ").concat(decimal_text(d.connected_secs).as_str()).concat(" }")
}

pub open spec fn devices_text(list: Seq<DeviceInfo>) -> Seq<char> {
    list_text(list.map_values(|d: DeviceInfo| device_text(d)))
}

fn show_devices(list: &Vec<DeviceInfo>) -> (r: String)
    ensures
        r@ == devices_text(list@),
{
    let mut out: Vec<String> = Vec::new();
    let ghost all = list@.map_values(|d: DeviceInfo| device_text(d));
    assert(texts(out@) == all.take(0));
    for i in 0..list.len()
        invariant
            all == list@.map_values(|d: DeviceInfo| device_text(d)),
            texts(out@) == all.take(i as int),
    {
        say(&mut out, show_device(&list[i]));
        assert(all.take(i + 1) == all.take(i as int).push(all[i as int]));
    }
    assert(all.take(all.len() as int) == all);
    show_list(&out)
}

pub open spec fn room_text(r: RoomInfo) -> Seq<char> {
    "RoomInfo { room: "@ + quoted_text(r.room@) + ", devices: "@ + devices_text(r.devices@)
        + ", idle_secs: "@ + decimal(r.idle_secs as nat) + " }"@
}

fn show_room(v: &RoomInfo) -> (r: String)
    ensures
        r@ == room_text(*v),
{
    "RoomInfo { room: ".to_string().concat(quote(v.room.as_str()).as_str()).concat(
        ", devices: ",
    ).concat(show_devices(&v.devices).as_str()).concat(", idle_secs: ").concat(
        decimal_text(v.idle_secs).as_str(),
    ).concat(" }")
}

pub open spec fn rooms_text(list: Seq<RoomInfo>) -> Seq<char> {
    list_text(list.map_values(|v: RoomInfo| room_text(v)))
}

fn show_rooms(list: &Vec<RoomInfo>) -> (r: String)
    ensures
        r@ == rooms_text(list@),
{
    let mut out: Vec<String> = Vec::new();
    let ghost all = list@.map_values(|v: RoomInfo| room_text(v));
    assert(texts(out@) == all.take(0));
    for i in 0..list.len()
        invariant
            all == list@.map_values(|v: RoomInfo| room_text(v)),
            texts(out@) == all.take(i as int),
    {
        say(&mut out, show_room(&list[i]));
        assert(all.take(i + 1) == all.take(i as int).push(all[i as int]));
    }
    assert(all.take(all.len() as int) == all);
    show_list(&out)
}

pub open spec fn group_text(g: UserGroup) -> Seq<char> {
    "UserGroup { user: "@ + quoted_text(g.user@) + ", devices: "@ + devices_text(g.devices@)
        + " }"@
}

fn show_groups(list: &Vec<UserGroup>) -> (r: String)
    ensures
        r@ == list_text(list@.map_values(|g: UserGroup| group_text(g))),
{
    let mut out: Vec<String> = Vec::new();
    let ghost all = list@.map_values(|g: UserGroup| group_text(g));
    assert(texts(out@) == all.take(0));
    for i in 0..list.len()
        invariant
            all == list@.map_values(|g: UserGroup| group_text(g)),
            texts(out@) == all.take(i as int),
    {
        let g = &list[i];
        say(
            &mut out,
            "UserGroup { user: ".to_string().concat(quote(g.user.as_str()).as_str()).concat(
                ", devices: ",
            ).concat(show_devices(&g.devices).as_str()).concat(" }"),
        );
        assert(all.take(i + 1) == all.take(i as int).push(all[i as int]));
    }
    assert(all.take(all.len() as int) == all);
    show_list(&out)
}

pub open spec fn snapshot_text(s: Snapshot) -> Seq<char> {
    "Snapshot { status: "@ + status_text(s.status) + ", users: "@ + list_text(
        s.users@.map_values(|g: UserGroup| group_text(g)),
    ) + ", rooms: "@ + rooms_text(s.rooms@) + " }"@
}

fn show_snapshot(s: &Snapshot) -> (r: String)
    ensures
        r@ == snapshot_text(*s),
{
    "Snapshot { status: ".to_string().concat(show_status(&s.status).as_str()).concat(
        ", users: ",
    ).concat(show_groups(&s.users).as_str()).concat(", rooms: ").concat(
        show_rooms(&s.rooms).as_str(),
    ).concat(" }")
}

/// An answer of the daemon in full.
pub open spec fn response_text(r: Response) -> Seq<char> {
    match r {
        Response::Status(s) => "Status("@ + status_text(s) + ")"@,
        Response::Rooms { rooms } => "Rooms { rooms: "@ + rooms_text(rooms@) + " }"@,
        Response::Snapshot(s) => "Snapshot("@ + snapshot_text(s) + ")"@,
        Response::Error { message } => "Error { message: "@ + quoted_text(message@) + " }"@,
    }
}

/// An answer of the daemon in full.
pub fn show_response(v: &Response) -> (r: String)
    ensures
        r@ == response_text(*v),
{
    match v {
        Response::Status(s) => "Status(".to_string().concat(show_status(s).as_str()).concat(")"),
        Response::Rooms { rooms } => "Rooms { rooms: ".to_string().concat(
            show_rooms(rooms).as_str(),
        ).concat(" }"),
        Response::Snapshot(s) => "Snapshot(".to_string().concat(
            show_snapshot(s).as_str(),
        ).concat(")"),
        Response::Error { message } => "Error { message: ".to_string().concat(
            quote(message.as_str()).as_str(),
        ).concat(" }"),
    }
}

}
