use synctus::admin::{DeviceInfo, Request, Response, RoomInfo, Status, DEFAULT_SOCKET};
use synctus::conn::{
    check_auth, check_hello, greet, handle, let_in, timeout_frame, Refusal, Session,
};
use synctus::crypto::RoomKeys;
use synctus::debug::{show_frame, show_response};
use synctus::hub::{ct_eq, Hub, HubError, Joined, Outbox, DEVICE_QUEUE};
use synctus::limiter::RateLimiter;
use synctus::manage::{
    act_lines, answer, answer_number, autostart_line, check_lines, choose_entry, client_info,
    daemon_help, done_line, edit_config, header_lines, logs_text, menu_lines, query_rooms,
    query_status, question, reply, resolve_config_dir, resolve_config_path, resolve_socket_path,
    save_warning, startup_refusal, status_lines, task, tool_help, version, Answers, Args, Choice, Number, Parsed, Task, DEFAULT_CONFIG,
};
use synctus::panel::short;
use synctus::proto::{
    b64, encode_frame, frame_len, split_frame, unb64, Auth, Challenge, Frame, FrameKind, Hello,
    Presence, ProtoError, Relay, Welcome,
};
use synctus::server_config::{Overrides, ServerConfig};
use synctus::service::{
    tail, Action, Failure, Installed, Invocation, LogSource, RunState, Service, ServiceManager,
    LOG_FILE,
};
use synctus::web::{
    authorized, constant_time_eq, index_html, kick, knows_password, route, Route,
};
use synctus::{MAX_FRAME_LEN, PROTOCOL_VERSION};

// -------------------------------------------------------------------- proto

#[test]
fn base64_roundtrip() {
    let data = [0u8, 1, 2, 250, 255];
    assert_eq!(unb64(&b64(&data)).unwrap(), data);
}

#[test]
fn base64_is_the_standard_alphabet_with_padding() {
    assert_eq!(b64(b"admin:secret"), "YWRtaW46c2VjcmV0");
    assert_eq!(b64(&[0xfb, 0xff]), "+/8=");
    assert_eq!(unb64("+/8=").unwrap(), [0xfb, 0xff]);
    assert!(matches!(unb64("+/8"), Err(ProtoError::Base64(_))));
    let e = unb64("ab!d").unwrap_err();
    assert_eq!(e.message(), "base64 解码失败: Invalid symbol 33, offset 2.");
}

#[test]
fn frames_are_read_back_as_they_were_written() {
    let bytes = encode_frame(FrameKind::Ping, &[]).unwrap();
    assert_eq!(bytes, [0, 0, 0, 1, FrameKind::Ping.code()]);
    let bytes = encode_frame(FrameKind::Hello, b"{}").unwrap();
    assert_eq!(bytes[..4], [0, 0, 0, 3]);
    assert_eq!(frame_len([0, 0, 0, 3]), Ok(3));
    let (kind, body) = split_frame(&bytes[4..]).unwrap();
    assert_eq!(kind, FrameKind::Hello);
    assert_eq!(body, b"{}");
}

#[test]
fn bad_lengths_and_kinds_are_refused() {
    assert_eq!(frame_len(u32::MAX.to_be_bytes()), Err(ProtoError::Oversized(u32::MAX as usize)));
    assert_eq!(frame_len([0, 0, 0, 0]), Err(ProtoError::Empty));
    assert_eq!(frame_len([0, 1, 0, 0]), Ok(MAX_FRAME_LEN));
    assert_eq!(split_frame(&[0xee]).err(), Some(ProtoError::UnknownKind(0xee)));
    let big = vec![0u8; MAX_FRAME_LEN];
    assert_eq!(
        encode_frame(FrameKind::Relay, &big),
        Err(ProtoError::TooLarge(MAX_FRAME_LEN + 1))
    );
    for e in [
        ProtoError::UnknownKind(9),
        ProtoError::TooLarge(9),
        ProtoError::Empty,
        ProtoError::Oversized(9),
        ProtoError::Base64("x".into()),
    ] {
        assert!(!e.message().is_empty());
    }
}

// -------------------------------------------------------------------- admin

#[test]
fn uptime_reads_naturally_at_each_scale() {
    let mk = |secs| Status {
        version: "0".into(),
        uptime_secs: secs,
        bind: String::new(),
        tls: false,
        rooms: 0,
        devices: 0,
        accepted: 0,
        rejected: 0,
    };
    assert_eq!(mk(45).uptime_text(), "45s");
    assert_eq!(mk(90).uptime_text(), "1m");
    assert_eq!(mk(3_700).uptime_text(), "1h 1m");
    assert_eq!(mk(90_000).uptime_text(), "1d 1h");
}

// ------------------------------------------------------------------- config

#[test]
fn defaults_are_sane() {
    let cfg = ServerConfig::default();
    assert!(!cfg.tls_enabled());
    assert!(cfg.idle_timeout_secs > cfg.heartbeat_secs as u64);
}

#[test]
fn tls_needs_both_cert_and_key() {
    let mut cfg = ServerConfig { cert_path: Some("a.pem".into()), ..ServerConfig::default() };
    assert!(!cfg.tls_enabled(), "cert alone must not enable TLS");
    cfg.key_path = Some("b.pem".into());
    assert!(cfg.tls_enabled());
}

#[test]
fn the_environment_overrides_the_file() {
    let mut cfg = ServerConfig::default();
    cfg.apply_env(Overrides {
        bind: Some("0.0.0.0:1".into()),
        cert: Some("".into()),
        key: Some("k.pem".into()),
        max_rooms: Some("12".into()),
        rate_limit: Some("+7".into()),
        idle_timeout: Some("soon".into()),
    });
    assert_eq!(cfg.bind, "0.0.0.0:1");
    assert_eq!(cfg.cert_path, None);
    assert_eq!(cfg.key_path.as_deref(), Some("k.pem"));
    assert_eq!(cfg.max_rooms, 12);
    assert_eq!(cfg.rate_limit_per_sec, 7);
    assert_eq!(cfg.idle_timeout_secs, 90, "what is no number counts as unset");
}

#[test]
fn timeouts_have_a_floor() {
    let cfg = ServerConfig {
        handshake_timeout_secs: 0,
        idle_timeout_secs: 0,
        ..ServerConfig::default()
    };
    assert_eq!(cfg.handshake_secs(), 1);
    assert_eq!(cfg.idle_secs(), 5);
    assert_eq!(ServerConfig::default().handshake_secs(), 10);
    assert_eq!(ServerConfig::default().idle_secs(), 90);
}

// ------------------------------------------------------------------ limiter

fn drain(rl: &mut RateLimiter, now: u64) -> u32 {
    let mut granted = 0;
    while rl.allow(now) {
        granted += 1;
    }
    granted
}

#[test]
fn burst_is_available_immediately() {
    let mut rl = RateLimiter::new(10, 30, 0);
    for i in 0..30 {
        assert!(rl.allow(0), "token {i} should be available");
    }
    assert!(!rl.allow(0), "burst must be exhausted");
}

#[test]
fn tokens_refill_over_time() {
    let mut rl = RateLimiter::new(10, 10, 0);
    drain(&mut rl, 0);
    let later = 500_000_000;
    // 10/s for 0.5 s = 5 tokens.
    for _ in 0..5 {
        assert!(rl.allow(later));
    }
    assert!(!rl.allow(later));
}

#[test]
fn refill_is_capped_at_burst() {
    let mut rl = RateLimiter::new(10, 20, 0);
    drain(&mut rl, 0);
    let granted = drain(&mut rl, 3_600_000_000_000);
    assert_eq!(granted, 20, "must not accumulate beyond the burst");
}

#[test]
fn burst_is_never_below_the_rate() {
    // A misconfigured burst smaller than the rate would throttle below the
    // configured steady state.
    let mut rl = RateLimiter::new(10, 1, 0);
    assert_eq!(drain(&mut rl, 0), 10);
}

#[test]
fn a_rate_of_zero_still_lets_something_through() {
    let mut rl = RateLimiter::new(0, 0, 5);
    assert!(rl.allow(5));
    assert!(!rl.allow(5));
    assert!(!rl.allow(0), "a clock that runs backward adds nothing");
    assert!(rl.allow(1_000_000_005));
}

// ---------------------------------------------------------------------- hub

fn relay(from: &str, retain: Option<&str>) -> Relay {
    Relay { from: from.into(), body: "AAAA".into(), retain: retain.map(|s| s.to_string()) }
}

fn hub() -> Hub {
    Hub::new(8, 100, "0.0.0.0:8787", false, 0)
}

fn join(hub: &mut Hub, room: &str, device: &str, mac: &[u8]) -> Result<Joined, HubError> {
    hub.join(room, device, mac, "".into(), "".into(), 0)
}

fn next(hub: &mut Hub, room: &str, device: &str, j: &Joined) -> Option<Frame> {
    match hub.try_recv(room, device, j.rx) {
        Outbox::Frame(f) => Some(f),
        _ => None,
    }
}

#[test]
fn same_room_gets_one_stable_challenge() {
    let mut hub = hub();
    let a = hub.challenge_for("room", 0).unwrap();
    let b = hub.challenge_for("room", 0).unwrap();
    assert_eq!(a, b);
    let other = hub.challenge_for("other", 0).unwrap();
    assert_ne!(a, other);
}

#[test]
fn first_device_sets_the_expected_mac() {
    let mut hub = hub();
    hub.challenge_for("room", 0).unwrap();
    assert!(join(&mut hub, "room", "a", b"mac-one").is_ok());
    assert!(join(&mut hub, "room", "b", b"mac-one").is_ok());
    assert!(
        join(&mut hub, "room", "c", b"mac-two").is_err(),
        "a different MAC must be rejected"
    );
}

#[test]
fn joiner_sees_existing_peers_and_retained_state() {
    let mut hub = hub();
    hub.challenge_for("room", 0).unwrap();
    let _a = join(&mut hub, "room", "a", b"mac").unwrap();
    hub.relay("room", "a", relay("a", Some("status")), 0).unwrap();

    let joined = join(&mut hub, "room", "b", b"mac").unwrap();
    assert_eq!(joined.peers, vec!["a".to_string()]);
    assert_eq!(joined.retained.len(), 1);
    assert_eq!(joined.retained[0].from, "a");
}

#[test]
fn own_retained_state_is_not_echoed_back() {
    let mut hub = hub();
    hub.challenge_for("room", 0).unwrap();
    let _a = join(&mut hub, "room", "a", b"mac").unwrap();
    hub.relay("room", "a", relay("a", Some("status")), 0).unwrap();

    // Same device reconnecting.
    let again = join(&mut hub, "room", "a", b"mac").unwrap();
    assert!(again.retained.is_empty());
}

#[test]
fn relay_reaches_the_peer_but_not_the_sender() {
    let mut hub = hub();
    hub.challenge_for("room", 0).unwrap();
    let a = join(&mut hub, "room", "a", b"mac").unwrap();
    let b = join(&mut hub, "room", "b", b"mac").unwrap();

    // `a` was told that `b` arrived.
    assert!(
        matches!(next(&mut hub, "room", "a", &a), Some(Frame::Presence(p)) if p.device_id == "b" && p.online)
    );

    hub.relay("room", "a", relay("a", None), 0).unwrap();
    assert!(matches!(next(&mut hub, "room", "b", &b), Some(Frame::Relay(r)) if r.from == "a"));
    assert!(
        next(&mut hub, "room", "a", &a).is_none(),
        "sender must not receive its own frame"
    );
}

#[test]
fn sender_identity_is_overwritten_by_the_connection() {
    let mut hub = hub();
    hub.challenge_for("room", 0).unwrap();
    let _a = join(&mut hub, "room", "a", b"mac").unwrap();
    let b = join(&mut hub, "room", "b", b"mac").unwrap();
    let _ = next(&mut hub, "room", "b", &b);

    // `a` lies about who it is; the hub must correct it.
    hub.relay("room", "a", relay("spoofed", None), 0).unwrap();
    assert!(matches!(next(&mut hub, "room", "b", &b), Some(Frame::Relay(r)) if r.from == "a"));
}

#[test]
fn leaving_notifies_and_empty_rooms_are_dropped() {
    let mut hub = hub();
    hub.challenge_for("room", 0).unwrap();
    let _a = join(&mut hub, "room", "a", b"mac").unwrap();
    let b = join(&mut hub, "room", "b", b"mac").unwrap();
    let _ = next(&mut hub, "room", "b", &b);

    hub.leave("room", "a");
    assert!(matches!(next(&mut hub, "room", "b", &b), Some(Frame::Presence(p)) if !p.online));
    assert_eq!(hub.stats().devices, 1);

    hub.leave("room", "b");
    assert_eq!(hub.stats().rooms, 0);
}

#[test]
fn challenge_rotates_after_the_room_empties() {
    let mut hub = hub();
    let first = hub.challenge_for("room", 0).unwrap();
    let _a = join(&mut hub, "room", "a", b"mac").unwrap();
    hub.leave("room", "a");

    let second = hub.challenge_for("room", 0).unwrap();
    assert_ne!(first, second, "a fresh room must not reuse the challenge");
}

#[test]
fn device_and_room_limits_are_enforced() {
    let mut hub = Hub::new(2, 1, "0.0.0.0:8787", false, 0);
    hub.challenge_for("room", 0).unwrap();
    let _a = join(&mut hub, "room", "a", b"mac").unwrap();
    let _b = join(&mut hub, "room", "b", b"mac").unwrap();
    assert!(join(&mut hub, "room", "c", b"mac").is_err());

    // max_rooms = 1, and the one room is occupied.
    assert!(hub.challenge_for("another", 0).is_err());
}

#[test]
fn each_refusal_of_the_hub_has_its_reason() {
    // A room has two devices at the least, whatever the limit says.
    let mut hub = Hub::new(1, 1, "0.0.0.0:8787", false, 0);
    assert_eq!(join(&mut hub, "room", "a", b"mac").err(), Some(HubError::RoomExpired));
    assert_eq!(hub.relay("room", "a", relay("a", None), 0).err(), Some(HubError::NoRoom));
    hub.challenge_for("room", 0).unwrap();
    assert_eq!(hub.challenge_for("more", 0).err(), Some(HubError::RoomsFull));
    join(&mut hub, "room", "a", b"mac").unwrap();
    assert_eq!(join(&mut hub, "room", "b", b"other").err(), Some(HubError::MacMismatch));
    join(&mut hub, "room", "b", b"mac").unwrap();
    assert_eq!(join(&mut hub, "room", "c", b"mac").err(), Some(HubError::DevicesFull));
    for e in [
        HubError::RoomExpired,
        HubError::NoRoom,
        HubError::RoomsFull,
        HubError::MacMismatch,
        HubError::DevicesFull,
    ] {
        assert!(!e.message().is_empty());
    }
}

#[test]
fn reconnect_replaces_the_previous_connection() {
    let mut hub = hub();
    hub.challenge_for("room", 0).unwrap();
    let old = join(&mut hub, "room", "a", b"mac").unwrap();
    let _new = join(&mut hub, "room", "a", b"mac").unwrap();
    // Old queue is orphaned, so its writer task ends.
    assert!(matches!(hub.try_recv("room", "a", old.rx), Outbox::Closed));
    assert_eq!(hub.stats().devices, 1);
}

#[test]
fn two_devices_retain_separate_status_slots() {
    let mut hub = hub();
    hub.challenge_for("room", 0).unwrap();
    let _a = join(&mut hub, "room", "a", b"mac").unwrap();
    let _b = join(&mut hub, "room", "b", b"mac").unwrap();
    hub.relay("room", "a", relay("a", Some("status")), 0).unwrap();
    hub.relay("room", "b", relay("b", Some("status")), 0).unwrap();

    let c = join(&mut hub, "room", "c", b"mac").unwrap();
    assert_eq!(c.retained.len(), 2, "per-device retain slots must not collide");
}

#[test]
fn a_device_that_does_not_keep_up_is_dropped() {
    let mut hub = hub();
    hub.challenge_for("room", 0).unwrap();
    let _a = join(&mut hub, "room", "a", b"mac").unwrap();
    let b = join(&mut hub, "room", "b", b"mac").unwrap();
    for _ in 0..DEVICE_QUEUE {
        hub.relay("room", "a", relay("a", None), 0).unwrap();
    }
    // A full queue is still served.
    assert_eq!(hub.stats().devices, 2);
    assert!(next(&mut hub, "room", "b", &b).is_some());
    for _ in 0..2 {
        hub.relay("room", "a", relay("a", None), 0).unwrap();
    }
    assert_eq!(hub.stats().devices, 1);
    // What was queued is still handed out; then the connection closes.
    for _ in 0..DEVICE_QUEUE {
        assert!(next(&mut hub, "room", "b", &b).is_some());
    }
    assert!(matches!(hub.try_recv("room", "b", b.rx), Outbox::Closed));
}

#[test]
fn the_end_of_a_replaced_connection_leaves_the_new_one_alone() {
    let mut hub = hub();
    hub.challenge_for("room", 0).unwrap();
    let old = join(&mut hub, "room", "a", b"m").ok().unwrap();
    let new = join(&mut hub, "room", "a", b"m").ok().unwrap();
    hub.leave_from("room", "a", old.rx);
    assert_eq!(hub.stats().devices, 1);
    hub.leave_from("room", "a", new.rx);
    assert_eq!(hub.stats().rooms, 0);
}

#[test]
fn unexpected_frames_are_told_in_full() {
    let cases = [
        Frame::Hello(Hello {
            proto: 1,
            room: "ab".into(),
            device_id: "d\"\n".into(),
            version: "0.1.0".into(),
            user: "甲".into(),
            name: "".into(),
        }),
        Frame::Challenge(Challenge { nonce: "AA==".into() }),
        Frame::Auth(Auth { mac: "AA==".into() }),
        Frame::Welcome(Welcome {
            server_time: -5,
            peers: vec!["a".into(), "b".into()],
            heartbeat_secs: 25,
        }),
        Frame::error("auth", "no".into()),
        Frame::Relay(relay("x", Some("status"))),
        Frame::Relay(relay("x", None)),
        Frame::Presence(Presence { device_id: "x".into(), online: true, platform_hint: None }),
        Frame::Ping,
        Frame::Pong,
    ];
    for f in &cases {
        assert_eq!(show_frame(f), format!("{f:?}"));
    }
    let refusal = check_hello(Some(Frame::Ping)).err().unwrap();
    assert_eq!(refusal.message(), "首帧应为 Hello，收到 Ping");
}

#[test]
fn unexpected_answers_are_told_in_full() {
    let mut hub = hub();
    hub.challenge_for("room", 0).unwrap();
    join(&mut hub, "room", "a", b"m").ok().unwrap();
    join(&mut hub, "room", "b", b"m").ok().unwrap();
    for request in [Ok(Request::Status), Ok(Request::Rooms), Ok(Request::Snapshot), Err("x".into())]
    {
        let answer = reply(&hub, request, 1_000);
        assert_eq!(show_response(&answer), format!("{answer:?}"));
    }
    let rooms = reply(&hub, Ok(Request::Rooms), 0);
    let text = format!("服务器返回了意外的响应: {rooms:?}");
    assert_eq!(query_status(rooms).unwrap_err(), text);
}

#[test]
fn queued_frames_outlive_the_device() {
    let mut hub = hub();
    hub.challenge_for("room", 0).unwrap();
    let _a = join(&mut hub, "room", "a", b"mac").unwrap();
    let old = join(&mut hub, "room", "b", b"mac").unwrap();
    hub.relay("room", "a", relay("a", None), 0).unwrap();
    // The device comes back on another connection.
    let new = join(&mut hub, "room", "b", b"mac").unwrap();
    assert!(next(&mut hub, "room", "b", &old).is_some());
    assert!(matches!(hub.try_recv("room", "b", old.rx), Outbox::Closed));
    assert!(matches!(hub.try_recv("room", "b", new.rx), Outbox::Empty));
    // Disconnecting it, and then hanging up.
    hub.relay("room", "a", relay("a", None), 0).unwrap();
    hub.relay("room", "a", relay("a", None), 0).unwrap();
    assert!(hub.kick("b", 0));
    assert!(next(&mut hub, "room", "b", &new).is_some());
    hub.hang_up(new.rx);
    assert!(matches!(hub.try_recv("room", "b", new.rx), Outbox::Closed));
}

#[test]
fn ct_eq_compares_correctly() {
    assert!(ct_eq(b"abc", b"abc"));
    assert!(!ct_eq(b"abc", b"abd"));
    assert!(!ct_eq(b"abc", b"ab"));
}

#[test]
fn counters_track_accepted_and_rejected() {
    let mut hub = hub();
    hub.challenge_for("room", 0).unwrap();
    let _a = join(&mut hub, "room", "a", b"mac").unwrap();
    let _b = join(&mut hub, "room", "b", b"mac").unwrap();
    assert!(join(&mut hub, "room", "c", b"wrong").is_err());
    // The hub does not know a failed join reached it as a rejection; the
    // connection handler reports that, so it is counted explicitly.
    hub.note_rejected();

    let stats = hub.stats();
    assert_eq!(stats.accepted, 2);
    assert_eq!(stats.rejected, 1);
}

#[test]
fn room_info_truncates_ids_and_sorts_devices() {
    let mut hub = hub();
    let room_id = "0123456789abcdef0123456789abcdef";
    hub.challenge_for(room_id, 0).unwrap();
    let _b = join(&mut hub, room_id, "zeta", b"mac").unwrap();
    let _a = join(&mut hub, room_id, "alpha", b"mac").unwrap();

    let info = hub.room_info(7_000);
    assert_eq!(info.len(), 1);
    assert_eq!(info[0].room, "01234567", "the full room id must not be exposed");
    let ids: Vec<&str> = info[0].devices.iter().map(|d| d.id.as_str()).collect();
    assert_eq!(ids, vec!["alpha", "zeta"]);
    assert_eq!(info[0].idle_secs, 7);
    assert_eq!(info[0].devices[0].connected_secs, 7);
}

#[test]
fn uptime_is_available_immediately() {
    let hub = hub();
    // Just has to not panic or overflow on a fresh hub.
    assert!(hub.uptime_secs(0) < 5);
    assert_eq!(hub.uptime_secs(61_000), 61);
}

#[test]
fn snapshot_groups_devices_by_user() {
    let mut hub = Hub::new(8, 100, "0.0.0.0:8787", true, 0);
    let room = "0123456789abcdef0123456789abcdef";
    hub.challenge_for(room, 0).unwrap();
    hub.join(room, "abc", b"mac", "A".into(), "Alice 的电脑".into(), 0).unwrap();
    hub.join(room, "def", b"mac", "B".into(), "Bob 的手机".into(), 0).unwrap();
    hub.join(room, "ghi", b"mac", "A".into(), "Alice 的手机".into(), 0).unwrap();

    let snap = hub.snapshot(0);

    assert!(snap.status.tls);
    assert_eq!(snap.status.rooms, 1);
    assert_eq!(snap.status.devices, 3);

    // Grouped by user, sorted by user name (empty sorts first).
    assert_eq!(snap.users.len(), 2, "A and B, no empty group");
    let a = snap.users.iter().find(|u| u.user == "A").unwrap();
    let ids: Vec<&str> = a.devices.iter().map(|d| d.id.as_str()).collect();
    assert_eq!(ids, vec!["abc", "ghi"], "both of A's devices group together");
    assert!(a.devices.iter().any(|d| d.name == "Alice 的电脑"));
}

#[test]
fn kick_disconnects_a_device_anywhere() {
    let mut hub = hub();
    let room = "0123456789abcdef0123456789abcdef";
    hub.challenge_for(room, 0).unwrap();
    let _a = hub.join(room, "abc", b"mac", "A".into(), "".into(), 0).unwrap();

    assert!(hub.kick("abc", 0));
    // Second kick finds nothing.
    assert!(!hub.kick("abc", 0));
    assert_eq!(hub.stats().devices, 0);
}

#[test]
fn a_reconnect_updates_the_user_label() {
    let mut hub = hub();
    let room = "0123456789abcdef0123456789abcdef";
    hub.challenge_for(room, 0).unwrap();
    hub.join(room, "abc", b"mac", "A".into(), "".into(), 0).unwrap();
    // The same device reconnects after its owner changed the nickname.
    hub.join(room, "abc", b"mac", "B".into(), "".into(), 0).unwrap();

    let snap = hub.snapshot(0);
    assert_eq!(snap.status.devices, 1, "reconnect must not double-count");
    let b = snap.users.iter().find(|u| u.user == "B").unwrap();
    assert_eq!(b.devices.len(), 1);
}

// --------------------------------------------------------------------- conn

fn keys(code: &str) -> RoomKeys {
    match RoomKeys::derive(code) {
        Ok(k) => k,
        Err(_) => panic!("derive"),
    }
}

/// Drives a whole handshake.
fn connect_client(
    hub: &mut Hub,
    room: &RoomKeys,
    auth: &RoomKeys,
    device: &str,
) -> Result<(Session, Welcome, Vec<Frame>), Refusal> {
    let hello = Frame::hello(room.room_id_hex(), device.to_string());
    let (hello, challenge) = greet(hub, Some(hello), 0)?;
    let nonce = match challenge {
        Frame::Challenge(c) => unb64(&c.nonce).unwrap(),
        _ => panic!("expected Challenge"),
    };
    let reply = Frame::Auth(Auth { mac: b64(&auth.auth_response(&nonce)) });
    let (session, mut frames) = let_in(hub, hello, Some(reply), 0, 1_000, 25)?;
    let rest = frames.split_off(1);
    match frames.pop() {
        Some(Frame::Welcome(w)) => Ok((session, w, rest)),
        _ => panic!("expected Welcome"),
    }
}

#[test]
fn full_handshake_succeeds() {
    let mut hub = hub();
    let k = keys("ABCD-EFGH-IJKL-MNOP");
    let (_s, welcome, rest) = connect_client(&mut hub, &k, &k, "dev-a").ok().unwrap();
    assert!(welcome.peers.is_empty());
    assert!(welcome.server_time > 0);
    assert_eq!(welcome.heartbeat_secs, 25);
    assert!(rest.is_empty());
}

#[test]
fn wrong_invite_code_is_rejected() {
    let mut hub = hub();
    let good = keys("ABCD-EFGH-IJKL-MNOP");
    connect_client(&mut hub, &good, &good, "dev-a").ok().unwrap();

    // Same room id is impossible with a different code, so forge the room id
    // while using the wrong auth key — exactly the attack the hub gates.
    let bad = keys("ZZZZ-YYYY-XXXX-WWWW");
    let refusal = connect_client(&mut hub, &good, &bad, "attacker").err().unwrap();
    assert!(matches!(refusal.frame(), Frame::Error(ref e) if e.code == "auth"));
    assert!(matches!(refusal, Refusal::Hub(HubError::MacMismatch)));
}

#[test]
fn payload_is_forwarded_verbatim_to_the_peer() {
    let mut hub = hub();
    let mut limiter = RateLimiter::new(10, 30, 0);
    let k = keys("ABCD-EFGH-IJKL-MNOP");
    let (a, _, _) = connect_client(&mut hub, &k, &k, "dev-a").ok().unwrap();
    let (b, welcome, _) = connect_client(&mut hub, &k, &k, "dev-b").ok().unwrap();
    assert_eq!(welcome.peers, vec!["dev-a".to_string()]);

    // `a` is told about `b` joining.
    assert!(matches!(
        hub.try_recv(&a.room, &a.device, a.rx),
        Outbox::Frame(Frame::Presence(p)) if p.device_id == "dev-b" && p.online
    ));

    let sealed = k.seal(b"secret", b"dev-a").unwrap();
    let frame = Frame::Relay(Relay {
        from: "dev-a".into(),
        body: b64(&sealed),
        retain: Some("status".into()),
    });
    let done = handle(frame, &a, &mut hub, &mut limiter, 0).unwrap();
    assert!(done.open && done.frame.is_none());

    let got = match hub.try_recv(&b.room, &b.device, b.rx) {
        Outbox::Frame(Frame::Relay(r)) => r,
        _ => panic!("expected Relay"),
    };
    assert_eq!(got.from, "dev-a");
    // The relay could not have altered the payload: it still opens.
    let plain = k.open(&unb64(&got.body).unwrap(), b"dev-a").unwrap();
    assert_eq!(plain, b"secret");
}

#[test]
fn retained_status_is_replayed_to_a_late_joiner() {
    let mut hub = hub();
    let mut limiter = RateLimiter::new(10, 30, 0);
    let k = keys("ABCD-EFGH-IJKL-MNOP");
    let (a, _, _) = connect_client(&mut hub, &k, &k, "dev-a").ok().unwrap();

    let sealed = k.seal(b"my-status", b"dev-a").unwrap();
    let frame = Frame::Relay(Relay {
        from: "dev-a".into(),
        body: b64(&sealed),
        retain: Some("status".into()),
    });
    handle(frame, &a, &mut hub, &mut limiter, 0).unwrap();

    let (_b, _, rest) = connect_client(&mut hub, &k, &k, "dev-b").ok().unwrap();
    match &rest[0] {
        Frame::Relay(got) => assert_eq!(got.from, "dev-a"),
        _ => panic!("expected replayed Relay"),
    }
}

#[test]
fn ping_is_answered_with_pong() {
    let mut hub = hub();
    let mut limiter = RateLimiter::new(10, 30, 0);
    let k = keys("ABCD-EFGH-IJKL-MNOP");
    let (a, _, _) = connect_client(&mut hub, &k, &k, "dev-a").ok().unwrap();
    let done = handle(Frame::Ping, &a, &mut hub, &mut limiter, 0).unwrap();
    assert!(matches!(done.frame, Some(Frame::Pong)));
    assert!(done.open);
}

#[test]
fn protocol_version_mismatch_is_reported() {
    let mut hub = hub();
    let hello = Frame::Hello(Hello {
        proto: PROTOCOL_VERSION + 99,
        room: "0".repeat(32),
        device_id: "dev".into(),
        version: "test".into(),
        user: "".into(),
        name: "".into(),
    });
    let refusal = greet(&mut hub, Some(hello), 0).err().unwrap();
    assert!(matches!(refusal.frame(), Frame::Error(e) if e.code == "auth"));
    assert_eq!(refusal.message(), "协议版本不匹配：服务器 1，客户端 100");
}

#[test]
fn malformed_room_id_is_rejected() {
    let mut hub = hub();
    let hello = Frame::hello("not-hex".into(), "dev".into());
    let refusal = greet(&mut hub, Some(hello), 0).err().unwrap();
    assert!(matches!(refusal.frame(), Frame::Error(_)));
    assert_eq!(hub.stats().rooms, 0);
}

#[test]
fn a_silent_connection_is_told_of_the_timeout() {
    assert!(matches!(timeout_frame(), Frame::Error(e) if e.code == "timeout"));
}

#[test]
fn each_refusal_of_a_handshake_has_its_reason() {
    assert!(matches!(check_hello(None), Err(Refusal::NoHello)));
    assert!(matches!(check_hello(Some(Frame::Ping)), Err(Refusal::NotHello(Frame::Ping))));
    let hello = |room: &str, device: &str| Some(Frame::hello(room.into(), device.into()));
    let room = "0123456789abcdefABCDEF0123456789";
    assert!(check_hello(hello(room, "d")).is_ok());
    assert!(matches!(check_hello(hello(&room[1..], "d")), Err(Refusal::BadRoom)));
    assert!(matches!(check_hello(hello(room, "")), Err(Refusal::BadDevice)));
    assert!(check_hello(hello(room, &"x".repeat(64))).is_ok());
    assert!(matches!(check_hello(hello(room, &"x".repeat(65))), Err(Refusal::BadDevice)));
    // Bytes count, not characters.
    assert!(matches!(check_hello(hello(room, &"设".repeat(22))), Err(Refusal::BadDevice)));
    assert!(matches!(check_auth(None), Err(Refusal::NoAuth)));
    assert!(matches!(check_auth(Some(Frame::Pong)), Err(Refusal::NotAuth(Frame::Pong))));
    let auth = |mac: String| Some(Frame::Auth(Auth { mac }));
    assert!(matches!(check_auth(auth("?".into())), Err(Refusal::BadMac(ProtoError::Base64(_)))));
    assert!(matches!(check_auth(auth(b64(&[1u8; 31]))), Err(Refusal::MacLength)));
    assert_eq!(check_auth(auth(b64(&[1u8; 32]))).ok().unwrap(), vec![1u8; 32]);
    assert_eq!(Refusal::NotHello(Frame::Ping).message(), "首帧应为 Hello，收到 Ping");
}

#[test]
fn excess_traffic_is_rate_limited_without_dropping_the_link() {
    let mut hub = hub();
    let mut limiter = RateLimiter::new(1, 2, 0);
    let k = keys("ABCD-EFGH-IJKL-MNOP");
    let (a, _, _) = connect_client(&mut hub, &k, &k, "dev-a").ok().unwrap();

    let sealed = b64(&k.seal(b"x", b"dev-a").unwrap());
    let mut limited = 0;
    for _ in 0..6 {
        let frame =
            Frame::Relay(Relay { from: "dev-a".into(), body: sealed.clone(), retain: None });
        let done = handle(frame, &a, &mut hub, &mut limiter, 0).unwrap();
        assert!(done.open);
        if let Some(Frame::Error(e)) = done.frame {
            assert_eq!(e.code, "rate_limited");
            limited += 1;
        }
    }
    assert_eq!(limited, 4);

    // Connection still usable.
    assert!(handle(Frame::Ping, &a, &mut hub, &mut limiter, 0).unwrap().open);
}

#[test]
fn repeat_handshake_closes_the_connection() {
    let mut hub = hub();
    let mut limiter = RateLimiter::new(10, 30, 0);
    let k = keys("ABCD-EFGH-IJKL-MNOP");
    let (a, _, _) = connect_client(&mut hub, &k, &k, "dev-a").ok().unwrap();
    let again = Frame::hello(k.room_id_hex(), "dev-a".into());
    let done = handle(again, &a, &mut hub, &mut limiter, 0).unwrap();
    match done.frame {
        Some(Frame::Error(e)) => assert_eq!(e.code, "protocol"),
        _ => panic!("expected protocol error"),
    }
    assert!(!done.open);
}

#[test]
fn short_room_id_is_truncated_safely() {
    assert_eq!(short("0123456789abcdef"), "01234567");
    assert_eq!(short("abc"), "abc");
}

// ------------------------------------------------------------------ service

fn unmanaged() -> Service {
    Service { manager: ServiceManager::Unmanaged }
}

fn nothing_installed() -> Installed {
    Installed { unit_in_etc: false, unit_in_lib: false, unit_in_usr: false, init_script: false }
}

fn runs(i: &Invocation, program: &str, args: &[&str]) -> bool {
    i.program == program && i.args == args
}

#[test]
fn detection_does_not_panic() {
    let m = ServiceManager::detect(nothing_installed());
    assert!(!m.label().is_empty());
    assert_eq!(m, ServiceManager::Unmanaged);
    let usr = Installed { unit_in_usr: true, init_script: true, ..nothing_installed() };
    assert_eq!(ServiceManager::detect(usr), ServiceManager::Systemd);
    let openrc = Installed { init_script: true, ..nothing_installed() };
    assert_eq!(Service::detect(openrc).manager(), ServiceManager::OpenRc);
}

#[test]
fn an_unmanaged_service_reports_unknown_rather_than_lying() {
    let svc = unmanaged();
    assert_eq!(svc.state(None), RunState::Unknown);
    assert_eq!(svc.enabled(None), None);
    assert!(svc.state_query().is_none());
    assert!(svc.enabled_query().is_none());
}

#[test]
fn unmanaged_actions_explain_what_to_do() {
    let svc = unmanaged();
    let err = svc.start().err().unwrap().message();
    assert!(err.contains("安装脚本"), "got: {err}");
    assert!(svc.set_enabled(true).is_err());
    assert!(svc.logs(10).is_err());
}

#[test]
fn a_missing_program_is_reported_not_silently_ignored() {
    let failure = Failure::not_run("definitely-not-a-real-program-9f2a", "No such file");
    assert!(failure.stderr.contains("无法执行"));
    assert!(failure.code.is_none());
}

#[test]
fn failure_messages_prefer_stderr() {
    let f = Failure {
        stdout: "out".into(),
        stderr: "the actual problem".into(),
        code: Some(1),
    };
    let msg = f.into_error("systemctl start");
    assert!(msg.contains("systemctl start"));
    assert!(msg.contains("the actual problem"));
}

#[test]
fn failure_falls_back_to_stdout_then_to_the_exit_code() {
    let only_stdout =
        Failure { stdout: "inactive".into(), stderr: String::new(), code: Some(3) };
    assert!(only_stdout.into_error("x").contains("inactive"));

    let neither = Failure { stdout: String::new(), stderr: String::new(), code: Some(3) };
    assert!(neither.into_error("x").contains("3"));
    let signal = Failure { stdout: String::new(), stderr: " \n".into(), code: None };
    assert_eq!(signal.into_error("x"), "x 失败: 退出码 None");
    let negative = Failure { stdout: String::new(), stderr: String::new(), code: Some(-9) };
    assert_eq!(negative.into_error("x"), "x 失败: 退出码 Some(-9)");
}

#[test]
fn labels_are_present_for_every_state() {
    for s in [RunState::Running, RunState::Stopped, RunState::Unknown] {
        assert!(!s.label().is_empty());
    }
    for m in [ServiceManager::Systemd, ServiceManager::OpenRc, ServiceManager::Unmanaged] {
        assert!(!m.label().is_empty());
    }
}

#[test]
fn systemd_is_asked_and_understood() {
    let svc = Service { manager: ServiceManager::Systemd };
    assert!(runs(
        &svc.state_query().unwrap(),
        "systemctl",
        &["is-active", "synctus-server"]
    ));
    assert_eq!(svc.state(Some(&Ok(" active\n".into()))), RunState::Running);
    assert_eq!(svc.state(Some(&Ok("reloading".into()))), RunState::Stopped);
    let failed = |stdout: &str| {
        Err(Failure { stdout: stdout.into(), stderr: String::new(), code: Some(3) })
    };
    assert_eq!(svc.state(Some(&failed("inactive\n"))), RunState::Stopped);
    assert_eq!(svc.state(Some(&failed(""))), RunState::Unknown);
    assert_eq!(svc.enabled(Some(&Ok("enabled\n".into()))), Some(true));
    assert_eq!(svc.enabled(Some(&failed("disabled"))), Some(false));
    let a = svc.restart().unwrap();
    assert_eq!(a.what, "systemctl restart");
    assert!(runs(&a.command, "systemctl", &["restart", "synctus-server"]));
    assert!(runs(
        &svc.set_enabled(false).unwrap().command,
        "systemctl",
        &["disable", "synctus-server"]
    ));
    match svc.logs(40).unwrap() {
        LogSource::Journal(a) => assert!(runs(
            &a.command,
            "journalctl",
            &["-u", "synctus-server", "-n", "40", "--no-pager", "--output=short"]
        )),
        _ => panic!("systemd has the journal"),
    }
}

#[test]
fn openrc_is_asked_and_understood() {
    let svc = Service { manager: ServiceManager::OpenRc };
    assert!(runs(
        &svc.stop().unwrap().command,
        "rc-service",
        &["synctus-server", "stop"]
    ));
    assert_eq!(svc.state(Some(&Ok(" * status: started".into()))), RunState::Running);
    assert_eq!(svc.state(Some(&Ok(" * status: stopped".into()))), RunState::Stopped);
    let failed = |code| Failure { stdout: String::new(), stderr: String::new(), code };
    assert_eq!(svc.state(Some(&Err(failed(Some(3))))), RunState::Stopped);
    assert_eq!(svc.state(Some(&Err(failed(None)))), RunState::Unknown);
    assert_eq!(svc.enabled(Some(&Ok("synctus-server | default".into()))), Some(true));
    assert_eq!(svc.enabled(Some(&Ok("sshd | default".into()))), Some(false));
    assert!(runs(
        &svc.set_enabled(true).unwrap().command,
        "rc-update",
        &["add", "synctus-server", "default"]
    ));
    match svc.logs(2).unwrap() {
        LogSource::File(path) => assert_eq!(path, LOG_FILE),
        _ => panic!("OpenRC writes a file"),
    }
}

#[test]
fn actions_end_with_their_outcome() {
    let act = || Service { manager: ServiceManager::Systemd }.start().unwrap();
    let done: fn(Action, Result<String, Failure>) -> Result<(), String> = |a, o| a.finish(o);
    assert!(done(act(), Ok(String::new())).is_ok());
    let failed = Failure { stdout: String::new(), stderr: "no such unit\n".into(), code: Some(5) };
    assert_eq!(done(act(), Err(failed)).err().unwrap(), "systemctl start 失败: no such unit");
}

#[test]
fn logs_are_cut_to_their_last_lines() {
    assert_eq!(tail("a\nb\r\nc\n", 2), "b\nc");
    assert_eq!(tail("a\nb", 5), "a\nb");
    assert_eq!(tail("a\nb", 0), "");
    assert_eq!(tail("", 5), "");
    assert_eq!(tail("a\n\nb", 2), "\nb");
}

// ---------------------------------------------------------------------- web

#[test]
fn correct_password_passes() {
    // "admin:secret" base64.
    assert!(authorized(Some("Basic YWRtaW46c2VjcmV0"), "secret"));
}

#[test]
fn wrong_password_is_rejected() {
    assert!(!authorized(Some("Basic YWRtaW46d3Jvbmc="), "secret"));
}

#[test]
fn missing_header_is_rejected() {
    assert!(!authorized(None, "secret"));
}

#[test]
fn malformed_basic_is_rejected() {
    assert!(!authorized(Some("Basic !!!not-base64!!!"), "secret"));
}

#[test]
fn the_name_does_not_matter() {
    for user in ["", "admin", "谁", "a:b"] {
        let header = format!("Basic {}", b64(format!("{user}:密码").as_bytes()));
        assert!(authorized(Some(&header), "密码"));
        assert!(!authorized(Some(&header), "口令"));
    }
    let header = format!("Basic {}", b64(b"admin:a:b"));
    assert!(authorized(Some(&header), "a:b"), "a password may hold a colon");
    assert!(!authorized(Some(&header), "admin"));
}

#[test]
fn credentials_end_in_the_password() {
    assert!(knows_password("a:b:secret", "secret"));
    assert!(knows_password("a:b:secret", "b:secret"));
    assert!(!knows_password("a:b:secret", "ecret"));
    assert!(!knows_password("a:b:secret", "a:b:secret"));
    assert!(!knows_password("secret", "secret"));
    assert!(knows_password("admin:密码", "密码"));
    assert!(knows_password(":", ""));
    // Bytes that encode no text are replaced, and match no password.
    let header = format!("Basic {}", b64(b"x:\xff"));
    assert!(!authorized(Some(&header), "\u{0}"));
    assert!(authorized(Some(&header), "\u{fffd}"));
    assert!(!authorized(Some("Bearer YWRtaW46c2VjcmV0"), "secret"));
}

#[test]
fn comparison_is_constant_time_in_shape() {
    assert!(constant_time_eq(b"abc", b"abc"));
    assert!(!constant_time_eq(b"abc", b"abd"));
    assert!(!constant_time_eq(b"abc", b"ab"));
}

#[test]
fn the_page_is_served() {
    let html = index_html();
    assert!(html.contains("api/status"), "page must poll the status API");
}

#[test]
fn requests_are_routed_behind_the_password() {
    assert_eq!(route(false, "GET", "/"), Route::Unauthorized);
    assert_eq!(route(true, "GET", "/"), Route::Page);
    assert_eq!(route(true, "GET", "/api/status"), Route::Status);
    assert_eq!(route(true, "POST", "/api/kick"), Route::Kick);
    assert_eq!(route(true, "POST", "/"), Route::NotFound);
    assert_eq!(Route::Unauthorized.status(), 401);
    assert_eq!(Route::NotFound.status(), 404);
    assert_eq!(Route::Kick.status(), 200);
    assert_eq!(Route::Status.content_type(), "application/json");
}

#[test]
fn the_panel_kicks_by_name_only() {
    let mut hub = hub();
    hub.challenge_for("room", 0).unwrap();
    join(&mut hub, "room", "abc", b"mac").unwrap();
    assert!(!kick(&mut hub, "", 0));
    assert!(kick(&mut hub, "abc", 0));
    assert!(!kick(&mut hub, "abc", 0));
}

// --------------------------------------------------------------- management

#[test]
fn config_path_honours_the_override() {
    assert_eq!(resolve_config_path(Some("/tmp/synctus-test.toml")), "/tmp/synctus-test.toml");
    assert_eq!(resolve_config_path(None), DEFAULT_CONFIG);
}

#[test]
fn a_blank_override_falls_back_to_the_default() {
    // An exported-but-empty variable is a common shell accident.
    for blank in [Some(""), Some("   ")] {
        assert_eq!(resolve_config_path(blank), DEFAULT_CONFIG);
    }
}

#[test]
fn socket_path_honours_the_override() {
    assert_eq!(resolve_socket_path(Some("/tmp/s.sock")), "/tmp/s.sock");
    assert_eq!(resolve_socket_path(None), DEFAULT_SOCKET);
}

#[test]
fn override_wins_when_set() {
    assert_eq!(
        resolve_config_dir(Some("/tmp/synctus-test"), Some("/home/x/.config/synctus")).unwrap(),
        "/tmp/synctus-test"
    );
}

#[test]
fn blank_override_falls_back_to_the_platform_default() {
    // An exported-but-empty variable is a common shell accident and must not send
    // the config to the filesystem root.
    for blank in [Some(""), Some("   "), None] {
        let dir = resolve_config_dir(blank, Some("/home/x/.config/synctus")).unwrap();
        assert_eq!(dir, "/home/x/.config/synctus");
        assert!(resolve_config_dir(blank, None).is_none());
    }
    assert_eq!(resolve_config_dir(Some(" /a "), None).unwrap(), "/a");
}

#[test]
fn subcommands_are_told_apart() {
    assert!(matches!(task(None, true), Task::Menu));
    assert!(matches!(task(None, false), Task::Help));
    assert!(matches!(task(Some("status"), false), Task::Status));
    assert!(matches!(task(Some("restart"), false), Task::Restart));
    assert!(matches!(task(Some("--help"), true), Task::Help));
    assert!(matches!(task(Some("-V"), true), Task::Version));
    assert!(matches!(task(Some("fly"), true), Task::Unknown(a) if a == "fly"));
}

#[test]
fn menu_choices_follow_what_is_shown() {
    let choose = |text: &str| choose_entry(text, RunState::Running, Some(true));
    assert!(matches!(choose(""), Choice::Again));
    assert!(matches!(choose("3"), Choice::Stop));
    assert!(matches!(choose("5"), Choice::Autostart { enable: false }));
    assert!(matches!(choose("q"), Choice::Quit));
    assert!(matches!(choose("9"), Choice::Nothing(t) if t == "9"));
    assert!(matches!(choose_entry("3", RunState::Unknown, None), Choice::Start));
    assert!(matches!(
        choose_entry("5", RunState::Stopped, None),
        Choice::Autostart { enable: true }
    ));
    let lines = menu_lines(RunState::Running, Some(true));
    assert_eq!(lines[3], "  3) 停止服务");
    assert_eq!(lines[5], "  5) 关闭开机自启");
    assert_eq!(menu_lines(RunState::Stopped, None)[3], "  3) 启动服务");
    assert_eq!(autostart_line(true), "已开启开机自启。");
}

fn status() -> Status {
    Status {
        version: "0.1.0".into(),
        uptime_secs: 90,
        bind: "0.0.0.0:8787".into(),
        tls: true,
        rooms: 1,
        devices: 2,
        accepted: 10,
        rejected: 1,
    }
}

#[test]
fn the_header_shows_live_numbers_when_there_are_any() {
    let lines = header_lines(ServiceManager::Systemd, RunState::Running, Some(true), Some(&status()));
    assert_eq!(lines.len(), 3);
    assert_eq!(lines[0], format!("\x1b[1mSynctus 中继服务器\x1b[0m  {}", version()));
    assert_eq!(
        lines[1],
        "状态 \x1b[32m● 运行中\x1b[0m　管理方式 systemd　开机自启 已开启"
    );
    assert_eq!(lines[2], "运行 1m　房间 1　设备 2　监听 0.0.0.0:8787　TLS 已启用");
    assert_eq!(header_lines(ServiceManager::OpenRc, RunState::Stopped, None, None).len(), 2);
}

#[test]
fn the_status_page_lists_devices() {
    let rooms = vec![RoomInfo {
        room: "01234567".into(),
        devices: vec![
            DeviceInfo {
                id: "abc".into(),
                name: "".into(),
                user: "".into(),
                connected_secs: 5,
            },
            DeviceInfo {
                id: "def".into(),
                name: "PC".into(),
                user: "A".into(),
                connected_secs: 6,
            },
        ],
        idle_secs: 3,
    }];
    let lines = status_lines(
        ServiceManager::Systemd,
        RunState::Running,
        &Ok(status()),
        &Some("127.0.0.1:9090".into()),
        &Ok(rooms),
    );
    assert_eq!(lines[0], "服务状态：运行中（systemd）");
    assert_eq!(lines[8], "  已拒绝连接  1　（多为配对码不一致）");
    assert_eq!(lines[9], "  Web 面板    http://127.0.0.1:9090");
    assert_eq!(lines[12], "  房间 01234567　2 台设备　3 秒前活动");
    assert_eq!(lines[13], "    - [未分组] abc　已连接 5 秒");
    assert_eq!(lines[14], "    - [A] PC　已连接 6 秒");
    assert_eq!(lines.len(), 15);
}

#[test]
fn the_status_page_explains_what_is_missing() {
    let page = |state| {
        status_lines(
            ServiceManager::Systemd,
            state,
            &Err("拒绝".into()),
            &None,
            &Ok(Vec::new()),
        )
    };
    assert_eq!(page(RunState::Running)[1], "\n服务在运行，但无法读取实时状态：拒绝");
    assert_eq!(page(RunState::Stopped)[1], "\n服务未运行，没有实时状态可显示。");
    let empty = status_lines(
        ServiceManager::Systemd,
        RunState::Running,
        &Ok(status()),
        &None,
        &Ok(Vec::new()),
    );
    assert_eq!(empty[empty.len() - 1], "目前没有设备连接。");
}

#[test]
fn actions_report_the_state_they_left() {
    assert_eq!(done_line("启动"), "已启动。");
    assert_eq!(act_lines("启动", RunState::Running), ["当前状态：运行中"]);
    assert_eq!(act_lines("启动", RunState::Stopped).len(), 2);
    assert_eq!(act_lines("停止", RunState::Stopped).len(), 1);
    assert_eq!(logs_text(" \n".into()), "暂无日志。");
    assert_eq!(logs_text("a\n".into()), "a\n");
}

#[test]
fn answers_are_trimmed_and_numbers_checked() {
    assert_eq!(question("监听地址", "a:1"), "监听地址 [a:1]: ");
    assert_eq!(question("证书", ""), "证书 [（空）]: ");
    assert_eq!(answer("  x \n").as_deref(), Some("x"));
    assert_eq!(answer(" \n"), None);
    assert_eq!(answer_number("\n"), Number::Keep);
    assert_eq!(answer_number(" 12\n"), Number::Value(12));
    assert_eq!(answer_number("twelve"), Number::Again);
    assert_eq!(answer_number("18446744073709551615"), Number::Value(u64::MAX));
    assert_eq!(answer_number("18446744073709551616"), Number::Again);
}

fn no_answers() -> Answers {
    Answers {
        bind: None,
        cert_path: None,
        key_path: None,
        max_devices_per_room: None,
        max_rooms: None,
        idle_timeout_secs: None,
        rate_limit_per_sec: None,
        web_bind: None,
        web_password: None,
    }
}

#[test]
fn editing_changes_what_was_answered() {
    let same = edit_config(ServerConfig::default(), no_answers());
    assert_eq!(format!("{same:?}"), format!("{:?}", ServerConfig::default()));

    let cfg = edit_config(
        ServerConfig::default(),
        Answers {
            bind: Some("127.0.0.1:1".into()),
            max_devices_per_room: Some(4),
            web_bind: Some("127.0.0.1:9090".into()),
            web_password: Some("pw".into()),
            ..no_answers()
        },
    );
    assert_eq!(cfg.bind, "127.0.0.1:1");
    assert_eq!(cfg.max_devices_per_room, 4);
    assert_eq!(cfg.web_password.as_deref(), Some("pw"));
    let off = edit_config(cfg, Answers { web_bind: Some("".into()), ..no_answers() });
    assert_eq!(off.web_bind, None);
    assert_eq!(off.web_password, None, "a panel that is switched off loses its password");
    let parked =
        ServerConfig { web_password: Some("pw".into()), ..ServerConfig::default() };
    let kept = edit_config(parked.clone(), no_answers());
    assert_eq!(format!("{kept:?}"), format!("{parked:?}"), "enter changes nothing");
}

#[test]
fn problems_are_told_and_refused() {
    let none: Vec<String> = Vec::new();
    assert_eq!(
        check_lines("/etc/x.toml", &none),
        ["配置文件：/etc/x.toml", "\x1b[32m配置没有问题。\x1b[0m"]
    );
    assert_eq!(startup_refusal(&none), None);
    assert!(save_warning(&none).is_empty());
    let two = vec!["甲".to_string(), "乙".to_string()];
    assert_eq!(
        check_lines("p", &two),
        ["配置文件：p", "\x1b[33m发现 2 处问题：\x1b[0m", "  - 甲", "  - 乙"]
    );
    assert_eq!(startup_refusal(&two).as_deref(), Some("配置有 2 处问题，已拒绝启动"));
    assert_eq!(
        save_warning(&two),
        ["\n\x1b[33m这些问题会导致服务无法启动：\x1b[0m", "  - 甲", "  - 乙"]
    );
}

#[test]
fn client_info_names_the_port() {
    let lines = client_info(&ServerConfig::default());
    assert_eq!(lines[1], "  地址    <这台机器的域名或公网 IP>:8787");
    assert_eq!(lines.len(), 9);
    let local = client_info(&ServerConfig {
        bind: "127.0.0.1:99".into(),
        cert_path: Some("c".into()),
        key_path: Some("k".into()),
        ..ServerConfig::default()
    });
    assert_eq!(local.len(), 9);
    assert_eq!(local[8], "要让其他设备连入，改成 0.0.0.0:99。");
}

#[test]
fn the_daemon_answers_what_it_is_asked() {
    let hub = hub();
    match reply(&hub, Ok(Request::Status), 60_000) {
        Response::Status(s) => {
            assert_eq!(s.version, version());
            assert_eq!(s.bind, "0.0.0.0:8787");
            assert_eq!(s.uptime_secs, 60);
            // Fresh daemon: nothing connected yet.
            assert_eq!(s.devices, 0);
        }
        other => panic!("expected Status, got {other:?}"),
    }
    assert!(query_rooms(reply(&hub, Ok(Request::Rooms), 0)).unwrap().is_empty());
    assert!(matches!(reply(&hub, Ok(Request::Snapshot), 0), Response::Snapshot(_)));
    let refused = reply(&hub, Err("eof".into()), 0);
    assert_eq!(query_status(refused).err().unwrap(), "无法解析请求: eof");
    assert_eq!(
        query_status(reply(&hub, Ok(Request::Rooms), 0)).err().unwrap(),
        "服务器返回了意外的响应: Rooms { rooms: [] }"
    );
}

fn parse(args: &[&str]) -> Parsed {
    Args::parse(&args.iter().map(|a| a.to_string()).collect())
}

#[test]
fn arguments_of_the_daemon_are_read() {
    match parse(&["-c", "a.toml", "--admin-socket", "s", "--config", "b.toml"]) {
        Parsed::Run(a) => {
            assert_eq!(a.config.as_deref(), Some("b.toml"));
            assert_eq!(a.admin_socket.as_deref(), Some("s"));
            assert!(!a.help);
        }
        other => panic!("unexpected: {other:?}"),
    }
    assert!(matches!(parse(&["-h"]), Parsed::Run(a) if a.help));
    assert!(matches!(parse(&["-V", "junk"]), Parsed::Version));
    assert!(matches!(parse(&["--config"]), Parsed::Missing("--config")));
    assert!(matches!(parse(&["--fly"]), Parsed::Unknown(a) if a == "--fly"));
}

#[test]
fn help_names_the_defaults() {
    assert!(tool_help().contains(DEFAULT_CONFIG));
    assert!(tool_help().contains(DEFAULT_SOCKET));
    assert!(daemon_help().contains(DEFAULT_SOCKET));
    assert!(daemon_help().starts_with("Synctus 中继服务器 0.1.0\n\n用法:"));
}
