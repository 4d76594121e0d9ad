use synctus::bridge::{
    argb, default_config, nag_about, new_invite_code, peer_detail, peer_meta, Bridge, BridgeCommand,
    BridgeEvent, Outgoing,
};
use synctus::client::{ClientError, Command, ConnState, Event};
use synctus::config::{Accountability, ClientConfig, PomodoroConfig, Privacy};
use synctus::crypto::RoomKeys;
use synctus::model::{
    Battery, ForegroundApp, NowPlaying, Nudge, NudgeKind, Platform, PomodoroPhase, PomodoroState,
    Presence, StatusSnapshot, Todo,
};
use synctus::sharing::HIDDEN;

const NOW: i64 = 1_700_000_000_000;

fn paired_config() -> ClientConfig {
    ClientConfig {
        invite_code: "ABCD-EFGH-IJKL-MNOP".into(),
        server: "127.0.0.1:1".into(),
        tls: false,
        ..ClientConfig::default()
    }
}

fn bridge(cfg: ClientConfig) -> Bridge {
    match Bridge::with_config(cfg, Platform::Android) {
        Ok((b, _)) => b,
        Err(_) => panic!("must start"),
    }
}

fn publish(app: &str) -> BridgeCommand {
    BridgeCommand::Publish {
        presence: None,
        foreground: Some(ForegroundApp { app: app.into(), name: None, title: None }),
        battery: None,
        music: None,
    }
}

fn published(out: &[Outgoing]) -> &StatusSnapshot {
    match &out[out.len() - 1].command {
        Command::Publish(s) => s,
        other => panic!("unexpected: {other:?}"),
    }
}

#[test]
fn unpaired_config_fails_to_start() {
    match Bridge::with_config(ClientConfig::default(), Platform::Android) {
        Err(e) => assert_eq!(e, ClientError::NotPaired),
        Ok(_) => panic!("must not start"),
    }
}

#[test]
fn pomodoro_commands_change_the_reported_phase() {
    let mut bridge = bridge(paired_config());
    assert!(!bridge.local_status(NOW).pomodoro_active);

    bridge.apply(BridgeCommand::StartFocus, NOW);
    let after = bridge.local_status(NOW);
    assert!(after.pomodoro_active);
    assert_eq!(after.pomodoro_phase, "专注");
    assert_eq!(after.pomodoro_remaining, "25:00");

    // Focus implies do-not-disturb by default.
    assert_eq!(after.presence, "免打扰");

    bridge.apply(BridgeCommand::TogglePomodoro, NOW);
    assert!(bridge.local_status(NOW).pomodoro_paused);

    bridge.apply(BridgeCommand::StopPomodoro, NOW);
    assert!(!bridge.local_status(NOW).pomodoro_active);
}

#[test]
fn explicit_presence_overrides_the_pomodoro_phase() {
    let mut bridge = bridge(paired_config());
    bridge.apply(BridgeCommand::StartFocus, NOW);
    bridge.apply(BridgeCommand::SetPresence { presence: Presence::Resting }, NOW);
    assert_eq!(bridge.local_status(NOW).presence, "休息中");
}

#[test]
fn selecting_active_returns_control_to_automatic_presence() {
    let mut bridge = bridge(paired_config());
    bridge.apply(BridgeCommand::SetPresence { presence: Presence::Resting }, NOW);
    bridge.apply(BridgeCommand::SetPresence { presence: Presence::Active }, NOW);
    bridge.apply(BridgeCommand::StartFocus, NOW);
    // Back under pomodoro control.
    assert_eq!(bridge.local_status(NOW).presence, "免打扰");
}

#[test]
fn presence_colour_is_opaque_argb() {
    let colour = argb(Presence::Active);
    assert_eq!(colour >> 24, 0xFF, "alpha must be opaque");
    let (r, g, b) = Presence::Active.rgb();
    assert_eq!(colour & 0x00FF_FFFF, ((r as u32) << 16) | ((g as u32) << 8) | b as u32);
}

#[test]
fn default_config_is_usable_by_the_ui() {
    let cfg = default_config();
    assert_eq!(cfg.device_name, "Android");
    assert!(!cfg.is_paired(), "默认配置不应带配对码");
}

#[test]
fn generated_invite_codes_are_valid() {
    let code = new_invite_code();
    assert!(RoomKeys::derive(&code).is_ok());
}

#[test]
fn peer_detail_prefers_music_then_app() {
    let mut peer = StatusSnapshot::new("d", "Peer", Platform::Android);
    peer.foreground = Some(ForegroundApp {
        app: "com.example".into(),
        name: Some("示例".into()),
        title: None,
    });
    assert_eq!(peer_detail(&peer, peer.at, false), "示例");

    peer.music = Some(NowPlaying {
        title: "歌名".into(),
        artist: Some("歌手".into()),
        album: None,
        player: None,
        playing: true,
    });
    assert_eq!(peer_detail(&peer, peer.at, false), "♪ 歌手 - 歌名");

    // A paused track falls back to the app.
    peer.music.as_mut().unwrap().playing = false;
    assert_eq!(peer_detail(&peer, peer.at, false), "示例");
    peer.foreground.as_mut().unwrap().title = Some("标题".into());
    assert_eq!(peer_detail(&peer, peer.at, false), "示例：标题");
}

#[test]
fn stale_peers_report_their_age() {
    let peer = StatusSnapshot::new("d", "Peer", Platform::Android);
    let detail = peer_detail(&peer, peer.at + 120_000, true);
    assert!(detail.contains("120"), "got {detail}");
    assert_eq!(peer_detail(&peer, peer.at - 1_500, true), "最后更新于 -1 秒前");
}

#[test]
fn peer_meta_includes_battery_and_pomodoro() {
    let mut peer = StatusSnapshot::new("d", "Peer", Platform::Android);
    peer.battery = Some(Battery { percent: 88, charging: false, minutes_left: None });
    peer.pomodoro = Some(PomodoroState {
        phase: PomodoroPhase::Focus,
        ends_at: Some(peer.at + 60_000),
        ..Default::default()
    });
    let meta = peer_meta(&peer, peer.at);
    assert!(meta.contains("88%"), "got {meta}");
    assert!(meta.contains("01:00"), "got {meta}");
    peer.todos_open = 2;
    peer.todos_done_today = 1;
    assert_eq!(peer_meta(&peer, peer.at), "🔋88%  🍅▶专注 01:00  ☑1/3");
    peer.pomodoro = Some(PomodoroState { completed_today: 4, ..Default::default() });
    assert_eq!(peer_meta(&peer, peer.at), "🔋88%  🍅×4  ☑1/3");
}

#[test]
fn blocked_apps_are_replaced_before_publishing() {
    let cfg = ClientConfig {
        privacy: Privacy { blocked_apps: vec!["secret".into()], ..Default::default() },
        ..paired_config()
    };
    let mut bridge = bridge(cfg);
    let out = bridge.apply(publish("com.secret.vault"), NOW);
    assert_eq!(
        bridge.last_sensors.foreground.as_ref().unwrap().app,
        "com.secret.vault",
        "the raw sample is kept as-is"
    );
    assert!(bridge.cfg.privacy.is_blocked("com.secret.vault"));
    assert_eq!(
        published(&out).foreground,
        Some(ForegroundApp { app: HIDDEN.into(), name: None, title: None })
    );
}

// --- accountability ---------------------------------------------------------

#[test]
fn restored_progress_appears_in_the_local_status() {
    let mut bridge = bridge(paired_config());
    let out = bridge
        .apply(BridgeCommand::RestoreProgress { focus_today_min: 75, streak_days: 4 }, NOW);
    let status = bridge.local_status(NOW);
    assert_eq!(status.focus_today_min, 75);
    assert_eq!(status.streak_days, 4);
    assert_eq!(published(&out).focus_today_min, 75);
    assert_eq!(published(&out).goal_min, 100);
}

fn short_goal() -> ClientConfig {
    ClientConfig {
        pomodoro: PomodoroConfig { focus_min: 25, ..Default::default() },
        accountability: Accountability {
            // One round is enough to hit the goal, so a single tick exercises both
            // the credit and the celebration.
            daily_goal_min: 25,
            ..Default::default()
        },
        ..paired_config()
    }
}

#[test]
fn finishing_a_round_credits_minutes_and_reports_the_goal() {
    let mut bridge = bridge(short_goal());

    bridge.apply(BridgeCommand::StartFocus, NOW);
    // Skip fires the same path the deadline would.
    bridge.apply(BridgeCommand::SkipPhase, NOW);

    let (events, _) = bridge.poll(Vec::new(), NOW);
    assert!(
        events.iter().any(|e| matches!(e, BridgeEvent::Pomodoro { .. })),
        "expected a pomodoro event, got {events:?}"
    );
    assert!(
        events.iter().any(|e| matches!(e, BridgeEvent::GoalReached { .. })),
        "expected a goal_reached event, got {events:?}"
    );

    let status = bridge.local_status(NOW);
    assert_eq!(status.focus_today_min, 25);
    assert!(status.goal_met);
    assert_eq!(status.streak_days, 1);
}

#[test]
fn a_deadline_between_polls_is_reported() {
    let mut bridge = bridge(short_goal());
    bridge.apply(BridgeCommand::StartFocus, NOW);
    let (events, out) = bridge.poll(Vec::new(), NOW + 25 * 60_000);
    match &events[0] {
        BridgeEvent::Pomodoro { phase, message, finished, .. } => {
            assert_eq!(phase, "小休");
            assert!(*finished);
            assert_eq!(message, "专注 25 分钟完成，今日累计 25 分钟");
        }
        other => panic!("unexpected: {other:?}"),
    }
    assert_eq!(out.len(), 1);
    assert!(!out[0].required);
    assert!(bridge.poll(Vec::new(), NOW).0.is_empty(), "events are handed over once");
}

#[test]
fn the_goal_is_celebrated_once() {
    let mut bridge = bridge(short_goal());

    for _ in 0..3 {
        bridge.apply(BridgeCommand::StartFocus, NOW);
        bridge.apply(BridgeCommand::SkipPhase, NOW);
    }

    let (events, _) = bridge.poll(Vec::new(), NOW);
    let celebrations =
        events.iter().filter(|e| matches!(e, BridgeEvent::GoalReached { .. })).count();
    assert_eq!(celebrations, 1, "extra rounds must not re-celebrate");

    let status = bridge.local_status(NOW);
    assert_eq!(status.focus_today_min, 75);
    assert_eq!(status.streak_days, 1);
}

fn strict() -> ClientConfig {
    ClientConfig {
        accountability: Accountability {
            warn_on_distraction: true,
            distracting_apps: vec!["bilibili".into()],
            // Fire on the first sample rather than waiting for the grace period.
            distraction_grace_secs: 0,
            ..Default::default()
        },
        ..paired_config()
    }
}

fn is_warning(e: &BridgeEvent) -> bool {
    matches!(e, BridgeEvent::Nudge { kind, .. } if kind == "distraction")
}

#[test]
fn distraction_during_a_focus_round_raises_an_urgent_event() {
    let mut bridge = bridge(strict());

    bridge.apply(BridgeCommand::StartFocus, NOW);
    bridge.apply(publish("com.bilibili.app"), NOW);

    let (events, _) = bridge.poll(Vec::new(), NOW);
    let warning =
        events.iter().find(|e| is_warning(e)).expect("expected a distraction event");
    match warning {
        BridgeEvent::Nudge { urgent, body, .. } => {
            assert!(*urgent);
            assert!(body.contains("bilibili"));
        }
        _ => unreachable!(),
    }
    let status = bridge.local_status(NOW);
    assert!(status.distracted);
    assert_eq!(status.distracted_by.as_deref(), Some("com.bilibili.app"));
}

#[test]
fn a_distraction_is_reported_to_the_peer_where_that_was_agreed() {
    let mut cfg = strict();
    cfg.accountability.report_distraction_to_peer = true;
    let mut bridge = bridge(cfg);
    bridge.apply(BridgeCommand::StartFocus, NOW);
    let out = bridge.apply(publish("com.bilibili.app"), NOW);
    assert_eq!(out.len(), 2);
    assert!(!out[0].required && out[1].required);
    match &out[0].command {
        Command::Nudge(n) => {
            assert_eq!(n.kind, NudgeKind::Nag);
            assert_eq!(n.text.as_deref(), Some("我在专注时打开了 com.bilibili.app，盯着我"));
        }
        other => panic!("unexpected: {other:?}"),
    }
}

#[test]
fn a_distraction_stays_local_by_default() {
    let mut bridge = bridge(strict());
    bridge.apply(BridgeCommand::StartFocus, NOW);
    let out = bridge.apply(publish("com.bilibili.app"), NOW);
    assert_eq!(out.len(), 1, "only the status is sent");
    assert!(bridge.local_status(NOW).distracted);
}

#[test]
fn without_a_goal_nothing_is_celebrated() {
    let mut cfg = short_goal();
    cfg.accountability.daily_goal_min = 0;
    let mut bridge = bridge(cfg);
    for _ in 0..3 {
        bridge.apply(BridgeCommand::StartFocus, NOW);
        bridge.apply(BridgeCommand::SkipPhase, NOW);
    }
    let (events, _) = bridge.poll(Vec::new(), NOW);
    assert!(!events.iter().any(|e| matches!(e, BridgeEvent::GoalReached { .. })));
    let status = bridge.local_status(NOW);
    assert_eq!((status.focus_today_min, status.streak_days), (75, 0));
    assert!(!status.goal_met);
}

#[test]
fn nothing_is_reported_outside_a_focus_round() {
    let mut bridge = bridge(strict());

    // No focus round started: leisure time is not the tool's business.
    bridge.apply(publish("com.bilibili.app"), NOW);

    let (events, _) = bridge.poll(Vec::new(), NOW);
    assert!(!events.iter().any(is_warning), "must not warn outside a focus round");
}

// --- nudges and peers -------------------------------------------------------

fn peer_focusing_on(app: &str) -> StatusSnapshot {
    let mut peer = StatusSnapshot::new("d", "Peer", Platform::Windows);
    peer.at = NOW;
    peer.pomodoro = Some(PomodoroState {
        phase: PomodoroPhase::Focus,
        ends_at: Some(NOW + 60_000),
        ..Default::default()
    });
    peer.foreground = Some(ForegroundApp { app: app.into(), name: None, title: None });
    peer
}

#[test]
fn nags_name_what_the_peer_is_doing() {
    let mut bridge = bridge(strict());
    let nudge = |bridge: &mut Bridge, kind, text: Option<&str>| {
        let text = text.map(|t| t.to_string());
        match bridge.apply(BridgeCommand::Nudge { kind, text }, NOW).pop().unwrap().command {
            Command::Nudge(n) => n.text,
            other => panic!("unexpected: {other:?}"),
        }
    };
    assert_eq!(nudge(&mut bridge, NudgeKind::Nag, None), None, "nobody is known");
    bridge.poll(vec![Event::PeerStatus(peer_focusing_on("com.bilibili.app"))], NOW);
    assert_eq!(
        nudge(&mut bridge, NudgeKind::Nag, None).as_deref(),
        Some("你在专注中开着 com.bilibili.app，专心点")
    );
    assert_eq!(
        nudge(&mut bridge, NudgeKind::Nag, Some("起来干活")).as_deref(),
        Some("起来干活")
    );
    assert_eq!(nudge(&mut bridge, NudgeKind::Hug, None), None);

    let mut behind = peer_focusing_on("code");
    behind.goal_min = 100;
    behind.focus_today_min = 40;
    assert_eq!(
        nag_about(&bridge.cfg, bridge.focus_today_min, &behind).as_deref(),
        Some("今天还差 60 分钟，我已经做了 0 分钟了")
    );
    behind.focus_today_min = 100;
    assert_eq!(nag_about(&bridge.cfg, bridge.focus_today_min, &behind), None);
}

#[test]
fn peers_are_summed_up_when_they_change() {
    let mut bridge = bridge(strict());
    let status = peer_focusing_on("com.bilibili.app");
    let (events, _) = bridge.poll(vec![Event::PeerStatus(status.clone())], NOW);
    match &events[..] {
        [BridgeEvent::Peer(p)] => {
            assert_eq!(p.platform, "Windows");
            assert!(p.focusing && p.slacking && !p.stale);
            assert_eq!(p.presence_color, argb(Presence::Active));
        }
        other => panic!("unexpected: {other:?}"),
    }
    assert!(bridge.local_status(NOW).peer_focusing);
    let mut older = status;
    older.at = NOW - 1;
    assert!(bridge.poll(vec![Event::PeerStatus(older)], NOW).0.is_empty());
    let (events, _) = bridge.poll(
        vec![Event::PeerPresence { device_id: "d".into(), online: false }],
        NOW + 1_000_000,
    );
    match &events[..] {
        [BridgeEvent::Peer(p)] => {
            assert!(p.stale && !p.focusing);
            assert_eq!(p.presence, "离线");
        }
        other => panic!("unexpected: {other:?}"),
    }
}

#[test]
fn connection_changes_are_told_and_answered() {
    let mut bridge = bridge(paired_config());
    let (events, out) = bridge.poll(vec![Event::State(ConnState::Online)], NOW);
    assert!(matches!(&events[..], [BridgeEvent::Connection { state, .. }] if state == "online"));
    assert_eq!(out.len(), 1, "a new connection is told our status at once");
    assert!(bridge.local_status(NOW).connected);
    let (events, out) =
        bridge.poll(vec![Event::State(ConnState::Rejected("配对码".into()))], NOW);
    assert!(matches!(
        &events[..],
        [BridgeEvent::Connection { state, detail }] if state == "rejected" && detail == "配对码"
    ));
    assert!(out.is_empty());
    let (events, _) = bridge.poll(vec![Event::Warning("x".into())], NOW);
    assert!(matches!(&events[..], [BridgeEvent::Warning { message }] if message == "x"));
}

#[test]
fn incoming_nudges_are_urgent_only_by_agreement() {
    let mut bridge = bridge(paired_config());
    let urgent = |bridge: &mut Bridge, kind| {
        let (events, _) = bridge.poll(vec![Event::Nudge(Nudge::new(kind, "Bob"))], NOW);
        match &events[0] {
            BridgeEvent::Nudge { urgent, kind, .. } => (*urgent, kind.clone()),
            other => panic!("unexpected: {other:?}"),
        }
    };
    assert_eq!(urgent(&mut bridge, NudgeKind::Nag), (true, "Nag".to_string()));
    assert_eq!(urgent(&mut bridge, NudgeKind::Hug), (false, "Hug".to_string()));
    bridge.cfg.accountability.allow_urgent_nudges = false;
    assert_eq!(urgent(&mut bridge, NudgeKind::Nag).0, false);
    urgent(&mut bridge, NudgeKind::FocusTogether);
    assert!(bridge.local_status(NOW).pomodoro_active, "the peer is followed");
}

#[test]
fn todos_are_published_with_the_status() {
    let mut bridge = bridge(paired_config());
    let mut done = Todo::new("a", NOW);
    done.done = true;
    done.done_at = Some(NOW - 1_000);
    let mut old = done.clone();
    old.done_at = Some(NOW - 86_400_000);
    // Less than a day ago, but on the day before.
    let mut yesterday = done.clone();
    yesterday.done_at = Some(NOW - 23 * 3_600_000);
    let items = vec![done, old, yesterday, Todo::new("b", NOW)];
    let out = bridge.apply(BridgeCommand::SetTodos { items }, NOW);
    assert!(matches!(&out[0].command, Command::PublishTodos(items) if items.len() == 4));
    assert_eq!(published(&out).todos_open, 1);
    assert_eq!(published(&out).todos_done_today, 1);
    let (events, _) = bridge.poll(
        vec![Event::PeerTodos { device_id: "d".into(), items: vec![Todo::new("c", 0)] }],
        NOW,
    );
    assert!(matches!(&events[..], [BridgeEvent::PeerTodos { items }] if items[0].title == "c"));
}

#[test]
fn an_unshared_list_stays_on_the_device() {
    let privacy = Privacy { share_todos: false, ..Privacy::default() };
    let mut bridge = bridge(ClientConfig { privacy, ..paired_config() });
    let items = vec![Todo::new("secret", NOW)];
    let out = bridge.apply(BridgeCommand::SetTodos { items }, NOW);
    assert_eq!(out.len(), 1);
    assert_eq!(published(&out).todos_open, 0);
    assert_eq!(bridge.todos.len(), 1);
}

#[test]
fn without_a_goal_no_streak_is_told() {
    let accountability = Accountability { daily_goal_min: 0, ..Accountability::default() };
    let mut bridge = bridge(ClientConfig { accountability, ..paired_config() });
    let out = bridge
        .apply(BridgeCommand::RestoreProgress { focus_today_min: 75, streak_days: 4 }, NOW);
    assert_eq!(published(&out).streak_days, 0);
    assert_eq!(bridge.local_status(NOW).streak_days, 0);
}

#[test]
fn the_goal_of_the_peer_is_praised() {
    let mut bridge = bridge(paired_config());
    let mut status = StatusSnapshot::new("pc", "PC", Platform::Linux);
    status.goal_min = 50;
    status.focus_today_min = 25;
    assert!(bridge.poll(vec![Event::PeerStatus(status.clone())], NOW).1.is_empty());
    status.focus_today_min = 50;
    let (_, out) = bridge.poll(vec![Event::PeerStatus(status.clone())], NOW);
    assert!(matches!(&out[..], [Outgoing { command: Command::Nudge(n), required: false }]
        if n.kind == NudgeKind::Cheer));
    assert!(bridge.poll(vec![Event::PeerStatus(status)], NOW).1.is_empty());
}

#[test]
fn a_lost_link_drops_the_peer() {
    let mut bridge = bridge(paired_config());
    let mut status = StatusSnapshot::new("pc", "PC", Platform::Linux);
    status.focus_today_min = 25;
    bridge.poll(vec![Event::PeerStatus(status)], NOW);
    assert_eq!(bridge.local_status(NOW).peer_focus_today_min, 25);
    bridge.poll(vec![Event::State(ConnState::Offline("x".into()))], NOW);
    assert_eq!(bridge.local_status(NOW).peer_focus_today_min, 0);
}

#[test]
fn a_new_configuration_reconnects() {
    let mut bridge = bridge(paired_config());
    let config = Box::new(ClientConfig {
        server: "other:1".into(),
        pomodoro: PomodoroConfig { focus_min: 50, ..Default::default() },
        ..paired_config()
    });
    let out = bridge.apply(BridgeCommand::Reconfigure { config }, NOW);
    assert!(matches!(&out[..], [Outgoing { command: Command::Reconnect(c), required: true }]
        if c.server == "other:1"));
    assert_eq!(bridge.cfg.server, "other:1");
    bridge.apply(BridgeCommand::StartFocus, NOW);
    assert_eq!(bridge.local_status(NOW).pomodoro_remaining, "50:00");
}
