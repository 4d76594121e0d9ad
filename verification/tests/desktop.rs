use synctus::client::{Command, ConnState, Event};
use synctus::config::{ClientConfig, Privacy};
use synctus::desktop::{
    idle_bucket, peer_counters, peer_line, snapshot_eq, App, Effect, Moment, LOG_LINES,
};
use synctus::model::{
    Battery, ForegroundApp, NowPlaying, Nudge, NudgeKind, Platform, PomodoroPhase, PomodoroState,
    Presence, StatusSnapshot, Todo,
};
use synctus::notify::{self, Alert};
use synctus::overlay::{
    any_done, connection_hint, desktop_help, headline, log_heading, log_lines, menu_heading,
    nudge_lines, other_lines, parse_args, parse_list, peer_todo_line, presence_heading,
    presence_lines, ring, rounds_line, show_list, timer_lines, OVERLAY_SIZE,
};
use synctus::sensors::{
    battery, battery_from_flags, file_name, foreground_program, foreground_window,
    idle_from_ticks, is_player, player_of, trim_title, window_class, Artists, MediaSession, Player, PowerSupply, Sample,
};
use synctus::sharing::HIDDEN;
use synctus::store::LocalData;
use synctus::tray::{
    accountability, map_menu_id, menu, nudge_id, pomodoro_label, presence_id, Entry, UiRequest,
    CHOICES, POMODORO_TOGGLE, QUIT, SETTINGS,
};
use synctus::update::UpdateInfo;

// ---------------------------------------------------------------------- app

fn snap() -> StatusSnapshot {
    StatusSnapshot::new("dev", "Name", Platform::Linux)
}

#[test]
fn timestamp_alone_does_not_count_as_a_change() {
    let a = snap();
    let mut b = a.clone();
    b.at += 10_000;
    assert!(snapshot_eq(&a, &b));
}

#[test]
fn presence_and_battery_changes_are_detected() {
    let a = snap();
    let mut b = a.clone();
    b.presence = Presence::Resting;
    assert!(!snapshot_eq(&a, &b));

    let mut c = a.clone();
    c.battery = Some(Battery { percent: 50, charging: false, minutes_left: None });
    assert!(!snapshot_eq(&a, &c));
}

#[test]
fn idle_seconds_only_matter_per_minute() {
    let mut a = snap();
    a.idle_secs = Some(10);
    let mut b = a.clone();
    b.idle_secs = Some(50);
    assert!(snapshot_eq(&a, &b), "same minute must not trigger a publish");

    b.idle_secs = Some(130);
    assert!(!snapshot_eq(&a, &b));
}

#[test]
fn foreground_app_changes_are_detected() {
    let a = snap();
    let mut b = a.clone();
    b.foreground = Some(ForegroundApp {
        app: "code.exe".into(),
        name: Some("code".into()),
        title: None,
    });
    assert!(!snapshot_eq(&a, &b));
}

#[test]
fn music_and_pomodoro_changes_are_detected() {
    let mut a = snap();
    a.music = Some(NowPlaying {
        title: "t".into(),
        artist: None,
        album: None,
        player: None,
        playing: true,
    });
    a.pomodoro = Some(PomodoroState::default());
    let b = a.clone();
    assert!(snapshot_eq(&a, &b));
    let mut c = a.clone();
    c.music.as_mut().unwrap().playing = false;
    assert!(!snapshot_eq(&a, &c));
    let mut d = a.clone();
    d.pomodoro.as_mut().unwrap().ends_at = Some(1);
    assert!(!snapshot_eq(&a, &d));
    let mut e = a.clone();
    e.todos_open = 1;
    assert!(!snapshot_eq(&a, &e));
}

#[test]
fn idle_bucket_rounds_down_to_minutes() {
    assert_eq!(idle_bucket(Some(0)), Some(0));
    assert_eq!(idle_bucket(Some(59)), Some(0));
    assert_eq!(idle_bucket(Some(61)), Some(1));
    assert_eq!(idle_bucket(None), None);
}

fn at(secs: u64) -> Moment {
    Moment { ms: 1_700_000_000_000 + secs as i64 * 1000, mono: secs * 1000 }
}

fn config(code: &str) -> ClientConfig {
    ClientConfig {
        invite_code: code.into(),
        check_updates: false,
        device_id: "me".into(),
        device_name: "My PC".into(),
        user: "A".into(),
        ..ClientConfig::default()
    }
}

fn app() -> App {
    App::new(config("ABCD-EFGH-IJKL-MNOP"), LocalData::default(), Platform::Linux, at(0)).0
}

/// An application with its engine running and its link up.
fn online() -> App {
    let mut app = app();
    assert!(app.start_engine(at(0)).is_some());
    assert!(app.drain_events(vec![Event::State(ConnState::Online)], at(0)).is_empty());
    app
}

#[test]
fn a_paired_application_starts_its_engine() {
    let (mut app, effects) =
        App::new(config("ABCD-EFGH-IJKL-MNOP"), LocalData::default(), Platform::Linux, at(0));
    assert!(matches!(effects[..], [Effect::Start]));
    assert!(!app.is_online());
    assert!(matches!(&app.conn, ConnState::Offline(why) if why == "未连接"));
    let client = app.start_engine(at(0)).unwrap();
    assert_eq!(client.cfg.device_id, "me");
    assert!(app.running);
    assert!(matches!(app.conn, ConnState::Connecting));
    assert_eq!(app.log[0].text, "正在连接 127.0.0.1:8787");
    // A second engine replaces the first.
    let (quit, effects) = app.handle(UiRequest::Reconnect, at(1));
    assert!(!quit);
    assert!(matches!(effects[..], [Effect::Stop, Effect::Start]));
}

#[test]
fn an_unpaired_application_asks_for_a_code() {
    let (mut app, effects) =
        App::new(config(""), LocalData::default(), Platform::Linux, at(0));
    assert!(effects.is_empty());
    assert!(app.show_settings);
    assert_eq!(app.log[0].text, "尚未配对：请在设置中填入配对码");
    app.handle(UiRequest::Reconnect, at(0));
    assert_eq!(app.log[1].text, "配对码为空，无法连接");
    assert!(app.start_engine(at(0)).is_none());
    assert!(matches!(&app.conn, ConnState::Rejected(why) if why == "尚未设置配对码"));
}

#[test]
fn updates_are_checked_for_once_at_a_time() {
    let cfg = ClientConfig { check_updates: true, ..config("ABCD-EFGH-IJKL-MNOP") };
    let (mut app, effects) = App::new(cfg, LocalData::default(), Platform::Linux, at(0));
    assert!(matches!(&effects[1], Effect::CheckUpdate(repo) if repo == "LANqed/Synctus"));
    assert!(app.handle(UiRequest::CheckUpdate, at(0)).1.is_empty());
    assert!(app.drain_update(None, at(1)).is_empty());
    assert_eq!(app.handle(UiRequest::CheckUpdate, at(2)).1.len(), 1);
    let info = UpdateInfo { version: "9.9.9".into(), url: "u".into(), notes: "n".into() };
    let effects = app.drain_update(Some(info), at(3));
    assert!(matches!(&effects[..], [Effect::Notify(n)] if n.body.contains("9.9.9")));
    assert!(!app.checking);
    assert_eq!(app.update.as_ref().unwrap().version, "9.9.9");
}

#[test]
fn a_new_day_starts_from_zero() {
    let data = LocalData {
        completed_today: 5,
        round: 3,
        counter_date: "1970-01-01".into(),
        ..Default::default()
    };
    let app = App::new(config(""), data, Platform::Linux, at(0)).0;
    assert_eq!(app.data.completed_today, 0);
    assert_eq!(app.pomodoro.state().round, 0);
    assert_eq!(app.data.counter_date, "2023-11-14");
}

#[test]
fn a_status_is_sent_when_it_changed_or_is_old() {
    let mut app = online();
    let first = app.publish_if_changed(at(1)).expect("never sent");
    assert_eq!(first.name, "My PC");
    assert_eq!(first.user, "A");
    app.published(first, at(1));
    assert!(app.publish_if_changed(at(2)).is_none(), "nothing changed");
    assert!(app.publish_if_changed(at(31)).is_some(), "a heartbeat is due");
    app.handle(UiRequest::SetPresence(Presence::Busy), at(3));
    assert_eq!(app.publish_if_changed(at(3)).unwrap().presence, Presence::Busy);
    app.drain_events(vec![Event::State(ConnState::Offline("x".into()))], at(4));
    assert!(app.publish_if_changed(at(40)).is_none(), "the link is down");
}

#[test]
fn what_is_private_is_not_published() {
    let mut app = online();
    app.on_sample(Sample {
        foreground: Some(ForegroundApp {
            app: "com.secret.vault".into(),
            name: Some("Vault".into()),
            title: Some("My passwords".into()),
        }),
        battery: Some(Battery { percent: 50, charging: false, minutes_left: None }),
        music: None,
        idle_secs: Some(7),
    }, at(0));
    let open = app.build_snapshot(at(1));
    assert_eq!(open.foreground.as_ref().unwrap().app, "com.secret.vault");
    assert_eq!(open.foreground.unwrap().title, None, "titles are off by default");
    assert_eq!(open.battery.unwrap().percent, 50);
    assert_eq!(open.idle_secs, Some(7));

    app.cfg.privacy = Privacy {
        blocked_apps: vec!["secret".into()],
        share_battery: false,
        share_idle: false,
        share_pomodoro: false,
        ..Privacy::default()
    };
    let shut = app.build_snapshot(at(1));
    assert_eq!(
        shut.foreground,
        Some(ForegroundApp { app: HIDDEN.into(), name: None, title: None })
    );
    assert_eq!(shut.battery, None);
    assert_eq!(shut.idle_secs, None);
    assert_eq!(shut.pomodoro, None);
    app.cfg.privacy.share_foreground_app = false;
    assert_eq!(app.build_snapshot(at(1)).foreground, None);
}

#[test]
fn presence_is_chosen_then_implied_then_detected() {
    let mut app = online();
    assert_eq!(app.own_presence(), Presence::Active);
    app.on_sample(Sample { idle_secs: Some(300), ..Sample::default() }, at(0));
    assert_eq!(app.own_presence(), Presence::Away);
    app.handle(UiRequest::StartFocus, at(1));
    assert_eq!(app.own_presence(), Presence::Busy);
    app.handle(UiRequest::SetPresence(Presence::Resting), at(1));
    assert_eq!(app.own_presence(), Presence::Resting);
    app.handle(UiRequest::SetPresence(Presence::Active), at(1));
    assert_eq!(app.own_presence(), Presence::Busy);
}

#[test]
fn samples_are_asked_for_at_intervals() {
    let mut app = app();
    assert!(!app.request_sample_if_due(at(4)));
    assert!(app.request_sample_if_due(at(5)));
    assert!(!app.request_sample_if_due(at(6)));
}

#[test]
fn finished_rounds_are_saved_and_announced() {
    let mut app = app();
    app.handle(UiRequest::StartFocus, at(0));
    assert!(app.advance_pomodoro(at(60)).is_empty());
    let effects = app.advance_pomodoro(at(25 * 60));
    assert!(matches!(&effects[..], [Effect::SaveData, Effect::Notify(n)] if n.body.contains("25")));
    assert_eq!(app.data.completed_today, 1);
    assert_eq!(app.pomodoro.state().phase, PomodoroPhase::Idle);
    let line = &app.log[app.log.len() - 1].text;
    assert_eq!(line, "专注回合完成");
}

#[test]
fn an_invitation_to_focus_is_followed() {
    let mut app = online();
    let nudge = Nudge::new(NudgeKind::FocusTogether, "Bob");
    let effects = app.drain_events(vec![Event::Nudge(nudge)], at(1));
    assert!(matches!(&effects[..], [Effect::Notify(n)] if n.summary == "🍅 Bob"));
    assert_eq!(app.pomodoro.state().phase, PomodoroPhase::Focus);
    assert!(app.recent_nudge(at(8)).is_some());
    assert!(app.recent_nudge(at(9)).is_none());
    app.cfg.mute_nudges = true;
    let knock = Nudge::new(NudgeKind::Knock, "Bob");
    assert!(app.drain_events(vec![Event::Nudge(knock)], at(2)).is_empty());
}

#[test]
fn only_known_devices_are_announced() {
    let mut app = online();
    let joined = |online| Event::PeerPresence { device_id: "dev".into(), online };
    assert!(app.drain_events(vec![joined(true)], at(1)).is_empty());
    let effects = app.drain_events(vec![Event::PeerStatus(snap()), joined(false)], at(2));
    assert!(matches!(&effects[..], [Effect::Notify(n)] if n.body == "Name 已断开"));
    assert_eq!(app.log[app.log.len() - 1].text, "Name 离线");
    assert!(app.peer(at(2).ms).is_some());
}

#[test]
fn a_lost_link_makes_the_peer_look_offline() {
    let mut app = online();
    let mut status = snap();
    status.at = at(0).ms;
    app.drain_events(vec![Event::PeerStatus(status)], at(0));
    assert_eq!(app.peer_presence(at(1).ms), Presence::Active);
    assert_eq!(app.peer_presence(at(1000).ms), Presence::Offline);
    app.drain_events(vec![Event::State(ConnState::Offline("x".into()))], at(1));
    assert_eq!(app.peer_presence(at(1).ms), Presence::Offline);
    assert!(app.peer(at(1).ms).is_none());
}

#[test]
fn minutes_goal_and_streak_are_counted_and_published() {
    let mut app = online();
    app.cfg.accountability.daily_goal_min = 50;
    app.data.streak_days = 2;
    app.handle(UiRequest::StartFocus, at(0));
    let effects = app.advance_pomodoro(at(25 * 60));
    assert_eq!(effects.len(), 2, "not there yet");
    app.handle(UiRequest::StartFocus, at(1600));
    let (_, effects) = app.handle(UiRequest::SkipPhase, at(1700));
    assert!(matches!(
        &effects[..],
        [Effect::SaveData, Effect::Notify(n)] if n.body == "今天的 50 分钟完成了，已连续 3 天"
    ));
    app.handle(UiRequest::StartFocus, at(1800));
    let (_, effects) = app.handle(UiRequest::SkipPhase, at(1900));
    assert!(matches!(effects[..], [Effect::SaveData]), "celebrated once");
    let snap = app.build_snapshot(at(1900));
    assert_eq!((snap.focus_today_min, snap.goal_min, snap.streak_days), (75, 50, 3));
    assert_eq!(app.focus_comparison(at(1900).ms), (75, 0));
    assert_eq!(app.data.goal_date, "2023-11-14");

    // Without a goal there is no streak; unshared, none of it is told.
    app.cfg.accountability.daily_goal_min = 0;
    assert_eq!(app.build_snapshot(at(1900)).streak_days, 0);
    app.cfg.privacy.share_pomodoro = false;
    let snap = app.build_snapshot(at(1900));
    assert_eq!((snap.focus_today_min, snap.goal_min, snap.streak_days), (0, 0, 0));
}

#[test]
fn a_session_across_midnight_starts_a_new_day() {
    let mut app = online();
    app.data.focus_today_min = 100;
    app.data.streak_days = 3;
    app.data.goal_date = "2023-11-14".into();
    app.handle(UiRequest::StartFocus, at(0));
    app.handle(UiRequest::SkipPhase, at(1));
    assert_eq!(app.pomodoro.state().completed_today, 1);
    let day = 86_400;
    app.advance_pomodoro(at(day));
    assert_eq!(app.data.counter_date, "2023-11-15");
    assert_eq!((app.data.focus_today_min, app.data.streak_days), (0, 3));
    assert_eq!(app.pomodoro.state().completed_today, 0);
    app.advance_pomodoro(at(2 * day));
    assert_eq!(app.data.streak_days, 0, "a day without the goal breaks the streak");
}

#[test]
fn slacking_in_a_round_is_noticed() {
    let mut app = online();
    let steam = || Sample {
        foreground: Some(ForegroundApp { app: "steam".into(), name: None, title: None }),
        ..Sample::default()
    };
    assert!(app.on_sample(steam(), at(0)).is_empty());
    assert!(app.on_sample(steam(), at(100)).is_empty(), "leisure is nobody's business");
    app.handle(UiRequest::StartFocus, at(100));
    assert!(app.on_sample(steam(), at(100)).is_empty());
    let effects = app.on_sample(steam(), at(130));
    assert!(matches!(
        &effects[..],
        [Effect::Notify(n)] if n.body == "steam 打开了，这一轮还剩 24:30"
    ));
    assert!(app.on_sample(steam(), at(140)).is_empty(), "once per stretch");

    let mut app = online();
    app.cfg.accountability.report_distraction_to_peer = true;
    app.handle(UiRequest::StartFocus, at(0));
    app.on_sample(steam(), at(0));
    let effects = app.on_sample(steam(), at(30));
    assert!(matches!(
        &effects[..],
        [Effect::Notify(_), Effect::Send(Command::Nudge(n))] if n.kind == NudgeKind::Nag
    ));
}

#[test]
fn a_peer_who_met_the_goal_is_cheered() {
    let mut app = online();
    let mut status = snap();
    status.goal_min = 50;
    status.focus_today_min = 25;
    assert!(app.drain_events(vec![Event::PeerStatus(status.clone())], at(0)).is_empty());
    status.focus_today_min = 50;
    let effects = app.drain_events(vec![Event::PeerStatus(status.clone())], at(1));
    assert!(matches!(
        &effects[..],
        [Effect::Send(Command::Nudge(n))]
            if n.kind == NudgeKind::Cheer && n.from_name == "My PC" && n.text.is_none()
    ));
    assert!(app.drain_events(vec![Event::PeerStatus(status.clone())], at(2)).is_empty());
    app.cfg.accountability.auto_cheer = false;
    let mut behind = status.clone();
    behind.focus_today_min = 0;
    let again = vec![Event::PeerStatus(behind), Event::PeerStatus(status)];
    assert!(app.drain_events(again, at(3)).is_empty());
}

#[test]
fn a_nag_comes_with_evidence() {
    let mut app = online();
    let nag = |app: &mut App| match &app.handle(UiRequest::Nudge(NudgeKind::Nag), at(1)).1[..] {
        [Effect::Send(Command::Nudge(n))] => n.text.clone(),
        other => panic!("unexpected: {other:?}"),
    };
    assert_eq!(nag(&mut app), None, "nobody to speak of");
    let mut status = snap();
    status.goal_min = 100;
    status.focus_today_min = 40;
    app.data.focus_today_min = 75;
    app.drain_events(vec![Event::PeerStatus(status)], at(0));
    assert_eq!(nag(&mut app).as_deref(), Some("今天还差 60 分钟，我已经做了 75 分钟了"));
}

#[test]
fn another_privacy_setting_takes_another_engine() {
    let mut app = online();
    app.handle(UiRequest::OpenSettings, at(1));
    app.draft.as_mut().unwrap().privacy.share_todos = false;
    let effects = app.apply_draft(at(1));
    assert!(matches!(effects[..], [Effect::SaveConfig, Effect::Stop, Effect::Start]));

    // One that allows more does not.
    let mut app = online();
    app.handle(UiRequest::OpenSettings, at(1));
    app.draft.as_mut().unwrap().privacy.share_window_title = true;
    assert!(matches!(app.apply_draft(at(1))[..], [Effect::SaveConfig]));
}

#[test]
fn todos_are_added_toggled_and_removed() {
    let mut app = online();
    assert!(app.add_todo("   ", at(1)).is_empty());
    let effects = app.add_todo("  写报告 ", at(1));
    assert!(matches!(
        &effects[..],
        [Effect::SaveData, Effect::Send(Command::PublishTodos(items))] if items.len() == 1
    ));
    assert_eq!(app.data.todos[0].title, "写报告");
    let id = app.data.todos[0].id.clone();
    assert_eq!(id.len(), 16);
    app.toggle_todo(&id, at(2));
    assert!(app.data.todos[0].done);
    assert_eq!(app.data.todos[0].done_at, Some(at(2).ms));
    app.toggle_todo(&id, at(3));
    assert!(!app.data.todos[0].done);
    assert_eq!(app.data.todos[0].done_at, None);
    app.toggle_todo("nobody", at(3));
    app.add_todo("second", at(4));
    app.toggle_todo(&id, at(5));
    app.clear_done_todos();
    assert_eq!(app.data.todos.len(), 1);
    assert_eq!(app.data.todos[0].title, "second");
    let id = app.data.todos[0].id.clone();
    app.cfg.privacy.share_todos = false;
    let effects = app.remove_todo(&id);
    assert!(matches!(effects[..], [Effect::SaveData]), "an unshared list is not sent");
    assert!(app.data.todos.is_empty());
}

#[test]
fn settings_are_applied_as_far_as_they_changed() {
    let mut app = online();
    app.handle(UiRequest::OpenSettings, at(1));
    assert!(app.show_settings);
    assert_eq!(app.draft.as_ref().unwrap().server, app.cfg.server);
    app.draft.as_mut().unwrap().mute_nudges = true;
    let effects = app.apply_draft(at(1));
    assert!(matches!(effects[..], [Effect::SaveConfig]));
    assert!(app.cfg.mute_nudges && !app.show_settings && app.draft.is_none());

    app.handle(UiRequest::OpenSettings, at(2));
    let draft = app.draft.as_mut().unwrap();
    draft.server = "other:1".into();
    draft.autostart = true;
    let effects = app.apply_draft(at(2));
    assert!(matches!(
        effects[..],
        [Effect::SaveConfig, Effect::SetAutostart(true), Effect::Stop, Effect::Start]
    ));
    app.autostart_set(Ok(()), at(3));
    assert_eq!(app.log[app.log.len() - 1].text, "已启用开机自启");
    app.autostart_set(Err("拒绝".into()), at(3));
    assert_eq!(app.log[app.log.len() - 1].text, "设置开机自启失败: 拒绝");
    assert!(app.apply_draft(at(4)).is_empty(), "nothing to apply");
}

#[test]
fn the_system_decides_about_autostart() {
    let mut app = app();
    assert!(app.autostart_found(false).is_empty());
    assert!(matches!(app.autostart_found(true)[..], [Effect::SaveConfig]));
    assert!(app.cfg.autostart);
}

#[test]
fn pokes_need_a_connection() {
    let mut off = app();
    assert!(off.handle(UiRequest::Nudge(NudgeKind::Hug), at(1)).1.is_empty());
    assert_eq!(off.log[off.log.len() - 1].text, "未连接，无法发送互动");
    let mut on = online();
    let effects = on.handle(UiRequest::Nudge(NudgeKind::Hug), at(1)).1;
    assert!(matches!(
        &effects[..],
        [Effect::Send(Command::Nudge(n))] if n.kind == NudgeKind::Hug && n.from_name == "My PC"
    ));
    on.nudge_sent(NudgeKind::Hug, Ok(()), at(1));
    assert_eq!(on.log[on.log.len() - 1].text, "已发送 抱抱");
    on.nudge_sent(NudgeKind::Hug, Err("满".into()), at(1));
    assert_eq!(on.log[on.log.len() - 1].text, "发送失败: 满");
}

#[test]
fn quitting_saves_and_stops() {
    let mut app = online();
    assert!(app.handle(UiRequest::Quit, at(1)).0);
    assert!(matches!(
        app.shutdown()[..],
        [Effect::SaveData, Effect::SaveConfig, Effect::Stop]
    ));
    assert!(!app.running);
    assert!(app.cfg.show_overlay);
    assert!(matches!(app.handle(UiRequest::ToggleOverlay, at(1)).1[..], [Effect::SaveConfig]));
    assert!(!app.cfg.show_overlay);
}

#[test]
fn the_log_keeps_its_tail() {
    let mut app = app();
    for i in 0..300 {
        app.note(format!("{i}"), at(i));
    }
    assert_eq!(app.log.len(), LOG_LINES);
    assert_eq!(app.log[LOG_LINES - 1].text, "299");
    app.config_not_saved("满", at(1));
    assert_eq!(app.log[LOG_LINES - 1].text, "保存配置失败: 满");
    app.data_not_saved("满", at(1));
    assert_eq!(app.log[LOG_LINES - 1].text, "保存数据失败: 满");
    let lines = log_lines(&app.log, 300_000);
    assert_eq!(lines.len(), 100);
    assert_eq!(lines[99], " 299s  保存数据失败: 满");
}

#[test]
fn slacking_is_judged_by_our_own_list() {
    let app = app();
    let mut peer = snap();
    peer.at = at(0).ms;
    peer.pomodoro = Some(PomodoroState { phase: PomodoroPhase::Focus, ..Default::default() });
    peer.foreground =
        Some(ForegroundApp { app: "com.bilibili.app".into(), name: None, title: None });
    assert!(app.is_slacking(&peer, at(1).ms));
    assert!(!app.is_slacking(&peer, at(1000).ms), "a stale peer is not judged");
    peer.pomodoro = None;
    assert!(!app.is_slacking(&peer, at(1).ms));
}

// ------------------------------------------------------------------- notify

#[test]
fn nudge_notifications_do_not_panic_without_a_daemon() {
    let n = Nudge::new(NudgeKind::Knock, "对方");
    let notice = notify::nudge(&n);
    assert_eq!(notice.summary, "👋 对方");
    assert_eq!(notice.alert, Alert::Chime);
}

#[test]
fn pomodoro_notifications_do_not_panic() {
    let done = notify::focus_finished(PomodoroPhase::ShortBreak, 25);
    assert_eq!(done.body, "专注了 25 分钟，该休息了（接下来是小休）");
    assert_eq!(done.alert, Alert::Reminder);
    assert_eq!(notify::break_ending_soon(15).body, "还剩 15 秒，尽快转换为工作状态");
    assert_eq!(notify::break_finished().summary, "☕ 休息结束");
    assert!(notify::update_available("9.9.9").body.contains("9.9.9"));
}

/// The pomodoro cues are the ones the user asked to be audible, and a Windows
/// toast is silent unless a sound is named, so the mapping is worth pinning.
#[test]
fn only_informational_alerts_are_silent() {
    assert_eq!(Alert::Reminder.toast_name(), Some("Reminder"));
    assert_eq!(Alert::Chime.toast_name(), Some("IM"));
    assert_eq!(Alert::Silent.toast_name(), None);
    assert!(Alert::Reminder.xdg_name().is_some());
    assert!(Alert::Chime.xdg_name().is_some());
    assert_eq!(Alert::Silent.xdg_name(), None);
    assert!(Alert::Reminder.is_critical() && !Alert::Chime.is_critical());
}

#[test]
fn accountability_notifications_do_not_panic() {
    assert_eq!(notify::goal_reached(100, 1).body, "今天的 100 分钟完成了");
    assert_eq!(notify::goal_reached(100, 7).body, "今天的 100 分钟完成了，已连续 7 天");
    assert_eq!(
        notify::distraction("bilibili.exe", "12:34").body,
        "bilibili.exe 打开了，这一轮还剩 12:34"
    );
    assert_eq!(notify::peer_presence("PC", true).body, "PC 已连接");
}

// ------------------------------------------------------------------ sensors

#[test]
fn titles_are_trimmed_and_truncated() {
    assert_eq!(trim_title("  hello  "), Some("hello".to_string()));
    assert_eq!(trim_title("   "), None);

    let long = "x".repeat(200);
    let out = trim_title(&long).unwrap();
    assert_eq!(out.chars().count(), 121, "120 chars plus the ellipsis");
    assert!(out.ends_with('…'));
}

#[test]
fn multibyte_titles_are_cut_on_char_boundaries() {
    let long = "中".repeat(200);
    let out = trim_title(&long).unwrap();
    assert!(out.starts_with('中'));
    assert_eq!(out.chars().count(), 121);
}

fn supply(kind: &str, capacity: &str, status: &str) -> PowerSupply {
    PowerSupply {
        kind: Some(kind.into()),
        capacity: Some(capacity.into()),
        status: Some(status.into()),
        time_to_empty_now: None,
    }
}

#[test]
fn battery_reads_are_bounded_or_absent() {
    assert_eq!(battery(&Vec::new()), None);
    for capacity in ["0", "57\n", "100", "101", "4294967295", "4294967296", "-1", ""] {
        if let Some(b) = battery(&vec![supply("Battery", capacity, "Full")]) {
            assert!(b.percent <= 100);
        }
    }
    let machine = vec![
        supply("Mains\n", "1", ""),
        supply("Battery\n", "unknown", ""),
        PowerSupply {
            time_to_empty_now: Some("3600\n".into()),
            ..supply("Battery\n", "57\n", "Discharging\n")
        },
        supply("Battery\n", "9\n", "Full\n"),
    ];
    assert_eq!(
        battery(&machine),
        Some(Battery { percent: 57, charging: false, minutes_left: Some(60) })
    );
    assert!(battery(&vec![supply("Battery", "5", "Not charging")]).unwrap().charging);
}

#[test]
fn battery_percentage_is_in_range_or_absent() {
    for percent in 0..=255u8 {
        for flags in [0u8, 8, 127, 128, 255] {
            if let Some(b) = battery_from_flags(1, flags, percent, u32::MAX) {
                assert!(b.percent <= 100);
            }
        }
    }
    assert_eq!(battery_from_flags(1, 8, 255, 0), None);
    assert_eq!(battery_from_flags(1, 128, 50, 0), None);
    assert_eq!(
        battery_from_flags(0, 0, 50, 7200),
        Some(Battery { percent: 50, charging: false, minutes_left: Some(120) })
    );
}

#[test]
fn idle_time_is_available_in_an_interactive_session() {
    let secs = idle_from_ticks(65_000, 5_000);
    assert!(secs < 60 * 60 * 24 * 60, "implausible idle time: {secs}");
    assert_eq!(secs, 60);
    assert_eq!(idle_from_ticks(1_000, u32::MAX - 999), 2, "the counter wraps");
}

#[test]
fn foreground_and_music_queries_do_not_panic() {
    assert_eq!(foreground_program(None, None), None);
    let f = foreground_program(Some("code.exe".into()), Some(" main.rs ".into())).unwrap();
    assert_eq!((f.app.as_str(), f.name.as_deref()), ("code.exe", Some("code")));
    assert_eq!(f.title.as_deref(), Some("main.rs"));
    let f = foreground_program(None, Some("Game".into())).unwrap();
    assert_eq!((f.app.as_str(), f.name), ("Game", None));
    assert_eq!(player_of("Spotify.exe!Spotify").as_deref(), Some("Spotify"));
    assert_eq!(player_of("Player.exe.exe").as_deref(), Some("Player"));
    assert_eq!(player_of(".exe!x"), None);
    assert_eq!(file_name("C:\\Program Files\\App\\code.exe"), "code.exe");
    assert_eq!(file_name("/usr/bin/code"), "code");
}

#[test]
fn windows_are_named_by_their_class() {
    assert_eq!(window_class("Navigator\0firefox\0").as_deref(), Some("firefox"));
    assert_eq!(window_class("xterm\0").as_deref(), Some("xterm"));
    assert_eq!(window_class("\0\0"), None);
    assert_eq!(foreground_window(None, None), None);
    let w = foreground_window(None, Some("title".into())).unwrap();
    assert_eq!(w.app, "title");
    assert_eq!(w.name, None);
}

#[test]
fn the_media_session_says_what_it_plays() {
    let session = || MediaSession {
        title: Some("歌名".into()),
        artist: Some("".into()),
        album: Some("专辑".into()),
        app_id: Some("Spotify.exe!Spotify".into()),
        playing: true,
    };
    let np = session().now_playing().unwrap();
    assert_eq!(np.artist, None);
    assert_eq!(np.album.as_deref(), Some("专辑"));
    assert_eq!(np.player.as_deref(), Some("Spotify"));
    assert!(np.playing);
    assert!(MediaSession { title: Some(" ".into()), ..session() }.now_playing().is_none());
    assert!(MediaSession { title: None, ..session() }.now_playing().is_none());
    let unknown = MediaSession { app_id: None, playing: false, ..session() };
    let np = unknown.now_playing().unwrap();
    assert_eq!(np.player, None);
    assert!(!np.playing);
}

#[test]
fn players_say_what_they_play() {
    let player = || Player {
        bus_name: "org.mpris.MediaPlayer2.vlc".into(),
        title: Some("歌名".into()),
        artists: Artists::List(vec!["".into(), "歌手".into()]),
        album: None,
        identity: None,
        status: Some("Playing".into()),
    };
    assert!(is_player("org.mpris.MediaPlayer2.vlc"));
    assert!(!is_player("org.freedesktop.DBus"));
    let np = player().now_playing().unwrap();
    assert_eq!(np.artist.as_deref(), Some("歌手"));
    assert_eq!(np.player.as_deref(), Some("vlc"));
    assert!(np.playing);
    let paused = Player { status: None, identity: Some("VLC".into()), ..player() };
    let np = paused.now_playing().unwrap();
    assert!(!np.playing);
    assert_eq!(np.player.as_deref(), Some("VLC"));
    let alone = Player { artists: Artists::One("".into()), ..player() };
    assert_eq!(alone.now_playing().unwrap().artist.as_deref(), Some(""));
    let nobody = Player { artists: Artists::Unknown, ..player() };
    assert_eq!(nobody.now_playing().unwrap().artist, None);
    assert!(Player { title: Some("  ".into()), ..player() }.now_playing().is_none());
    assert!(Player { title: None, ..player() }.now_playing().is_none());
}

// --------------------------------------------------------------------- tray

#[test]
fn nudge_ids_round_trip() {
    for kind in NudgeKind::ALL {
        let raw = nudge_id(kind);
        assert_eq!(raw, format!("nudge:{kind:?}"));
        assert_eq!(map_menu_id(&raw), Some(UiRequest::Nudge(kind)), "id {raw} must map back");
    }
}

#[test]
fn presence_ids_round_trip() {
    for p in CHOICES {
        let raw = presence_id(p);
        assert_eq!(raw, format!("presence:{p:?}"));
        assert_eq!(map_menu_id(&raw), Some(UiRequest::SetPresence(p)));
    }
}

#[test]
fn fixed_ids_map_to_their_requests() {
    assert_eq!(map_menu_id(QUIT), Some(UiRequest::Quit));
    assert_eq!(map_menu_id(SETTINGS), Some(UiRequest::OpenSettings));
    assert_eq!(map_menu_id("unknown-item"), None);
    assert_eq!(map_menu_id("nudge:unknown"), None);
    assert_eq!(map_menu_id("presence:Offline"), None);
}

#[test]
fn every_entry_of_the_menu_does_something() {
    let entries = menu();
    assert_eq!(entries.len(), 17);
    let mut count = 0;
    for entry in &entries[1..] {
        match entry {
            Entry::Item(i) => {
                assert!(map_menu_id(&i.id).is_some(), "{} does nothing", i.id);
                count += 1;
            }
            Entry::Submenu { items, .. } => {
                for i in items {
                    assert!(map_menu_id(&i.id).is_some(), "{} does nothing", i.id);
                    count += 1;
                }
            }
            Entry::Separator => {}
        }
    }
    assert_eq!(count, 10 + 5 + 4);
    assert!(matches!(&entries[7], Entry::Item(i) if i.id == POMODORO_TOGGLE));
}

#[test]
fn the_tray_compares_the_day() {
    let t = accountability(30, 45, 100, true, false);
    assert_eq!(t.summary, "今日专注　我 30 / TA 45　目标 100");
    assert_eq!(t.tooltip, "Synctus\n今日专注：我 30 / TA 45（目标 100 分钟）");
    assert!(t.nag_enabled);
    assert_eq!(t.nag, "👀 别摸鱼了");
    let t = accountability(30, 45, 0, false, true);
    assert_eq!(t.summary, "今日专注　我 30 / TA 45");
    assert_eq!(t.nag, "👀 抓到了，别摸鱼了");
    assert!(!t.nag_enabled);
}

#[test]
fn the_timer_button_says_what_it_does_next() {
    let mut state = PomodoroState::default();
    assert_eq!(pomodoro_label(&state, 0), "开始专注");
    state.phase = PomodoroPhase::Focus;
    state.ends_at = Some(60_000);
    assert_eq!(pomodoro_label(&state, 0), "暂停（专注 01:00）");
    state.paused_left_ms = Some(30_000);
    assert_eq!(pomodoro_label(&state, 0), "继续（00:30）");
}

// ------------------------------------------------------------------ overlay

#[test]
fn connection_hints_are_specific() {
    assert!(connection_hint(&ConnState::Online).contains("已连接"));
    assert!(connection_hint(&ConnState::Offline("网络不可达".into())).contains("网络不可达"));
    assert!(connection_hint(&ConnState::Rejected("配对码不匹配".into())).contains("配对码"));
}

#[test]
fn overlay_fits_a_music_line_at_the_default_font_size() {
    // Roughly: "Artist - Title" at ~7 px per character plus the avatar and
    // margins. A narrower overlay silently clips the most useful line.
    let avatar_and_margins = 44 + 8 * 2 + 6;
    let text_budget = OVERLAY_SIZE[0] - avatar_and_margins;
    assert!(
        text_budget >= 190,
        "only {text_budget} px left for text; the music line will clip"
    );

    // Three stacked lines (name, detail, meta) plus padding.
    let lines = 3 * 18;
    assert!(
        OVERLAY_SIZE[1] >= lines + 16,
        "height {} cannot fit three lines",
        OVERLAY_SIZE[1]
    );
}

#[test]
fn the_overlay_names_the_peer() {
    let waiting = headline(None, Presence::Offline, &ConnState::Connecting);
    assert_eq!(waiting.name, "等待对方…");
    assert_eq!(waiting.badge, "--");
    assert_eq!(waiting.warning.as_deref(), Some("正在连接…"));
    let peer = snap();
    let shown = headline(Some(&peer), Presence::Active, &ConnState::Online);
    assert_eq!((shown.name.as_str(), shown.badge.as_str()), ("Name", "TUX"));
    assert_eq!(shown.warning, None);
    let mut owned = peer.clone();
    owned.user = "A".into();
    let shown_owned = headline(Some(&owned), Presence::Active, &ConnState::Online);
    assert_eq!(shown_owned.name, "A · Name");
    assert_eq!(shown.rgb, Presence::Active.rgb());
    assert_eq!(peer_line(None, 0, 90_000), "尚未收到对方状态");
    assert_eq!(peer_line(Some(&peer), peer.at, 90_000), "空闲");
    assert_eq!(peer_counters(None, 0), "");
    assert_eq!(peer_counters(Some(&peer), 0), "");
}

#[test]
fn the_ring_shows_what_remains() {
    let mut p = PomodoroState {
        phase: PomodoroPhase::Focus,
        ends_at: Some(25 * 60_000),
        ..Default::default()
    };
    assert_eq!(ring(None, 0), 0);
    assert_eq!(ring(Some(&p), 0), 24);
    assert_eq!(ring(Some(&p), 12 * 60_000 + 30_000), 12);
    assert_eq!(ring(Some(&p), 25 * 60_000), 0);
    p.phase = PomodoroPhase::Idle;
    assert_eq!(ring(Some(&p), 0), 0);
}

#[test]
fn the_context_menu_offers_what_can_be_done() {
    assert_eq!(menu_heading(), "Synctus 0.1.0");
    assert_eq!(presence_heading(Presence::Busy), "我的状态：免打扰");
    assert_eq!(nudge_lines().len(), 7);
    assert_eq!(presence_lines().len(), 4);
    assert_eq!(other_lines()[3].request, UiRequest::Quit);
    let mut p = PomodoroState::default();
    assert_eq!(timer_lines(&p, 0).len(), 1);
    p.phase = PomodoroPhase::Focus;
    assert_eq!(timer_lines(&p, 0)[1].request, UiRequest::SkipPhase);
    assert_eq!(rounds_line(&p), "今日完成 0 个回合，当前组内第 0 个");
}

#[test]
fn lists_are_edited_as_lines() {
    let list = parse_list(" KeePass \n\n1Password\r\n   \nx");
    assert_eq!(list, ["KeePass", "1Password", "x"]);
    assert_eq!(show_list(&list), "KeePass\n1Password\nx");
    assert_eq!(parse_list(&show_list(&list)), list);
    assert!(parse_list("").is_empty());
}

#[test]
fn the_lists_of_both_are_shown() {
    let mut t = Todo::new("写报告", 0);
    assert_eq!(peer_todo_line(&t), "☐ 写报告");
    assert!(!any_done(&vec![t.clone()]));
    t.done = true;
    assert_eq!(peer_todo_line(&t), "☑ 写报告");
    assert!(any_done(&vec![t]));
    assert_eq!(log_heading("me", false), "设备 ID me · 房间 未配对");
}

#[test]
fn arguments_of_the_desktop_are_read() {
    let args = |list: &[&str]| parse_args(&list.iter().map(|a| a.to_string()).collect());
    let none = args(&["--unknown"]);
    assert!(!none.minimised && !none.help && !none.version);
    assert!(args(&["-m"]).minimised && args(&["--minimized"]).minimised);
    assert!(args(&["x", "--help"]).help);
    assert!(args(&["-V"]).version);
    assert!(desktop_help().starts_with("Synctus 桌面端 0.1.0\n\n用法:"));
}
