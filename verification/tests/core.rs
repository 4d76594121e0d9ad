use synctus::client::{
    backoff_with, next_backoff, Client, ClientError, BACKOFF_MAX_MS, BACKOFF_START_MS,
};
use synctus::config::{default_device_name, Accountability, ClientConfig, PomodoroConfig, Privacy};
use synctus::crypto::{
    format_invite_code, generate_invite_code, random_challenge, random_id, CryptoError, RoomKeys,
};
use synctus::focus::{Distraction, DistractionTracker};
use synctus::model::{
    ForegroundApp, NowPlaying, Nudge, NudgeKind, PeerMessage, Platform, PomodoroPhase,
    PomodoroState, Presence, StatusSnapshot, Todo,
};
use synctus::dates::utc_date;
use synctus::store::{LocalData, PeerView, Pomodoro, PomodoroEvent};
use synctus::update::{is_newer, offer, release_url, Release, UpdateError, Version};

// ------------------------------------------------------------------- client

#[test]
fn backoff_grows_and_is_capped() {
    let mut d = BACKOFF_START_MS;
    for _ in 0..10 {
        d = next_backoff(d);
    }
    // Cap plus at most 25% jitter.
    assert!(d <= BACKOFF_MAX_MS + BACKOFF_MAX_MS / 4, "got {d}");
    assert!(d >= BACKOFF_MAX_MS);
}

#[test]
fn backoff_at_least_doubles_before_the_cap() {
    assert!(next_backoff(1_000) >= 2_000);
}

#[test]
fn backoff_is_exact_for_a_given_draw() {
    assert_eq!(backoff_with(1_000, 0), 2_000);
    assert_eq!(backoff_with(1_000, 500), 2_500);
    assert_eq!(backoff_with(1_000, 501), 2_000);
    assert_eq!(backoff_with(BACKOFF_MAX_MS, 0), BACKOFF_MAX_MS);
}

#[test]
fn unpaired_config_is_refused() {
    let cfg = ClientConfig::default();
    assert!(Client::spawn(cfg).is_err());
}

#[test]
fn unpaired_config_is_refused_for_its_code() {
    match Client::spawn(ClientConfig::default()) {
        Err(e) => assert_eq!(e, ClientError::NotPaired),
        Ok(_) => panic!("must be refused"),
    }
}

#[test]
fn spawn_derives_keys_for_a_paired_config() {
    let cfg = ClientConfig {
        invite_code: "ABCD-EFGH-IJKL-MNOP".into(),
        ..ClientConfig::default()
    };
    let client = match Client::spawn(cfg) {
        Ok(c) => c,
        Err(_) => panic!("spawn"),
    };
    assert_eq!(client.keys.room_id_hex().len(), 32);
}

// ------------------------------------------------------------------- config

#[test]
fn server_name_strips_port_and_brackets() {
    let mut cfg = ClientConfig {
        server: "sync.example.com:8787".into(),
        ..ClientConfig::default()
    };
    assert_eq!(cfg.server_name(), "sync.example.com");
    cfg.server = "[2001:db8::1]:8787".into();
    assert_eq!(cfg.server_name(), "2001:db8::1");
    cfg.tls_server_name = Some("override".into());
    assert_eq!(cfg.server_name(), "override");
}

#[test]
fn a_fresh_config_has_the_documented_values() {
    let cfg = ClientConfig::default();
    assert_eq!(cfg.poll_secs, 5);
    assert!(!cfg.is_paired());
    assert_eq!(cfg.server, "127.0.0.1:8787");
    assert_eq!(cfg.device_id.len(), 16);
    assert_eq!(cfg.peer_stale_ms(), 90_000);
    assert_eq!(cfg.poll_interval(), 5);
    assert!(!cfg.privacy.share_window_title);
    assert_eq!(cfg.accountability.daily_goal_min, 100);
    assert!(cfg.accountability.is_distracting("com.BiliBili.app"));
    assert!(cfg.accountability.goals_enabled());
}

#[test]
fn intervals_are_kept_within_bounds() {
    let mut cfg = ClientConfig { poll_secs: 0, peer_stale_secs: 1, ..ClientConfig::default() };
    assert_eq!(cfg.poll_interval(), 1);
    assert_eq!(cfg.peer_stale_ms(), 15_000);
    cfg.poll_secs = 10_000;
    cfg.peer_stale_secs = u64::MAX;
    assert_eq!(cfg.poll_interval(), 60);
    assert_eq!(cfg.peer_stale_ms(), 3_600_000);
}

#[test]
fn blocked_apps_match_by_substring_whatever_their_case() {
    let privacy = Privacy { blocked_apps: vec!["KeePass".into()], ..Privacy::default() };
    assert!(privacy.is_blocked("keepassxc.exe"));
    assert!(!privacy.is_blocked("code.exe"));
    let blank = Privacy { blocked_apps: vec!["".into()], ..Privacy::default() };
    assert!(!blank.is_blocked("code.exe"));
}

#[test]
fn eight_code_characters_make_a_pairing() {
    let mut cfg = ClientConfig { invite_code: "ABC-DEF-G".into(), ..ClientConfig::default() };
    assert!(!cfg.is_paired());
    cfg.invite_code = "ABC-DEF-GH".into();
    assert!(cfg.is_paired());
}

#[test]
fn device_names_fall_back_to_the_platform() {
    assert_eq!(default_device_name(Some("PC-1".into()), None, Platform::Windows), "PC-1");
    assert_eq!(
        default_device_name(Some("".into()), Some("host".into()), Platform::Linux),
        "host"
    );
    assert_eq!(default_device_name(None, None, Platform::Android), "Android");
    assert_eq!(default_device_name(None, None, Platform::Linux), "Linux PC");
}

// ------------------------------------------------------------------- crypto

fn keys(code: &str) -> RoomKeys {
    match RoomKeys::derive(code) {
        Ok(k) => k,
        Err(_) => panic!("derive"),
    }
}

#[test]
fn separators_and_case_do_not_change_the_room() {
    let a = keys("abcd-efgh-ijkl-mnop");
    let b = keys("ABCD EFGH IJKL MNOP");
    assert_eq!(a.room_id(), b.room_id());
}

#[test]
fn different_codes_name_different_rooms() {
    assert_ne!(keys("ROOM-CODE-AAAA-1111").room_id(), keys("ROOM-CODE-AAAA-2222").room_id());
}

#[test]
fn roundtrip_with_matching_aad() {
    let k = keys("test-code-1234567");
    let sealed = k.seal(b"hello", b"device-a").unwrap();
    assert_eq!(k.open(&sealed, b"device-a").unwrap(), b"hello");
}

#[test]
fn aad_mismatch_is_rejected() {
    let k = keys("test-code-1234567");
    let sealed = k.seal(b"hello", b"device-a").unwrap();
    assert!(k.open(&sealed, b"device-b").is_err());
}

#[test]
fn tampering_is_detected() {
    let k = keys("test-code-1234567");
    let mut sealed = k.seal(b"hello", b"aad").unwrap();
    let last = sealed.len() - 1;
    sealed[last] ^= 0x01;
    assert!(k.open(&sealed, b"aad").is_err());
}

#[test]
fn nonce_is_fresh_per_message() {
    let k = keys("test-code-1234567");
    let a = k.seal(b"same", b"aad").unwrap();
    let b = k.seal(b"same", b"aad").unwrap();
    assert_ne!(a[..24], b[..24], "nonce must not repeat");
}

#[test]
fn a_given_nonce_makes_sealing_repeatable() {
    let k = keys("test-code-1234567");
    let a = k.seal_with_nonce(&[7u8; 24], b"same", b"aad").unwrap();
    let b = k.seal_with_nonce(&[7u8; 24], b"same", b"aad").unwrap();
    assert_eq!(a, b);
    assert_eq!(a.len(), 4 + 40);
    assert_eq!(a[..24], [7u8; 24]);
    assert_ne!(a[24..28], b"same"[..]);
    assert_eq!(k.open(&a, b"aad").unwrap(), b"same");
}

#[test]
fn auth_response_verifies_and_rejects() {
    let k = keys("test-code-1234567");
    let other = keys("different-code-99");
    let challenge = random_challenge();
    let resp = k.auth_response(&challenge);
    assert!(k.verify_auth(&challenge, &resp));
    assert!(!other.verify_auth(&challenge, &resp));
    assert!(!k.verify_auth(&random_challenge(), &resp));
    assert!(!k.verify_auth(&challenge, &resp[..31]));
}

#[test]
fn short_codes_are_refused() {
    assert!(RoomKeys::derive("ab-cd").is_err());
}

#[test]
fn each_crypto_error_says_what_is_wrong() {
    match RoomKeys::derive("ab-cd") {
        Err(e) => assert_eq!(e, CryptoError::CodeTooShort),
        Ok(_) => panic!("too short"),
    }
    let k = keys("test-code-1234567");
    assert_eq!(k.open(&[0u8; 39], b""), Err(CryptoError::TooShort));
    assert_eq!(k.open(&[0u8; 40], b""), Err(CryptoError::Decrypt));
    for e in [
        CryptoError::CodeTooShort,
        CryptoError::Derive,
        CryptoError::Encrypt,
        CryptoError::TooShort,
        CryptoError::Decrypt,
    ] {
        assert!(!e.message().is_empty());
    }
}

#[test]
fn generated_codes_are_formatted_and_usable() {
    let code = generate_invite_code();
    assert_eq!(code.len(), 19, "16 chars + 3 dashes");
    assert!(RoomKeys::derive(&code).is_ok());
}

#[test]
fn codes_are_grouped_by_four() {
    assert_eq!(format_invite_code("abcdefghijklmnop"), "ABCD-EFGH-IJKL-MNOP");
    assert_eq!(format_invite_code("ab cd-e"), "ABCD-E");
}

#[test]
fn random_ids_are_hex_of_the_asked_length() {
    let id = random_id(8);
    assert_eq!(id.len(), 16);
    assert!(id.chars().all(|c| c.is_ascii_hexdigit() && !c.is_ascii_uppercase()));
    assert_ne!(id, random_id(8));
}

// -------------------------------------------------------------------- focus

fn cfg() -> Accountability {
    Accountability {
        warn_on_distraction: true,
        distracting_apps: vec!["bilibili".into(), "steam".into()],
        distraction_grace_secs: 30,
        ..Accountability::default()
    }
}

fn app(name: &str) -> ForegroundApp {
    ForegroundApp { app: name.to_string(), name: None, title: None }
}

#[test]
fn nothing_fires_outside_a_focus_round() {
    let mut t = DistractionTracker::new();
    let bili = app("bilibili.exe");
    // Not focusing: leisure time is not the tool's business.
    for now in [0, 60_000, 600_000] {
        assert_eq!(t.update(Some(&bili), false, &cfg(), now), Distraction::Nothing);
    }
}

#[test]
fn a_brief_visit_stays_within_the_grace_period() {
    let mut t = DistractionTracker::new();
    let bili = app("bilibili.exe");
    let c = cfg();

    assert_eq!(
        t.update(Some(&bili), true, &c, 0),
        Distraction::Pending { app: "bilibili.exe".into(), secs: 0 }
    );
    assert_eq!(
        t.update(Some(&bili), true, &c, 10_000),
        Distraction::Pending { app: "bilibili.exe".into(), secs: 10 }
    );
    // Back to work before the grace period expired: nothing was reported, so
    // nothing needs to end.
    assert_eq!(t.update(Some(&app("code.exe")), true, &c, 20_000), Distraction::Nothing);
}

#[test]
fn staying_past_the_grace_period_reports_once() {
    let mut t = DistractionTracker::new();
    let bili = app("bilibili.exe");
    let c = cfg();

    t.update(Some(&bili), true, &c, 0);
    assert_eq!(
        t.update(Some(&bili), true, &c, 30_000),
        Distraction::Started { app: "bilibili.exe".into() }
    );
    // Subsequent samples must stay quiet rather than notify every poll.
    assert_eq!(t.update(Some(&bili), true, &c, 60_000), Distraction::Nothing);
    assert_eq!(t.update(Some(&bili), true, &c, 120_000), Distraction::Nothing);
    assert!(t.is_distracted());
}

#[test]
fn returning_to_work_ends_a_reported_distraction() {
    let mut t = DistractionTracker::new();
    let bili = app("bilibili.exe");
    let c = cfg();

    t.update(Some(&bili), true, &c, 0);
    t.update(Some(&bili), true, &c, 30_000);

    assert_eq!(
        t.update(Some(&app("code.exe")), true, &c, 95_000),
        Distraction::Ended { app: "bilibili.exe".into(), secs: 95 }
    );
    assert!(!t.is_distracted());
    // And stays quiet afterwards.
    assert_eq!(t.update(Some(&app("code.exe")), true, &c, 100_000), Distraction::Nothing);
}

#[test]
fn ending_the_focus_round_ends_the_distraction() {
    let mut t = DistractionTracker::new();
    let bili = app("bilibili.exe");
    let c = cfg();

    t.update(Some(&bili), true, &c, 0);
    t.update(Some(&bili), true, &c, 30_000);

    // Pomodoro stopped: the stretch closes rather than hanging around.
    assert_eq!(
        t.update(Some(&bili), false, &c, 45_000),
        Distraction::Ended { app: "bilibili.exe".into(), secs: 45 }
    );
}

#[test]
fn hopping_between_distractions_restarts_the_clock() {
    let mut t = DistractionTracker::new();
    let c = cfg();

    t.update(Some(&app("bilibili.exe")), true, &c, 0);
    // Switch at 20s, before the grace period would have expired.
    assert_eq!(
        t.update(Some(&app("steam.exe")), true, &c, 20_000),
        Distraction::Pending { app: "steam.exe".into(), secs: 0 }
    );
    // The 30s grace period is measured from the switch, not from the start.
    assert_eq!(
        t.update(Some(&app("steam.exe")), true, &c, 40_000),
        Distraction::Pending { app: "steam.exe".into(), secs: 20 }
    );
    assert_eq!(
        t.update(Some(&app("steam.exe")), true, &c, 50_000),
        Distraction::Started { app: "steam.exe".into() }
    );
}

#[test]
fn switching_after_a_report_closes_the_previous_stretch() {
    let mut t = DistractionTracker::new();
    let c = cfg();

    t.update(Some(&app("bilibili.exe")), true, &c, 0);
    t.update(Some(&app("bilibili.exe")), true, &c, 30_000);

    assert_eq!(
        t.update(Some(&app("steam.exe")), true, &c, 60_000),
        Distraction::Ended { app: "bilibili.exe".into(), secs: 60 }
    );
    // The new app is now being tracked from scratch.
    assert_eq!(t.current_app(), Some("steam.exe"));
    assert!(!t.is_distracted());
}

#[test]
fn a_missing_foreground_app_is_not_treated_as_slacking() {
    let mut t = DistractionTracker::new();
    let c = cfg();
    // Wayland, a locked screen or a missing permission all give nothing.
    assert_eq!(t.update(None, true, &c, 0), Distraction::Nothing);
    assert_eq!(t.update(None, true, &c, 60_000), Distraction::Nothing);
}

#[test]
fn matching_is_case_insensitive_and_by_substring() {
    let mut t = DistractionTracker::new();
    let c = cfg();
    // Package names, window class names and executables all differ in case and
    // decoration; substring matching is what makes one list work everywhere.
    t.update(Some(&app("com.BiliBili.app")), true, &c, 0);
    assert_eq!(
        t.update(Some(&app("com.BiliBili.app")), true, &c, 30_000),
        Distraction::Started { app: "com.BiliBili.app".into() }
    );
}

#[test]
fn disabling_the_warning_makes_the_tracker_inert() {
    let mut t = DistractionTracker::new();
    let c = Accountability { warn_on_distraction: false, ..cfg() };
    t.update(Some(&app("bilibili.exe")), true, &c, 0);
    assert_eq!(t.update(Some(&app("bilibili.exe")), true, &c, 300_000), Distraction::Nothing);
}

#[test]
fn zero_grace_period_reports_immediately() {
    let mut t = DistractionTracker::new();
    let c = Accountability { distraction_grace_secs: 0, ..cfg() };
    assert_eq!(
        t.update(Some(&app("steam.exe")), true, &c, 0),
        Distraction::Started { app: "steam.exe".into() }
    );
}

#[test]
fn an_empty_list_never_matches() {
    let mut t = DistractionTracker::new();
    let c = Accountability { distracting_apps: Vec::new(), ..cfg() };
    t.update(Some(&app("bilibili.exe")), true, &c, 0);
    assert_eq!(t.update(Some(&app("bilibili.exe")), true, &c, 60_000), Distraction::Nothing);
}

// -------------------------------------------------------------------- model

#[test]
fn pomodoro_remaining_is_clamped_and_formatted() {
    let st = PomodoroState {
        phase: PomodoroPhase::Focus,
        ends_at: Some(10_000),
        ..Default::default()
    };
    assert_eq!(st.remaining_ms(12_000), 0);
    assert_eq!(st.remaining_text(4_000), "00:06");
}

#[test]
fn paused_pomodoro_ignores_deadline() {
    let st = PomodoroState {
        phase: PomodoroPhase::Focus,
        ends_at: Some(0),
        paused_left_ms: Some(90_000),
        ..Default::default()
    };
    assert!(st.paused());
    assert_eq!(st.remaining_text(999_999), "01:30");
}

#[test]
fn only_status_and_todos_are_retained() {
    let s = PeerMessage::Status(StatusSnapshot::new("d", "n", Platform::Linux));
    assert_eq!(s.retain_slot(), Some("status"));
    assert!(!PeerMessage::Ping { at: 0 }.retained());
}

#[test]
fn todo_lists_have_a_slot_of_their_own() {
    let t = PeerMessage::Todos { device_id: "d".into(), items: Vec::new(), at: 0 };
    assert!(t.retained());
    assert_eq!(t.retain_slot(), Some("todos"));
}

#[test]
fn nudges_read_as_sentences() {
    let mut n = Nudge::new(NudgeKind::Knock, "Bob");
    assert_eq!(n.body(), "👋 Bob 敲了敲你");
    n.text = Some("在吗".into());
    assert_eq!(n.body(), "👋 Bob：在吗");
    n.text = Some("".into());
    assert_eq!(n.body(), "👋 Bob 敲了敲你");
    assert!(NudgeKind::Nag.is_urgent());
    assert!(!NudgeKind::Cheer.is_urgent());
    assert_eq!(NudgeKind::ALL.len(), 7);
}

#[test]
fn music_reads_as_one_line() {
    let mut m = NowPlaying {
        title: "歌名".into(),
        artist: Some("歌手".into()),
        album: None,
        player: None,
        playing: true,
    };
    assert_eq!(m.one_line(), "歌手 - 歌名");
    m.artist = Some("".into());
    assert_eq!(m.one_line(), "歌名");
    m.artist = None;
    assert_eq!(m.one_line(), "歌名");
}

#[test]
fn platforms_are_told_by_the_name_of_the_system() {
    assert_eq!(Platform::current("windows"), Platform::Windows);
    assert_eq!(Platform::current("linux"), Platform::Linux);
    assert_eq!(Platform::current("android"), Platform::Android);
    assert_eq!(Platform::current("macos"), Platform::Other);
}

#[test]
fn a_goal_of_zero_is_never_met() {
    let mut s = StatusSnapshot::new("d", "n", Platform::Linux);
    s.focus_today_min = 50;
    assert!(!s.goal_met());
    s.goal_min = 50;
    assert!(s.goal_met());
    assert!(s.at > 0);
}

// -------------------------------------------------------------------- store

const MIN: i64 = 60_000;

fn pomodoro_cfg() -> PomodoroConfig {
    PomodoroConfig {
        focus_min: 25,
        short_break_min: 5,
        long_break_min: 15,
        rounds_per_set: 4,
        auto_continue: false,
        presence_follows_phase: true,
    }
}

#[test]
fn focus_completes_and_suggests_a_short_break() {
    let mut p = Pomodoro::new(pomodoro_cfg(), 0, 0);
    p.start_focus(0);
    assert_eq!(p.tick(10 * MIN), PomodoroEvent::Nothing);

    let ev = p.tick(25 * MIN);
    assert_eq!(ev, PomodoroEvent::FocusFinished(PomodoroPhase::ShortBreak));
    assert_eq!(p.state().completed_today, 1);
    // auto_continue is off, so the timer parks in Idle.
    assert_eq!(p.state().phase, PomodoroPhase::Idle);
}

#[test]
fn fourth_round_suggests_a_long_break() {
    let mut c = pomodoro_cfg();
    c.auto_continue = true;
    let mut p = Pomodoro::new(c, 0, 0);

    let mut now = 0;
    let mut last = PomodoroEvent::Nothing;
    for _ in 0..4 {
        p.start_focus(now);
        now += 25 * MIN;
        last = p.tick(now);
        // Skip past whatever break was started automatically.
        p.stop();
    }
    assert_eq!(last, PomodoroEvent::FocusFinished(PomodoroPhase::LongBreak));
    assert_eq!(p.state().round, 4);
}

#[test]
fn pause_freezes_and_resume_extends_the_deadline() {
    let mut p = Pomodoro::new(pomodoro_cfg(), 0, 0);
    p.start_focus(0);
    p.pause(5 * MIN);
    assert_eq!(p.state().remaining_ms(60 * MIN), 20 * MIN);

    p.resume(60 * MIN);
    assert_eq!(p.state().remaining_ms(60 * MIN), 20 * MIN);
    assert_eq!(p.state().ends_at, Some(80 * MIN));
    assert_eq!(p.tick(70 * MIN), PomodoroEvent::Nothing);
}

#[test]
fn skip_ends_the_phase_now() {
    let mut p = Pomodoro::new(pomodoro_cfg(), 0, 0);
    p.start_focus(0);
    assert!(matches!(p.skip(MIN), PomodoroEvent::FocusFinished(_)));
}

#[test]
fn presence_follows_phase_when_enabled() {
    let mut p = Pomodoro::new(pomodoro_cfg(), 0, 0);
    assert_eq!(p.implied_presence(), None);
    p.start_focus(0);
    assert_eq!(p.implied_presence(), Some(Presence::Busy));
    p.start(PomodoroPhase::LongBreak, 0);
    assert_eq!(p.implied_presence(), Some(Presence::Resting));

    let mut c = pomodoro_cfg();
    c.presence_follows_phase = false;
    p.set_config(c);
    assert_eq!(p.implied_presence(), None);
}

#[test]
fn breaks_end_in_an_idle_timer() {
    let mut p = Pomodoro::new(pomodoro_cfg(), 2, 2);
    p.start(PomodoroPhase::ShortBreak, 0);
    assert_eq!(p.tick(5 * MIN), PomodoroEvent::BreakFinished);
    assert_eq!(p.state().phase, PomodoroPhase::Idle);
    assert_eq!(p.state().completed_today, 2);
    p.toggle_pause(0);
    assert_eq!(p.state().phase, PomodoroPhase::Idle);
}

#[test]
fn older_snapshots_are_ignored() {
    let mut view = PeerView::default();
    let mut new = StatusSnapshot::new("dev", "Peer", Platform::Linux);
    new.at = 1_000;
    assert!(view.apply_status(new.clone()));

    let mut old = new.clone();
    old.at = 500;
    old.presence = Presence::Away;
    assert!(!view.apply_status(old));
    assert_eq!(view.primary(1_000, 60_000).unwrap().presence, Presence::Active);
}

#[test]
fn snapshots_of_a_device_arrive_in_either_order() {
    let mut a = StatusSnapshot::new("dev", "Peer", Platform::Linux);
    a.at = 1_000;
    let mut b = a.clone();
    b.at = 2_000;
    b.presence = Presence::Busy;
    for (first, second) in [(a.clone(), b.clone()), (b.clone(), a.clone())] {
        let mut view = PeerView::default();
        view.apply_status(first);
        view.apply_status(second);
        assert_eq!(view.device("dev"), Some(&b));
    }
}

#[test]
fn stale_peer_reads_as_offline() {
    let mut view = PeerView::default();
    let mut snap = StatusSnapshot::new("dev", "Peer", Platform::Linux);
    snap.at = 0;
    view.apply_status(snap);
    assert_eq!(view.presence(10_000, 90_000), Presence::Active);
    assert_eq!(view.presence(200_000, 90_000), Presence::Offline);
}

#[test]
fn freshest_device_wins_as_primary() {
    let mut view = PeerView::default();
    let mut pc = StatusSnapshot::new("pc", "PC", Platform::Linux);
    pc.at = 1_000;
    let mut phone = StatusSnapshot::new("phone", "Phone", Platform::Android);
    phone.at = 2_000;
    view.apply_status(pc);
    view.apply_status(phone);
    assert_eq!(view.primary(2_000, 90_000).unwrap().device_id, "phone");
}

#[test]
fn a_live_device_is_shown_before_a_fresher_one_that_left() {
    let mut view = PeerView::default();
    let mut pc = StatusSnapshot::new("pc", "PC", Platform::Linux);
    pc.at = 1_000;
    let mut phone = StatusSnapshot::new("phone", "Phone", Platform::Android);
    phone.at = 2_000;
    view.apply_status(pc);
    view.apply_status(phone);
    view.set_online("phone", false);
    assert_eq!(view.primary(2_000, 90_000).unwrap().device_id, "pc");
    view.set_online("pc", false);
    assert_eq!(view.primary(2_000, 90_000).unwrap().device_id, "phone");
    assert_eq!(view.devices().len(), 2);
    assert_eq!(view.focus_comparison(7, 2_000, 90_000), (7, 0));
    assert!(!view.is_focusing(2_000, 90_000));
}

#[test]
fn settings_are_held_against_each_other() {
    let open = Privacy::default();
    let shut = Privacy { share_battery: false, ..Privacy::default() };
    assert!(shut.is_within(&open));
    assert!(!open.is_within(&shut));
    let blocking = Privacy { blocked_apps: vec!["bank".into(), "x".into()], ..Privacy::default() };
    let less = Privacy { blocked_apps: vec!["x".into()], ..Privacy::default() };
    assert!(blocking.is_within(&less) && less.is_within(&open));
    assert!(!less.is_within(&blocking) && !open.is_within(&less));
}

#[test]
fn a_cleared_view_shows_nobody() {
    let mut view = PeerView::default();
    let mut pc = StatusSnapshot::new("pc", "PC", Platform::Linux);
    pc.at = 1_000;
    view.apply_status(pc);
    view.apply_todos("pc".into(), vec![Todo::new("x", 1)]);
    view.clear();
    assert!(view.primary(1_000, 90_000).is_none());
    assert_eq!(view.presence(1_000, 90_000), Presence::Offline);
    assert!(view.devices().is_empty());
    assert!(view.todos("pc").is_empty());
}

#[test]
fn a_finished_round_is_an_achievement_once() {
    let mut view = PeerView::default();
    let mut pc = StatusSnapshot::new("pc", "PC", Platform::Linux);
    pc.pomodoro = Some(PomodoroState::default());
    assert!(!view.is_achievement(&pc), "nothing to compare with");
    view.apply_status(pc.clone());
    assert!(!view.is_achievement(&pc));
    pc.pomodoro.as_mut().unwrap().completed_today = 1;
    assert!(view.is_achievement(&pc));
    view.apply_status(pc.clone());
    assert!(!view.is_achievement(&pc));
}

#[test]
fn peer_todos_are_kept_by_device() {
    let mut view = PeerView::default();
    view.apply_todos("pc".into(), vec![Todo::new("x", 1)]);
    assert_eq!(view.todos("pc").len(), 1);
    assert_eq!(view.todos("pc")[0].title, "x");
    assert!(view.todos("phone").is_empty());
    assert!(view.device("pc").is_none());
}

#[test]
fn done_today_counts_only_today() {
    let day = 86_400_000;
    let data = LocalData {
        todos: vec![
            Todo {
                id: "a".into(),
                title: "x".into(),
                done: true,
                created_at: 0,
                done_at: Some(day + 100),
                pomodoros: 0,
            },
            Todo {
                id: "b".into(),
                title: "y".into(),
                done: true,
                created_at: 0,
                done_at: Some(100),
                pomodoros: 0,
            },
            Todo {
                id: "c".into(),
                title: "z".into(),
                done: false,
                created_at: 0,
                done_at: None,
                pomodoros: 0,
            },
        ],
        ..Default::default()
    };
    assert_eq!(data.done_today(day + 500), 1);
    assert_eq!(data.open_count(), 1);
}

#[test]
fn utc_date_matches_known_epochs() {
    assert_eq!(utc_date(0), "1970-01-01");
    assert_eq!(utc_date(1_700_000_000_000), "2023-11-14");
}

#[test]
fn utc_dates_know_leap_days_and_earlier_years() {
    assert_eq!(utc_date(951_782_400_000), "2000-02-29");
    assert_eq!(utc_date(951_868_800_000), "2000-03-01");
    assert_eq!(utc_date(-1), "1969-12-31");
}

#[test]
fn day_rollover_resets_counters() {
    let mut data = LocalData {
        completed_today: 5,
        round: 3,
        counter_date: "1970-01-01".into(),
        ..Default::default()
    };
    data.roll_day(86_400_000 * 2);
    assert_eq!(data.completed_today, 0);
    assert_eq!(data.round, 0);
    assert_eq!(data.counter_date, "1970-01-03");
}

#[test]
fn a_streak_lasts_while_the_goal_is_met_every_day() {
    let mut data = LocalData {
        counter_date: "1970-01-02".into(),
        goal_date: "1970-01-02".into(),
        focus_today_min: 100,
        streak_days: 5,
        ..Default::default()
    };
    data.roll_day(86_400_000 * 2);
    assert_eq!((data.focus_today_min, data.streak_days), (0, 5));
    data.roll_day(86_400_000 * 3);
    assert_eq!(data.streak_days, 0);
}

// ------------------------------------------------------------------- update

#[test]
fn version_ordering() {
    assert!(is_newer("0.2.0", "0.1.9"));
    assert!(is_newer("v1.0.0", "0.9.9"));
    assert!(is_newer("1.0.1", "1.0.0"));
    assert!(!is_newer("0.1.0", "0.1.0"));
    assert!(!is_newer("0.1.0", "0.2.0"));
}

#[test]
fn short_and_prefixed_tags_parse() {
    assert_eq!(Version::parse("v1").unwrap(), Version(1, 0, 0));
    assert_eq!(Version::parse("1.2").unwrap(), Version(1, 2, 0));
    assert_eq!(Version::parse("1.2.3-beta.1").unwrap(), Version(1, 2, 3));
}

#[test]
fn garbage_tags_never_report_an_update() {
    assert!(!is_newer("nightly", "0.1.0"));
    assert!(!is_newer("", "0.1.0"));
}

#[test]
fn numbers_that_do_not_fit_are_no_version() {
    assert_eq!(Version::parse("4294967295").unwrap(), Version(u32::MAX, 0, 0));
    assert!(Version::parse("4294967296").is_err());
}

#[test]
fn repo_must_look_like_owner_slash_name() {
    assert!(release_url("not-a-repo").is_err());
}

#[test]
fn releases_are_asked_for_by_repository() {
    match release_url("not-a-repo") {
        Err(UpdateError::Repo(text)) => assert_eq!(text, "not-a-repo"),
        _ => panic!("must name the repository"),
    }
    assert_eq!(
        release_url("LANqed/Synctus").unwrap(),
        "https://api.github.com/repos/LANqed/Synctus/releases/latest"
    );
}

#[test]
fn only_a_newer_published_release_is_offered() {
    let release = |tag: &str| Release {
        tag_name: tag.into(),
        html_url: "https://example.com".into(),
        body: "notes".into(),
        prerelease: false,
        draft: false,
    };
    let found = offer(&release("v0.2.0"), "0.1.0").unwrap();
    assert_eq!(found.version, "0.2.0");
    assert!(offer(&release("v0.1.0"), "0.1.0").is_none());
    assert!(offer(&Release { draft: true, ..release("v0.2.0") }, "0.1.0").is_none());
    assert!(offer(&Release { prerelease: true, ..release("v0.2.0") }, "0.1.0").is_none());
}
