//! Application state of the desktop client: what each event, request and tick
//! does.
//!
//! The UI thread owns an [`App`] and performs the [`Effect`]s that its methods
//! return: sending, saving, notifying. Anything that could block happens on other
//! threads and comes back here as an event or a sample.

use vstd::prelude::*;

use crate::bridge::{
    capped_sum, choose_presence, chosen, detail_text, meta_text, nag_text, nags_about, peer_detail,
    peer_meta,
};
use crate::client::{Client, Command, ConnState, Event, Order};
use crate::config::{listed, ClientConfig};
use crate::crypto::{hex, is_code_char, normalised};
use crate::dates::{utc_date, utc_date_text};
use crate::focus::{sampled, Distraction, DistractionTracker, Stretch, Verdict};
use crate::model::{
    app_text, clone_todos, music_text, option_text, Battery, ForegroundApp, NowPlaying, Nudge, NudgeKind,
    NudgeText, Platform, PomodoroPhase, PomodoroState, Presence, StatusSnapshot, StatusText, Todo,
};
use crate::notify::{self, Notice, NoticeText};
use crate::sensors::Sample;
use crate::sharing::{share_foreground, shared_app};
use crate::store::{
    achieved_once, at_least_one, done_todos, lasting, open_todos, LocalData, PeerView, Peers, Pomodoro, PomodoroEvent,
    Timer,
};
use crate::text::{same, trim, trimmed_text};
use crate::tray::UiRequest;
use crate::update::UpdateInfo;

verus! {

/// A time: milliseconds since the epoch, and of a clock that never jumps.
#[derive(Debug, Clone, Copy, PartialEq, Eq, Structural)]
pub struct Moment {
    pub ms: i64,
    pub mono: u64,
}

/// Milliseconds between two readings of the steady clock.
pub open spec fn elapsed(then: u64, now: u64) -> int {
    if now >= then {
        now - then
    } else {
        0
    }
}

fn since(then: u64, now: u64) -> (r: u64)
    ensures
        r == elapsed(then, now),
{
    if now >= then {
        now - then
    } else {
        0
    }
}

/// A line in the in-app log pane, so users can diagnose connection trouble
/// without a terminal.
#[derive(Debug)]
pub struct LogLine {
    pub at: u64,
    pub text: String,
}

/// What a line of the log says.
pub struct LogText {
    pub at: u64,
    pub text: Seq<char>,
}

impl View for LogLine {
    type V = LogText;

    open spec fn view(&self) -> LogText {
        LogText { at: self.at, text: self.text@ }
    }
}

pub open spec fn log_text(log: Seq<LogLine>) -> Seq<LogText> {
    log.map_values(|l: LogLine| l@)
}

/// Lines that the log keeps.
pub const LOG_LINES: usize = 200;

/// Milliseconds after which an unchanged status is sent again.
pub const REFRESH_MS: u64 = 30_000;

/// Something to be done outside.
#[derive(Debug)]
pub enum Effect {
    /// Hand a command to the engine.
    Send(Command),
    /// Stop the engine that is running.
    Stop,
    /// Start an engine: see [`App::start_engine`].
    Start,
    Notify(Notice),
    SaveConfig,
    SaveData,
    SetAutostart(bool),
    /// Look for a newer release of this repository.
    CheckUpdate(String),
}

/// What is to be done.
pub enum Deed {
    Send(Order),
    Stop,
    Start,
    Notify(NoticeText),
    SaveConfig,
    SaveData,
    SetAutostart(bool),
    CheckUpdate(Seq<char>),
}

impl View for Effect {
    type V = Deed;

    open spec fn view(&self) -> Deed {
        match *self {
            Effect::Send(c) => Deed::Send(c@),
            Effect::Stop => Deed::Stop,
            Effect::Start => Deed::Start,
            Effect::Notify(n) => Deed::Notify(n@),
            Effect::SaveConfig => Deed::SaveConfig,
            Effect::SaveData => Deed::SaveData,
            Effect::SetAutostart(on) => Deed::SetAutostart(on),
            Effect::CheckUpdate(repo) => Deed::CheckUpdate(repo@),
        }
    }
}

pub open spec fn deeds(effects: Seq<Effect>) -> Seq<Deed> {
    effects.map_values(|e: Effect| e@)
}

fn request(effects: &mut Vec<Effect>, effect: Effect)
    ensures
        deeds(final(effects)@) == deeds(old(effects)@).push(effect@),
{
    effects.push(effect);
}

#[derive(Debug)]
pub struct App {
    pub cfg: ClientConfig,
    pub platform: Platform,
    pub data: LocalData,
    pub pomodoro: Pomodoro,
    pub peers: PeerView,
    /// Watches the foreground app during focus rounds.
    pub distraction: DistractionTracker,
    /// Whether an engine runs: not before a pairing code is configured.
    pub running: bool,
    pub conn: ConnState,
    pub log: Vec<LogLine>,
    /// Latest sensor sample.
    pub sample: Sample,
    pub last_sample_request: u64,
    /// Last snapshot handed to the engine, used to avoid republishing unchanged
    /// state.
    pub last_published: Option<StatusSnapshot>,
    pub last_publish_at: Option<u64>,
    /// Presence the user picked explicitly. `None` lets the pomodoro and idle
    /// detection decide.
    pub manual_presence: Option<Presence>,
    /// Newest incoming poke, for the overlay animation.
    pub last_nudge: Option<(Nudge, u64)>,
    /// Set when a newer release is found.
    pub update: Option<UpdateInfo>,
    /// Whether a check is in flight.
    pub checking: bool,
    pub show_settings: bool,
    /// Text being edited in the settings pane, applied on save.
    pub draft: Option<ClientConfig>,
}

/// The state of the application.
pub struct Desk {
    pub cfg: ClientConfig,
    pub platform: Platform,
    pub todos: Seq<Todo>,
    pub completed_today: u32,
    pub round: u32,
    pub counter_date: Seq<char>,
    pub focus_today_min: u32,
    pub streak_days: u32,
    pub goal_date: Seq<char>,
    pub timer: Timer,
    pub peers: Peers,
    pub distraction: Option<Stretch>,
    pub running: bool,
    pub conn: ConnState,
    pub log: Seq<LogText>,
    pub sample: Sample,
    pub last_sample_request: u64,
    pub last_published: Option<StatusSnapshot>,
    pub last_publish_at: Option<u64>,
    pub manual: Option<Presence>,
    pub last_nudge: Option<(Nudge, u64)>,
    pub update: Option<UpdateInfo>,
    pub checking: bool,
    pub show_settings: bool,
    pub draft: Option<ClientConfig>,
}

impl View for App {
    type V = Desk;

    open spec fn view(&self) -> Desk {
        Desk {
            cfg: self.cfg,
            platform: self.platform,
            todos: self.data.todos@,
            completed_today: self.data.completed_today,
            round: self.data.round,
            counter_date: self.data.counter_date@,
            focus_today_min: self.data.focus_today_min,
            streak_days: self.data.streak_days,
            goal_date: self.data.goal_date@,
            timer: self.pomodoro@,
            peers: self.peers@,
            distraction: self.distraction@,
            running: self.running,
            conn: self.conn,
            log: log_text(self.log@),
            sample: self.sample,
            last_sample_request: self.last_sample_request,
            last_published: self.last_published,
            last_publish_at: self.last_publish_at,
            manual: self.manual_presence,
            last_nudge: self.last_nudge,
            update: self.update,
            checking: self.checking,
            show_settings: self.show_settings,
            draft: self.draft,
        }
    }
}

/// Idle time, in minutes.
pub open spec fn idle_minutes(idle: Option<u32>) -> Option<u32> {
    match idle {
        Some(s) => Some((s / 60) as u32),
        None => None,
    }
}

/// Bucket idle seconds so a ticking counter does not cause a publish per poll.
pub fn idle_bucket(idle: Option<u32>) -> (r: Option<u32>)
    ensures
        r == idle_minutes(idle),
{
    match idle {
        Some(s) => Some(s / 60),
        None => None,
    }
}

/// Two snapshots say the same, but for the time, and idle time only by the
/// minute.
pub open spec fn same_status(a: StatusSnapshot, b: StatusSnapshot) -> bool {
    &&& a.presence == b.presence
    &&& app_text(a.foreground) == app_text(b.foreground)
    &&& a.battery == b.battery
    &&& music_text(a.music) == music_text(b.music)
    &&& a.pomodoro == b.pomodoro
    &&& a.todos_open == b.todos_open
    &&& a.todos_done_today == b.todos_done_today
    &&& idle_minutes(a.idle_secs) == idle_minutes(b.idle_secs)
    &&& a.focus_today_min == b.focus_today_min
    &&& a.goal_min == b.goal_min
    &&& a.streak_days == b.streak_days
}

fn same_option(a: &Option<String>, b: &Option<String>) -> (r: bool)
    ensures
        r == (option_text(*a) == option_text(*b)),
{
    match (a, b) {
        (Some(x), Some(y)) => same(x.as_str(), y.as_str()),
        (None, None) => true,
        _ => false,
    }
}

fn same_app(a: &Option<ForegroundApp>, b: &Option<ForegroundApp>) -> (r: bool)
    ensures
        r == (app_text(*a) == app_text(*b)),
{
    match (a, b) {
        (Some(x), Some(y)) => same(x.app.as_str(), y.app.as_str()) && same_option(
            &x.name,
            &y.name,
        ) && same_option(&x.title, &y.title),
        (None, None) => true,
        _ => false,
    }
}

fn same_music(a: &Option<NowPlaying>, b: &Option<NowPlaying>) -> (r: bool)
    ensures
        r == (music_text(*a) == music_text(*b)),
{
    match (a, b) {
        (Some(x), Some(y)) => same(x.title.as_str(), y.title.as_str()) && same_option(
            &x.artist,
            &y.artist,
        ) && same_option(&x.album, &y.album) && same_option(&x.player, &y.player) && x.playing
            == y.playing,
        (None, None) => true,
        _ => false,
    }
}

fn same_battery(a: &Option<Battery>, b: &Option<Battery>) -> (r: bool)
    ensures
        r == (*a == *b),
{
    match (a, b) {
        (Some(x), Some(y)) => x.percent == y.percent && x.charging == y.charging && same_number(
            x.minutes_left,
            y.minutes_left,
        ),
        (None, None) => true,
        _ => false,
    }
}

fn same_number(a: Option<u32>, b: Option<u32>) -> (r: bool)
    ensures
        r == (a == b),
{
    match (a, b) {
        (Some(x), Some(y)) => x == y,
        (None, None) => true,
        _ => false,
    }
}

fn same_time(a: Option<i64>, b: Option<i64>) -> (r: bool)
    ensures
        r == (a == b),
{
    match (a, b) {
        (Some(x), Some(y)) => x == y,
        (None, None) => true,
        _ => false,
    }
}

fn same_pomodoro(a: &Option<PomodoroState>, b: &Option<PomodoroState>) -> (r: bool)
    ensures
        r == (*a == *b),
{
    match (a, b) {
        (Some(x), Some(y)) => x.phase == y.phase && same_time(x.ends_at, y.ends_at) && same_time(
            x.paused_left_ms,
            y.paused_left_ms,
        ) && x.round == y.round && x.completed_today == y.completed_today,
        (None, None) => true,
        _ => false,
    }
}

/// Compare two snapshots ignoring the timestamp, so an unchanged status is not
/// republished every poll.
pub fn snapshot_eq(a: &StatusSnapshot, b: &StatusSnapshot) -> (r: bool)
    ensures
        r == same_status(*a, *b),
{
    a.presence == b.presence && same_app(&a.foreground, &b.foreground) && same_battery(
        &a.battery,
        &b.battery,
    ) && same_music(&a.music, &b.music) && same_pomodoro(&a.pomodoro, &b.pomodoro) && a.todos_open
        == b.todos_open && a.todos_done_today == b.todos_done_today && same_number(
        idle_bucket(a.idle_secs),
        idle_bucket(b.idle_secs),
    ) && a.focus_today_min == b.focus_today_min && a.goal_min == b.goal_min && a.streak_days
        == b.streak_days
}

/// What a list holds without the items with an id.
pub open spec fn without_id(todos: Seq<Todo>, id: Seq<char>) -> Seq<Todo> {
    todos.filter(|t: Todo| t.id@ != id)
}

/// The first item with an id.
pub open spec fn first_with_id(todos: Seq<Todo>, id: Seq<char>) -> Option<int>
    decreases todos.len(),
{
    if todos.len() == 0 {
        None
    } else {
        match first_with_id(todos.drop_last(), id) {
            Some(i) => Some(i),
            None => if todos.last().id@ == id {
                Some(todos.len() - 1)
            } else {
                None
            },
        }
    }
}

/// The list after the box of an item was clicked.
pub open spec fn toggled(todos: Seq<Todo>, id: Seq<char>, now: i64) -> Seq<Todo> {
    match first_with_id(todos, id) {
        Some(i) => todos.update(
            i,
            Todo {
                done: !todos[i].done,
                done_at: if todos[i].done {
                    None
                } else {
                    Some(now)
                },
                ..todos[i]
            },
        ),
        None => todos,
    }
}

impl Desk {
    /// A line was added to the log, which keeps only the recent tail.
    pub open spec fn noted(self, text: Seq<char>, at: Moment) -> Desk {
        let log = self.log.push(LogText { at: at.mono, text });
        Desk {
            log: if log.len() > LOG_LINES {
                log.skip(log.len() - LOG_LINES)
            } else {
                log
            },
            ..self
        }
    }

    /// Presence to publish: an explicit choice wins, then the pomodoro phase, then
    /// idle detection.
    pub open spec fn presence(self) -> Presence {
        match self.manual {
            Some(p) => p,
            None => match self.timer.presence() {
                Some(p) => p,
                None => if self.cfg.away_after_secs > 0 && (self.sample.idle_secs matches Some(idle)
                    && idle >= self.cfg.away_after_secs) {
                    Presence::Away
                } else {
                    Presence::Active
                },
            },
        }
    }

    /// What is published.
    pub open spec fn snapshot(self, now: int) -> StatusText {
        let p = self.cfg.privacy;
        StatusText {
            device_id: self.cfg.device_id@,
            name: self.cfg.device_name@,
            user: self.cfg.user@,
            platform: self.platform,
            at: now,
            presence: self.presence(),
            foreground: shared_app(p, self.sample.foreground),
            battery: if p.share_battery {
                self.sample.battery
            } else {
                None
            },
            music: if p.share_music {
                self.sample.music
            } else {
                None
            },
            pomodoro: if p.share_pomodoro {
                Some(self.timer.state)
            } else {
                None
            },
            todos_open: if p.share_todos {
                open_todos(self.todos).len() as u32
            } else {
                0
            },
            todos_done_today: if p.share_todos {
                done_todos(self.todos, now).len() as u32
            } else {
                0
            },
            idle_secs: if p.share_idle {
                self.sample.idle_secs
            } else {
                None
            },
            // The accountability numbers ride along with the pomodoro permission:
            // same activity, same kind of information.
            focus_today_min: if p.share_pomodoro {
                self.focus_today_min
            } else {
                0
            },
            goal_min: if p.share_pomodoro {
                self.cfg.accountability.daily_goal_min
            } else {
                0
            },
            streak_days: if p.share_pomodoro {
                self.streak()
            } else {
                0
            },
        }
    }

    /// Days in a row on which the goal was met; none where there is no goal.
    pub open spec fn streak(self) -> u32 {
        if self.cfg.accountability.daily_goal_min == 0 {
            0
        } else {
            self.streak_days
        }
    }

    /// The goal stands and is met.
    pub open spec fn goal_met(self) -> bool {
        self.cfg.accountability.daily_goal_min > 0 && self.focus_today_min
            >= self.cfg.accountability.daily_goal_min
    }

    /// The state on the day of `now`: the counters of another day are void.
    pub open spec fn rolled(self, now: int) -> Desk {
        if self.counter_date == utc_date_text(now) {
            self
        } else {
            Desk {
                counter_date: utc_date_text(now),
                completed_today: 0,
                round: 0,
                focus_today_min: 0,
                streak_days: lasting(self.streak_days, self.goal_date, now),
                timer: self.timer.on_new_day(),
                ..self
            }
        }
    }

    /// A focus round was finished: its minutes are credited, and the round that
    /// crosses the goal counts towards the streak.
    pub open spec fn credited(self, now: int) -> Desk {
        let done = Desk {
            focus_today_min: capped_sum(
                self.focus_today_min,
                at_least_one(self.timer.cfg.focus_min),
            ),
            ..self
        };
        if done.goal_met() && !self.goal_met() {
            Desk {
                streak_days: capped_sum(self.streak_days, 1),
                goal_date: utc_date_text(now),
                ..done
            }
        } else {
            done
        }
    }

    /// What is done about a focus round that was finished: it is saved, and the one
    /// that crosses the goal is celebrated.
    pub open spec fn credits(self, now: int) -> Seq<Deed> {
        let done = self.credited(now);
        seq![Deed::SaveData] + (if done.goal_met() && !self.goal_met() {
            seq![
                Deed::Notify(
                    notify::goal_notice(
                        self.cfg.accountability.daily_goal_min,
                        done.streak_days,
                    ),
                ),
            ]
        } else {
            Seq::empty()
        })
    }

    /// In a focus round that is not paused.
    pub open spec fn focusing(self) -> bool {
        self.timer.state.phase == PomodoroPhase::Focus && self.timer.state.paused_left_ms is None
    }

    /// An interaction, sent.
    pub open spec fn poke(self, kind: NudgeKind, text: Option<Seq<char>>, at: Moment) -> Deed {
        Deed::Send(
            Order::Nudge(
                NudgeText { kind, text, from_name: self.cfg.device_name@, at: at.ms as int },
            ),
        )
    }

    /// A sample came in, and is a chance to notice slacking off: the state, and
    /// what is done.
    pub open spec fn sampled(self, sample: Sample, at: Moment) -> (Desk, Seq<Deed>) {
        let (stretch, verdict) = sampled(
            self.distraction,
            sample.foreground,
            self.focusing(),
            self.cfg.accountability,
            at.ms as int,
        );
        (
            Desk { sample, distraction: stretch, ..self },
            match verdict {
                Verdict::Started { app } => seq![
                    Deed::Notify(
                        notify::distraction_notice(app, self.timer.state.clock_text(at.ms as int)),
                    ),
                ] + (if self.cfg.accountability.report_distraction_to_peer && self.running {
                    seq![
                        self.poke(
                            NudgeKind::Nag,
                            Some("我在专注时打开了 "@ + app + "，盯着我"@),
                            at,
                        ),
                    ]
                } else {
                    Seq::empty()
                }),
                _ => Seq::empty(),
            },
        )
    }

    /// The counters as they are saved.
    pub open spec fn counted(self) -> Desk {
        Desk {
            completed_today: self.timer.state.completed_today,
            round: self.timer.state.round,
            ..self
        }
    }

    /// The to-do list, pushed to the peer if it may be.
    pub open spec fn todos_sent(self) -> Seq<Deed> {
        if self.cfg.privacy.share_todos && self.running {
            seq![Deed::Send(Order::PublishTodos(self.todos))]
        } else {
            Seq::empty()
        }
    }

    /// The to-do list changed: it is saved and pushed.
    pub open spec fn todos_changed(self) -> Seq<Deed> {
        seq![Deed::SaveData] + self.counted().todos_sent()
    }

    /// The to-do list was edited: the state, and what is done.
    pub open spec fn listing(self, todos: Seq<Todo>) -> (Desk, Seq<Deed>) {
        let changed = Desk { todos, ..self };
        (changed.counted().stirred(), changed.todos_changed())
    }

    /// It is time for another sample.
    pub open spec fn sample_due(self, at: Moment) -> bool {
        let secs = self.cfg.poll_secs;
        let interval = if secs < 1 {
            1
        } else if secs > 60 {
            60
        } else {
            secs as int
        };
        elapsed(self.last_sample_request, at.mono) >= 1000 * interval
    }

    /// What the newest poke says, while it is fresh.
    pub open spec fn fresh_nudge(self, at: Moment) -> Option<Seq<char>> {
        match self.last_nudge {
            Some((n, then)) => if elapsed(then, at.mono) < 8000 {
                Some(n.body_text())
            } else {
                None
            },
            None => None,
        }
    }

    /// A peer says that they focus, while an app of our list is in front of them.
    pub open spec fn slacks(self, peer: StatusSnapshot, now: int) -> bool {
        &&& !peer.stale(now, self.cfg.stale_ms())
        &&& peer.focusing()
        &&& peer.foreground matches Some(fg) && listed(
            self.cfg.accountability.distracting_apps@,
            fg.app@,
        )
    }

    pub open spec fn paired(self) -> bool {
        self.cfg.invite_code@.filter(|c: char| is_code_char(c)).len() >= 8
    }

    /// (Re)start the engine: the state, and what is done.
    pub open spec fn connected(self, at: Moment) -> (Desk, Seq<Deed>) {
        if !self.paired() {
            (self.noted("配对码为空，无法连接"@, at), Seq::empty())
        } else {
            (
                Desk { running: false, ..self },
                if self.running {
                    seq![Deed::Stop, Deed::Start]
                } else {
                    seq![Deed::Start]
                },
            )
        }
    }

    /// The next publish is due whatever it says.
    pub open spec fn stirred(self) -> Desk {
        Desk { last_published: None, ..self }
    }

    pub open spec fn with_timer(self, timer: Timer) -> Desk {
        Desk { timer, ..self }
    }

    /// A check for updates is under way.
    pub open spec fn checked(self) -> (Desk, Seq<Deed>) {
        if self.checking {
            (self, Seq::empty())
        } else {
            (
                Desk { checking: true, ..self },
                seq![Deed::CheckUpdate(self.cfg.update_repo@)],
            )
        }
    }

    /// An event of the engine: the state, and what is done.
    pub open spec fn heard(self, event: Event, at: Moment) -> (Desk, Seq<Deed>) {
        match event {
            Event::State(state) => {
                let told = match state {
                    ConnState::Online => self.noted("已连接"@, at),
                    // Peers cannot be trusted as live once the link drops.
                    ConnState::Offline(why) => (Desk {
                        peers: Peers::nobody(),
                        ..self
                    }).noted("连接断开: "@ + why@, at),
                    ConnState::Rejected(why) => self.noted("连接被拒绝: "@ + why@, at),
                    ConnState::Connecting => self,
                };
                (Desk { conn: state, ..told }, Seq::empty())
            },
            Event::PeerStatus(snap) => (
                Desk { peers: self.peers.told(snap), ..self },
                if self.cfg.accountability.auto_cheer && self.running && self.peers.achieves(
                    snap,
                ) {
                    seq![self.poke(NudgeKind::Cheer, None, at)]
                } else {
                    Seq::empty()
                },
            ),
            Event::PeerTodos { device_id, items } => (
                Desk {
                    peers: Peers {
                        todos: self.peers.todos.insert(device_id@, items@),
                        ..self.peers
                    },
                    ..self
                },
                Seq::empty(),
            ),
            Event::Nudge(nudge) => {
                // "一起专注" is the one interaction with a side effect: if we are
                // idle, start a focus round so the two timers line up.
                let told = self.noted(nudge.body_text(), at);
                let after = if nudge.kind == NudgeKind::FocusTogether && self.timer.state.phase
                    == PomodoroPhase::Idle {
                    told.with_timer(
                        told.timer.started(PomodoroPhase::Focus, at.ms as int),
                    ).stirred().noted("已跟随对方开始专注"@, at)
                } else {
                    told
                };
                (
                    Desk { last_nudge: Some((nudge, at.mono)), ..after },
                    if self.cfg.mute_nudges {
                        Seq::empty()
                    } else {
                        seq![Deed::Notify(notify::nudge_notice(nudge))]
                    },
                )
            },
            Event::PeerPresence { device_id, online } => {
                // Only announce a device we have actually seen, so the welcome
                // does not produce a toast per reconnect.
                let known = self.peers.devices.contains_key(device_id@);
                let name = self.peers.devices[device_id@].name@;
                let told = if known {
                    self.noted(
                        name + " "@ + (if online {
                            "上线"@
                        } else {
                            "离线"@
                        }),
                        at,
                    )
                } else {
                    self
                };
                (
                    Desk {
                        peers: Peers {
                            online: self.peers.online.insert(device_id@, online),
                            ..self.peers
                        },
                        ..told
                    },
                    if known && !self.cfg.mute_nudges {
                        seq![Deed::Notify(notify::presence_notice(name, online))]
                    } else {
                        Seq::empty()
                    },
                )
            },
            Event::Warning(text) => (self.noted(text@, at), Seq::empty()),
        }
    }

    /// Events of the engine, one after the other.
    pub open spec fn heard_all(self, events: Seq<Event>, at: Moment) -> (Desk, Seq<Deed>)
        decreases events.len(),
    {
        if events.len() == 0 {
            (self, Seq::empty())
        } else {
            let (before, done) = self.heard_all(events.drop_last(), at);
            let (after, more) = before.heard(events.last(), at);
            (after, done + more)
        }
    }

    /// The tick of the pomodoro: the state, and what is done.
    pub open spec fn ticked(self, at: Moment) -> (Desk, Seq<Deed>) {
        let today = self.rolled(at.ms as int);
        let (timer, event) = today.timer.ticked(at.ms as int);
        let after = today.with_timer(timer);
        match event {
            PomodoroEvent::Nothing => (after, Seq::empty()),
            PomodoroEvent::FocusFinished(next) => (
                after.credited(at.ms as int).counted().noted("专注回合完成"@, at),
                after.credits(at.ms as int).push(
                    Deed::Notify(
                        notify::focus_notice(next, at_least_one(self.timer.cfg.focus_min)),
                    ),
                ),
            ),
            PomodoroEvent::BreakFinished => (
                after.noted("休息结束"@, at),
                seq![Deed::Notify(notify::break_notice())],
            ),
        }
    }

    /// The text of a poke: none, but a nag comes with evidence.
    pub open spec fn poke_says(self, kind: NudgeKind, now: int, text: Option<Seq<char>>) -> bool {
        if kind == NudgeKind::Nag {
            nags_about(self.peers, self.cfg, self.focus_today_min, now, text)
        } else {
            text is None
        }
    }

    /// A request of the tray or the overlay: the state, and what is done. Quitting
    /// and the text of a poke are the caller's.
    pub open spec fn asked(self, request: UiRequest, text: Option<Seq<char>>, at: Moment) -> (
        Desk,
        Seq<Deed>,
    ) {
        let now = at.ms as int;
        match request {
            UiRequest::Nudge(kind) => if self.running {
                (self, seq![self.poke(kind, text, at)])
            } else {
                (self.noted("未连接，无法发送互动"@, at), Seq::empty())
            },
            UiRequest::SetPresence(p) => (
                Desk { manual: chosen(p), ..self }.stirred(),
                Seq::empty(),
            ),
            UiRequest::TogglePomodoro => (
                self.with_timer(self.timer.toggled(now)).stirred(),
                Seq::empty(),
            ),
            UiRequest::StartFocus => (
                self.with_timer(self.timer.started(PomodoroPhase::Focus, now)).stirred(),
                Seq::empty(),
            ),
            UiRequest::StopPomodoro => (
                self.with_timer(self.timer.stopped()).stirred(),
                Seq::empty(),
            ),
            UiRequest::SkipPhase => {
                // Skipping still finishes the round, so it credits its minutes as
                // the deadline does.
                let (timer, event) = self.timer.skipped(now);
                let after = self.with_timer(timer);
                if event is FocusFinished {
                    (after.credited(now).counted().stirred(), after.credits(now))
                } else {
                    (after.stirred(), Seq::empty())
                }
            },
            UiRequest::ToggleOverlay => (
                Desk {
                    cfg: ClientConfig { show_overlay: !self.cfg.show_overlay, ..self.cfg },
                    ..self
                },
                seq![Deed::SaveConfig],
            ),
            UiRequest::OpenSettings => (Desk { show_settings: true, ..self }, Seq::empty()),
            UiRequest::CheckUpdate => self.checked(),
            UiRequest::Reconnect => self.connected(at),
            UiRequest::Quit => (self, Seq::empty()),
        }
    }

    /// What an edited configuration changes about the connection.
    pub open spec fn needs_reconnect(self, draft: ClientConfig) -> bool {
        ||| draft.server@ != self.cfg.server@
        ||| draft.tls != self.cfg.tls
        ||| draft.invite_code@ != self.cfg.invite_code@
        ||| draft.device_id@ != self.cfg.device_id@
        // An engine replays what it published last, which may not be told any more.
        ||| !self.cfg.privacy.within(draft.privacy)
    }

    /// An edited configuration was applied: the state, and what is done.
    pub open spec fn applied(self, at: Moment) -> (Desk, Seq<Deed>) {
        match self.draft {
            None => (self, Seq::empty()),
            Some(draft) => {
                let taken = Desk {
                    cfg: draft,
                    draft: None,
                    timer: Timer { cfg: draft.pomodoro, ..self.timer },
                    ..self
                };
                let saved = if draft.autostart != self.cfg.autostart {
                    seq![Deed::SaveConfig, Deed::SetAutostart(draft.autostart)]
                } else {
                    seq![Deed::SaveConfig]
                };
                // Privacy toggles change what we publish, so force a refresh.
                let (after, more) = if self.needs_reconnect(draft) {
                    taken.connected(at)
                } else {
                    (taken.stirred(), Seq::empty())
                };
                (Desk { show_settings: false, ..after }, saved + more)
            },
        }
    }

    /// The state at the start, with what was loaded from disk, and what is done.
    pub open spec fn opened(
        cfg: ClientConfig,
        data: LocalData,
        platform: Platform,
        at: Moment,
        conn: ConnState,
    ) -> (Desk, Seq<Deed>) {
        let fresh = data.counter_date@ == utc_date_text(at.ms as int);
        let completed = if fresh {
            data.completed_today
        } else {
            0
        };
        let round = if fresh {
            data.round
        } else {
            0
        };
        let minutes = if fresh {
            data.focus_today_min
        } else {
            0
        };
        let streak = if fresh {
            data.streak_days
        } else {
            lasting(data.streak_days, data.goal_date@, at.ms as int)
        };
        let blank = Desk {
            cfg,
            platform,
            todos: data.todos@,
            completed_today: completed,
            round,
            counter_date: utc_date_text(at.ms as int),
            focus_today_min: minutes,
            streak_days: streak,
            goal_date: data.goal_date@,
            distraction: None,
            timer: Timer {
                cfg: cfg.pomodoro,
                state: PomodoroState::idle(round, completed),
            },
            peers: Peers::nobody(),
            running: false,
            conn,
            log: Seq::empty(),
            sample: Sample {
                foreground: None,
                battery: None,
                music: None,
                idle_secs: None,
            },
            last_sample_request: at.mono,
            last_published: None,
            last_publish_at: None,
            manual: None,
            last_nudge: None,
            update: None,
            checking: false,
            show_settings: false,
            draft: None,
        };
        let (ready, done) = if blank.paired() {
            blank.connected(at)
        } else {
            (
                Desk {
                    show_settings: true,
                    ..blank.noted("尚未配对：请在设置中填入配对码"@, at)
                },
                Seq::empty(),
            )
        };
        let (after, more) = if cfg.check_updates {
            ready.checked()
        } else {
            (ready, Seq::empty())
        };
        (after, done + more)
    }

    /// A check for updates ended: the state, and what is done.
    pub open spec fn learned(self, found: Option<UpdateInfo>, at: Moment) -> (Desk, Seq<Deed>) {
        match found {
            Some(info) => (
                Desk { update: Some(info), checking: false, ..self }.noted(
                    "发现新版本 "@ + info.version@,
                    at,
                ),
                seq![Deed::Notify(notify::update_notice(info.version@))],
            ),
            None => (Desk { checking: false, ..self }, Seq::empty()),
        }
    }

    /// The application ends: the state, and what is done.
    pub open spec fn closed(self) -> (Desk, Seq<Deed>) {
        (
            Desk { running: false, ..self.counted() },
            seq![Deed::SaveData, Deed::SaveConfig] + (if self.running {
                seq![Deed::Stop]
            } else {
                Seq::empty()
            }),
        )
    }

    /// There is something to publish: the link is up, and the status changed or
    /// was not sent for a while.
    pub open spec fn owes(self, snap: StatusSnapshot, at: Moment) -> bool {
        &&& self.running
        &&& self.conn is Online
        &&& {
            ||| self.last_published is None
            ||| self.last_published matches Some(prev) && !same_status(prev, snap)
            ||| self.last_publish_at is None
            ||| self.last_publish_at matches Some(then) && elapsed(then, at.mono) >= REFRESH_MS
        }
    }
}

impl App {
    pub open spec fn wf(&self) -> bool {
        self.peers.wf()
    }

    /// The application at its start, with what was loaded from disk: it connects
    /// when a pairing code is set, and else asks for one.
    #[verifier::rlimit(30)]
    pub fn new(cfg: ClientConfig, data: LocalData, platform: Platform, at: Moment) -> (r: (
        App,
        Vec<Effect>,
    ))
        ensures
            r.0.wf(),
            r.0@.conn matches ConnState::Offline(why) && why@ == "未连接"@,
            (r.0@, deeds(r.1@)) == Desk::opened(cfg, data, platform, at, r.0@.conn),
    {
        let mut data = data;
        data.roll_day(at.ms);
        let pomodoro = Pomodoro::new(cfg.pomodoro, data.round, data.completed_today);
        let mut app = App {
            cfg,
            platform,
            data,
            pomodoro,
            peers: PeerView::default(),
            distraction: DistractionTracker::new(),
            running: false,
            conn: ConnState::Offline("未连接".to_string()),
            log: Vec::new(),
            sample: Sample::default(),
            last_sample_request: at.mono,
            last_published: None,
            last_publish_at: None,
            manual_presence: None,
            last_nudge: None,
            update: None,
            checking: false,
            show_settings: false,
            draft: None,
        };
        assert(app@.log == Seq::<LogText>::empty());
        let mut effects: Vec<Effect> = Vec::new();
        assert(deeds(effects@) == Seq::<Deed>::empty());
        if app.cfg.is_paired() {
            app.connect(&mut effects, at);
        } else {
            app.note("尚未配对：请在设置中填入配对码".to_string(), at);
            app.show_settings = true;
        }
        if app.cfg.check_updates {
            app.start_update_check(&mut effects);
        }
        (app, effects)
    }

    /// The registry key or desktop entry can be removed behind our back. Trust the
    /// OS over the config file so the settings checkbox shows reality.
    pub fn autostart_found(&mut self, actual: bool) -> (r: Vec<Effect>)
        requires
            old(self).wf(),
        ensures
            final(self).wf(),
            final(self)@ == (Desk {
                cfg: ClientConfig { autostart: actual, ..old(self)@.cfg },
                ..old(self)@
            }),
            deeds(r@) == (if actual != old(self)@.cfg.autostart {
                seq![Deed::SaveConfig]
            } else {
                Seq::empty()
            }),
    {
        let mut effects: Vec<Effect> = Vec::new();
        assert(deeds(effects@) == Seq::<Deed>::empty());
        if actual != self.cfg.autostart {
            self.cfg.autostart = actual;
            request(&mut effects, Effect::SaveConfig);
        }
        effects
    }

    /// (Re)start the engine with the current config.
    fn connect(&mut self, effects: &mut Vec<Effect>, at: Moment)
        requires
            old(self).wf(),
        ensures
            final(self).wf(),
            final(self)@ == old(self)@.connected(at).0,
            deeds(final(effects)@) == deeds(old(effects)@) + old(self)@.connected(at).1,
    {
        if !self.cfg.is_paired() {
            self.note("配对码为空，无法连接".to_string(), at);
            return;
        }
        // Reusing the engine across config changes would mean re-deriving keys
        // inside it; tearing it down is simpler and happens rarely.
        if self.running {
            self.running = false;
            request(effects, Effect::Stop);
        }
        request(effects, Effect::Start);
    }

    /// Builds the engine to run, or notes why there is none.
    pub fn start_engine(&mut self, at: Moment) -> (r: Option<Client>)
        requires
            old(self).wf(),
        ensures
            final(self).wf(),
            r is Some <==> 8 <= normalised(old(self)@.cfg.invite_code@).len() <= 0xffff_ffff,
            r matches Some(client) ==> {
                &&& client.wf()
                &&& client.cfg.like(old(self)@.cfg)
                &&& final(self)@ == (Desk {
                    running: true,
                    conn: ConnState::Connecting,
                    ..old(self)@
                }).stirred().noted("正在连接 "@ + old(self)@.cfg.server@, at)
            },
            r is None ==> {
                let why = if normalised(old(self)@.cfg.invite_code@).len() < 8 {
                    "尚未设置配对码"@
                } else {
                    crate::crypto::CryptoError::Derive.text()
                };
                &&& final(self)@.conn matches ConnState::Rejected(text) && text@ == why
                &&& final(self)@ == (Desk { conn: final(self)@.conn, ..old(self)@ }).noted(
                    "启动客户端失败: "@ + why,
                    at,
                )
            },
    {
        match Client::spawn(self.cfg.clone()) {
            Ok(client) => {
                self.running = true;
                self.conn = ConnState::Connecting;
                // Force a publish on the new connection.
                self.last_published = None;
                let line = "正在连接 ".to_string().concat(self.cfg.server.as_str());
                self.note(line, at);
                Some(client)
            },
            Err(e) => {
                self.conn = ConnState::Rejected(e.message().to_string());
                self.note("启动客户端失败: ".to_string().concat(e.message()), at);
                None
            },
        }
    }

    /// The latest sensor sample.
    pub fn on_sample(&mut self, sample: Sample, at: Moment) -> (r: Vec<Effect>)
        requires
            old(self).wf(),
        ensures
            final(self).wf(),
            (final(self)@, deeds(r@)) == old(self)@.sampled(sample, at),
    {
        let mut effects: Vec<Effect> = Vec::new();
        assert(deeds(effects@) == Seq::<Deed>::empty());
        let state = self.pomodoro.state();
        let focusing = state.phase == PomodoroPhase::Focus && !state.paused();
        let seen = match &sample.foreground {
            Some(f) => Some(f),
            None => None,
        };
        let verdict = self.distraction.update(seen, focusing, &self.cfg.accountability, at.ms);
        self.sample = sample;
        if let Distraction::Started { app } = verdict {
            let remaining = state.remaining_text(at.ms);
            request(
                &mut effects,
                Effect::Notify(notify::distraction(app.as_str(), remaining.as_str())),
            );
            if self.cfg.accountability.report_distraction_to_peer && self.running {
                let mut nudge = Nudge::sent_at(
                    NudgeKind::Nag,
                    self.cfg.device_name.as_str(),
                    at.ms,
                );
                nudge.text = Some(
                    "我在专注时打开了 ".to_string().concat(app.as_str()).concat("，盯着我"),
                );
                request(&mut effects, Effect::Send(Command::Nudge(nudge)));
            }
        }
        effects
    }

    /// Whether a sample is due; if so, it is asked for now.
    pub fn request_sample_if_due(&mut self, at: Moment) -> (r: bool)
        requires
            old(self).wf(),
        ensures
            final(self).wf(),
            r == old(self)@.sample_due(at),
            final(self)@ == (if r {
                Desk { last_sample_request: at.mono, ..old(self)@ }
            } else {
                old(self)@
            }),
    {
        if since(self.last_sample_request, at.mono) >= 1000 * self.cfg.poll_interval() {
            self.last_sample_request = at.mono;
            true
        } else {
            false
        }
    }

    /// What the events of the engine do.
    pub fn drain_events(&mut self, events: Vec<Event>, at: Moment) -> (r: Vec<Effect>)
        requires
            old(self).wf(),
        ensures
            final(self).wf(),
            (final(self)@, deeds(r@)) == old(self)@.heard_all(events@, at),
    {
        let mut effects: Vec<Effect> = Vec::new();
        let ghost all = events@;
        let ghost first = self@;
        assert(deeds(effects@) == Seq::<Deed>::empty());
        assert(all.take(0).len() == 0);
        for event in it: events
            invariant
                self.wf(),
                it.seq() == all,
                (self@, deeds(effects@)) == first.heard_all(all.take(it.index()), at),
        {
            assert(all.take(it.index() + 1).drop_last() == all.take(it.index()));
            assert(all.take(it.index() + 1).last() == event);
            self.on_event(&mut effects, event, at);
        }
        assert(all.take(all.len() as int) == all);
        effects
    }

    #[verifier::rlimit(30)]
    fn on_event(&mut self, effects: &mut Vec<Effect>, event: Event, at: Moment)
        requires
            old(self).wf(),
        ensures
            final(self).wf(),
            final(self)@ == old(self)@.heard(event, at).0,
            deeds(final(effects)@) == deeds(old(effects)@) + old(self)@.heard(event, at).1,
    {
        match event {
            Event::State(state) => {
                match &state {
                    ConnState::Online => self.note("已连接".to_string(), at),
                    ConnState::Offline(why) => {
                        self.peers.clear();
                        self.note("连接断开: ".to_string().concat(why.as_str()), at);
                    },
                    ConnState::Rejected(why) => {
                        self.note("连接被拒绝: ".to_string().concat(why.as_str()), at);
                    },
                    ConnState::Connecting => {},
                }
                self.conn = state;
            },
            Event::PeerStatus(snap) => {
                // Encouragement does not depend on someone remembering.
                if self.cfg.accountability.auto_cheer && self.running
                    && self.peers.is_achievement(&snap) {
                    let nudge = Nudge::sent_at(
                        NudgeKind::Cheer,
                        self.cfg.device_name.as_str(),
                        at.ms,
                    );
                    request(effects, Effect::Send(Command::Nudge(nudge)));
                }
                self.peers.apply_status(snap);
            },
            Event::PeerTodos { device_id, items } => {
                self.peers.apply_todos(device_id, items);
            },
            Event::Nudge(nudge) => {
                if !self.cfg.mute_nudges {
                    request(effects, Effect::Notify(notify::nudge(&nudge)));
                }
                self.note(nudge.body(), at);
                if nudge.kind == NudgeKind::FocusTogether && self.pomodoro.state().phase
                    == PomodoroPhase::Idle {
                    self.pomodoro.start_focus(at.ms);
                    self.last_published = None;
                    self.note("已跟随对方开始专注".to_string(), at);
                }
                self.last_nudge = Some((nudge, at.mono));
            },
            Event::PeerPresence { device_id, online } => {
                let name = match self.peers.device(device_id.as_str()) {
                    Some(d) => Some(d.name.clone()),
                    None => None,
                };
                if let Some(name) = name {
                    if !self.cfg.mute_nudges {
                        request(
                            effects,
                            Effect::Notify(notify::peer_presence(name.as_str(), online)),
                        );
                    }
                    let what = if online {
                        "上线"
                    } else {
                        "离线"
                    };
                    self.note(name.concat(" ").concat(what), at);
                }
                self.peers.set_online(device_id.as_str(), online);
            },
            Event::Warning(text) => self.note(text, at),
        }
    }

    /// The tick of the pomodoro.
    pub fn advance_pomodoro(&mut self, at: Moment) -> (r: Vec<Effect>)
        requires
            old(self).wf(),
        ensures
            final(self).wf(),
            (final(self)@, deeds(r@)) == old(self)@.ticked(at),
    {
        let mut effects: Vec<Effect> = Vec::new();
        assert(deeds(effects@) == Seq::<Deed>::empty());
        let minutes: u32 = if self.pomodoro.config().focus_min == 0 {
            1
        } else {
            self.pomodoro.config().focus_min
        };
        self.roll_day(at.ms);
        match self.pomodoro.tick(at.ms) {
            PomodoroEvent::Nothing => {},
            PomodoroEvent::FocusFinished(next) => {
                self.credit_round(&mut effects, at.ms);
                request(&mut effects, Effect::Notify(notify::focus_finished(next, minutes)));
                self.note("专注回合完成".to_string(), at);
            },
            PomodoroEvent::BreakFinished => {
                request(&mut effects, Effect::Notify(notify::break_finished()));
                self.note("休息结束".to_string(), at);
            },
        }
        effects
    }

    /// A new day starts with new counters.
    fn roll_day(&mut self, now: i64)
        requires
            old(self).wf(),
        ensures
            final(self).wf(),
            final(self)@ == old(self)@.rolled(now as int),
    {
        if !same(self.data.counter_date.as_str(), utc_date(now).as_str()) {
            self.data.roll_day(now);
            self.pomodoro.start_day();
        }
    }

    /// Credits the minutes of a focus round that was finished.
    fn credit_round(&mut self, effects: &mut Vec<Effect>, now: i64)
        requires
            old(self).wf(),
        ensures
            final(self).wf(),
            final(self)@ == old(self)@.credited(now as int).counted(),
            deeds(final(effects)@) == deeds(old(effects)@) + old(self)@.credits(now as int),
    {
        let goal: u32 = self.cfg.accountability.daily_goal_min;
        let minutes: u32 = if self.pomodoro.config().focus_min == 0 {
            1
        } else {
            self.pomodoro.config().focus_min
        };
        let was_met = goal > 0 && self.data.focus_today_min >= goal;
        self.data.focus_today_min = self.data.focus_today_min.saturating_add(minutes);
        let now_met = goal > 0 && self.data.focus_today_min >= goal;
        // Only the round that crosses the goal gets a celebration.
        if now_met && !was_met {
            self.data.streak_days = self.data.streak_days.saturating_add(1);
            self.data.goal_date = utc_date(now);
        }
        self.save_data(effects);
        if now_met && !was_met {
            request(effects, Effect::Notify(notify::goal_reached(goal, self.data.streak_days)));
        }
    }

    /// Days in a row on which the goal was met; none where there is no goal.
    pub fn streak(&self) -> (r: u32)
        ensures
            r == self@.streak(),
    {
        if self.cfg.accountability.daily_goal_min == 0 {
            0
        } else {
            self.data.streak_days
        }
    }

    /// My minutes of focus today beside those of the peer we display; the peer
    /// counts for nothing while no device of theirs is known.
    pub fn focus_comparison(&self, now: i64) -> (r: (u32, u32))
        requires
            self.wf(),
        ensures
            r.0 == self@.focus_today_min,
            self@.peers.none_known() ==> r.1 == 0,
            !self@.peers.none_known() ==> exists|id: Seq<char>| #[trigger]
                self@.peers.displayed(id, now as int, self@.cfg.stale_ms()) && r.1
                    == self@.peers.devices[id].focus_today_min,
    {
        self.peers.focus_comparison(self.data.focus_today_min, now, self.cfg.peer_stale_ms())
    }

    /// Presence to publish: an explicit choice wins, then the pomodoro phase, then
    /// idle detection.
    pub fn own_presence(&self) -> (r: Presence)
        ensures
            r == self@.presence(),
    {
        if let Some(p) = self.manual_presence {
            return p;
        }
        if let Some(p) = self.pomodoro.implied_presence() {
            return p;
        }
        if self.cfg.away_after_secs > 0 {
            if let Some(idle) = self.sample.idle_secs {
                if idle >= self.cfg.away_after_secs {
                    return Presence::Away;
                }
            }
        }
        Presence::Active
    }

    /// Build the snapshot we would publish right now, honouring privacy settings.
    pub fn build_snapshot(&self, at: Moment) -> (r: StatusSnapshot)
        ensures
            r@ == self@.snapshot(at.ms as int),
    {
        let privacy = &self.cfg.privacy;
        let mut snap = StatusSnapshot::taken_at(
            self.cfg.device_id.as_str(),
            self.cfg.device_name.as_str(),
            self.platform,
            at.ms,
        );
        snap.user = self.cfg.user.clone();
        snap.presence = self.own_presence();
        snap.foreground = share_foreground(privacy, &self.sample.foreground);
        if privacy.share_battery {
            snap.battery = self.sample.battery;
        }
        if privacy.share_music {
            snap.music = match &self.sample.music {
                Some(m) => Some(m.clone()),
                None => None,
            };
        }
        if privacy.share_pomodoro {
            snap.pomodoro = Some(self.pomodoro.state());
            snap.focus_today_min = self.data.focus_today_min;
            snap.goal_min = self.cfg.accountability.daily_goal_min;
            snap.streak_days = self.streak();
        }
        if privacy.share_todos {
            snap.todos_open = self.data.open_count();
            snap.todos_done_today = self.data.done_today(at.ms);
        }
        if privacy.share_idle {
            snap.idle_secs = self.sample.idle_secs;
        }
        snap
    }

    /// What to publish, if anything: when something changed, or at least once per
    /// heartbeat so the peer can tell we are alive.
    pub fn publish_if_changed(&self, at: Moment) -> (r: Option<StatusSnapshot>)
        ensures
            match r {
                Some(snap) => snap@ == self@.snapshot(at.ms as int) && self@.owes(snap, at),
                None => exists|snap: StatusSnapshot|
                    #![trigger self@.owes(snap, at)]
                    snap@ == self@.snapshot(at.ms as int) && !self@.owes(snap, at),
            },
    {
        let snap = self.build_snapshot(at);
        if !self.running || !matches!(self.conn, ConnState::Online) {
            assert(!self@.owes(snap, at));
            return None;
        }
        let changed = match &self.last_published {
            // Compare everything except `at`, which always differs.
            Some(prev) => !snapshot_eq(prev, &snap),
            None => true,
        };
        let stale = match self.last_publish_at {
            Some(then) => since(then, at.mono) >= REFRESH_MS,
            None => true,
        };
        if changed || stale {
            Some(snap)
        } else {
            assert(!self@.owes(snap, at));
            None
        }
    }

    /// The engine took a snapshot.
    pub fn published(&mut self, snap: StatusSnapshot, at: Moment)
        requires
            old(self).wf(),
        ensures
            final(self).wf(),
            final(self)@ == (Desk {
                last_published: Some(snap),
                last_publish_at: Some(at.mono),
                ..old(self)@
            }),
    {
        self.last_published = Some(snap);
        self.last_publish_at = Some(at.mono);
    }

    /// Push the to-do list to the peer.
    fn publish_todos(&self, effects: &mut Vec<Effect>)
        ensures
            deeds(final(effects)@) == deeds(old(effects)@) + self@.todos_sent(),
    {
        if self.cfg.privacy.share_todos && self.running {
            request(effects, Effect::Send(Command::PublishTodos(clone_todos(&self.data.todos))));
        }
    }

    /// Handle a request from the tray or the overlay. The flag says that the
    /// application is to quit.
    #[verifier::rlimit(30)]
    pub fn handle(&mut self, req: UiRequest, at: Moment) -> (r: (bool, Vec<Effect>))
        requires
            old(self).wf(),
        ensures
            final(self).wf(),
            r.0 == (req == UiRequest::Quit),
            match req {
                UiRequest::Nudge(kind) => exists|text: Option<Seq<char>>| #[trigger]
                    old(self)@.poke_says(kind, at.ms as int, text) && deeds(r.1@) == old(
                        self,
                    )@.asked(req, text, at).1,
                _ => deeds(r.1@) == old(self)@.asked(req, None, at).1,
            },
            req != UiRequest::OpenSettings ==> final(self)@ == old(self)@.asked(req, None, at).0,
            // The settings start from a copy of what is configured.
            req == UiRequest::OpenSettings ==> {
                &&& final(self)@.draft matches Some(d) && d.like(old(self)@.cfg)
                &&& final(self)@ == (Desk {
                    draft: final(self)@.draft,
                    ..old(self)@.asked(req, None, at).0
                })
            },
    {
        let mut effects: Vec<Effect> = Vec::new();
        assert(deeds(effects@) == Seq::<Deed>::empty());
        match req {
            UiRequest::Nudge(kind) => {
                self.send_nudge(&mut effects, kind, at);
            },
            UiRequest::SetPresence(_) | UiRequest::TogglePomodoro | UiRequest::StartFocus
            | UiRequest::StopPomodoro => {
                self.steer(req, at);
            },
            UiRequest::SkipPhase => {
                self.skip_phase(&mut effects, at);
                assert(deeds(effects@) == old(self)@.asked(req, None, at).1);
            },
            UiRequest::ToggleOverlay => {
                self.toggle_overlay(&mut effects);
                assert(deeds(effects@) == old(self)@.asked(req, None, at).1);
            },
            UiRequest::OpenSettings => {
                self.open_settings();
            },
            UiRequest::CheckUpdate => {
                self.start_update_check(&mut effects);
                assert(deeds(effects@) == old(self)@.asked(req, None, at).1);
            },
            UiRequest::Reconnect => {
                self.connect(&mut effects, at);
                assert(deeds(effects@) == old(self)@.asked(req, None, at).1);
            },
            UiRequest::Quit => {},
        }
        (matches!(req, UiRequest::Quit), effects)
    }

    fn toggle_overlay(&mut self, effects: &mut Vec<Effect>)
        requires
            old(self).wf(),
        ensures
            final(self).wf(),
            final(self)@ == (Desk {
                cfg: ClientConfig { show_overlay: !old(self)@.cfg.show_overlay, ..old(self)@.cfg },
                ..old(self)@
            }),
            deeds(final(effects)@) == deeds(old(effects)@).push(Deed::SaveConfig),
    {
        self.cfg.show_overlay = !self.cfg.show_overlay;
        request(effects, Effect::SaveConfig);
    }

    fn open_settings(&mut self)
        requires
            old(self).wf(),
        ensures
            final(self).wf(),
            final(self)@.draft matches Some(d) && d.like(old(self)@.cfg),
            final(self)@ == (Desk { show_settings: true, draft: final(self)@.draft, ..old(self)@ }),
    {
        self.draft = Some(self.cfg.clone());
        self.show_settings = true;
    }

    /// Requests that change what the next snapshot says.
    fn steer(&mut self, req: UiRequest, at: Moment)
        requires
            old(self).wf(),
            req is SetPresence || req is TogglePomodoro || req is StartFocus || req is StopPomodoro,
        ensures
            final(self).wf(),
            final(self)@ == old(self)@.asked(req, None, at).0,
    {
        match req {
            UiRequest::SetPresence(p) => {
                self.manual_presence = choose_presence(p);
            },
            UiRequest::TogglePomodoro => {
                if self.pomodoro.state().phase == PomodoroPhase::Idle {
                    self.pomodoro.start_focus(at.ms);
                } else {
                    self.pomodoro.toggle_pause(at.ms);
                }
            },
            UiRequest::StartFocus => self.pomodoro.start_focus(at.ms),
            UiRequest::StopPomodoro => self.pomodoro.stop(),
            _ => {},
        }
        self.last_published = None;
    }

    fn skip_phase(&mut self, effects: &mut Vec<Effect>, at: Moment)
        requires
            old(self).wf(),
        ensures
            final(self).wf(),
            final(self)@ == old(self)@.asked(UiRequest::SkipPhase, None, at).0,
            deeds(final(effects)@) == deeds(old(effects)@) + old(self)@.asked(
                UiRequest::SkipPhase,
                None,
                at,
            ).1,
    {
        let event = self.pomodoro.skip(at.ms);
        if let PomodoroEvent::FocusFinished(_) = event {
            self.credit_round(effects, at.ms);
        }
        self.last_published = None;
    }

    fn send_nudge(&mut self, effects: &mut Vec<Effect>, kind: NudgeKind, at: Moment)
        requires
            old(self).wf(),
            deeds(old(effects)@) == Seq::<Deed>::empty(),
        ensures
            final(self).wf(),
            final(self)@ == old(self)@.asked(UiRequest::Nudge(kind), None, at).0,
            exists|text: Option<Seq<char>>| #[trigger]
                old(self)@.poke_says(kind, at.ms as int, text) && deeds(final(effects)@) == old(
                    self,
                )@.asked(UiRequest::Nudge(kind), text, at).1,
    {
        let mut nudge = Nudge::sent_at(kind, self.cfg.device_name.as_str(), at.ms);
        if kind == NudgeKind::Nag {
            nudge.text = nag_text(&self.peers, &self.cfg, self.data.focus_today_min, at.ms);
        }
        let ghost says = option_text(nudge.text);
        assert(self@.poke_says(kind, at.ms as int, says));
        if !self.running {
            self.note("未连接，无法发送互动".to_string(), at);
            assert(deeds(effects@) == old(self)@.asked(UiRequest::Nudge(kind), says, at).1);
            return;
        }
        request(effects, Effect::Send(Command::Nudge(nudge)));
        assert(deeds(effects@) == old(self)@.asked(UiRequest::Nudge(kind), says, at).1);
    }

    /// Whether the engine took a poke.
    pub fn nudge_sent(&mut self, kind: NudgeKind, outcome: Result<(), String>, at: Moment)
        requires
            old(self).wf(),
        ensures
            final(self).wf(),
            final(self)@ == old(self)@.noted(
                match outcome {
                    Ok(_) => "已发送 "@ + kind.label_text(),
                    Err(why) => "发送失败: "@ + why@,
                },
                at,
            ),
    {
        match outcome {
            Ok(_) => self.note("已发送 ".to_string().concat(kind.label()), at),
            Err(why) => self.note("发送失败: ".to_string().concat(why.as_str()), at),
        }
    }

    // --- to-dos -----------------------------------------------------------

    /// Adds an item. A title of white space adds nothing.
    pub fn add_todo(&mut self, title: &str, at: Moment) -> (r: Vec<Effect>)
        requires
            old(self).wf(),
        ensures
            final(self).wf(),
            trim(title@).len() == 0 ==> final(self)@ == old(self)@ && deeds(r@) == Seq::<
                Deed,
            >::empty(),
            trim(title@).len() > 0 ==> {
                &&& final(self)@.todos.len() == old(self)@.todos.len() + 1
                &&& ({
                    let t = final(self)@.todos.last();
                    &&& t.title@ == trim(title@)
                    &&& !t.done
                    &&& t.created_at == at.ms
                    &&& t.done_at is None
                    &&& t.pomodoros == 0
                    &&& exists|raw: Seq<u8>| raw.len() == 8 && t.id@ == #[trigger] hex(raw)
                    &&& (final(self)@, deeds(r@)) == old(self)@.listing(old(self)@.todos.push(t))
                })
            },
    {
        let mut effects: Vec<Effect> = Vec::new();
        assert(deeds(effects@) == Seq::<Deed>::empty());
        let title = trimmed_text(title);
        if title.as_str().is_empty() {
            return effects;
        }
        let todo = Todo::new(title.as_str(), at.ms);
        self.data.todos.push(todo);
        assert(self@.todos.last() == todo);
        self.save_data(&mut effects);
        self.publish_todos(&mut effects);
        self.last_published = None;
        effects
    }

    /// Checks or unchecks an item.
    pub fn toggle_todo(&mut self, id: &str, at: Moment) -> (r: Vec<Effect>)
        requires
            old(self).wf(),
        ensures
            final(self).wf(),
            (final(self)@, deeds(r@)) == old(self)@.listing(
                toggled(old(self)@.todos, id@, at.ms),
            ),
    {
        let mut effects: Vec<Effect> = Vec::new();
        assert(deeds(effects@) == Seq::<Deed>::empty());
        let ghost before = self.data.todos@;
        let mut i: usize = 0;
        assert(before.take(0).len() == 0);
        while i < self.data.todos.len() && !same(self.data.todos[i].id.as_str(), id)
            invariant
                i <= self.data.todos@.len(),
                self.data.todos@ == before,
                first_with_id(before.take(i as int), id@) is None,
            decreases self.data.todos@.len() - i,
        {
            assert(before.take(i + 1).drop_last() == before.take(i as int));
            i = i + 1;
        }
        if i < self.data.todos.len() {
            proof {
                assert(before.take(i + 1).drop_last() == before.take(i as int));
                first_stays_first(before, id@, i as int);
            }
            let done = !self.data.todos[i].done;
            let todo = Todo {
                id: self.data.todos[i].id.clone(),
                title: self.data.todos[i].title.clone(),
                done,
                created_at: self.data.todos[i].created_at,
                done_at: if done {
                    Some(at.ms)
                } else {
                    None
                },
                pomodoros: self.data.todos[i].pomodoros,
            };
            self.data.todos.set(i, todo);
        } else {
            assert(before.take(before.len() as int) == before);
        }
        assert(self.data.todos@ == toggled(before, id@, at.ms));
        self.save_data(&mut effects);
        self.publish_todos(&mut effects);
        self.last_published = None;
        effects
    }

    /// Removes an item.
    pub fn remove_todo(&mut self, id: &str) -> (r: Vec<Effect>)
        requires
            old(self).wf(),
        ensures
            final(self).wf(),
            (final(self)@, deeds(r@)) == old(self)@.listing(without_id(old(self)@.todos, id@)),
    {
        let mut effects: Vec<Effect> = Vec::new();
        assert(deeds(effects@) == Seq::<Deed>::empty());
        let ghost before = self.data.todos@;
        let mut kept: Vec<Todo> = Vec::new();
        assert(without_id(before.take(0), id@) == Seq::<Todo>::empty()) by {
            reveal(Seq::filter);
        }
        for i in 0..self.data.todos.len()
            invariant
                self.data.todos@ == before,
                kept@ == without_id(before.take(i as int), id@),
        {
            reveal(Seq::filter);
            assert(before.take(i + 1).drop_last() == before.take(i as int));
            assert(before.take(i + 1).last() == before[i as int]);
            if !same(self.data.todos[i].id.as_str(), id) {
                kept.push(self.data.todos[i].clone());
            }
        }
        assert(before.take(before.len() as int) == before);
        self.data.todos = kept;
        self.save_data(&mut effects);
        self.publish_todos(&mut effects);
        self.last_published = None;
        effects
    }

    /// Drop completed items, which is how the list stays short day to day.
    pub fn clear_done_todos(&mut self) -> (r: Vec<Effect>)
        requires
            old(self).wf(),
        ensures
            final(self).wf(),
            ({
                let changed = Desk { todos: open_todos(old(self)@.todos), ..old(self)@ };
                &&& final(self)@ == changed.counted()
                &&& deeds(r@) == changed.todos_changed()
            }),
    {
        let mut effects: Vec<Effect> = Vec::new();
        assert(deeds(effects@) == Seq::<Deed>::empty());
        let ghost before = self.data.todos@;
        let mut kept: Vec<Todo> = Vec::new();
        assert(open_todos(before.take(0)) == Seq::<Todo>::empty()) by {
            reveal(Seq::filter);
        }
        for i in 0..self.data.todos.len()
            invariant
                self.data.todos@ == before,
                kept@ == open_todos(before.take(i as int)),
        {
            reveal(Seq::filter);
            assert(before.take(i + 1).drop_last() == before.take(i as int));
            assert(before.take(i + 1).last() == before[i as int]);
            if !self.data.todos[i].done {
                kept.push(self.data.todos[i].clone());
            }
        }
        assert(before.take(before.len() as int) == before);
        self.data.todos = kept;
        self.save_data(&mut effects);
        self.publish_todos(&mut effects);
        effects
    }

    // --- persistence ------------------------------------------------------

    fn save_data(&mut self, effects: &mut Vec<Effect>)
        requires
            old(self).wf(),
        ensures
            final(self).wf(),
            final(self)@ == old(self)@.counted(),
            deeds(final(effects)@) == deeds(old(effects)@).push(Deed::SaveData),
    {
        self.data.completed_today = self.pomodoro.state().completed_today;
        self.data.round = self.pomodoro.state().round;
        request(effects, Effect::SaveData);
    }

    /// The configuration could not be written.
    pub fn config_not_saved(&mut self, why: &str, at: Moment)
        requires
            old(self).wf(),
        ensures
            final(self).wf(),
            final(self)@ == old(self)@.noted("保存配置失败: "@ + why@, at),
    {
        self.note("保存配置失败: ".to_string().concat(why), at);
    }

    /// The data could not be written.
    pub fn data_not_saved(&mut self, why: &str, at: Moment)
        requires
            old(self).wf(),
        ensures
            final(self).wf(),
            final(self)@ == old(self)@.noted("保存数据失败: "@ + why@, at),
    {
        self.note("保存数据失败: ".to_string().concat(why), at);
    }

    /// Apply an edited config: persist it, re-derive keys and reconnect where the
    /// connection is concerned.
    pub fn apply_draft(&mut self, at: Moment) -> (r: Vec<Effect>)
        requires
            old(self).wf(),
        ensures
            final(self).wf(),
            (final(self)@, deeds(r@)) == old(self)@.applied(at),
    {
        let mut effects: Vec<Effect> = Vec::new();
        assert(deeds(effects@) == Seq::<Deed>::empty());
        let draft = match self.draft.take() {
            Some(d) => d,
            None => {
                return effects;
            },
        };
        let autostart_changed = draft.autostart != self.cfg.autostart;
        let needs_reconnect = !same(draft.server.as_str(), self.cfg.server.as_str()) || draft.tls
            != self.cfg.tls || !same(draft.invite_code.as_str(), self.cfg.invite_code.as_str())
            || !same(draft.device_id.as_str(), self.cfg.device_id.as_str())
            || !self.cfg.privacy.is_within(&draft.privacy);
        self.cfg = draft;
        self.pomodoro.set_config(self.cfg.pomodoro);
        request(&mut effects, Effect::SaveConfig);
        if autostart_changed {
            request(&mut effects, Effect::SetAutostart(self.cfg.autostart));
        }
        if needs_reconnect {
            self.connect(&mut effects, at);
        } else {
            self.last_published = None;
        }
        self.show_settings = false;
        effects
    }

    /// Whether starting at login could be set.
    pub fn autostart_set(&mut self, outcome: Result<(), String>, at: Moment)
        requires
            old(self).wf(),
        ensures
            final(self).wf(),
            final(self)@ == old(self)@.noted(
                match outcome {
                    Ok(_) => if old(self)@.cfg.autostart {
                        "已启用开机自启"@
                    } else {
                        "已关闭开机自启"@
                    },
                    Err(why) => "设置开机自启失败: "@ + why@,
                },
                at,
            ),
    {
        match outcome {
            Ok(_) => {
                if self.cfg.autostart {
                    self.note("已启用开机自启".to_string(), at);
                } else {
                    self.note("已关闭开机自启".to_string(), at);
                }
            },
            Err(why) => self.note("设置开机自启失败: ".to_string().concat(why.as_str()), at),
        }
    }

    // --- updates ----------------------------------------------------------

    fn start_update_check(&mut self, effects: &mut Vec<Effect>)
        requires
            old(self).wf(),
        ensures
            final(self).wf(),
            final(self)@ == old(self)@.checked().0,
            deeds(final(effects)@) == deeds(old(effects)@) + old(self)@.checked().1,
    {
        if self.checking {
            // A check is already in flight.
            return;
        }
        self.checking = true;
        request(effects, Effect::CheckUpdate(self.cfg.update_repo.clone()));
    }

    /// A check for updates ended, with a newer release or without.
    pub fn drain_update(&mut self, found: Option<UpdateInfo>, at: Moment) -> (r: Vec<Effect>)
        requires
            old(self).wf(),
        ensures
            final(self).wf(),
            (final(self)@, deeds(r@)) == old(self)@.learned(found, at),
    {
        let mut effects: Vec<Effect> = Vec::new();
        assert(deeds(effects@) == Seq::<Deed>::empty());
        self.checking = false;
        if let Some(info) = found {
            self.note("发现新版本 ".to_string().concat(info.version.as_str()), at);
            request(
                &mut effects,
                Effect::Notify(notify::update_available(info.version.as_str())),
            );
            self.update = Some(info);
        }
        effects
    }

    // --- misc -------------------------------------------------------------

    /// Append a line to the in-app log, keeping only the recent tail.
    pub fn note(&mut self, text: String, at: Moment)
        ensures
            final(self)@ == old(self)@.noted(text@, at),
            final(self).peers == old(self).peers,
    {
        let ghost before = self@;
        self.log.push(LogLine { at: at.mono, text });
        assert(log_text(self.log@) == before.log.push(LogText { at: at.mono, text: text@ }));
        let ghost long = self.log@;
        if self.log.len() > LOG_LINES {
            let drop: usize = self.log.len() - LOG_LINES;
            let rest = self.log.split_off(drop);
            self.log = rest;
            assert(self.log@ == long.skip(drop as int));
            assert(log_text(self.log@) == log_text(long).skip(drop as int));
        }
    }

    pub fn peer_presence(&self, now: i64) -> (r: Presence)
        requires
            self.wf(),
        ensures
            self@.peers.none_known() ==> r == Presence::Offline,
            !self@.peers.none_known() ==> exists|id: Seq<char>| #[trigger]
                self@.peers.displayed(id, now as int, self@.cfg.stale_ms()) && r
                    == self@.peers.devices[id].seen_as(now as int, self@.cfg.stale_ms()),
    {
        self.peers.presence(now, self.cfg.peer_stale_ms())
    }

    /// The peer to display.
    pub fn peer(&self, now: i64) -> (r: Option<&StatusSnapshot>)
        requires
            self.wf(),
        ensures
            r is None <==> self@.peers.none_known(),
            r matches Some(s) ==> {
                &&& self@.peers.displayed(s.device_id@, now as int, self@.cfg.stale_ms())
                &&& self@.peers.devices[s.device_id@] == *s
            },
    {
        self.peers.primary(now, self.cfg.peer_stale_ms())
    }

    /// Whether the peer is in a focus round with a distracting app open, judged
    /// against our own list.
    pub fn is_slacking(&self, peer: &StatusSnapshot, now: i64) -> (r: bool)
        ensures
            r == self@.slacks(*peer, now as int),
    {
        !peer.is_stale(now, self.cfg.peer_stale_ms()) && peer.is_focusing()
            && match peer.foreground_app() {
            Some(app) => self.cfg.accountability.is_distracting(app),
            None => false,
        }
    }

    /// The poke to show, for a few seconds after it came.
    pub fn recent_nudge(&self, at: Moment) -> (r: Option<String>)
        ensures
            option_text(r) == self@.fresh_nudge(at),
    {
        match &self.last_nudge {
            Some(pair) => {
                if since(pair.1, at.mono) < 8000 {
                    Some(pair.0.body())
                } else {
                    None
                }
            },
            None => None,
        }
    }

    pub fn is_online(&self) -> (r: bool)
        ensures
            r == (self@.conn is Online),
    {
        matches!(self.conn, ConnState::Online)
    }

    /// Called on exit so nothing is lost and the peer sees us go offline.
    pub fn shutdown(&mut self) -> (r: Vec<Effect>)
        requires
            old(self).wf(),
        ensures
            final(self).wf(),
            (final(self)@, deeds(r@)) == old(self)@.closed(),
    {
        let mut effects: Vec<Effect> = Vec::new();
        assert(deeds(effects@) == Seq::<Deed>::empty());
        self.save_data(&mut effects);
        request(&mut effects, Effect::SaveConfig);
        if self.running {
            self.running = false;
            request(&mut effects, Effect::Stop);
        }
        effects
    }
}

/// The first item with an id in a list is the first in a longer one.
proof fn first_stays_first(todos: Seq<Todo>, id: Seq<char>, i: int)
    requires
        0 <= i < todos.len(),
        first_with_id(todos.take(i + 1), id) == Some(i),
    ensures
        first_with_id(todos, id) == Some(i),
    decreases todos.len() - i,
{
    first_among(todos, id, i, todos.len() as int);
    assert(todos.take(todos.len() as int) == todos);
}

proof fn first_among(todos: Seq<Todo>, id: Seq<char>, i: int, n: int)
    requires
        0 <= i < n <= todos.len(),
        first_with_id(todos.take(i + 1), id) == Some(i),
    ensures
        first_with_id(todos.take(n), id) == Some(i),
    decreases n,
{
    if n > i + 1 {
        first_among(todos, id, i, n - 1);
        assert(todos.take(n).drop_last() == todos.take(n - 1));
    }
}

/// The main line about the peer, whether there is one or not.
pub fn peer_line(peer: Option<&StatusSnapshot>, now: i64, stale_ms: i64) -> (r: String)
    ensures
        r@ == match peer {
            Some(p) => detail_text(*p, now as int, p.stale(now as int, stale_ms as int)),
            None => "尚未收到对方状态"@,
        },
{
    match peer {
        Some(p) => peer_detail(p, now, p.is_stale(now, stale_ms)),
        None => "尚未收到对方状态".to_string(),
    }
}

/// The secondary line about the peer, whether there is one or not.
pub fn peer_counters(peer: Option<&StatusSnapshot>, now: i64) -> (r: String)
    ensures
        r@ == match peer {
            Some(p) => meta_text(*p, now as int),
            None => Seq::<char>::empty(),
        },
{
    match peer {
        Some(p) => peer_meta(p, now),
        None => String::new(),
    }
}

/// The log never holds more than its recent tail, and its last line is the one
/// that was noted last.
pub proof fn log_stays_short(s: Desk, text: Seq<char>, at: Moment)
    requires
        s.log.len() <= LOG_LINES,
    ensures
        s.noted(text, at).log.len() <= LOG_LINES,
        s.noted(text, at).log.last() == (LogText { at: at.mono, text }),
{
}

/// The time alone is no change, nor is idle time within a minute.
pub proof fn time_alone_is_no_change(a: StatusSnapshot, at: i64, idle: u32, more: u32)
    requires
        idle / 60 == more / 60,
    ensures
        same_status(a, StatusSnapshot { at, ..a }),
        same_status(
            StatusSnapshot { idle_secs: Some(idle), ..a },
            StatusSnapshot { idle_secs: Some(more), ..a },
        ),
{
}

/// An unchanged status that was just sent is not sent again.
pub proof fn unchanged_is_not_sent_again(s: Desk, snap: StatusSnapshot, at: Moment, later: Moment)
    requires
        at.mono <= later.mono < at.mono + REFRESH_MS,
    ensures
        !(Desk { last_published: Some(snap), last_publish_at: Some(at.mono), ..s }).owes(
            snap,
            later,
        ),
{
}

/// While the link is up, a status that says something new is sent, and so is any
/// status after half a minute of silence, so that the peer can tell we are alive.
pub proof fn news_and_heartbeats_are_sent(s: Desk, snap: StatusSnapshot, at: Moment)
    requires
        s.running,
        s.conn is Online,
    ensures
        s.last_published is None ==> s.owes(snap, at),
        s.last_published matches Some(prev) ==> (!same_status(prev, snap) ==> s.owes(snap, at)),
        s.last_publish_at matches Some(then) ==> (at.mono >= then + REFRESH_MS ==> s.owes(snap, at)),
{
}

/// An explicit choice wins, then the phase of the pomodoro, then idle detection.
pub proof fn presence_has_an_order(s: Desk)
    ensures
        s.manual matches Some(p) ==> s.presence() == p,
        s.manual is None ==> (s.timer.presence() matches Some(p) ==> s.presence() == p),
        s.manual is None && s.timer.presence() is None ==> (s.presence() == Presence::Away
            <==> s.cfg.away_after_secs > 0 && (s.sample.idle_secs matches Some(idle) && idle
            >= s.cfg.away_after_secs)),
{
}

/// What is not to be shared is not in what is published.
pub proof fn unshared_is_absent(s: Desk, now: int)
    ensures
        ({
            let p = s.cfg.privacy;
            let t = s.snapshot(now);
            &&& !p.share_foreground_app ==> t.foreground is None
            &&& !p.share_battery ==> t.battery is None
            &&& !p.share_music ==> t.music is None
            &&& !p.share_pomodoro ==> t.pomodoro is None && t.focus_today_min == 0 && t.goal_min
                == 0 && t.streak_days == 0
            &&& !p.share_todos ==> t.todos_open == 0 && t.todos_done_today == 0
            &&& !p.share_idle ==> t.idle_secs is None
        }),
        !s.cfg.privacy.share_todos ==> s.todos_sent() == Seq::<Deed>::empty(),
{
}

/// The state after so many finished rounds of a day.
pub open spec fn after_rounds(s: Desk, rounds: nat, now: int) -> Desk
    decreases rounds,
{
    if rounds == 0 {
        s
    } else {
        after_rounds(s, (rounds - 1) as nat, now).credited(now)
    }
}

/// However many rounds are finished in a day, the streak grows once: by the round
/// that meets the goal. Where there is no goal it never grows.
pub proof fn goal_counts_once_a_day(s: Desk, rounds: nat, now: int)
    ensures
        ({
            let after = after_rounds(s, rounds, now);
            &&& after.cfg == s.cfg
            &&& s.goal_met() ==> after.goal_met()
            &&& after.streak_days == (if after.goal_met() && !s.goal_met() {
                capped_sum(s.streak_days, 1)
            } else {
                s.streak_days
            })
        }),
        s.cfg.accountability.daily_goal_min == 0 ==> after_rounds(s, rounds, now).streak_days
            == s.streak_days && s.streak() == 0,
    decreases rounds,
{
    if rounds > 0 {
        goal_counts_once_a_day(s, (rounds - 1) as nat, now);
    }
}

/// A peer who met their goal or finished a round is congratulated, once, while an
/// engine runs and unless that is switched off.
pub proof fn achievements_are_cheered(s: Desk, snap: StatusSnapshot, at: Moment)
    ensures
        s.heard(Event::PeerStatus(snap), at).1 == (if s.cfg.accountability.auto_cheer && s.running
            && s.peers.achieves(snap) {
            seq![s.poke(NudgeKind::Cheer, None, at)]
        } else {
            Seq::empty()
        }),
        s.heard(Event::PeerStatus(snap), at).0.heard(Event::PeerStatus(snap), at).1 == Seq::<
            Deed,
        >::empty(),
{
    achieved_once(s.peers, snap);
}

/// A lost link leaves no peer to show.
pub proof fn a_lost_link_forgets_the_peer(s: Desk, why: String, at: Moment)
    ensures
        s.heard(Event::State(ConnState::Offline(why)), at).0.peers.none_known(),
{
}

/// Outside a focus round nothing is noticed or reported, whatever is in front, and
/// the peer hears of a distraction only by consent.
pub proof fn distractions_are_reported_by_consent(s: Desk, sample: Sample, at: Moment)
    ensures
        !s.focusing() ==> s.sampled(sample, at).1 == Seq::<Deed>::empty(),
        !s.cfg.accountability.report_distraction_to_peer ==> forall|i: int|
            0 <= i < s.sampled(sample, at).1.len() ==> !((#[trigger] s.sampled(
                sample,
                at,
            ).1[i]) is Send),
{
}

/// Clicking the box of an item twice leaves it as done as it was, and touches no
/// other item.
pub proof fn toggling_twice_undoes(todos: Seq<Todo>, id: Seq<char>, a: i64, b: i64, k: int)
    requires
        0 <= k < todos.len(),
    ensures
        toggled(toggled(todos, id, a), id, b).len() == todos.len(),
        toggled(toggled(todos, id, a), id, b)[k].done == todos[k].done,
        first_with_id(todos, id) != Some(k) ==> toggled(todos, id, a)[k] == todos[k],
{
    first_is_within(todos, id);
    if let Some(i) = first_with_id(todos, id) {
        let once = toggled(todos, id, a);
        assert forall|j: int| 0 <= j < todos.len() implies once[j].id == todos[j].id by {}
        same_ids_same_first(todos, once, id);
    }
}

proof fn first_is_within(todos: Seq<Todo>, id: Seq<char>)
    ensures
        first_with_id(todos, id) matches Some(i) ==> 0 <= i < todos.len() && todos[i].id@ == id,
    decreases todos.len(),
{
    if todos.len() > 0 {
        first_is_within(todos.drop_last(), id);
    }
}

proof fn same_ids_same_first(a: Seq<Todo>, b: Seq<Todo>, id: Seq<char>)
    requires
        a.len() == b.len(),
        forall|j: int| 0 <= j < a.len() ==> (#[trigger] b[j]).id == a[j].id,
    ensures
        first_with_id(a, id) == first_with_id(b, id),
    decreases a.len(),
{
    if a.len() > 0 {
        assert forall|j: int| 0 <= j < a.drop_last().len() implies (
        #[trigger] b.drop_last()[j]).id == a.drop_last()[j].id by {
            assert(b[j].id == a[j].id);
        }
        same_ids_same_first(a.drop_last(), b.drop_last(), id);
        assert(b[a.len() - 1].id == a[a.len() - 1].id);
    }
}

/// What may be shared is in what is published, just as it was sampled or counted.
pub proof fn shared_is_present(s: Desk, now: int)
    requires
        s.todos.len() <= u32::MAX,
    ensures
        ({
            let p = s.cfg.privacy;
            let t = s.snapshot(now);
            &&& t.device_id == s.cfg.device_id@ && t.name == s.cfg.device_name@ && t.user
                == s.cfg.user@ && t.platform == s.platform && t.at == now && t.presence
                == s.presence()
            &&& p.share_battery ==> t.battery == s.sample.battery
            &&& p.share_music ==> t.music == s.sample.music
            &&& p.share_idle ==> t.idle_secs == s.sample.idle_secs
            &&& p.share_pomodoro ==> t.pomodoro == Some(s.timer.state) && t.focus_today_min
                == s.focus_today_min && t.goal_min == s.cfg.accountability.daily_goal_min && (
            t.goal_min > 0 ==> t.streak_days == s.streak_days)
            &&& p.share_todos ==> t.todos_open == open_todos(s.todos).len() && t.todos_done_today
                == done_todos(s.todos, now).len()
            &&& s.sample.foreground matches Some(fg) ==> (p.share_foreground_app && !listed(
                p.blocked_apps@,
                fg.app@,
            ) ==> (t.foreground matches Some(told) && told.app == fg.app@ && told.name
                == option_text(fg.name) && (p.share_window_title ==> told.title == option_text(
                fg.title,
            ))))
        }),
{
    s.todos.lemma_filter_len(|t: Todo| !t.done);
    s.todos.lemma_filter_len(|t: Todo| crate::store::done_on_day_of(t, now));
}

/// A poke leaves a timer that is not idle alone, and only an invitation to focus
/// together starts an idle one: with a focus round, which is published at once.
/// Nothing else about the user changes.
pub proof fn invitations_are_followed(s: Desk, nudge: Nudge, at: Moment)
    ensures
        ({
            let (after, done) = s.heard(Event::Nudge(nudge), at);
            &&& s.timer.state.phase != PomodoroPhase::Idle ==> after.timer == s.timer
            &&& nudge.kind != NudgeKind::FocusTogether ==> after.timer == s.timer
            &&& s.timer.state.phase == PomodoroPhase::Idle && nudge.kind
                == NudgeKind::FocusTogether ==> {
                &&& after.timer.state.phase == PomodoroPhase::Focus
                &&& after.timer == s.timer.started(PomodoroPhase::Focus, at.ms as int)
                &&& after.last_published is None
            }
            &&& after.last_nudge == Some((nudge, at.mono))
            &&& after.cfg == s.cfg
            &&& after.peers == s.peers
            &&& after.todos == s.todos
            &&& after.manual == s.manual
            &&& after.conn == s.conn
            &&& after.running == s.running
            &&& after.focus_today_min == s.focus_today_min
            &&& after.streak_days == s.streak_days
            &&& s.cfg.mute_nudges ==> done.len() == 0
            &&& !s.cfg.mute_nudges ==> done == seq![
                Deed::Notify(
                    NoticeText {
                        summary: nudge.kind.emoji_text() + " "@ + nudge.from_name@,
                        body: nudge.body_text(),
                        alert: notify::Alert::Chime,
                    },
                ),
            ]
        }),
{
}

/// No event of the engine but an invitation touches the timer, whatever else comes
/// with it: a timer that runs stays as it was through all of them.
pub proof fn events_leave_a_running_timer_alone(s: Desk, events: Seq<Event>, at: Moment)
    requires
        s.timer.state.phase != PomodoroPhase::Idle || forall|i: int|
            0 <= i < events.len() ==> !((#[trigger] events[i]) matches Event::Nudge(n) && n.kind
                == NudgeKind::FocusTogether),
    ensures
        s.heard_all(events, at).0.timer == s.timer,
    decreases events.len(),
{
    if events.len() > 0 {
        assert forall|i: int| 0 <= i < events.drop_last().len() implies events.drop_last()[i]
            == events[i] by {}
        events_leave_a_running_timer_alone(s, events.drop_last(), at);
        assert(events[events.len() - 1] == events.last());
    }
}

/// What the engine says of the link and of the peer's devices is taken as it is.
pub proof fn the_engine_is_believed(
    s: Desk,
    state: ConnState,
    device_id: String,
    online: bool,
    items: Vec<Todo>,
    text: String,
    at: Moment,
)
    ensures
        s.heard(Event::State(state), at).0.conn == state,
        s.heard(Event::State(state), at).0.timer == s.timer,
        s.heard(Event::State(state), at).1.len() == 0,
        !(state is Offline) ==> s.heard(Event::State(state), at).0.peers == s.peers,
        ({
            let (after, done) = s.heard(Event::PeerPresence { device_id, online }, at);
            let known = s.peers.devices.contains_key(device_id@);
            &&& after.peers.online == s.peers.online.insert(device_id@, online)
            &&& after.peers.devices == s.peers.devices
            &&& after.peers.todos == s.peers.todos
            &&& after.conn == s.conn
            &&& done.len() == (if known && !s.cfg.mute_nudges {
                1int
            } else {
                0
            })
            &&& !known ==> after.log == s.log
            &&& known && s.log.len() < 200 ==> after.log.drop_last() == s.log
                && after.log.last().text == s.peers.devices[device_id@].name@ + (if online {
                " 上线"@
            } else {
                " 离线"@
            })
        }),
        ({
            let (after, done) = s.heard(Event::PeerTodos { device_id, items }, at);
            &&& after.peers.todos == s.peers.todos.insert(device_id@, items@)
            &&& after.peers.devices == s.peers.devices
            &&& after.peers.online == s.peers.online
            &&& after.todos == s.todos
            &&& done.len() == 0
        }),
        ({
            let (after, done) = s.heard(Event::Warning(text), at);
            &&& s.log.len() < 200 ==> after.log == s.log.push(LogText { at: at.mono, text: text@ })
            &&& after == (Desk { log: after.log, ..s })
            &&& done.len() == 0
        }),
{
    reveal_strlit(" ");
    reveal_strlit("上线");
    reveal_strlit("离线");
    reveal_strlit(" 上线");
    reveal_strlit(" 离线");
    assert(" "@ + "上线"@ =~= " 上线"@);
    assert(" "@ + "离线"@ =~= " 离线"@);
    let name = s.peers.devices[device_id@].name@;
    assert(name + " "@ + "上线"@ =~= name + (" "@ + "上线"@));
    assert(name + " "@ + "离线"@ =~= name + (" "@ + "离线"@));
}

/// The log keeps the last two hundred lines in their order.
pub proof fn the_log_keeps_the_recent_lines(s: Desk, text: Seq<char>, at: Moment)
    ensures
        ({
            let after = s.noted(text, at).log;
            &&& after.last() == (LogText { at: at.mono, text })
            &&& s.log.len() < 200 ==> after == s.log.push(LogText { at: at.mono, text })
            &&& s.log.len() >= 200 ==> after.len() == 200 && forall|i: int|
                0 <= i < 199 ==> #[trigger] after[i] == s.log[s.log.len() - 199 + i]
        }),
{
}

/// Without a choice, and without a phase that speaks, the user is active unless
/// they were idle for long enough, and never away where that is switched off.
pub proof fn activity_is_the_rule(s: Desk)
    requires
        s.manual is None,
        !s.cfg.pomodoro.presence_follows_phase || s.timer.state.phase == PomodoroPhase::Idle,
        s.timer.cfg == s.cfg.pomodoro,
    ensures
        ({
            let away = s.cfg.away_after_secs != 0 && s.sample.idle_secs is Some
                && s.sample.idle_secs->0 >= s.cfg.away_after_secs;
            s.presence() == (if away {
                Presence::Away
            } else {
                Presence::Active
            })
        }),
{
}

/// Nothing is published while the link is down, and a status that was just sent is
/// sent again after half a minute, or as soon as any part of it changed.
pub proof fn published_when_it_matters(s: Desk, snap: StatusSnapshot, at: Moment)
    ensures
        !s.running || !(s.conn is Online) ==> !s.owes(snap, at),
        s.running && s.conn is Online ==> (s.last_published matches Some(prev) ==> (
        s.last_publish_at matches Some(then) ==> {
            &&& at.mono >= then + 30_000 ==> s.owes(snap, at)
            &&& then <= at.mono < then + 30_000 ==> (s.owes(snap, at) <==> !same_status(prev, snap))
        })),
{
}

/// Two statuses count as the same only if they agree in everything but the time and
/// the seconds of idleness.
pub proof fn any_news_is_a_change(a: StatusSnapshot, b: StatusSnapshot)
    requires
        same_status(a, b),
    ensures
        a.presence == b.presence,
        a.foreground is Some <==> b.foreground is Some,
        a.foreground matches Some(x) ==> b.foreground->0.app@ == x.app@,
        a.foreground matches Some(x) ==> option_text(b.foreground->0.title) == option_text(x.title),
        a.foreground matches Some(x) ==> option_text(b.foreground->0.name) == option_text(x.name),
        a.music is Some <==> b.music is Some,
        a.music matches Some(x) ==> b.music->0.title@ == x.title@ && b.music->0.playing
            == x.playing && option_text(b.music->0.artist) == option_text(x.artist)
            && option_text(b.music->0.album) == option_text(x.album) && option_text(
            b.music->0.player,
        ) == option_text(x.player),
        a.battery == b.battery,
        a.pomodoro == b.pomodoro,
        a.todos_open == b.todos_open,
        a.todos_done_today == b.todos_done_today,
        a.idle_secs is Some <==> b.idle_secs is Some,
        a.idle_secs matches Some(x) ==> x / 60 == b.idle_secs->0 / 60,
        a.focus_today_min == b.focus_today_min,
        a.goal_min == b.goal_min,
        a.streak_days == b.streak_days,
{
}

/// A listed app that outstays the grace period in a focus round is called out by
/// that very sample: to the user, with the time that is left of the round, and to
/// the peer where the user agreed and an engine runs.
pub proof fn slacking_is_called_out(s: Desk, sample: Sample, c: Stretch, at: Moment)
    requires
        s.timer.state.phase == PomodoroPhase::Focus,
        s.timer.state.paused_left_ms is None,
        s.cfg.accountability.warn_on_distraction,
        sample.foreground matches Some(fg) && fg.app@ == c.app && listed(
            s.cfg.accountability.distracting_apps@,
            fg.app@,
        ),
        s.distraction == Some(c),
        !c.reported,
        i64::MIN <= c.since_ms <= i64::MAX,
        at.ms - c.since_ms >= 1000 * s.cfg.accountability.distraction_grace_secs,
    ensures
        ({
            let (after, done) = s.sampled(sample, at);
            let told = s.cfg.accountability.report_distraction_to_peer && s.running;
            &&& after.distraction == Some(Stretch { reported: true, ..c })
            &&& after.sample == sample
            &&& after.timer == s.timer
            &&& done.len() == (if told {
                2int
            } else {
                1
            })
            &&& done[0] == Deed::Notify(
                NoticeText {
                    summary: "👀 还在专注中"@,
                    body: c.app + " 打开了，这一轮还剩 "@ + s.timer.state.clock_text(at.ms as int),
                    alert: notify::Alert::Chime,
                },
            )
            &&& told ==> done[1] == Deed::Send(
                Order::Nudge(
                    NudgeText {
                        kind: NudgeKind::Nag,
                        text: Some("我在专注时打开了 "@ + c.app + "，盯着我"@),
                        from_name: s.cfg.device_name@,
                        at: at.ms as int,
                    },
                ),
            )
        }),
{
}

/// A sample is kept, whatever is made of it, and changes nothing else.
pub proof fn samples_are_kept(s: Desk, sample: Sample, at: Moment)
    ensures
        s.sampled(sample, at).0 == (Desk {
            sample,
            distraction: s.sampled(sample, at).0.distraction,
            ..s
        }),
{
}

/// A finished round adds its configured minutes, a length of zero counting as one
/// minute, to those of the day. The round that reaches the goal, and no other,
/// lengthens the streak, dates it and is celebrated. All of it is saved.
pub proof fn rounds_add_their_minutes(s: Desk, now: i64)
    requires
        s.focus_today_min + s.timer.cfg.focus_min < u32::MAX,
        s.streak_days < u32::MAX,
    ensures
        ({
            let after = s.credited(now as int);
            let goal = s.cfg.accountability.daily_goal_min;
            let total = s.focus_today_min + if s.timer.cfg.focus_min == 0 {
                1int
            } else {
                s.timer.cfg.focus_min as int
            };
            let reached = goal != 0 && s.focus_today_min < goal <= total;
            let done = s.credits(now as int);
            &&& after.focus_today_min == total
            &&& after.streak_days == s.streak_days + if reached {
                1int
            } else {
                0
            }
            &&& reached ==> after.goal_date == utc_date_text(now as int)
            &&& !reached ==> after.goal_date == s.goal_date
            &&& after.timer == s.timer
            &&& after.todos == s.todos
            &&& done[0] == Deed::SaveData
            &&& done.len() == (if reached {
                2int
            } else {
                1
            })
            &&& reached ==> (done[1] matches Deed::Notify(n) && n.summary == "🎉 达成目标"@)
        }),
{
}

/// On the day that the counters are of, they stand. On any other day they start
/// again, and the streak stands only if the goal was met the day before. Neither
/// touches the phase of the timer.
pub proof fn days_start_afresh(s: Desk, now: i64)
    requires
        now - 86_400_000 >= i64::MIN,
    ensures
        ({
            let after = s.rolled(now as int);
            let today = s.counter_date == utc_date_text(now as int);
            &&& today ==> after == s
            &&& !today ==> {
                &&& after.counter_date == utc_date_text(now as int)
                &&& after.focus_today_min == 0
                &&& after.completed_today == 0
                &&& after.round == 0
                &&& after.timer.state.completed_today == 0
                &&& after.timer.state.round == 0
                &&& after.streak_days == (if s.goal_date == utc_date_text(now - 86_400_000) {
                    s.streak_days
                } else {
                    0
                })
            }
            &&& after.timer.state.phase == s.timer.state.phase
            &&& after.timer.state.ends_at == s.timer.state.ends_at
            &&& after.timer.state.paused_left_ms == s.timer.state.paused_left_ms
            &&& after.goal_date == s.goal_date
            &&& after.todos == s.todos
        }),
{
}

/// The tick that finds a focus round over credits it, counts it and announces what
/// follows; one that finds a break over announces that; any other does nothing.
pub proof fn ticks_end_what_is_over(s: Desk, at: Moment)
    requires
        s.counter_date == utc_date_text(at.ms as int),
    ensures
        ({
            let (after, done) = s.ticked(at);
            let over = s.timer.state.paused_left_ms is None && (s.timer.state.ends_at matches Some(
                end,
            ) ==> end <= at.ms);
            &&& !over || s.timer.state.phase == PomodoroPhase::Idle ==> after == s && done.len() == 0
            &&& over && s.timer.state.phase == PomodoroPhase::Focus ==> {
                &&& after.focus_today_min == s.credited(at.ms as int).focus_today_min
                &&& after.streak_days == s.credited(at.ms as int).streak_days
                &&& after.completed_today == after.timer.state.completed_today
                &&& after.round == after.timer.state.round
                &&& done.drop_last() == s.credits(at.ms as int)
                &&& done.last() matches Deed::Notify(n) && n.alert == notify::Alert::Reminder
                    && n.summary == "🍅 番茄钟工作结束了"@
            }
            &&& over && (s.timer.state.phase == PomodoroPhase::ShortBreak || s.timer.state.phase
                == PomodoroPhase::LongBreak) ==> {
                &&& after.focus_today_min == s.focus_today_min
                &&& after.streak_days == s.streak_days
                &&& done == seq![Deed::Notify(notify::break_notice())]
            }
            &&& after.timer == s.timer.ticked(at.ms as int).0
        }),
{
    let (after, done) = s.ticked(at);
    let over = s.timer.state.paused_left_ms is None && (s.timer.state.ends_at matches Some(end)
        ==> end <= at.ms);
    if over && s.timer.state.phase == PomodoroPhase::Focus {
        let mid = s.with_timer(s.timer.ticked(at.ms as int).0);
        assert(done.drop_last() =~= mid.credits(at.ms as int));
        assert(mid.credits(at.ms as int) =~= s.credits(at.ms as int));
    }
}

/// What each request of the user does.
pub proof fn requests_do_what_they_say(s: Desk, p: Presence, kind: NudgeKind, at: Moment)
    ensures
        ({
            let (after, done) = s.asked(UiRequest::SetPresence(p), None, at);
            &&& p != Presence::Active ==> after.presence() == p
            &&& p == Presence::Active ==> after.presence() == (Desk { manual: None, ..s }).presence()
            &&& after == (Desk { manual: after.manual, last_published: None, ..s })
            &&& done.len() == 0
        }),
        ({
            let (after, done) = s.asked(UiRequest::TogglePomodoro, None, at);
            &&& after == (Desk { timer: s.timer.toggled(at.ms as int), last_published: None, ..s })
            &&& done.len() == 0
        }),
        ({
            let (after, done) = s.asked(UiRequest::StartFocus, None, at);
            &&& after.timer.state.phase == PomodoroPhase::Focus
            &&& after == (Desk {
                timer: s.timer.started(PomodoroPhase::Focus, at.ms as int),
                last_published: None,
                ..s
            })
            &&& done.len() == 0
        }),
        ({
            let (after, done) = s.asked(UiRequest::StopPomodoro, None, at);
            &&& after.timer.state.phase == PomodoroPhase::Idle
            &&& after == (Desk { timer: s.timer.stopped(), last_published: None, ..s })
            &&& done.len() == 0
        }),
        ({
            let (after, done) = s.asked(UiRequest::SkipPhase, None, at);
            let (timer, event) = s.timer.skipped(at.ms as int);
            &&& after.timer == timer
            &&& after.last_published is None
            &&& s.timer.state.phase == PomodoroPhase::Focus ==> after.focus_today_min == s.credited(
                at.ms as int,
            ).focus_today_min && after.streak_days == s.credited(at.ms as int).streak_days && done
                == s.credits(at.ms as int)
            &&& s.timer.state.phase != PomodoroPhase::Focus ==> after.focus_today_min
                == s.focus_today_min && after.streak_days == s.streak_days && done.len() == 0
        }),
        ({
            let (after, done) = s.asked(UiRequest::ToggleOverlay, None, at);
            &&& after.cfg.show_overlay != s.cfg.show_overlay
            &&& after == (Desk {
                cfg: ClientConfig { show_overlay: after.cfg.show_overlay, ..s.cfg },
                ..s
            })
            &&& done == seq![Deed::SaveConfig]
        }),
        ({
            let (after, done) = s.asked(UiRequest::CheckUpdate, None, at);
            &&& after == (Desk { checking: true, ..s })
            &&& s.checking ==> done.len() == 0
            &&& !s.checking ==> done == seq![Deed::CheckUpdate(s.cfg.update_repo@)]
        }),
        ({
            let (after, done) = s.asked(UiRequest::Nudge(kind), None, at);
            &&& s.running ==> after == s && done == seq![
                Deed::Send(
                    Order::Nudge(
                        NudgeText {
                            kind,
                            text: None,
                            from_name: s.cfg.device_name@,
                            at: at.ms as int,
                        },
                    ),
                ),
            ]
            &&& !s.running ==> done.len() == 0 && after.log.last().text
                == "未连接，无法发送互动"@
        }),
        s.asked(UiRequest::Quit, None, at) == (s, Seq::<Deed>::empty()),
        s.asked(UiRequest::OpenSettings, None, at) == (
            Desk { show_settings: true, ..s },
            Seq::<Deed>::empty(),
        ),
{
}

/// Connecting starts an engine where a pairing code is set, and stops the one that
/// runs before that; without a code it does neither.
pub proof fn connecting_replaces_the_engine(s: Desk, at: Moment)
    ensures
        ({
            let (after, done) = s.connected(at);
            let letters = s.cfg.invite_code@.filter(|c: char| is_code_char(c)).len();
            &&& letters < 8 ==> done.len() == 0 && after.running == s.running
                && after.log.last().text == "配对码为空，无法连接"@
            &&& letters >= 8 ==> !after.running && done.last() == Deed::Start && (s.running <==> done
                == seq![Deed::Stop, Deed::Start]) && (!s.running <==> done == seq![Deed::Start])
            &&& after.cfg == s.cfg && after.timer == s.timer && after.peers == s.peers
        }),
        s.asked(UiRequest::Reconnect, None, at) == s.connected(at),
{
    let (after, done) = s.connected(at);
    if s.paired() {
        assert(seq![Deed::Stop, Deed::Start].len() == 2);
        assert(seq![Deed::Start].len() == 1);
    }
}

/// Applied settings are saved and take effect. The engine is started again when the
/// server, the code or the device is another, or when something that was shared is
/// not to be shared any more; else the next publish tells of the change.
pub proof fn settings_take_effect(s: Desk, draft: ClientConfig, at: Moment)
    requires
        s.draft == Some(draft),
    ensures
        ({
            let (after, done) = s.applied(at);
            let elsewhere = draft.server@ != s.cfg.server@ || draft.tls != s.cfg.tls
                || draft.invite_code@ != s.cfg.invite_code@ || draft.device_id@
                != s.cfg.device_id@;
            let restarts = elsewhere || !s.cfg.privacy.within(draft.privacy);
            &&& after.cfg == draft
            &&& after.draft is None
            &&& !after.show_settings
            &&& after.timer.cfg == draft.pomodoro
            &&& after.timer.state == s.timer.state
            &&& after.todos == s.todos
            &&& done[0] == Deed::SaveConfig
            &&& draft.autostart != s.cfg.autostart ==> done[1] == Deed::SetAutostart(
                draft.autostart,
            )
            &&& draft.autostart == s.cfg.autostart && !restarts ==> done.len() == 1
            &&& !restarts ==> after.last_published is None && after.running == s.running
            &&& restarts && after.paired() ==> done.last() == Deed::Start && !after.running
        }),
        (Desk { draft: None, ..s }).applied(at) == (Desk { draft: None, ..s }, Seq::<
            Deed,
        >::empty()),
{
}

/// An edited list is the one that is kept, saved, and pushed where lists are shared
/// and an engine runs. Its counters are published anew.
pub proof fn edited_lists_are_kept(s: Desk, todos: Seq<Todo>)
    ensures
        ({
            let (after, done) = s.listing(todos);
            &&& after.todos == todos
            &&& after.last_published is None
            &&& after.timer == s.timer
            &&& after.cfg == s.cfg
            &&& done[0] == Deed::SaveData
            &&& s.cfg.privacy.share_todos && s.running ==> done == seq![
                Deed::SaveData,
                Deed::Send(Order::PublishTodos(todos)),
            ]
            &&& !s.cfg.privacy.share_todos || !s.running ==> done == seq![Deed::SaveData]
            &&& after.completed_today == s.timer.state.completed_today
            &&& after.round == s.timer.state.round
        }),
{
}

/// Clicking the box of an item flips it, and dates it when it is done. It is the
/// first item with that id; the others, and what the item is about, stay.
pub proof fn clicking_flips_one_item(todos: Seq<Todo>, id: Seq<char>, now: i64, i: int)
    requires
        0 <= i < todos.len(),
        todos[i].id@ == id,
        forall|j: int| 0 <= j < i ==> (#[trigger] todos[j]).id@ != id,
    ensures
        ({
            let after = toggled(todos, id, now);
            &&& after.len() == todos.len()
            &&& after[i].done != todos[i].done
            &&& after[i].done ==> after[i].done_at == Some(now)
            &&& !after[i].done ==> after[i].done_at is None
            &&& after[i].id == todos[i].id && after[i].title == todos[i].title
                && after[i].created_at == todos[i].created_at && after[i].pomodoros
                == todos[i].pomodoros
            &&& forall|j: int| 0 <= j < todos.len() && j != i ==> #[trigger] after[j] == todos[j]
        }),
{
    first_is_found(todos, id, i);
}

proof fn first_is_found(todos: Seq<Todo>, id: Seq<char>, i: int)
    requires
        0 <= i < todos.len(),
        todos[i].id@ == id,
        forall|j: int| 0 <= j < i ==> (#[trigger] todos[j]).id@ != id,
    ensures
        first_with_id(todos, id) == Some(i),
    decreases todos.len(),
{
    let init = todos.drop_last();
    if i < todos.len() - 1 {
        assert forall|j: int| 0 <= j < i implies (#[trigger] init[j]).id@ != id by {
            assert(todos[j].id@ != id);
        }
        first_is_found(init, id, i);
    } else {
        first_is_within(init, id);
        if let Some(j) = first_with_id(init, id) {
            assert(todos[j].id@ == id);
        }
    }
}

/// Removing an id removes every item with it, and keeps the others in their order.
pub proof fn removing_keeps_the_others(todos: Seq<Todo>, t: Todo, id: Seq<char>)
    ensures
        without_id(Seq::empty(), id).len() == 0,
        t.id@ == id ==> without_id(todos.push(t), id) == without_id(todos, id),
        t.id@ != id ==> without_id(todos.push(t), id) == without_id(todos, id).push(t),
{
    reveal(Seq::filter);
    assert(todos.push(t).drop_last() =~= todos);
    assert(todos.push(t).last() == t);
}

/// Clearing what is done keeps what is open, in its order, and nothing else.
pub proof fn clearing_keeps_what_is_open(todos: Seq<Todo>, t: Todo)
    ensures
        open_todos(Seq::<Todo>::empty()).len() == 0,
        t.done ==> open_todos(todos.push(t)) == open_todos(todos),
        !t.done ==> open_todos(todos.push(t)) == open_todos(todos).push(t),
{
    reveal(Seq::filter);
    assert(todos.push(t).drop_last() =~= todos);
    assert(todos.push(t).last() == t);
}

/// Samples are taken at the configured interval: no more than once a second, and at
/// least once a minute.
pub proof fn samples_come_at_the_interval(s: Desk, at: Moment)
    requires
        s.last_sample_request <= at.mono,
    ensures
        ({
            let waited = at.mono - s.last_sample_request;
            &&& waited < 1000 ==> !s.sample_due(at)
            &&& waited >= 60_000 ==> s.sample_due(at)
            &&& 1 <= s.cfg.poll_secs <= 60 ==> (s.sample_due(at) <==> waited >= 1000
                * s.cfg.poll_secs)
            &&& s.cfg.poll_secs == 0 ==> (s.sample_due(at) <==> waited >= 1000)
            &&& s.cfg.poll_secs > 60 ==> (s.sample_due(at) <==> waited >= 60_000)
        }),
{
}

/// A poke is shown for eight seconds.
pub proof fn pokes_are_shown_for_a_while(s: Desk, nudge: Nudge, then: Moment, at: Moment)
    requires
        then.mono <= at.mono,
    ensures
        ({
            let shown = s.heard(Event::Nudge(nudge), then).0.fresh_nudge(at);
            &&& at.mono - then.mono < 8000 ==> shown == Some(nudge.body_text())
            &&& at.mono - then.mono >= 8000 ==> shown is None
        }),
        s.last_nudge is None ==> s.fresh_nudge(at) is None,
{
}

/// A peer slacks whose fresh status tells of a running focus round and of an app that
/// is on our own list, and no other peer does.
pub proof fn slackers_are_told_apart(s: Desk, peer: StatusSnapshot, now: i64)
    requires
        0 <= now - peer.at <= i64::MAX,
    ensures
        s.slacks(peer, now as int) <==> {
            &&& now - peer.at <= s.cfg.stale_ms()
            &&& peer.pomodoro is Some
            &&& peer.pomodoro->0.phase == PomodoroPhase::Focus
            &&& peer.pomodoro->0.paused_left_ms is None
            &&& peer.foreground is Some
            &&& listed(s.cfg.accountability.distracting_apps@, peer.foreground->0.app@)
        },
{
}

/// The application opens with what was saved: the list as it was, and the counters
/// where they are of this day. Those of another day start again, and then the streak
/// stands only if the goal was met the day before. The timer is idle, and nobody is
/// known yet.
pub proof fn opening_takes_up_what_was_saved(
    cfg: ClientConfig,
    data: LocalData,
    platform: Platform,
    at: Moment,
    conn: ConnState,
)
    requires
        at.ms - 86_400_000 >= i64::MIN,
    ensures
        ({
            let (s, done) = Desk::opened(cfg, data, platform, at, conn);
            let today = data.counter_date@ == utc_date_text(at.ms as int);
            &&& s.cfg == cfg && s.platform == platform && s.todos == data.todos@ && s.goal_date
                == data.goal_date@ && s.counter_date == utc_date_text(at.ms as int)
            &&& today ==> s.completed_today == data.completed_today && s.round == data.round
                && s.focus_today_min == data.focus_today_min && s.streak_days == data.streak_days
            &&& !today ==> s.completed_today == 0 && s.round == 0 && s.focus_today_min == 0
                && s.streak_days == (if data.goal_date@ == utc_date_text(at.ms - 86_400_000) {
                data.streak_days
            } else {
                0
            })
            &&& s.timer.cfg == cfg.pomodoro && s.timer.state.phase == PomodoroPhase::Idle
                && s.timer.state.ends_at is None && s.timer.state.round == s.round
                && s.timer.state.completed_today == s.completed_today
            &&& s.peers.none_known() && s.manual is None && s.last_published is None
                && s.last_nudge is None && s.distraction is None && !s.running
        }),
{
}

/// With a pairing code the application connects when it opens; without one it asks for
/// one. It looks for updates where that is switched on.
pub proof fn opening_connects_or_asks(
    cfg: ClientConfig,
    data: LocalData,
    platform: Platform,
    at: Moment,
    conn: ConnState,
)
    ensures
        ({
            let (s, done) = Desk::opened(cfg, data, platform, at, conn);
            let letters = cfg.invite_code@.filter(|c: char| is_code_char(c)).len();
            &&& letters >= 8 ==> done[0] == Deed::Start && !s.show_settings
            &&& letters < 8 ==> s.show_settings && s.log == seq![
                LogText { at: at.mono, text: "尚未配对：请在设置中填入配对码"@ },
            ]
            &&& s.checking == cfg.check_updates
            &&& cfg.check_updates ==> done.last() == Deed::CheckUpdate(cfg.update_repo@)
            &&& done.len() == (if letters >= 8 {
                1int
            } else {
                0
            }) + if cfg.check_updates {
                1int
            } else {
                0
            }
        }),
{
}

/// A release that was found is kept, noted and announced; where none was found the
/// check is over, and nothing else changed.
pub proof fn found_releases_are_announced(s: Desk, info: UpdateInfo, at: Moment)
    ensures
        ({
            let (after, done) = s.learned(Some(info), at);
            &&& after.update == Some(info)
            &&& !after.checking
            &&& after.log.last().text == "发现新版本 "@ + info.version@
            &&& done.len() == 1
            &&& done[0] matches Deed::Notify(n) && n.body == "Synctus "@ + info.version@
                + " 已发布，可在托盘菜单中打开下载页"@
            &&& after.timer == s.timer && after.cfg == s.cfg && after.todos == s.todos
        }),
        s.learned(None, at) == (Desk { checking: false, ..s }, Seq::<Deed>::empty()),
{
}

/// At the end everything is saved, with the counters of the timer, and an engine that
/// runs is stopped.
pub proof fn closing_saves_everything(s: Desk)
    ensures
        ({
            let (after, done) = s.closed();
            &&& !after.running
            &&& after.completed_today == s.timer.state.completed_today
            &&& after.round == s.timer.state.round
            &&& after.todos == s.todos && after.cfg == s.cfg && after.focus_today_min
                == s.focus_today_min
            &&& done[0] == Deed::SaveData && done[1] == Deed::SaveConfig
            &&& s.running ==> done.len() == 3 && done[2] == Deed::Stop
            &&& !s.running ==> done.len() == 2
        }),
{
}

/// Only a nag comes with words, and those are about the peer that is displayed: where
/// nobody is known it has none.
pub proof fn only_nags_come_with_words(
    s: Desk,
    kind: NudgeKind,
    now: int,
    text: Option<Seq<char>>,
)
    requires
        s.poke_says(kind, now, text),
    ensures
        kind != NudgeKind::Nag ==> text is None,
        s.peers.none_known() ==> text is None,
        text is Some ==> exists|id: Seq<char>| #[trigger]
            s.peers.displayed(id, now, s.cfg.stale_ms()) && text == crate::bridge::nag(
                s.cfg,
                s.focus_today_min,
                s.peers.devices[id],
            ),
{
}

/// News of the peer is taken, and changes nothing of our own.
pub proof fn news_of_the_peer_is_taken(s: Desk, snap: StatusSnapshot, at: Moment)
    ensures
        ({
            let after = s.heard(Event::PeerStatus(snap), at).0;
            let id = snap.device_id@;
            &&& !(s.peers.devices.contains_key(id) && s.peers.devices[id].at > snap.at)
                ==> after.peers.devices == s.peers.devices.insert(id, snap)
                && after.peers.online == s.peers.online.insert(id, true)
            &&& s.peers.devices.contains_key(id) && s.peers.devices[id].at > snap.at
                ==> after.peers == s.peers
            &&& after == (Desk { peers: after.peers, ..s })
        }),
{
}

}
