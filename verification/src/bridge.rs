//! The platform-independent half of the Android client.
//!
//! Kotlin sends commands in and polls events out. This module decides what each
//! command and each event of the engine does: what is sent, what is queued for the
//! next poll, and what the notification shows. Whoever owns the engine performs
//! the sending.
//!
//! Polling rather than callbacks: the Android foreground service already wakes on
//! a timer to refresh its notification, so a call on that tick costs nothing
//! extra.

use vstd::prelude::*;

use crate::client::{Client, ClientError, Command, ConnState, Event, Order};
use crate::clock::{clip, minus};
use crate::config::{listed, ClientConfig, Privacy};
use crate::crypto::{generate_invite_code, grouped, normalised, picked};
use crate::focus::{
    reported, sampled, whole_secs, Distraction, DistractionTracker, Stretch, Verdict,
};
use crate::model::{
    clone_todos, option_text, Battery, ForegroundApp, NowPlaying, Nudge, NudgeKind, NudgeText,
    Platform, PomodoroPhase, PomodoroState, Presence, StatusSnapshot, StatusText, Todo,
};
use crate::sharing::{share_foreground, shared_app};
use crate::store::{
    achieved_once, at_least_one, count_done, count_open, done_todos, open_todos, skip_is_an_early_deadline, PeerView, Peers, Pomodoro, PomodoroEvent, Timer,
};
use crate::text::{decimal, decimal_int, decimal_text, say, signed_text, texts};

verus! {

/// What Kotlin can ask the engine to do.
#[derive(Debug)]
pub enum BridgeCommand {
    /// Publish the sensor values Android just read. Anything absent is treated as
    /// unavailable rather than unchanged, because the platform reports all of it
    /// in one go.
    Publish {
        presence: Option<Presence>,
        foreground: Option<ForegroundApp>,
        battery: Option<Battery>,
        music: Option<NowPlaying>,
    },
    /// Send an interaction, with a text of the caller's own if there is one.
    Nudge { kind: NudgeKind, text: Option<String> },
    /// Set the presence the user picked in the notification or the UI.
    SetPresence { presence: Presence },
    /// Start, pause or resume the pomodoro.
    TogglePomodoro,
    StartFocus,
    StopPomodoro,
    SkipPhase,
    /// Replace the to-do list and publish it.
    SetTodos { items: Vec<Todo> },
    /// Restore today's focus accounting after the service restarts.
    ///
    /// Android owns the persistence, so the engine has to be told where it left
    /// off rather than reading a file itself.
    RestoreProgress { focus_today_min: u32, streak_days: u32 },
    /// Apply an edited configuration and reconnect.
    Reconfigure { config: Box<ClientConfig> },
}

/// What Kotlin gets back: the events of the engine plus the derived state the
/// notification needs, so the service does not have to recompute anything.
#[derive(Debug)]
pub enum BridgeEvent {
    /// Connection state changed.
    Connection { state: String, detail: String },
    /// The peer's status, ready to render.
    Peer(PeerSummary),
    /// A poke arrived; the service raises a high-priority notification.
    Nudge {
        title: String,
        body: String,
        kind: String,
        /// Whether it should break through do-not-disturb.
        urgent: bool,
    },
    /// Local pomodoro reached a boundary.
    Pomodoro { phase: String, remaining: String, finished: bool, message: String },
    /// The daily goal was reached. Separate from `Pomodoro` because it deserves
    /// its own celebration rather than being buried in a round-finished message.
    GoalReached { goal_min: u32, streak_days: u32 },
    /// The peer's to-do list.
    PeerTodos { items: Vec<Todo> },
    /// Something worth logging but not fatal.
    Warning { message: String },
}

/// A peer as the notification shows it.
#[derive(Debug)]
pub struct PeerSummary {
    pub name: String,
    /// User nickname this device belongs to; empty when unassigned.
    pub user: String,
    pub platform: String,
    pub presence: String,
    pub presence_color: u32,
    /// Main line: music or foreground app.
    pub detail: String,
    /// Secondary line: battery, pomodoro, to-dos.
    pub meta: String,
    pub stale: bool,
    /// Today's focus minutes, and the goal they are working towards.
    pub focus_today_min: u32,
    pub goal_min: u32,
    pub streak_days: u32,
    /// In a focus round right now. Gates the nag button.
    pub focusing: bool,
    /// Focusing on paper, but with a distracting app open. Turns the nag button
    /// into something with evidence behind it.
    pub slacking: bool,
}

/// What a [`BridgeEvent`] tells.
pub enum Told {
    Connection { state: Seq<char>, detail: Seq<char> },
    Peer(SummaryText),
    Nudge { title: Seq<char>, body: Seq<char>, kind: Seq<char>, urgent: bool },
    Pomodoro { phase: Seq<char>, remaining: Seq<char>, finished: bool, message: Seq<char> },
    GoalReached { goal_min: u32, streak_days: u32 },
    PeerTodos { items: Seq<Todo> },
    Warning { message: Seq<char> },
}

/// What a [`PeerSummary`] tells.
pub struct SummaryText {
    pub name: Seq<char>,
    pub user: Seq<char>,
    pub platform: Seq<char>,
    pub presence: Seq<char>,
    pub presence_color: u32,
    pub detail: Seq<char>,
    pub meta: Seq<char>,
    pub stale: bool,
    pub focus_today_min: u32,
    pub goal_min: u32,
    pub streak_days: u32,
    pub focusing: bool,
    pub slacking: bool,
}

impl View for PeerSummary {
    type V = SummaryText;

    open spec fn view(&self) -> SummaryText {
        SummaryText {
            name: self.name@,
            user: self.user@,
            platform: self.platform@,
            presence: self.presence@,
            presence_color: self.presence_color,
            detail: self.detail@,
            meta: self.meta@,
            stale: self.stale,
            focus_today_min: self.focus_today_min,
            goal_min: self.goal_min,
            streak_days: self.streak_days,
            focusing: self.focusing,
            slacking: self.slacking,
        }
    }
}

impl View for BridgeEvent {
    type V = Told;

    open spec fn view(&self) -> Told {
        match *self {
            BridgeEvent::Connection { state, detail } => Told::Connection {
                state: state@,
                detail: detail@,
            },
            BridgeEvent::Peer(p) => Told::Peer(p@),
            BridgeEvent::Nudge { title, body, kind, urgent } => Told::Nudge {
                title: title@,
                body: body@,
                kind: kind@,
                urgent,
            },
            BridgeEvent::Pomodoro { phase, remaining, finished, message } => Told::Pomodoro {
                phase: phase@,
                remaining: remaining@,
                finished,
                message: message@,
            },
            BridgeEvent::GoalReached { goal_min, streak_days } => Told::GoalReached {
                goal_min,
                streak_days,
            },
            BridgeEvent::PeerTodos { items } => Told::PeerTodos { items: items@ },
            BridgeEvent::Warning { message } => Told::Warning { message: message@ },
        }
    }
}

pub open spec fn told(events: Seq<BridgeEvent>) -> Seq<Told> {
    events.map_values(|e: BridgeEvent| e@)
}

/// A command for the engine. If sending a required one fails, the caller reports
/// it and sends nothing that stands behind it.
#[derive(Debug)]
pub struct Outgoing {
    pub command: Command,
    pub required: bool,
}

/// What is sent.
pub struct Sent {
    pub order: Order,
    pub required: bool,
}

impl View for Outgoing {
    type V = Sent;

    open spec fn view(&self) -> Sent {
        Sent { order: self.command@, required: self.required }
    }
}

pub open spec fn sent(out: Seq<Outgoing>) -> Seq<Sent> {
    out.map_values(|o: Outgoing| o@)
}

fn enqueue(out: &mut Vec<Outgoing>, command: Command, required: bool)
    ensures
        sent(final(out)@) == sent(old(out)@).push(Sent { order: command@, required }),
{
    out.push(Outgoing { command, required });
}

/// Sensor values of one sample.
#[derive(Debug)]
pub struct Sensors {
    pub foreground: Option<ForegroundApp>,
    pub battery: Option<Battery>,
    pub music: Option<NowPlaying>,
}

/// Presence colour as `0xAARRGGBB`, which is what Android's notification and
/// Compose APIs expect.
pub open spec fn argb_of(presence: Presence) -> int {
    let (r, g, b) = presence.rgb_spec();
    0xff00_0000 + r * 0x1_0000 + g * 0x100 + b
}

/// Presence colour as `0xAARRGGBB`.
pub fn argb(presence: Presence) -> (r: u32)
    ensures
        r == argb_of(presence),
{
    let (r, g, b) = presence.rgb();
    0xff00_0000 + (r as u32) * 0x1_0000 + (g as u32) * 0x100 + b as u32
}

/// Everything derived from the engine.
#[derive(Debug)]
pub struct Bridge {
    pub cfg: ClientConfig,
    pub platform: Platform,
    pub pomodoro: Pomodoro,
    pub peers: PeerView,
    pub conn: ConnState,
    /// Today's focus accounting. Android persists it and hands it back with
    /// [`BridgeCommand::RestoreProgress`].
    pub focus_today_min: u32,
    pub streak_days: u32,
    /// Watches the foreground app during focus rounds. Android samples the
    /// foreground app on its own timer and hands it to `Publish`, so the tracker
    /// only ever sees real samples.
    pub distraction: DistractionTracker,
    /// Sensor values from the last `Publish`, kept so a pomodoro or presence
    /// change can republish without waiting for Android to sample again.
    pub last_sensors: Sensors,
    pub manual_presence: Option<Presence>,
    pub todos: Vec<Todo>,
    /// Events queued for the next poll.
    pub pending: Vec<BridgeEvent>,
}

/// The state of a bridge.
pub struct BridgeState {
    pub cfg: ClientConfig,
    pub platform: Platform,
    pub timer: Timer,
    pub peers: Peers,
    pub conn: ConnState,
    pub focus_today_min: u32,
    pub streak_days: u32,
    pub distraction: Option<Stretch>,
    pub sensors: Sensors,
    pub manual: Option<Presence>,
    pub todos: Seq<Todo>,
    pub pending: Seq<Told>,
}

impl View for Bridge {
    type V = BridgeState;

    open spec fn view(&self) -> BridgeState {
        BridgeState {
            cfg: self.cfg,
            platform: self.platform,
            timer: self.pomodoro@,
            peers: self.peers@,
            conn: self.conn,
            focus_today_min: self.focus_today_min,
            streak_days: self.streak_days,
            distraction: self.distraction@,
            sensors: self.last_sensors,
            manual: self.manual_presence,
            todos: self.todos@,
            pending: told(self.pending@),
        }
    }
}

/// Choosing "active" hands control back to the automatic logic.
pub open spec fn chosen(presence: Presence) -> Option<Presence> {
    if presence == Presence::Active {
        None
    } else {
        Some(presence)
    }
}

pub fn choose_presence(presence: Presence) -> (r: Option<Presence>)
    ensures
        r == chosen(presence),
{
    if presence == Presence::Active {
        None
    } else {
        Some(presence)
    }
}

/// `a + b`, or the largest number.
pub open spec fn capped_sum(a: u32, b: u32) -> u32 {
    if a + b > u32::MAX {
        u32::MAX
    } else {
        (a + b) as u32
    }
}

/// The music, if it may be told.
pub open spec fn shared_music(p: Privacy, music: Option<NowPlaying>) -> Option<NowPlaying> {
    if p.share_music {
        music
    } else {
        None
    }
}

fn share_music(p: &Privacy, music: &Option<NowPlaying>) -> (r: Option<NowPlaying>)
    ensures
        r == shared_music(*p, *music),
{
    if p.share_music {
        match music {
            Some(m) => Some(m.clone()),
            None => None,
        }
    } else {
        None
    }
}

/// What a nag says about a peer: naming what they are doing and how far behind
/// they are is what makes it work.
pub open spec fn nag(cfg: ClientConfig, mine: u32, peer: StatusSnapshot) -> Option<Seq<char>> {
    if peer.focusing() && (peer.foreground matches Some(fg) && listed(
        cfg.accountability.distracting_apps@,
        fg.app@,
    )) {
        Some("你在专注中开着 "@ + peer.foreground->0.app@ + "，专心点"@)
    } else if peer.goal_min > 0 && !peer.goal_met_spec() {
        Some(
            "今天还差 "@ + decimal((peer.goal_min - peer.focus_today_min) as nat)
                + " 分钟，我已经做了 "@ + decimal(mine as nat) + " 分钟了"@,
        )
    } else {
        None
    }
}

/// The text of a nag: about a peer that is displayed, or none.
pub open spec fn nags_about(
    peers: Peers,
    cfg: ClientConfig,
    mine: u32,
    now: int,
    text: Option<Seq<char>>,
) -> bool {
    if peers.none_known() {
        text is None
    } else {
        exists|id: Seq<char>| #[trigger]
            peers.displayed(id, now, cfg.stale_ms()) && text == nag(cfg, mine, peers.devices[id])
    }
}

/// What a nag says about a peer.
pub fn nag_about(cfg: &ClientConfig, mine: u32, peer: &StatusSnapshot) -> (r: Option<String>)
    ensures
        option_text(r) == nag(*cfg, mine, *peer),
{
    if peer.is_focusing() {
        if let Some(app) = peer.foreground_app() {
            if cfg.accountability.is_distracting(app) {
                return Some("你在专注中开着 ".to_string().concat(app).concat("，专心点"));
            }
        }
    }
    if peer.goal_min > 0 && !peer.goal_met() {
        let left: u32 = peer.goal_min - peer.focus_today_min;
        return Some(
            "今天还差 ".to_string().concat(decimal_text(left as u64).as_str()).concat(
                " 分钟，我已经做了 ",
            ).concat(decimal_text(mine as u64).as_str()).concat(" 分钟了"),
        );
    }
    None
}

/// A nag about the peer that is displayed, if there is one.
pub fn nag_text(peers: &PeerView, cfg: &ClientConfig, mine: u32, now: i64) -> (r: Option<String>)
    requires
        peers.wf(),
    ensures
        nags_about(peers@, *cfg, mine, now as int, option_text(r)),
{
    match peers.primary(now, cfg.peer_stale_ms()) {
        Some(peer) => nag_about(cfg, mine, peer),
        None => None,
    }
}

impl BridgeState {
    /// Effective presence: explicit choice, then pomodoro phase, then active.
    pub open spec fn presence(self) -> Presence {
        match self.manual {
            Some(p) => p,
            None => match self.timer.presence() {
                Some(p) => p,
                None => Presence::Active,
            },
        }
    }

    /// Days in a row on which the goal was met; none where there is no goal.
    pub open spec fn streak(self) -> u32 {
        if self.cfg.accountability.daily_goal_min == 0 {
            0
        } else {
            self.streak_days
        }
    }

    /// What is published.
    pub open spec fn snapshot(self, now: int) -> StatusText {
        let p = self.cfg.privacy;
        StatusText {
            device_id: self.cfg.device_id@,
            name: self.cfg.device_name@,
            user: self.cfg.user@,
            platform: self.platform,
            at: now,
            presence: self.presence(),
            foreground: shared_app(p, self.sensors.foreground),
            battery: if p.share_battery {
                self.sensors.battery
            } else {
                None
            },
            music: shared_music(p, self.sensors.music),
            pomodoro: if p.share_pomodoro {
                Some(self.timer.state)
            } else {
                None
            },
            todos_open: if p.share_todos {
                open_todos(self.todos).len() as u32
            } else {
                0
            },
            todos_done_today: if p.share_todos {
                done_todos(self.todos, now).len() as u32
            } else {
                0
            },
            idle_secs: None,
            // The accountability numbers ride along with the pomodoro permission:
            // same activity, same kind of information.
            focus_today_min: if p.share_pomodoro {
                self.focus_today_min
            } else {
                0
            },
            goal_min: if p.share_pomodoro {
                self.cfg.accountability.daily_goal_min
            } else {
                0
            },
            streak_days: if p.share_pomodoro {
                self.streak()
            } else {
                0
            },
        }
    }

    /// The snapshot, sent.
    pub open spec fn publish(self, now: int, required: bool) -> Sent {
        Sent { order: Order::Publish(self.snapshot(now)), required }
    }

    /// Praise for the peer, sent.
    pub open spec fn cheer(self, now: int) -> Sent {
        Sent {
            order: Order::Nudge(
                NudgeText {
                    kind: NudgeKind::Cheer,
                    text: None,
                    from_name: self.cfg.device_name@,
                    at: now,
                },
            ),
            required: false,
        }
    }

    /// A to-do list, sent if lists are shared.
    pub open spec fn todos_sent(self, items: Seq<Todo>) -> Seq<Sent> {
        if self.cfg.privacy.share_todos {
            seq![Sent { order: Order::PublishTodos(items), required: true }]
        } else {
            Seq::empty()
        }
    }

    /// In a focus round that is not paused.
    pub open spec fn focusing(self) -> bool {
        self.timer.state.phase == PomodoroPhase::Focus && self.timer.state.paused_left_ms is None
    }

    /// What the tracker makes of the last sample.
    pub open spec fn observed(self, now: int) -> (Option<Stretch>, Verdict) {
        sampled(
            self.distraction,
            self.sensors.foreground,
            self.focusing(),
            self.cfg.accountability,
            now,
        )
    }

    /// The last sample was looked at: the state, and what is sent.
    pub open spec fn watched(self, now: int) -> (BridgeState, Seq<Sent>) {
        let (stretch, verdict) = self.observed(now);
        let next = BridgeState { distraction: stretch, ..self };
        match verdict {
            Verdict::Started { app } => (
                BridgeState {
                    pending: self.pending.push(
                        Told::Nudge {
                            title: "👀 还在专注中"@,
                            body: app + " 打开了，这一轮还剩 "@ + self.timer.state.clock_text(now),
                            kind: "distraction"@,
                            urgent: true,
                        },
                    ),
                    ..next
                },
                if self.cfg.accountability.report_distraction_to_peer {
                    seq![
                        Sent {
                            order: Order::Nudge(
                                NudgeText {
                                    kind: NudgeKind::Nag,
                                    text: Some("我在专注时打开了 "@ + app + "，盯着我"@),
                                    from_name: self.cfg.device_name@,
                                    at: now,
                                },
                            ),
                            required: false,
                        },
                    ]
                } else {
                    Seq::empty()
                },
            ),
            _ => (next, Seq::empty()),
        }
    }

    /// The goal stands and is met.
    pub open spec fn goal_met(self) -> bool {
        self.cfg.accountability.daily_goal_min > 0 && self.focus_today_min
            >= self.cfg.accountability.daily_goal_min
    }

    /// A focus round was finished: its minutes are credited, and the round that
    /// crosses the goal is celebrated.
    pub open spec fn credited(self, next: PomodoroPhase) -> BridgeState {
        let minutes = at_least_one(self.timer.cfg.focus_min);
        let total = capped_sum(self.focus_today_min, minutes);
        let done = BridgeState {
            focus_today_min: total,
            pending: self.pending.push(
                Told::Pomodoro {
                    phase: next.label_text(),
                    remaining: "00:00"@,
                    finished: true,
                    message: "专注 "@ + decimal(minutes as nat) + " 分钟完成，今日累计 "@ + decimal(
                        total as nat,
                    ) + " 分钟"@,
                },
            ),
            ..self
        };
        if done.goal_met() && !self.goal_met() {
            let days = capped_sum(self.streak_days, 1);
            BridgeState {
                streak_days: days,
                pending: done.pending.push(
                    Told::GoalReached {
                        goal_min: self.cfg.accountability.daily_goal_min,
                        streak_days: days,
                    },
                ),
                ..done
            }
        } else {
            done
        }
    }

    /// The pomodoro reached a boundary: the state, and what is sent.
    pub open spec fn bounded(self, event: PomodoroEvent, now: int) -> (BridgeState, Seq<Sent>) {
        match event {
            PomodoroEvent::Nothing => (self, Seq::empty()),
            PomodoroEvent::FocusFinished(next) => (
                self.credited(next),
                seq![self.credited(next).publish(now, false)],
            ),
            PomodoroEvent::BreakFinished => {
                let after = BridgeState {
                    pending: self.pending.push(
                        Told::Pomodoro {
                            phase: PomodoroPhase::Idle.label_text(),
                            remaining: "00:00"@,
                            finished: true,
                            message: "休息结束，准备下一回合"@,
                        },
                    ),
                    ..self
                };
                (after, seq![after.publish(now, false)])
            },
        }
    }

    pub open spec fn with_timer(self, timer: Timer) -> BridgeState {
        BridgeState { timer, ..self }
    }

    /// The text of a nag: about a peer that is displayed, or none.
    pub open spec fn nags(self, now: int, text: Option<Seq<char>>) -> bool {
        nags_about(self.peers, self.cfg, self.focus_today_min, now, text)
    }

    /// The text of a nudge: the caller's own, else one that is made up for a nag.
    pub open spec fn nudge_says(
        self,
        kind: NudgeKind,
        own: Option<String>,
        now: int,
        text: Option<Seq<char>>,
    ) -> bool {
        match own {
            Some(t) => text == Some(t@),
            None => if kind == NudgeKind::Nag {
                self.nags(now, text)
            } else {
                text is None
            },
        }
    }

    /// What the notification shows of a peer.
    pub open spec fn summary(self, peer: StatusSnapshot, now: int) -> SummaryText {
        let stale = peer.stale(now, self.cfg.stale_ms());
        let presence = if stale {
            Presence::Offline
        } else {
            peer.presence
        };
        SummaryText {
            name: peer.name@,
            user: peer.user@,
            platform: peer.platform.name_text(),
            presence: presence.label_text(),
            presence_color: argb_of(presence) as u32,
            detail: detail_text(peer, now, stale),
            meta: meta_text(peer, now),
            stale,
            focus_today_min: peer.focus_today_min,
            goal_min: peer.goal_min,
            streak_days: peer.streak_days,
            focusing: !stale && peer.focusing(),
            // Judged against *our* list: the receiver decides what counts as
            // slacking.
            slacking: !stale && peer.focusing() && (peer.foreground matches Some(fg) && listed(
                self.cfg.accountability.distracting_apps@,
                fg.app@,
            )),
        }
    }

    /// An event of the engine: the state, what is sent, and whether the peer
    /// changed.
    pub open spec fn heard(self, event: Event, now: int) -> (BridgeState, Seq<Sent>, bool) {
        match event {
            Event::State(state) => {
                let lost = state is Offline || state is Rejected;
                let after = BridgeState {
                    conn: state,
                    peers: if lost {
                        Peers::nobody()
                    } else {
                        self.peers
                    },
                    pending: self.pending.push(
                        Told::Connection { state: state_name(state), detail: state_detail(state) },
                    ),
                    ..self
                };
                (
                    after,
                    // Republish on (re)connect so the peer sees us immediately.
                    if state is Online {
                        seq![self.publish(now, false)]
                    } else {
                        Seq::empty()
                    },
                    lost,
                )
            },
            Event::PeerStatus(snap) => (
                BridgeState { peers: self.peers.told(snap), ..self },
                if self.cfg.accountability.auto_cheer && self.peers.achieves(snap) {
                    seq![self.cheer(now)]
                } else {
                    Seq::empty()
                },
                !self.peers.outdates(snap),
            ),
            Event::PeerTodos { device_id, items } => (
                BridgeState {
                    peers: Peers {
                        todos: self.peers.todos.insert(device_id@, items@),
                        ..self.peers
                    },
                    pending: self.pending.push(Told::PeerTodos { items: items@ }),
                    ..self
                },
                Seq::empty(),
                false,
            ),
            Event::Nudge(nudge) => {
                // Following the peer into a focus round mirrors the desktop.
                let follows = nudge.kind == NudgeKind::FocusTogether && self.timer.state.phase
                    == PomodoroPhase::Idle;
                let after = if follows {
                    self.with_timer(self.timer.started(PomodoroPhase::Focus, now))
                } else {
                    self
                };
                (
                    BridgeState {
                        pending: self.pending.push(
                            Told::Nudge {
                                title: nudge.kind.emoji_text() + " "@ + nudge.from_name@,
                                body: nudge.body_text(),
                                kind: nudge.kind.name_text(),
                                // A nag is allowed to interrupt, but only if the
                                // receiver agreed to that in their own settings.
                                urgent: nudge.kind == NudgeKind::Nag
                                    && self.cfg.accountability.allow_urgent_nudges,
                            },
                        ),
                        ..after
                    },
                    if follows {
                        seq![after.publish(now, false)]
                    } else {
                        Seq::empty()
                    },
                    false,
                )
            },
            Event::PeerPresence { device_id, online } => (
                BridgeState {
                    peers: Peers {
                        online: self.peers.online.insert(device_id@, online),
                        ..self.peers
                    },
                    ..self
                },
                Seq::empty(),
                true,
            ),
            Event::Warning(message) => (
                BridgeState {
                    pending: self.pending.push(Told::Warning { message: message@ }),
                    ..self
                },
                Seq::empty(),
                false,
            ),
        }
    }

    /// Events of the engine, one after the other.
    pub open spec fn heard_all(self, events: Seq<Event>, now: int) -> (
        BridgeState,
        Seq<Sent>,
        bool,
    )
        decreases events.len(),
    {
        if events.len() == 0 {
            (self, Seq::empty(), false)
        } else {
            let (before, out, changed) = self.heard_all(events.drop_last(), now);
            let (after, more, too) = before.heard(events.last(), now);
            (after, out + more, changed || too)
        }
    }

    /// What a command does: the state after it, and what is sent.
    pub open spec fn obeys(
        self,
        command: BridgeCommand,
        now: int,
        after: BridgeState,
        out: Seq<Sent>,
    ) -> bool {
        match command {
            BridgeCommand::Publish { presence, foreground, battery, music } => {
                let sampled = BridgeState {
                    sensors: Sensors { foreground, battery, music },
                    manual: match presence {
                        Some(p) => chosen(p),
                        None => self.manual,
                    },
                    ..self
                };
                &&& after == sampled.watched(now).0
                &&& out == sampled.watched(now).1.push(
                    after.publish(now, true),
                )
            },
            BridgeCommand::Nudge { kind, text } => {
                &&& after == self
                &&& exists|says: Option<Seq<char>>| #[trigger]
                    self.nudge_says(kind, text, now, says) && out == seq![
                        Sent {
                            order: Order::Nudge(
                                NudgeText {
                                    kind,
                                    text: says,
                                    from_name: self.cfg.device_name@,
                                    at: now,
                                },
                            ),
                            required: true,
                        },
                    ]
            },
            BridgeCommand::SetPresence { presence } => {
                &&& after == (BridgeState { manual: chosen(presence), ..self })
                &&& out == seq![after.publish(now, true)]
            },
            BridgeCommand::TogglePomodoro => {
                &&& after == self.with_timer(self.timer.toggled(now))
                &&& out == seq![after.publish(now, true)]
            },
            BridgeCommand::StartFocus => {
                &&& after == self.with_timer(
                    self.timer.started(PomodoroPhase::Focus, now),
                )
                &&& out == seq![after.publish(now, true)]
            },
            BridgeCommand::StopPomodoro => {
                &&& after == self.with_timer(self.timer.stopped())
                &&& out == seq![after.publish(now, true)]
            },
            BridgeCommand::SkipPhase => {
                // Skipping still finishes the round, so it credits its minutes
                // as the deadline does.
                let (timer, event) = self.timer.skipped(now);
                let (skipped, more) = self.with_timer(timer).bounded(event, now);
                &&& after == skipped
                &&& out == more.push(skipped.publish(now, true))
            },
            BridgeCommand::SetTodos { items } => {
                &&& after == (BridgeState { todos: items@, ..self })
                // A list that is not to be shared does not leave the device.
                &&& out == self.todos_sent(items@).push(
                    after.publish(now, true),
                )
            },
            BridgeCommand::RestoreProgress { focus_today_min, streak_days } => {
                &&& after == (BridgeState {
                    focus_today_min,
                    streak_days,
                    ..self
                })
                &&& out == seq![after.publish(now, true)]
            },
            BridgeCommand::Reconfigure { config } => {
                &&& after.cfg.like(*config)
                &&& after == (BridgeState {
                    cfg: after.cfg,
                    timer: Timer { cfg: config.pomodoro, ..self.timer },
                    ..self
                })
                &&& out == seq![Sent { order: Order::Reconnect(*config), required: true }]
            },
        }
    }

    /// What the user is shown of their own state, and of the peer's focus.
    pub open spec fn shows(self, shown: LocalStatus, now: int) -> bool {
        &&& shown.presence@ == self.presence().label_text()
        &&& shown.pomodoro_phase@ == self.timer.state.phase.label_text()
        &&& shown.pomodoro_remaining@ == self.timer.state.clock_text(now)
        &&& shown.pomodoro_active == (self.timer.state.phase != PomodoroPhase::Idle)
        &&& shown.pomodoro_paused == (self.timer.state.paused_left_ms is Some)
        &&& shown.completed_today == self.timer.state.completed_today
        &&& shown.connected == (self.conn is Online)
        &&& shown.focus_today_min == self.focus_today_min
        &&& shown.goal_min == self.cfg.accountability.daily_goal_min
        &&& shown.streak_days == self.streak()
        &&& shown.goal_met == self.goal_met()
        &&& self.peers.none_known() ==> shown.peer_focus_today_min == 0 && !shown.peer_focusing
        &&& !self.peers.none_known() ==> {
            &&& exists|id: Seq<char>| #[trigger]
                self.peers.displayed(id, now, self.cfg.stale_ms())
                    && shown.peer_focus_today_min == self.peers.devices[id].focus_today_min
            &&& exists|id: Seq<char>| #[trigger]
                self.peers.displayed(id, now, self.cfg.stale_ms()) && shown.peer_focusing
                    == (!self.peers.devices[id].stale(now, self.cfg.stale_ms())
                    && self.peers.devices[id].focusing())
        }
        &&& shown.distracted == reported(self.distraction)
        &&& option_text(shown.distracted_by) == (match self.distraction {
            Some(c) => Some(c.app),
            None => None,
        })
    }

    /// The tick of the pomodoro.
    pub open spec fn ticked(self, now: int) -> (BridgeState, Seq<Sent>) {
        let (timer, event) = self.timer.ticked(now);
        self.with_timer(timer).bounded(event, now)
    }

    /// The state after the peer summary was queued, if the peer changed and there
    /// is one.
    pub open spec fn summed_up(self, changed: bool, now: int, after: BridgeState) -> bool {
        if changed && !self.peers.none_known() {
            exists|id: Seq<char>| #[trigger]
                self.peers.displayed(id, now, self.cfg.stale_ms()) && after == (BridgeState {
                    pending: self.pending.push(
                        Told::Peer(self.summary(self.peers.devices[id], now)),
                    ),
                    ..self
                })
        } else {
            after == self
        }
    }
}

pub open spec fn state_name(state: ConnState) -> Seq<char> {
    match state {
        ConnState::Connecting => "connecting"@,
        ConnState::Online => "online"@,
        ConnState::Offline(_) => "offline"@,
        ConnState::Rejected(_) => "rejected"@,
    }
}

pub open spec fn state_detail(state: ConnState) -> Seq<char> {
    match state {
        ConnState::Offline(why) => why@,
        ConnState::Rejected(why) => why@,
        _ => Seq::empty(),
    }
}

/// The main line about a peer: its age when it is stale, else music, else the
/// application in front.
pub open spec fn detail_text(peer: StatusSnapshot, now: int, stale: bool) -> Seq<char> {
    if stale {
        "最后更新于 "@ + decimal_int(whole_secs(clip(now - peer.at))) + " 秒前"@
    } else if peer.music matches Some(m) && m.playing {
        "♪ "@ + peer.music->0.one_line_text()
    } else {
        match peer.foreground {
            Some(fg) => {
                let name = match fg.name {
                    Some(n) => n@,
                    None => fg.app@,
                };
                match fg.title {
                    Some(t) => name + "："@ + t@,
                    None => name,
                }
            },
            None => "空闲"@,
        }
    }
}

/// The main line about a peer.
pub fn peer_detail(peer: &StatusSnapshot, now: i64, stale: bool) -> (r: String)
    ensures
        r@ == detail_text(*peer, now as int, stale),
{
    if stale {
        let age: i64 = minus(now, peer.at);
        let secs: i64 = if age >= 0 {
            age / 1000
        } else {
            (-((-(age as i128)) / 1000)) as i64
        };
        return "最后更新于 ".to_string().concat(signed_text(secs).as_str()).concat(" 秒前");
    }
    if let Some(music) = &peer.music {
        if music.playing {
            return "♪ ".to_string().concat(music.one_line().as_str());
        }
    }
    if let Some(fg) = &peer.foreground {
        let name = match &fg.name {
            Some(n) => n.clone(),
            None => fg.app.clone(),
        };
        return match &fg.title {
            Some(t) => name.concat("：").concat(t.as_str()),
            None => name,
        };
    }
    "空闲".to_string()
}

/// The parts of the secondary line about a peer.
pub open spec fn meta_parts(peer: StatusSnapshot, now: int) -> Seq<Seq<char>> {
    let battery = match peer.battery {
        Some(b) => seq![
            (if b.charging {
                "⚡"@
            } else {
                "🔋"@
            }) + decimal(b.percent as nat) + "%"@,
        ],
        None => Seq::empty(),
    };
    let pomodoro = match peer.pomodoro {
        Some(pom) => if pom.phase != PomodoroPhase::Idle {
            seq![
                "🍅"@ + (if pom.paused_left_ms is Some {
                    "⏸"@
                } else {
                    "▶"@
                }) + pom.phase.label_text() + " "@ + pom.clock_text(now),
            ]
        } else if pom.completed_today > 0 {
            seq!["🍅×"@ + decimal(pom.completed_today as nat)]
        } else {
            Seq::empty()
        },
        None => Seq::empty(),
    };
    let todos = if peer.todos_open > 0 || peer.todos_done_today > 0 {
        seq![
            "☑"@ + decimal(peer.todos_done_today as nat) + "/"@ + decimal(
                (peer.todos_open + peer.todos_done_today) as nat,
            ),
        ]
    } else {
        Seq::empty()
    };
    battery + pomodoro + todos
}

/// Texts with two spaces between them.
pub open spec fn spaced(parts: Seq<Seq<char>>) -> Seq<char>
    decreases parts.len(),
{
    if parts.len() == 0 {
        Seq::empty()
    } else if parts.len() == 1 {
        parts[0]
    } else {
        spaced(parts.drop_last()) + "  "@ + parts.last()
    }
}

pub fn join_spaced(parts: &Vec<String>) -> (r: String)
    ensures
        r@ == spaced(texts(parts@)),
{
    let ghost t = texts(parts@);
    let mut out = String::new();
    assert(t.take(0).len() == 0);
    for i in 0..parts.len()
        invariant
            t == texts(parts@),
            out@ == spaced(t.take(i as int)),
    {
        assert(t.take(i + 1).drop_last() == t.take(i as int));
        assert(t.take(i + 1).last() == parts@[i as int]@);
        if i > 0 {
            out.append("  ");
        } else {
            assert(out@ == Seq::<char>::empty());
            assert(Seq::<char>::empty() + parts@[i as int]@ == parts@[i as int]@);
        }
        out.append(parts[i].as_str());
    }
    assert(t.take(t.len() as int) == t);
    out
}

/// The secondary line about a peer: battery, pomodoro, to-dos.
pub open spec fn meta_text(peer: StatusSnapshot, now: int) -> Seq<char> {
    spaced(meta_parts(peer, now))
}

/// The secondary line about a peer.
pub fn peer_meta(peer: &StatusSnapshot, now: i64) -> (r: String)
    ensures
        r@ == meta_text(*peer, now as int),
{
    let mut parts: Vec<String> = Vec::new();
    if let Some(b) = peer.battery {
        let mark = if b.charging {
            "⚡"
        } else {
            "🔋"
        };
        say(
            &mut parts,
            mark.to_string().concat(decimal_text(b.percent as u64).as_str()).concat("%"),
        );
    }
    if let Some(pom) = peer.pomodoro {
        if pom.phase != PomodoroPhase::Idle {
            let mark = if pom.paused() {
                "⏸"
            } else {
                "▶"
            };
            say(
                &mut parts,
                "🍅".to_string().concat(mark).concat(pom.phase.label()).concat(" ").concat(
                    pom.remaining_text(now).as_str(),
                ),
            );
        } else if pom.completed_today > 0 {
            say(
                &mut parts,
                "🍅×".to_string().concat(decimal_text(pom.completed_today as u64).as_str()),
            );
        }
    }
    if peer.todos_open > 0 || peer.todos_done_today > 0 {
        let total: u64 = peer.todos_open as u64 + peer.todos_done_today as u64;
        say(
            &mut parts,
            "☑".to_string().concat(decimal_text(peer.todos_done_today as u64).as_str()).concat(
                "/",
            ).concat(decimal_text(total).as_str()),
        );
    }
    assert(texts(parts@) == meta_parts(*peer, now as int));
    join_spaced(&parts)
}

/// What the notification's own line shows.
#[derive(Debug)]
pub struct LocalStatus {
    pub presence: String,
    pub pomodoro_phase: String,
    pub pomodoro_remaining: String,
    pub pomodoro_active: bool,
    pub pomodoro_paused: bool,
    pub completed_today: u32,
    pub connected: bool,
    pub focus_today_min: u32,
    pub goal_min: u32,
    pub streak_days: u32,
    pub goal_met: bool,
    pub peer_focus_today_min: u32,
    pub peer_focusing: bool,
    pub distracted: bool,
    pub distracted_by: Option<String>,
}

impl Bridge {
    pub open spec fn wf(&self) -> bool {
        self.peers.wf()
    }

    /// Starts with a configuration: the bridge, and the engine to run. A
    /// configuration without a usable pairing code is refused.
    pub fn with_config(cfg: ClientConfig, platform: Platform) -> (r: Result<
        (Bridge, Client),
        ClientError,
    >)
        ensures
            r is Ok <==> 8 <= normalised(cfg.invite_code@).len() <= 0xffff_ffff,
            r == Err::<(Bridge, Client), _>(ClientError::NotPaired) <==> normalised(
                cfg.invite_code@,
            ).len() < 8,
            r matches Ok((b, client)) ==> {
                &&& b.wf()
                &&& client.wf()
                &&& client.cfg.like(cfg)
                &&& b@ == (BridgeState {
                    cfg,
                    platform,
                    timer: Timer { cfg: cfg.pomodoro, state: PomodoroState::idle(0, 0) },
                    peers: Peers::nobody(),
                    conn: ConnState::Connecting,
                    focus_today_min: 0,
                    streak_days: 0,
                    distraction: None,
                    sensors: Sensors { foreground: None, battery: None, music: None },
                    manual: None,
                    todos: Seq::empty(),
                    pending: Seq::empty(),
                })
            },
    {
        let client = match Client::spawn(cfg.clone()) {
            Ok(client) => client,
            Err(e) => {
                return Err(e);
            },
        };
        let bridge = Bridge {
            pomodoro: Pomodoro::new(cfg.pomodoro, 0, 0),
            cfg,
            platform,
            peers: PeerView::default(),
            conn: ConnState::Connecting,
            focus_today_min: 0,
            streak_days: 0,
            distraction: DistractionTracker::new(),
            last_sensors: Sensors { foreground: None, battery: None, music: None },
            manual_presence: None,
            todos: Vec::new(),
            pending: Vec::new(),
        };
        assert(told(bridge.pending@) == Seq::<Told>::empty());
        Ok((bridge, client))
    }

    fn queue(&mut self, event: BridgeEvent)
        ensures
            final(self)@ == (BridgeState { pending: old(self)@.pending.push(event@), ..old(self)@ }),
            final(self).peers == old(self).peers,
    {
        self.pending.push(event);
        assert(told(self.pending@) == old(self)@.pending.push(event@));
    }

    /// Handle a command. Returns what is to be sent, in order.
    pub fn apply(&mut self, command: BridgeCommand, now: i64) -> (r: Vec<Outgoing>)
        requires
            old(self).wf(),
        ensures
            final(self).wf(),
            old(self)@.obeys(command, now as int, final(self)@, sent(r@)),
    {
        let mut out: Vec<Outgoing> = Vec::new();
        assert(sent(out@) == Seq::<Sent>::empty());
        match command {
            BridgeCommand::Publish { presence, foreground, battery, music } => {
                self.last_sensors = Sensors { foreground, battery, music };
                if let Some(p) = presence {
                    self.manual_presence = choose_presence(p);
                }
                // Each sample is also a chance to notice slacking off.
                let mut out = self.check_distraction(now);
                self.publish(&mut out, now, true);
                out
            },
            BridgeCommand::Nudge { kind, text } => {
                let mut nudge = Nudge::sent_at(kind, self.cfg.device_name.as_str(), now);
                // A nag with the peer's own numbers in it lands; a bare one does
                // not. The caller may override with their own wording.
                nudge.text = match text {
                    Some(t) => Some(t),
                    None => if kind == NudgeKind::Nag {
                        nag_text(&self.peers, &self.cfg, self.focus_today_min, now)
                    } else {
                        None
                    },
                };
                assert(self@.nudge_says(kind, text, now as int, option_text(nudge.text)));
                enqueue(&mut out, Command::Nudge(nudge), true);
                out
            },
            BridgeCommand::SetPresence { presence } => {
                self.manual_presence = choose_presence(presence);
                self.publish(&mut out, now, true);
                out
            },
            BridgeCommand::TogglePomodoro => {
                if self.pomodoro.state().phase == PomodoroPhase::Idle {
                    self.pomodoro.start_focus(now);
                } else {
                    self.pomodoro.toggle_pause(now);
                }
                self.publish(&mut out, now, true);
                out
            },
            BridgeCommand::StartFocus => {
                self.pomodoro.start_focus(now);
                self.publish(&mut out, now, true);
                out
            },
            BridgeCommand::StopPomodoro => {
                self.pomodoro.stop();
                self.publish(&mut out, now, true);
                out
            },
            BridgeCommand::SkipPhase => {
                let event = self.pomodoro.skip(now);
                self.handle_pomodoro_event(&mut out, event, now);
                assert(sent(out@) =~= old(self)@.with_timer(
                    old(self)@.timer.skipped(now as int).0,
                ).bounded(event, now as int).1);
                self.publish(&mut out, now, true);
                out
            },
            BridgeCommand::SetTodos { items } => {
                if self.cfg.privacy.share_todos {
                    enqueue(&mut out, Command::PublishTodos(clone_todos(&items)), true);
                }
                self.todos = items;
                self.publish(&mut out, now, true);
                out
            },
            BridgeCommand::RestoreProgress { focus_today_min, streak_days } => {
                self.focus_today_min = focus_today_min;
                self.streak_days = streak_days;
                self.publish(&mut out, now, true);
                out
            },
            BridgeCommand::Reconfigure { config } => {
                self.pomodoro.set_config(config.pomodoro);
                self.cfg = (*config).clone();
                enqueue(&mut out, Command::Reconnect(config), true);
                out
            },
        }
    }

    /// Watch the foreground app during a focus round.
    fn check_distraction(&mut self, now: i64) -> (r: Vec<Outgoing>)
        requires
            old(self).wf(),
        ensures
            final(self).wf(),
            (final(self)@, sent(r@)) == old(self)@.watched(now as int),
    {
        let mut out: Vec<Outgoing> = Vec::new();
        assert(sent(out@) == Seq::<Sent>::empty());
        let state = self.pomodoro.state();
        let focusing = state.phase == PomodoroPhase::Focus && !state.paused();
        let seen = match &self.last_sensors.foreground {
            Some(f) => Some(f),
            None => None,
        };
        let verdict = self.distraction.update(seen, focusing, &self.cfg.accountability, now);
        if let Distraction::Started { app } = verdict {
            let remaining = state.remaining_text(now);
            // Surfaced as a nudge so the service raises the same high-priority
            // notification it uses for the peer's pokes; the point is to be hard
            // to ignore.
            self.queue(
                BridgeEvent::Nudge {
                    title: "👀 还在专注中".to_string(),
                    body: app.clone().concat(" 打开了，这一轮还剩 ").concat(remaining.as_str()),
                    kind: "distraction".to_string(),
                    urgent: true,
                },
            );
            if self.cfg.accountability.report_distraction_to_peer {
                let mut nudge = Nudge::sent_at(NudgeKind::Nag, self.cfg.device_name.as_str(), now);
                nudge.text = Some(
                    "我在专注时打开了 ".to_string().concat(app.as_str()).concat("，盯着我"),
                );
                enqueue(&mut out, Command::Nudge(nudge), false);
            }
        }
        out
    }

    /// Effective presence: explicit choice, then pomodoro phase, then active.
    ///
    /// Android has no reliable idle signal available to a background app, so
    /// unlike the desktop there is no automatic "away".
    pub fn effective_presence(&self) -> (r: Presence)
        ensures
            r == self@.presence(),
    {
        match self.manual_presence {
            Some(p) => p,
            None => match self.pomodoro.implied_presence() {
                Some(p) => p,
                None => Presence::Active,
            },
        }
    }

    /// Days in a row on which the goal was met; none where there is no goal.
    fn streak(&self) -> (r: u32)
        ensures
            r == self@.streak(),
    {
        if self.cfg.accountability.daily_goal_min == 0 {
            0
        } else {
            self.streak_days
        }
    }

    /// The snapshot to publish, honouring privacy settings.
    pub fn snapshot(&self, now: i64) -> (r: StatusSnapshot)
        ensures
            r@ == self@.snapshot(now as int),
    {
        let privacy = &self.cfg.privacy;
        let mut snap = StatusSnapshot::taken_at(
            self.cfg.device_id.as_str(),
            self.cfg.device_name.as_str(),
            self.platform,
            now,
        );
        snap.user = self.cfg.user.clone();
        snap.presence = self.effective_presence();
        snap.foreground = share_foreground(privacy, &self.last_sensors.foreground);
        if privacy.share_battery {
            snap.battery = self.last_sensors.battery;
        }
        snap.music = share_music(privacy, &self.last_sensors.music);
        if privacy.share_todos {
            snap.todos_open = count_open(&self.todos);
            snap.todos_done_today = count_done(&self.todos, now);
        }
        if privacy.share_pomodoro {
            snap.pomodoro = Some(self.pomodoro.state());
            snap.focus_today_min = self.focus_today_min;
            snap.goal_min = self.cfg.accountability.daily_goal_min;
            snap.streak_days = self.streak();
        }
        snap
    }

    fn publish(&self, out: &mut Vec<Outgoing>, now: i64, required: bool)
        ensures
            sent(final(out)@) == sent(old(out)@).push(self@.publish(now as int, required)),
    {
        enqueue(out, Command::Publish(self.snapshot(now)), required);
    }

    /// Drain the events of the engine and hand over everything queued.
    pub fn poll(&mut self, events: Vec<Event>, now: i64) -> (r: (Vec<BridgeEvent>, Vec<Outgoing>))
        requires
            old(self).wf(),
        ensures
            final(self).wf(),
            ({
                let (first, out) = old(self)@.ticked(now as int);
                let (second, more, changed) = first.heard_all(events@, now as int);
                &&& second.summed_up(
                    changed,
                    now as int,
                    BridgeState { pending: told(r.0@), ..final(self)@ },
                )
                &&& final(self)@.pending == Seq::<Told>::empty()
                &&& sent(r.1@) == out + more
            }),
    {
        let out = self.drain(events, now);
        let mut queued: Vec<BridgeEvent> = Vec::new();
        let ghost before = self@;
        std::mem::swap(&mut queued, &mut self.pending);
        assert(self@.pending == Seq::<Told>::empty());
        assert(before == (BridgeState { pending: told(queued@), ..self@ }));
        (queued, out)
    }

    /// React to a pomodoro boundary.
    ///
    /// Shared by the poll tick and by an explicit skip: a skipped round still
    /// finished, so it must still credit its minutes. Routing both through here is
    /// what keeps the two paths from drifting.
    fn handle_pomodoro_event(&mut self, out: &mut Vec<Outgoing>, event: PomodoroEvent, now: i64)
        requires
            old(self).wf(),
        ensures
            final(self).wf(),
            final(self)@ == old(self)@.bounded(event, now as int).0,
            sent(final(out)@) == sent(old(out)@) + old(self)@.bounded(event, now as int).1,
    {
        match event {
            PomodoroEvent::Nothing => {},
            PomodoroEvent::FocusFinished(next) => {
                let goal: u32 = self.cfg.accountability.daily_goal_min;
                let minutes: u32 = if self.pomodoro.config().focus_min == 0 {
                    1
                } else {
                    self.pomodoro.config().focus_min
                };
                let was_met = goal > 0 && self.focus_today_min >= goal;
                self.focus_today_min = self.focus_today_min.saturating_add(minutes);
                let now_met = goal > 0 && self.focus_today_min >= goal;
                self.queue(
                    BridgeEvent::Pomodoro {
                        phase: next.label().to_string(),
                        remaining: "00:00".to_string(),
                        finished: true,
                        message: "专注 ".to_string().concat(
                            decimal_text(minutes as u64).as_str(),
                        ).concat(" 分钟完成，今日累计 ").concat(
                            decimal_text(self.focus_today_min as u64).as_str(),
                        ).concat(" 分钟"),
                    },
                );
                // Only the round that crosses the goal gets a celebration.
                if now_met && !was_met {
                    self.streak_days = self.streak_days.saturating_add(1);
                    self.queue(
                        BridgeEvent::GoalReached { goal_min: goal, streak_days: self.streak_days },
                    );
                }
                assert(self@ == old(self)@.credited(next));
                self.publish(out, now, false);
            },
            PomodoroEvent::BreakFinished => {
                self.queue(
                    BridgeEvent::Pomodoro {
                        phase: PomodoroPhase::Idle.label().to_string(),
                        remaining: "00:00".to_string(),
                        finished: true,
                        message: "休息结束，准备下一回合".to_string(),
                    },
                );
                self.publish(out, now, false);
            },
        }
    }

    fn drain(&mut self, events: Vec<Event>, now: i64) -> (r: Vec<Outgoing>)
        requires
            old(self).wf(),
        ensures
            final(self).wf(),
            ({
                let (first, out) = old(self)@.ticked(now as int);
                let (second, more, changed) = first.heard_all(events@, now as int);
                &&& second.summed_up(changed, now as int, final(self)@)
                &&& sent(r@) == out + more
            }),
    {
        let mut out: Vec<Outgoing> = Vec::new();
        assert(sent(out@) == Seq::<Sent>::empty());
        // Pomodoro first, so a boundary reached between polls is reported.
        let event = self.pomodoro.tick(now);
        self.handle_pomodoro_event(&mut out, event, now);
        let ghost first = self@;
        let ghost before = sent(out@);
        let ghost all = events@;
        let mut peer_changed = false;
        assert(all.take(0).len() == 0);
        assert(before + Seq::<Sent>::empty() == before);
        for event in it: events
            invariant
                self.wf(),
                it.seq() == all,
                (self@, peer_changed) == (
                    first.heard_all(all.take(it.index()), now as int).0,
                    first.heard_all(all.take(it.index()), now as int).2,
                ),
                sent(out@) == before + first.heard_all(all.take(it.index()), now as int).1,
        {
            assert(all.take(it.index() + 1).drop_last() == all.take(it.index()));
            assert(all.take(it.index() + 1).last() == event);
            let ghost prior = sent(out@);
            let ghost was = self@;
            if self.hear(&mut out, event, now) {
                peer_changed = true;
            }
            assert(sent(out@) == before + first.heard_all(all.take(it.index() + 1), now as int).1);
        }
        assert(all.take(all.len() as int) == all);
        if peer_changed {
            let summary = match self.peers.primary(now, self.cfg.peer_stale_ms()) {
                Some(peer) => Some(self.peer_event(peer, now)),
                None => None,
            };
            if let Some(summary) = summary {
                self.queue(BridgeEvent::Peer(summary));
            }
        }
        out
    }

    /// What an event of the engine does; whether the peer changed.
    fn hear(&mut self, out: &mut Vec<Outgoing>, event: Event, now: i64) -> (r: bool)
        requires
            old(self).wf(),
        ensures
            final(self).wf(),
            final(self)@ == old(self)@.heard(event, now as int).0,
            sent(final(out)@) == sent(old(out)@) + old(self)@.heard(event, now as int).1,
            r == old(self)@.heard(event, now as int).2,
    {
        match event {
            Event::State(state) => {
                let (name, detail, lost) = match &state {
                    ConnState::Connecting => ("connecting", String::new(), false),
                    ConnState::Online => ("online", String::new(), false),
                    ConnState::Offline(why) => ("offline", why.clone(), true),
                    ConnState::Rejected(why) => ("rejected", why.clone(), true),
                };
                if lost {
                    self.peers.clear();
                }
                // Republish on (re)connect so the peer sees us immediately.
                if let ConnState::Online = state {
                    self.publish(out, now, false);
                }
                self.conn = state;
                self.queue(BridgeEvent::Connection { state: name.to_string(), detail });
                lost
            },
            Event::PeerStatus(snap) => {
                // Encouragement does not depend on someone remembering.
                if self.cfg.accountability.auto_cheer && self.peers.is_achievement(&snap) {
                    let nudge = Nudge::sent_at(
                        NudgeKind::Cheer,
                        self.cfg.device_name.as_str(),
                        now,
                    );
                    enqueue(out, Command::Nudge(nudge), false);
                }
                self.peers.apply_status(snap)
            },
            Event::PeerTodos { device_id, items } => {
                self.peers.apply_todos(device_id, clone_todos(&items));
                self.queue(BridgeEvent::PeerTodos { items });
                false
            },
            Event::Nudge(nudge) => {
                // Following the peer into a focus round mirrors the desktop.
                if nudge.kind == NudgeKind::FocusTogether && self.pomodoro.state().phase
                    == PomodoroPhase::Idle {
                    self.pomodoro.start_focus(now);
                    self.publish(out, now, false);
                }
                let urgent = nudge.kind.is_urgent() && self.cfg.accountability.allow_urgent_nudges;
                self.queue(
                    BridgeEvent::Nudge {
                        title: nudge.kind.emoji().to_string().concat(" ").concat(
                            nudge.from_name.as_str(),
                        ),
                        body: nudge.body(),
                        kind: nudge.kind.name().to_string(),
                        urgent,
                    },
                );
                false
            },
            Event::PeerPresence { device_id, online } => {
                self.peers.set_online(device_id.as_str(), online);
                true
            },
            Event::Warning(message) => {
                self.queue(BridgeEvent::Warning { message });
                false
            },
        }
    }

    /// What the notification shows of a peer.
    pub fn peer_event(&self, peer: &StatusSnapshot, now: i64) -> (r: PeerSummary)
        ensures
            r@ == self@.summary(*peer, now as int),
    {
        let stale = peer.is_stale(now, self.cfg.peer_stale_ms());
        let presence = if stale {
            Presence::Offline
        } else {
            peer.presence
        };
        let focusing = !stale && peer.is_focusing();
        PeerSummary {
            name: peer.name.clone(),
            user: peer.user.clone(),
            platform: peer.platform.name().to_string(),
            presence: presence.label().to_string(),
            presence_color: argb(presence),
            detail: peer_detail(peer, now, stale),
            meta: peer_meta(peer, now),
            stale,
            focus_today_min: peer.focus_today_min,
            goal_min: peer.goal_min,
            streak_days: peer.streak_days,
            focusing,
            slacking: focusing && match peer.foreground_app() {
                Some(app) => self.cfg.accountability.is_distracting(app),
                None => false,
            },
        }
    }

    /// Current local state, for the notification's own line.
    pub fn local_status(&self, now: i64) -> (r: LocalStatus)
        requires
            self.wf(),
        ensures
            self@.shows(r, now as int),
    {
        let state = self.pomodoro.state();
        let goal: u32 = self.cfg.accountability.daily_goal_min;
        let stale: i64 = self.cfg.peer_stale_ms();
        let (_, peer_minutes) = self.peers.focus_comparison(self.focus_today_min, now, stale);
        LocalStatus {
            presence: self.effective_presence().label().to_string(),
            pomodoro_phase: state.phase.label().to_string(),
            pomodoro_remaining: state.remaining_text(now),
            pomodoro_active: state.phase != PomodoroPhase::Idle,
            pomodoro_paused: state.paused(),
            completed_today: state.completed_today,
            connected: matches!(self.conn, ConnState::Online),
            focus_today_min: self.focus_today_min,
            goal_min: goal,
            streak_days: self.streak(),
            goal_met: goal > 0 && self.focus_today_min >= goal,
            peer_focus_today_min: peer_minutes,
            peer_focusing: self.peers.is_focusing(now, stale),
            distracted: self.distraction.is_distracted(),
            distracted_by: match self.distraction.current_app() {
                Some(app) => Some(app.to_string()),
                None => None,
            },
        }
    }
}

/// Generate a pairing code, exposed so the Android UI does not reimplement it.
pub fn new_invite_code() -> (r: String)
    ensures
        exists|picks: Seq<u32>| picks.len() == 16 && r@ == grouped(#[trigger] picked(picks)),
        normalised(r@).len() == 16,
{
    generate_invite_code()
}

/// Default config, used to seed the Android settings screen.
pub fn default_config() -> (r: ClientConfig)
    ensures
        r.fresh(),
        r.device_name@ == "Android"@,
{
    ClientConfig::for_device("Android".to_string())
}

/// An explicit choice wins over everything, a phase of the pomodoro over the
/// default; choosing "active" hands control back.
pub proof fn presence_follows_the_choice(s: BridgeState, p: Presence)
    ensures
        p != Presence::Active ==> (BridgeState { manual: chosen(p), ..s }).presence() == p,
        p == Presence::Active ==> (BridgeState { manual: chosen(p), ..s }).presence() == (
        match s.timer.presence() {
            Some(q) => q,
            None => Presence::Active,
        }),
{
}

/// What is not to be shared is not in what is published.
pub proof fn unshared_is_absent(s: BridgeState, now: int)
    ensures
        ({
            let p = s.cfg.privacy;
            let t = s.snapshot(now);
            &&& !p.share_foreground_app ==> t.foreground is None
            &&& !p.share_battery ==> t.battery is None
            &&& !p.share_music ==> t.music is None
            &&& !p.share_pomodoro ==> t.pomodoro is None && t.focus_today_min == 0 && t.goal_min
                == 0 && t.streak_days == 0
            &&& !p.share_todos ==> t.todos_open == 0 && t.todos_done_today == 0
        }),
{
}

/// No to-do list is among what is sent.
pub open spec fn without_lists(out: Seq<Sent>) -> bool {
    forall|i: int| 0 <= i < out.len() ==> !((#[trigger] out[i]).order is PublishTodos)
}

/// While to-do lists are not shared, none leaves the device: a new list is not
/// sent, and neither a sample nor a tick nor an event of the engine sends any.
pub proof fn unshared_lists_stay_home(s: BridgeState, items: Seq<Todo>, event: Event, now: int)
    requires
        !s.cfg.privacy.share_todos,
    ensures
        s.todos_sent(items) == Seq::<Sent>::empty(),
        without_lists(s.watched(now).1),
        without_lists(s.ticked(now).1),
        without_lists(s.heard(event, now).1),
{
}

/// A peer who met their goal or finished a round is congratulated, once, unless
/// that is switched off.
pub proof fn achievements_are_cheered(s: BridgeState, snap: StatusSnapshot, now: int)
    ensures
        s.heard(Event::PeerStatus(snap), now).1 == (if s.cfg.accountability.auto_cheer
            && s.peers.achieves(snap) {
            seq![s.cheer(now)]
        } else {
            Seq::empty()
        }),
        s.heard(Event::PeerStatus(snap), now).0.heard(Event::PeerStatus(snap), now).1 == Seq::<
            Sent,
        >::empty(),
{
    achieved_once(s.peers, snap);
}

/// Outside a focus round nothing is noticed, told or reported, whatever is in
/// front: leisure time is not the tool's business.
pub proof fn nothing_is_noticed_outside_a_round(s: BridgeState, now: int)
    requires
        !s.focusing(),
    ensures
        s.watched(now) == (BridgeState { distraction: None, ..s }, Seq::<Sent>::empty()),
{
}

/// The peer hears of a distraction only by consent: the warning stays local unless
/// the user opted in.
pub proof fn distractions_are_reported_by_consent(s: BridgeState, now: int)
    requires
        !s.cfg.accountability.report_distraction_to_peer,
    ensures
        s.watched(now).1 == Seq::<Sent>::empty(),
{
}

/// An invitation to focus together starts a round where none is running, and
/// leaves a running timer alone; no other nudge touches the timer.
pub proof fn invitations_are_followed(s: BridgeState, nudge: Nudge, now: int)
    ensures
        s.heard(Event::Nudge(nudge), now).0.timer == (if nudge.kind == NudgeKind::FocusTogether
            && s.timer.state.phase == PomodoroPhase::Idle {
            s.timer.started(PomodoroPhase::Focus, now)
        } else {
            s.timer
        }),
{
}

/// The state after so many finished rounds.
pub open spec fn after_rounds(s: BridgeState, breaks: Seq<PomodoroPhase>) -> BridgeState
    decreases breaks.len(),
{
    if breaks.len() == 0 {
        s
    } else {
        after_rounds(s, breaks.drop_last()).credited(breaks.last())
    }
}

/// How many celebrations are among what is told.
pub open spec fn celebrations(told: Seq<Told>) -> int
    decreases told.len(),
{
    if told.len() == 0 {
        0
    } else {
        celebrations(told.drop_last()) + if told.last() is GoalReached {
            1int
        } else {
            0
        }
    }
}

/// However many rounds are finished, the goal is celebrated once: when it is
/// reached, and never again.
pub proof fn goal_is_celebrated_once(s: BridgeState, breaks: Seq<PomodoroPhase>)
    ensures
        ({
            let after = after_rounds(s, breaks);
            let reached = after.goal_met() && !s.goal_met();
            &&& after.cfg == s.cfg
            &&& s.goal_met() ==> after.goal_met()
            &&& after.streak_days == (if reached {
                capped_sum(s.streak_days, 1)
            } else {
                s.streak_days
            })
            &&& celebrations(after.pending) == celebrations(s.pending) + if reached {
                1int
            } else {
                0
            }
        }),
    decreases breaks.len(),
{
    if breaks.len() > 0 {
        goal_is_celebrated_once(s, breaks.drop_last());
        let mid = after_rounds(s, breaks.drop_last());
        let last = mid.credited(breaks.last());
        let once = mid.pending.push(
            Told::Pomodoro {
                phase: breaks.last().label_text(),
                remaining: "00:00"@,
                finished: true,
                message: "专注 "@ + decimal(at_least_one(mid.timer.cfg.focus_min) as nat)
                    + " 分钟完成，今日累计 "@ + decimal(
                    capped_sum(mid.focus_today_min, at_least_one(mid.timer.cfg.focus_min)) as nat,
                ) + " 分钟"@,
            },
        );
        assert(once.drop_last() == mid.pending);
        assert(celebrations(once) == celebrations(mid.pending));
        if last.goal_met() && !mid.goal_met() {
            assert(last.pending.drop_last() == once);
        } else {
            assert(last.pending == once);
        }
    }
}

/// A goal of zero switches goals and streaks off: no number of rounds is
/// celebrated or counts towards a streak.
pub proof fn no_goal_no_streak(s: BridgeState, breaks: Seq<PomodoroPhase>)
    requires
        s.cfg.accountability.daily_goal_min == 0,
    ensures
        after_rounds(s, breaks).streak_days == s.streak_days,
        celebrations(after_rounds(s, breaks).pending) == celebrations(s.pending),
        forall|now: int| (#[trigger] s.snapshot(now)).streak_days == 0,
        forall|now: int| (#[trigger] s.snapshot(now)).goal_min == 0,
{
    goal_is_celebrated_once(s, breaks);
}

/// A round that is skipped at its deadline leaves exactly what the deadline
/// leaves: it is credited all the same.
pub proof fn skipping_credits_the_round(s: BridgeState, end: i64)
    requires
        s.timer.state.phase != PomodoroPhase::Idle,
        s.timer.state.paused_left_ms is None,
        s.timer.state.ends_at == Some(end),
    ensures
        ({
            let (timer, event) = s.timer.skipped(end as int);
            s.with_timer(timer).bounded(event, end as int)
        }) == s.ticked(end as int),
{
    skip_is_an_early_deadline(s.timer, end);
}

/// A nag breaks through do-not-disturb only where the receiver agreed to it.
pub proof fn only_agreed_nags_are_urgent(s: BridgeState, nudge: Nudge, now: int)
    ensures
        s.heard(Event::Nudge(nudge), now).0.pending.last() matches Told::Nudge { urgent, .. } && (
        urgent ==> nudge.kind == NudgeKind::Nag && s.cfg.accountability.allow_urgent_nudges),
{
}

/// What may be shared is in what is published, just as it was sampled or counted.
pub proof fn shared_is_present(s: BridgeState, now: int)
    requires
        s.todos.len() <= u32::MAX,
    ensures
        ({
            let p = s.cfg.privacy;
            let t = s.snapshot(now);
            &&& t.device_id == s.cfg.device_id@ && t.name == s.cfg.device_name@ && t.user
                == s.cfg.user@ && t.platform == s.platform && t.at == now && t.presence
                == s.presence()
            &&& p.share_battery ==> t.battery == s.sensors.battery
            &&& p.share_music ==> t.music == s.sensors.music
            &&& p.share_pomodoro ==> t.pomodoro == Some(s.timer.state) && t.focus_today_min
                == s.focus_today_min && t.goal_min == s.cfg.accountability.daily_goal_min && (
            t.goal_min > 0 ==> t.streak_days == s.streak_days)
            &&& p.share_todos ==> t.todos_open == open_todos(s.todos).len() && t.todos_done_today
                == done_todos(s.todos, now).len()
            &&& s.sensors.foreground matches Some(fg) ==> (p.share_foreground_app && !listed(
                p.blocked_apps@,
                fg.app@,
            ) ==> (t.foreground matches Some(told) && told.app == fg.app@ && told.name
                == option_text(fg.name) && (p.share_window_title ==> told.title == option_text(
                fg.title,
            ))))
            &&& t.idle_secs is None
        }),
{
    s.todos.lemma_filter_len(|t: Todo| !t.done);
    s.todos.lemma_filter_len(|t: Todo| crate::store::done_on_day_of(t, now));
}

/// A listed app that outstays the grace period in a focus round is called out by
/// that very sample: to the user, with the time that is left of the round, and to
/// the peer where the user agreed.
pub proof fn slacking_is_called_out(s: BridgeState, c: Stretch, now: i64)
    requires
        s.timer.state.phase == PomodoroPhase::Focus,
        s.timer.state.paused_left_ms is None,
        s.cfg.accountability.warn_on_distraction,
        s.sensors.foreground matches Some(fg) && fg.app@ == c.app && listed(
            s.cfg.accountability.distracting_apps@,
            fg.app@,
        ),
        s.distraction == Some(c),
        !c.reported,
        i64::MIN <= c.since_ms <= i64::MAX,
        now - c.since_ms >= 1000 * s.cfg.accountability.distraction_grace_secs,
    ensures
        ({
            let (after, out) = s.watched(now as int);
            &&& after == (BridgeState {
                distraction: Some(Stretch { reported: true, ..c }),
                pending: s.pending.push(
                    Told::Nudge {
                        title: "👀 还在专注中"@,
                        body: c.app + " 打开了，这一轮还剩 "@ + s.timer.state.clock_text(
                            now as int,
                        ),
                        kind: "distraction"@,
                        urgent: true,
                    },
                ),
                ..s
            })
            &&& s.cfg.accountability.report_distraction_to_peer ==> out == seq![
                Sent {
                    order: Order::Nudge(
                        NudgeText {
                            kind: NudgeKind::Nag,
                            text: Some("我在专注时打开了 "@ + c.app + "，盯着我"@),
                            from_name: s.cfg.device_name@,
                            at: now as int,
                        },
                    ),
                    required: false,
                },
            ]
            &&& !s.cfg.accountability.report_distraction_to_peer ==> out.len() == 0
        }),
{
}

/// A finished round adds its configured minutes, a length of zero counting as one
/// minute, to those of the day, and says both. The round that reaches the goal, and
/// no other, lengthens the streak and is celebrated.
pub proof fn rounds_add_their_minutes(s: BridgeState, next: PomodoroPhase)
    requires
        s.focus_today_min + s.timer.cfg.focus_min < u32::MAX,
        s.streak_days < u32::MAX,
    ensures
        ({
            let after = s.credited(next);
            let goal = s.cfg.accountability.daily_goal_min;
            let minutes = if s.timer.cfg.focus_min == 0 {
                1int
            } else {
                s.timer.cfg.focus_min as int
            };
            let total = s.focus_today_min + minutes;
            let reached = goal != 0 && s.focus_today_min < goal <= total;
            let n = s.pending.len() as int;
            &&& after.focus_today_min == total
            &&& after.streak_days == s.streak_days + if reached {
                1int
            } else {
                0
            }
            &&& after.timer == s.timer
            &&& after.todos == s.todos
            &&& after.pending.take(n) == s.pending
            &&& after.pending[n] == (Told::Pomodoro {
                phase: next.label_text(),
                remaining: "00:00"@,
                finished: true,
                message: "专注 "@ + decimal(minutes as nat) + " 分钟完成，今日累计 "@ + decimal(
                    total as nat,
                ) + " 分钟"@,
            })
            &&& !reached ==> after.pending.len() == n + 1
            &&& reached ==> after.pending.len() == n + 2 && after.pending[n + 1] == (
            Told::GoalReached { goal_min: goal, streak_days: after.streak_days })
        }),
{
}

/// The tick that finds a focus round over credits it; one that finds a break over
/// says so; either is published. Any other tick does nothing.
pub proof fn ticks_end_what_is_over(s: BridgeState, now: i64)
    ensures
        ({
            let (after, out) = s.ticked(now as int);
            let over = s.timer.state.paused_left_ms is None && (s.timer.state.ends_at matches Some(
                end,
            ) ==> end <= now);
            &&& !over || s.timer.state.phase == PomodoroPhase::Idle ==> after == s && out.len() == 0
            &&& over && s.timer.state.phase == PomodoroPhase::Focus ==> exists|next: PomodoroPhase|
                after.focus_today_min == (#[trigger] s.credited(next)).focus_today_min
                    && after.streak_days == s.credited(next).streak_days && after.pending
                    == s.credited(next).pending
            &&& over && (s.timer.state.phase == PomodoroPhase::ShortBreak || s.timer.state.phase
                == PomodoroPhase::LongBreak) ==> {
                &&& after.focus_today_min == s.focus_today_min
                &&& after.streak_days == s.streak_days
                &&& after.pending.drop_last() == s.pending
                &&& after.pending.last() matches Told::Pomodoro { finished, message, .. }
                    && finished && message == "休息结束，准备下一回合"@
            }
            &&& over && s.timer.state.phase != PomodoroPhase::Idle ==> out == seq![
                after.publish(now as int, false),
            ]
            &&& after.timer == s.timer.ticked(now as int).0
        }),
{
    let (after, out) = s.ticked(now as int);
    let (timer, event) = s.timer.ticked(now as int);
    if let PomodoroEvent::FocusFinished(next) = event {
        assert(after.pending == s.credited(next).pending);
    }
}

/// What each command of the user does to the state. Each is published.
pub proof fn commands_do_what_they_say(
    s: BridgeState,
    p: Presence,
    items: Vec<Todo>,
    minutes: u32,
    days: u32,
    now: int,
    after: BridgeState,
    out: Seq<Sent>,
)
    requires
        i64::MIN <= now <= i64::MAX,
    ensures
        s.obeys(BridgeCommand::SetPresence { presence: p }, now, after, out) ==> {
            &&& p != Presence::Active ==> after.presence() == p
            &&& p == Presence::Active ==> after.presence() == (BridgeState {
                manual: None,
                ..s
            }).presence()
            &&& after == (BridgeState { manual: after.manual, ..s })
            &&& out == seq![
                Sent { order: Order::Publish(after.snapshot(now)), required: true },
            ]
        },
        s.obeys(BridgeCommand::TogglePomodoro, now, after, out) ==> {
            &&& after == (BridgeState { timer: s.timer.toggled(now), ..s })
            &&& out == seq![
                Sent { order: Order::Publish(after.snapshot(now)), required: true },
            ]
        },
        s.obeys(BridgeCommand::StartFocus, now, after, out) ==> {
            &&& after.timer.state.phase == PomodoroPhase::Focus
            &&& after == (BridgeState { timer: s.timer.started(PomodoroPhase::Focus, now), ..s })
            &&& out == seq![
                Sent { order: Order::Publish(after.snapshot(now)), required: true },
            ]
        },
        s.obeys(BridgeCommand::StopPomodoro, now, after, out) ==> {
            &&& after.timer.state.phase == PomodoroPhase::Idle
            &&& after == (BridgeState { timer: s.timer.stopped(), ..s })
            &&& out == seq![
                Sent { order: Order::Publish(after.snapshot(now)), required: true },
            ]
        },
        s.obeys(BridgeCommand::SkipPhase, now, after, out) ==> {
            &&& after.timer == s.timer.skipped(now).0
            &&& s.timer.state.phase == PomodoroPhase::Focus ==> exists|next: PomodoroPhase|
                after.focus_today_min == (#[trigger] s.credited(next)).focus_today_min
                    && after.streak_days == s.credited(next).streak_days
            &&& s.timer.state.phase != PomodoroPhase::Focus ==> after.focus_today_min
                == s.focus_today_min && after.streak_days == s.streak_days
            &&& out.last() == (Sent { order: Order::Publish(after.snapshot(now)), required: true })
        },
        s.obeys(BridgeCommand::SetTodos { items }, now, after, out) ==> {
            &&& after == (BridgeState { todos: items@, ..s })
            &&& out.last() == (Sent { order: Order::Publish(after.snapshot(now)), required: true })
            &&& s.cfg.privacy.share_todos ==> out.len() == 2 && out[0] == (Sent {
                order: Order::PublishTodos(items@),
                required: true,
            })
            &&& !s.cfg.privacy.share_todos ==> out.len() == 1
        },
        s.obeys(
            BridgeCommand::RestoreProgress { focus_today_min: minutes, streak_days: days },
            now,
            after,
            out,
        ) ==> {
            &&& after == (BridgeState { focus_today_min: minutes, streak_days: days, ..s })
            &&& out == seq![
                Sent { order: Order::Publish(after.snapshot(now)), required: true },
            ]
        },
{
    if s.obeys(BridgeCommand::SkipPhase, now, after, out) {
        let (timer, event) = s.timer.skipped(now);
        assert(after == s.with_timer(timer).bounded(event, now).0);
        if let PomodoroEvent::FocusFinished(next) = event {
            assert(after == s.with_timer(timer).credited(next));
            assert(timer.cfg == s.timer.cfg);
            assert(after.focus_today_min == s.credited(next).focus_today_min);
        }
    }
}

/// A sample replaces the last one, and the presence only where it comes with one. It
/// is published, with the state as the sample left it.
pub proof fn samples_are_published(
    s: BridgeState,
    presence: Option<Presence>,
    foreground: Option<ForegroundApp>,
    battery: Option<Battery>,
    music: Option<NowPlaying>,
    now: int,
    after: BridgeState,
    out: Seq<Sent>,
)
    requires
        s.obeys(BridgeCommand::Publish { presence, foreground, battery, music }, now, after, out),
    ensures
        after.sensors == (Sensors { foreground, battery, music }),
        presence is None ==> after.manual == s.manual,
        presence matches Some(p) ==> (p != Presence::Active ==> after.presence() == p),
        presence == Some(Presence::Active) ==> after.manual is None,
        after.timer == s.timer,
        after.todos == s.todos,
        after.focus_today_min == s.focus_today_min,
        out.len() >= 1,
        out.last() == (Sent { order: Order::Publish(after.snapshot(now)), required: true }),
        out.drop_last() == (BridgeState { sensors: after.sensors, manual: after.manual, ..s }).watched(
            now,
        ).1,
{
}

/// A nudge is sent as it is asked for, with the caller's own words where there are
/// any, and changes nothing here.
pub proof fn nudges_are_sent_as_asked(
    s: BridgeState,
    kind: NudgeKind,
    text: Option<String>,
    now: int,
    after: BridgeState,
    out: Seq<Sent>,
)
    requires
        s.obeys(BridgeCommand::Nudge { kind, text }, now, after, out),
    ensures
        after == s,
        out.len() == 1,
        out[0].required,
        out[0].order matches Order::Nudge(n) && n.kind == kind && n.from_name
            == s.cfg.device_name@ && n.at == now && (text matches Some(t) ==> n.text == Some(t@))
            && (text is None && kind != NudgeKind::Nag ==> n.text is None),
{
}

/// A new configuration is handed to the engine and taken for the timer, which keeps
/// its phase.
pub proof fn configurations_are_taken(
    s: BridgeState,
    config: Box<ClientConfig>,
    now: int,
    after: BridgeState,
    out: Seq<Sent>,
)
    requires
        s.obeys(BridgeCommand::Reconfigure { config }, now, after, out),
    ensures
        after.timer.cfg == config.pomodoro,
        after.timer.state == s.timer.state,
        after.todos == s.todos,
        after.peers == s.peers,
        after.cfg.like(*config),
        out == seq![Sent { order: Order::Reconnect(*config), required: true }],
{
}

/// What the engine says of the link and of the peer's devices is taken as it is, and
/// told; a link that is up is greeted with our own status.
pub proof fn the_engine_is_believed(
    s: BridgeState,
    state: ConnState,
    device_id: String,
    online: bool,
    items: Vec<Todo>,
    message: String,
    now: int,
)
    ensures
        ({
            let (after, out, changed) = s.heard(Event::State(state), now);
            let lost = state is Offline || state is Rejected;
            &&& after.conn == state
            &&& after.timer == s.timer
            &&& lost ==> after.peers.none_known()
            &&& !lost ==> after.peers == s.peers
            &&& changed == lost
            &&& state is Online <==> out == seq![
                Sent { order: Order::Publish(s.snapshot(now)), required: false },
            ]
            &&& !(state is Online) ==> out.len() == 0
            &&& after.pending.drop_last() == s.pending
            &&& after.pending.last() is Connection
        }),
        ({
            let (after, out, changed) = s.heard(Event::PeerPresence { device_id, online }, now);
            &&& after.peers.online == s.peers.online.insert(device_id@, online)
            &&& after.peers.devices == s.peers.devices
            &&& changed
            &&& out.len() == 0
            &&& after.pending == s.pending
        }),
        ({
            let (after, out, changed) = s.heard(Event::PeerTodos { device_id, items }, now);
            &&& after.peers.todos == s.peers.todos.insert(device_id@, items@)
            &&& after.peers.devices == s.peers.devices
            &&& after.todos == s.todos
            &&& out.len() == 0
            &&& after.pending == s.pending.push(Told::PeerTodos { items: items@ })
        }),
        ({
            let (after, out, changed) = s.heard(Event::Warning(message), now);
            &&& after == (BridgeState {
                pending: s.pending.push(Told::Warning { message: message@ }),
                ..s
            })
            &&& out.len() == 0
            &&& !changed
        }),
{
    let greeting = seq![Sent { order: Order::Publish(s.snapshot(now)), required: false }];
    assert(greeting.len() == 1);
}

/// No event of the engine but an invitation touches the timer: one that runs stays as
/// it was through all of them.
pub proof fn events_leave_a_running_timer_alone(s: BridgeState, events: Seq<Event>, now: int)
    requires
        s.timer.state.phase != PomodoroPhase::Idle || forall|i: int|
            0 <= i < events.len() ==> !((#[trigger] events[i]) matches Event::Nudge(n) && n.kind
                == NudgeKind::FocusTogether),
    ensures
        s.heard_all(events, now).0.timer == s.timer,
    decreases events.len(),
{
    if events.len() > 0 {
        assert forall|i: int| 0 <= i < events.drop_last().len() implies events.drop_last()[i]
            == events[i] by {}
        events_leave_a_running_timer_alone(s, events.drop_last(), now);
        assert(events[events.len() - 1] == events.last());
    }
}

/// A poke is told with who sent it and what it says. One that starts the timer is
/// answered with our status. A nag is urgent exactly when that was agreed to.
pub proof fn pokes_are_told(s: BridgeState, nudge: Nudge, now: int)
    ensures
        ({
            let (after, out, changed) = s.heard(Event::Nudge(nudge), now);
            let follows = nudge.kind == NudgeKind::FocusTogether && s.timer.state.phase
                == PomodoroPhase::Idle;
            &&& after == (BridgeState { timer: after.timer, pending: after.pending, ..s })
            &&& after.pending.drop_last() == s.pending
            &&& after.pending.last() matches Told::Nudge { title, body, kind, urgent } && title
                == nudge.kind.emoji_text() + " "@ + nudge.from_name@ && body == nudge.body_text()
                && kind == nudge.kind.name_text() && urgent == (nudge.kind == NudgeKind::Nag
                && s.cfg.accountability.allow_urgent_nudges)
            &&& follows ==> after.timer.state.phase == PomodoroPhase::Focus && out.len() == 1
                && !out[0].required && (out[0].order matches Order::Publish(t)
                && s.cfg.privacy.share_pomodoro ==> out[0].order->Publish_0.pomodoro == Some(
                after.timer.state,
            ))
            &&& !follows ==> after.timer == s.timer && out.len() == 0
            &&& !changed
        }),
{
}

/// A nag names the app that a focusing peer has in front, else the minutes that the
/// peer is short of their goal; about a peer with neither there is nothing to say.
pub proof fn nags_come_with_evidence(cfg: ClientConfig, mine: u32, peer: StatusSnapshot)
    ensures
        ({
            let slacks = peer.pomodoro is Some && peer.pomodoro->0.phase == PomodoroPhase::Focus
                && peer.pomodoro->0.paused_left_ms is None && peer.foreground is Some && listed(
                cfg.accountability.distracting_apps@,
                peer.foreground->0.app@,
            );
            let short = peer.goal_min > 0 && peer.focus_today_min < peer.goal_min;
            &&& slacks ==> nag(cfg, mine, peer) == Some(
                "你在专注中开着 "@ + peer.foreground->0.app@ + "，专心点"@,
            )
            &&& !slacks && short ==> nag(cfg, mine, peer) == Some(
                "今天还差 "@ + decimal((peer.goal_min - peer.focus_today_min) as nat)
                    + " 分钟，我已经做了 "@ + decimal(mine as nat) + " 分钟了"@,
            )
            &&& !slacks && !short ==> nag(cfg, mine, peer) is None
        }),
{
}

/// A peer whose status is older than allowed is shown as offline, and neither as
/// focusing nor as slacking; a fresh one as it said.
pub proof fn stale_peers_are_offline(s: BridgeState, peer: StatusSnapshot, now: i64)
    requires
        0 <= now - peer.at <= i64::MAX,
    ensures
        ({
            let t = s.summary(peer, now as int);
            let old_news = now - peer.at > s.cfg.stale_ms();
            let focusing = peer.pomodoro is Some && peer.pomodoro->0.phase == PomodoroPhase::Focus
                && peer.pomodoro->0.paused_left_ms is None;
            &&& t.stale == old_news
            &&& old_news ==> t.presence == Presence::Offline.label_text() && !t.focusing
                && !t.slacking
            &&& !old_news ==> t.presence == peer.presence.label_text() && t.focusing == focusing
                && t.slacking == (focusing && peer.foreground is Some && listed(
                s.cfg.accountability.distracting_apps@,
                peer.foreground->0.app@,
            ))
            &&& t.name == peer.name@ && t.user == peer.user@
            &&& t.focus_today_min == peer.focus_today_min && t.goal_min == peer.goal_min
                && t.streak_days == peer.streak_days
        }),
{
}

/// The main line about a peer tells its age when it is stale, else the music that
/// plays, else the application in front, by its title where that is told.
pub proof fn the_main_line_tells_what_matters(peer: StatusSnapshot, now: i64)
    requires
        0 <= now - peer.at <= i64::MAX,
    ensures
        detail_text(peer, now as int, true) == "最后更新于 "@ + decimal_int(
            (now - peer.at) / 1000,
        ) + " 秒前"@,
        ({
            let line = detail_text(peer, now as int, false);
            let plays = peer.music is Some && peer.music->0.playing;
            &&& plays ==> line == "♪ "@ + peer.music->0.one_line_text()
            &&& !plays && peer.foreground is None ==> line == "空闲"@
            &&& !plays ==> (peer.foreground matches Some(fg) ==> {
                let name = if fg.name is Some {
                    fg.name->0@
                } else {
                    fg.app@
                };
                &&& fg.title is None ==> line == name
                &&& fg.title matches Some(t) ==> line == name + "："@ + t@
            })
        }),
{
}

/// The user is shown their own state as it is: the phase and its clock, the counters,
/// and the streak only where there is a goal.
pub proof fn the_own_state_is_shown(s: BridgeState, shown: LocalStatus, now: i64)
    requires
        s.shows(shown, now as int),
    ensures
        shown.presence@ == s.presence().label_text(),
        shown.pomodoro_phase@ == s.timer.state.phase.label_text(),
        shown.pomodoro_remaining@ == s.timer.state.clock_text(now as int),
        shown.pomodoro_active <==> s.timer.state.phase == PomodoroPhase::Focus
            || s.timer.state.phase == PomodoroPhase::ShortBreak || s.timer.state.phase
            == PomodoroPhase::LongBreak,
        shown.pomodoro_paused <==> s.timer.state.paused_left_ms is Some,
        shown.completed_today == s.timer.state.completed_today,
        shown.connected <==> s.conn == ConnState::Online,
        shown.focus_today_min == s.focus_today_min,
        shown.goal_min == s.cfg.accountability.daily_goal_min,
        shown.goal_min == 0 ==> shown.streak_days == 0 && !shown.goal_met,
        shown.goal_min > 0 ==> shown.streak_days == s.streak_days && (shown.goal_met
            <==> s.focus_today_min >= shown.goal_min),
        s.peers.none_known() ==> shown.peer_focus_today_min == 0 && !shown.peer_focusing,
        s.distraction is None ==> !shown.distracted && shown.distracted_by is None,
        s.distraction matches Some(c) ==> shown.distracted == c.reported && shown.distracted_by
            is Some && shown.distracted_by->0@ == c.app,
{
}

/// What waits to be told is told first and in its order: neither a tick nor an event
/// of the engine takes anything away or puts anything before it.
pub proof fn what_waits_is_told_first(s: BridgeState, events: Seq<Event>, now: int)
    ensures
        s.pending.is_prefix_of(s.ticked(now).0.pending),
        s.pending.is_prefix_of(s.heard_all(events, now).0.pending),
    decreases events.len(),
{
    if events.len() > 0 {
        what_waits_is_told_first(s, events.drop_last(), now);
        let mid = s.heard_all(events.drop_last(), now).0;
        let after = mid.heard(events.last(), now).0;
        assert(mid.pending.is_prefix_of(after.pending));
    }
}

/// After news of the peer its summary is told, once, of a device that is displayed;
/// without news, or while nobody is known, nothing is.
pub proof fn news_of_the_peer_is_summed_up(
    s: BridgeState,
    changed: bool,
    now: int,
    after: BridgeState,
)
    requires
        s.summed_up(changed, now, after),
    ensures
        !changed || s.peers.none_known() ==> after == s,
        changed && !s.peers.none_known() ==> {
            &&& after.pending.drop_last() == s.pending
            &&& after == (BridgeState { pending: after.pending, ..s })
            &&& exists|id: Seq<char>| #[trigger]
                s.peers.displayed(id, now, s.cfg.stale_ms()) && after.pending.last() == Told::Peer(
                    s.summary(s.peers.devices[id], now),
                )
        },
{
    if changed && !s.peers.none_known() {
        let id = choose|id: Seq<char>| #[trigger]
            s.peers.displayed(id, now, s.cfg.stale_ms()) && after == (BridgeState {
                pending: s.pending.push(Told::Peer(s.summary(s.peers.devices[id], now))),
                ..s
            });
        assert(after.pending.drop_last() =~= s.pending);
        assert(after.pending.last() == Told::Peer(s.summary(s.peers.devices[id], now)));
    }
}

/// News of the peer is taken, and changes nothing of our own; old news changes nothing
/// at all.
pub proof fn news_of_the_peer_is_taken(s: BridgeState, snap: StatusSnapshot, now: int)
    ensures
        ({
            let (after, out, changed) = s.heard(Event::PeerStatus(snap), now);
            let id = snap.device_id@;
            let old_news = s.peers.devices.contains_key(id) && s.peers.devices[id].at > snap.at;
            &&& !old_news ==> after.peers.devices == s.peers.devices.insert(id, snap)
                && after.peers.online == s.peers.online.insert(id, true)
            &&& old_news ==> after == s
            &&& changed == !old_news
            &&& after == (BridgeState { peers: after.peers, ..s })
        }),
{
}

}
