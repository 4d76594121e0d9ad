//! Everything that is synchronised between two peers.
//!
//! These values travel *inside* the encrypted payload, so the relay server never
//! sees any of it.

use vstd::prelude::*;

use crate::clock::{clip, minus, now_ms};
use crate::crypto::{hex, random_id};
use crate::text::{clone_option, padded, padded_text, same};

verus! {

/// Which platform a peer device runs on. Used purely for the UI badge.
#[derive(Debug, Clone, Copy, PartialEq, Eq, Structural)]
pub enum Platform {
    Windows,
    Linux,
    Android,
    Other,
}

impl Platform {
    pub open spec fn name_text(self) -> Seq<char> {
        match self {
            Platform::Windows => "Windows"@,
            Platform::Linux => "Linux"@,
            Platform::Android => "Android"@,
            Platform::Other => "Other"@,
        }
    }

    /// The platform by its name in code.
    pub fn name(self) -> (r: &'static str)
        ensures
            r@ == self.name_text(),
    {
        match self {
            Platform::Windows => "Windows",
            Platform::Linux => "Linux",
            Platform::Android => "Android",
            Platform::Other => "Other",
        }
    }

    /// Platform of a binary that runs on the operating system of this name, as
    /// the compiler spells it.
    pub fn current(os: &str) -> (r: Platform)
        ensures
            r == (if os@ == "windows"@ {
                Platform::Windows
            } else if os@ == "android"@ {
                Platform::Android
            } else if os@ == "linux"@ {
                Platform::Linux
            } else {
                Platform::Other
            }),
    {
        if same(os, "windows") {
            Platform::Windows
        } else if same(os, "android") {
            Platform::Android
        } else if same(os, "linux") {
            Platform::Linux
        } else {
            Platform::Other
        }
    }

    pub fn icon(self) -> (r: &'static str)
        ensures
            r@ == match self {
                Platform::Windows => "WIN"@,
                Platform::Linux => "TUX"@,
                Platform::Android => "AND"@,
                Platform::Other => "?"@,
            },
    {
        match self {
            Platform::Windows => "WIN",
            Platform::Linux => "TUX",
            Platform::Android => "AND",
            Platform::Other => "?",
        }
    }
}

/// Coarse availability, set explicitly by the user (tray menu on desktop,
/// notification action on Android) rather than inferred.
#[derive(Debug, Clone, Copy, PartialEq, Eq, Structural)]
pub enum Presence {
    /// At the keyboard and interruptible.
    Active,
    /// Explicitly taking a break.
    Resting,
    /// Idle for a while, detected from input idle time.
    Away,
    /// Do not disturb: nudges are queued instead of shown.
    Busy,
    /// No device connected. Never published, only synthesised locally.
    Offline,
}

impl Presence {
    pub open spec fn name_text(self) -> Seq<char> {
        match self {
            Presence::Active => "Active"@,
            Presence::Resting => "Resting"@,
            Presence::Away => "Away"@,
            Presence::Busy => "Busy"@,
            Presence::Offline => "Offline"@,
        }
    }

    /// The presence by its name in code.
    pub fn name(self) -> (r: &'static str)
        ensures
            r@ == self.name_text(),
    {
        match self {
            Presence::Active => "Active",
            Presence::Resting => "Resting",
            Presence::Away => "Away",
            Presence::Busy => "Busy",
            Presence::Offline => "Offline",
        }
    }

    pub open spec fn label_text(self) -> Seq<char> {
        match self {
            Presence::Active => "在忙"@,
            Presence::Resting => "休息中"@,
            Presence::Away => "离开"@,
            Presence::Busy => "免打扰"@,
            Presence::Offline => "离线"@,
        }
    }

    pub fn label(self) -> (r: &'static str)
        ensures
            r@ == self.label_text(),
    {
        match self {
            Presence::Active => "在忙",
            Presence::Resting => "休息中",
            Presence::Away => "离开",
            Presence::Busy => "免打扰",
            Presence::Offline => "离线",
        }
    }

    pub open spec fn rgb_spec(self) -> (u8, u8, u8) {
        match self {
            Presence::Active => (0x4c, 0xaf, 0x50),
            Presence::Resting => (0x42, 0xa5, 0xf5),
            Presence::Away => (0xff, 0xb3, 0x00),
            Presence::Busy => (0xef, 0x53, 0x50),
            Presence::Offline => (0x9e, 0x9e, 0x9e),
        }
    }

    /// Accent colour as RGB, shared by the desktop overlay and the Android
    /// notification so both ends look the same.
    pub fn rgb(self) -> (r: (u8, u8, u8))
        ensures
            r == self.rgb_spec(),
    {
        match self {
            Presence::Active => (0x4c, 0xaf, 0x50),
            Presence::Resting => (0x42, 0xa5, 0xf5),
            Presence::Away => (0xff, 0xb3, 0x00),
            Presence::Busy => (0xef, 0x53, 0x50),
            Presence::Offline => (0x9e, 0x9e, 0x9e),
        }
    }
}

/// The window (desktop) or app (Android) currently in the foreground.
#[derive(Debug, PartialEq, Eq)]
pub struct ForegroundApp {
    /// Process / package name, e.g. `Code.exe` or `com.tencent.mm`.
    pub app: String,
    /// Human friendly name when we can resolve one.
    pub name: Option<String>,
    /// Window title. Omitted entirely when the user disables title sharing.
    pub title: Option<String>,
}

impl Clone for ForegroundApp {
    fn clone(&self) -> (r: ForegroundApp)
        ensures
            r == *self,
    {
        ForegroundApp {
            app: self.app.clone(),
            name: clone_option(&self.name),
            title: clone_option(&self.title),
        }
    }
}

#[derive(Debug, Clone, Copy, PartialEq, Eq, Structural)]
pub struct Battery {
    /// 0-100.
    pub percent: u8,
    pub charging: bool,
    /// Minutes remaining, when the OS reports it.
    pub minutes_left: Option<u32>,
}

/// Media session snapshot, from GSMTC on Windows, MPRIS on Linux and
/// `MediaSession` on Android.
#[derive(Debug, PartialEq, Eq)]
pub struct NowPlaying {
    pub title: String,
    pub artist: Option<String>,
    pub album: Option<String>,
    /// Player identity, e.g. `Spotify` / `org.mpris.MediaPlayer2.vlc`.
    pub player: Option<String>,
    /// False while paused; the track is kept so the UI can still show it.
    pub playing: bool,
}

impl Clone for NowPlaying {
    fn clone(&self) -> (r: NowPlaying)
        ensures
            r == *self,
    {
        NowPlaying {
            title: self.title.clone(),
            artist: clone_option(&self.artist),
            album: clone_option(&self.album),
            player: clone_option(&self.player),
            playing: self.playing,
        }
    }
}

/// What is playing.
pub struct MusicText {
    pub title: Seq<char>,
    pub artist: Option<Seq<char>>,
    pub album: Option<Seq<char>>,
    pub player: Option<Seq<char>>,
    pub playing: bool,
}

impl View for NowPlaying {
    type V = MusicText;

    open spec fn view(&self) -> MusicText {
        MusicText {
            title: self.title@,
            artist: option_text(self.artist),
            album: option_text(self.album),
            player: option_text(self.player),
            playing: self.playing,
        }
    }
}

/// What is playing, if anything is.
pub open spec fn music_text(music: Option<NowPlaying>) -> Option<MusicText> {
    match music {
        Some(m) => Some(m@),
        None => None,
    }
}

impl NowPlaying {
    pub open spec fn one_line_text(self) -> Seq<char> {
        match self.artist {
            Some(a) => if a@.len() > 0 {
                a@ + " - "@ + self.title@
            } else {
                self.title@
            },
            None => self.title@,
        }
    }

    /// `Artist - Title`, or just the title when the artist is unknown.
    pub fn one_line(&self) -> (r: String)
        ensures
            r@ == self.one_line_text(),
    {
        match &self.artist {
            Some(a) => {
                if !a.as_str().is_empty() {
                    a.clone().concat(" - ").concat(self.title.as_str())
                } else {
                    self.title.clone()
                }
            },
            None => self.title.clone(),
        }
    }
}

#[derive(Debug, Clone, Copy, PartialEq, Eq, Structural)]
pub enum PomodoroPhase {
    Idle,
    Focus,
    ShortBreak,
    LongBreak,
}

impl PomodoroPhase {
    pub open spec fn label_text(self) -> Seq<char> {
        match self {
            PomodoroPhase::Idle => "未开始"@,
            PomodoroPhase::Focus => "专注"@,
            PomodoroPhase::ShortBreak => "小休"@,
            PomodoroPhase::LongBreak => "长休"@,
        }
    }

    pub fn label(self) -> (r: &'static str)
        ensures
            r@ == self.label_text(),
    {
        match self {
            PomodoroPhase::Idle => "未开始",
            PomodoroPhase::Focus => "专注",
            PomodoroPhase::ShortBreak => "小休",
            PomodoroPhase::LongBreak => "长休",
        }
    }

    pub fn is_break(self) -> (r: bool)
        ensures
            r == (self == PomodoroPhase::ShortBreak || self == PomodoroPhase::LongBreak),
    {
        matches!(self, PomodoroPhase::ShortBreak | PomodoroPhase::LongBreak)
    }
}

/// Pomodoro timer state. Only the *deadline* is synced, never a ticking
/// countdown, so the peer UI can interpolate locally without a message per
/// second.
#[derive(Debug, Clone, Copy, PartialEq, Eq, Structural)]
pub struct PomodoroState {
    pub phase: PomodoroPhase,
    /// Unix ms at which the current phase ends. `None` when idle.
    pub ends_at: Option<i64>,
    /// Milliseconds left when paused; lets the peer render a frozen timer.
    pub paused_left_ms: Option<i64>,
    /// Completed focus rounds in the current set.
    pub round: u32,
    /// Completed focus rounds today.
    pub completed_today: u32,
}

impl PomodoroState {
    /// A timer that is not running.
    pub open spec fn idle(round: u32, completed_today: u32) -> PomodoroState {
        PomodoroState {
            phase: PomodoroPhase::Idle,
            ends_at: None,
            paused_left_ms: None,
            round,
            completed_today,
        }
    }

    /// Milliseconds left: a pause freezes them, otherwise the deadline decides,
    /// and there are never fewer than none.
    pub open spec fn remaining(self, now: int) -> int {
        match self.paused_left_ms {
            Some(left) => if left < 0 {
                0
            } else {
                left as int
            },
            None => match self.ends_at {
                Some(end) => if end - now < 0 {
                    0
                } else {
                    clip(end - now)
                },
                None => 0,
            },
        }
    }
}

impl Default for PomodoroState {
    fn default() -> (r: PomodoroState)
        ensures
            r == PomodoroState::idle(0, 0),
    {
        PomodoroState {
            phase: PomodoroPhase::Idle,
            ends_at: None,
            paused_left_ms: None,
            round: 0,
            completed_today: 0,
        }
    }
}

impl PomodoroState {
    pub fn paused(&self) -> (r: bool)
        ensures
            r == (self.paused_left_ms is Some),
    {
        self.paused_left_ms.is_some()
    }

    /// Milliseconds remaining at `now`, clamped at zero.
    pub fn remaining_ms(&self, now: i64) -> (r: i64)
        ensures
            r == self.remaining(now as int),
            r >= 0,
    {
        if let Some(left) = self.paused_left_ms {
            return if left < 0 {
                0
            } else {
                left
            };
        }
        match self.ends_at {
            Some(end) => {
                let left: i64 = minus(end, now);
                if left < 0 {
                    0
                } else {
                    left
                }
            },
            None => 0,
        }
    }

    /// The remaining time in minutes and seconds.
    pub open spec fn clock_text(self, now: int) -> Seq<char> {
        let total = self.remaining(now) / 1000;
        padded((total / 60) as nat, 2) + ":"@ + padded((total % 60) as nat, 2)
    }

    /// `mm:ss` for the remaining time.
    pub fn remaining_text(&self, now: i64) -> (r: String)
        ensures
            r@ == self.clock_text(now as int),
    {
        let total: u64 = (self.remaining_ms(now) / 1000) as u64;
        padded_text(total / 60, 2).concat(":").concat(padded_text(total % 60, 2).as_str())
    }
}

/// A single to-do item. Todos are synced as a whole list, which is fine for the
/// handful of items a person keeps in a day.
#[derive(Debug, PartialEq, Eq)]
pub struct Todo {
    pub id: String,
    pub title: String,
    pub done: bool,
    pub created_at: i64,
    pub done_at: Option<i64>,
    /// Focus rounds spent on this item.
    pub pomodoros: u32,
}

impl Clone for Todo {
    fn clone(&self) -> (r: Todo)
        ensures
            r == *self,
    {
        Todo {
            id: self.id.clone(),
            title: self.title.clone(),
            done: self.done,
            created_at: self.created_at,
            done_at: self.done_at,
            pomodoros: self.pomodoros,
        }
    }
}

impl Todo {
    /// An open item with a fresh id, which depends on chance.
    pub fn new(title: &str, now: i64) -> (r: Todo)
        ensures
            exists|raw: Seq<u8>| raw.len() == 8 && r.id@ == #[trigger] hex(raw),
            r.title@ == title@,
            !r.done,
            r.created_at == now,
            r.done_at is None,
            r.pomodoros == 0,
    {
        Todo {
            id: random_id(8),
            title: title.to_string(),
            done: false,
            created_at: now,
            done_at: None,
            pomodoros: 0,
        }
    }
}

/// A copy of a to-do list.
pub fn clone_todos(v: &Vec<Todo>) -> (r: Vec<Todo>)
    ensures
        r@ == v@,
{
    let mut out: Vec<Todo> = Vec::new();
    for i in 0..v.len()
        invariant
            out@ == v@.take(i as int),
    {
        out.push(v[i].clone());
        assert(v@.take(i + 1) == v@.take(i as int).push(v@[i as int]));
    }
    assert(v@.take(v@.len() as int) == v@);
    out
}

/// Everything one device publishes about itself. Re-sent on change and at least
/// once per heartbeat interval so the peer can detect staleness.
#[derive(Debug, PartialEq)]
pub struct StatusSnapshot {
    pub device_id: String,
    pub name: String,
    /// Nickname of the person the device belongs to; empty when none is set.
    pub user: String,
    pub platform: Platform,
    /// Publisher clock, unix ms. Also used to drop out-of-order updates.
    pub at: i64,
    pub presence: Presence,
    pub foreground: Option<ForegroundApp>,
    pub battery: Option<Battery>,
    pub music: Option<NowPlaying>,
    pub pomodoro: Option<PomodoroState>,
    /// Open / completed-today counters. The list itself is sent separately so a
    /// status update stays small.
    pub todos_open: u32,
    pub todos_done_today: u32,
    /// Seconds since the last input event, when the platform exposes it.
    pub idle_secs: Option<u32>,
    /// Minutes focused today. This is the number that actually holds someone
    /// accountable, so it is synced separately from the round counter.
    pub focus_today_min: u32,
    /// Daily focus target in minutes. Synced so the peer's progress means
    /// something rather than being a bare number.
    pub goal_min: u32,
    /// Consecutive days the goal was met, including today once it is met.
    pub streak_days: u32,
}

/// What is said of an application.
pub struct AppText {
    pub app: Seq<char>,
    pub name: Option<Seq<char>>,
    pub title: Option<Seq<char>>,
}

/// The text of a string that may be missing.
pub open spec fn option_text(s: Option<String>) -> Option<Seq<char>> {
    match s {
        Some(t) => Some(t@),
        None => None,
    }
}

impl View for ForegroundApp {
    type V = AppText;

    open spec fn view(&self) -> AppText {
        AppText {
            app: self.app@,
            name: option_text(self.name),
            title: option_text(self.title),
        }
    }
}

/// What a snapshot says.
pub struct StatusText {
    pub device_id: Seq<char>,
    pub name: Seq<char>,
    pub user: Seq<char>,
    pub platform: Platform,
    pub at: int,
    pub presence: Presence,
    pub foreground: Option<AppText>,
    pub battery: Option<Battery>,
    pub music: Option<NowPlaying>,
    pub pomodoro: Option<PomodoroState>,
    pub todos_open: u32,
    pub todos_done_today: u32,
    pub idle_secs: Option<u32>,
    pub focus_today_min: u32,
    pub goal_min: u32,
    pub streak_days: u32,
}

/// What is said of the application in front, if there is one.
pub open spec fn app_text(app: Option<ForegroundApp>) -> Option<AppText> {
    match app {
        Some(a) => Some(a@),
        None => None,
    }
}

impl View for StatusSnapshot {
    type V = StatusText;

    open spec fn view(&self) -> StatusText {
        StatusText {
            device_id: self.device_id@,
            name: self.name@,
            user: self.user@,
            platform: self.platform,
            at: self.at as int,
            presence: self.presence,
            foreground: app_text(self.foreground),
            battery: self.battery,
            music: self.music,
            pomodoro: self.pomodoro,
            todos_open: self.todos_open,
            todos_done_today: self.todos_done_today,
            idle_secs: self.idle_secs,
            focus_today_min: self.focus_today_min,
            goal_min: self.goal_min,
            streak_days: self.streak_days,
        }
    }
}

impl Clone for StatusSnapshot {
    fn clone(&self) -> (r: StatusSnapshot)
        ensures
            r == *self,
    {
        StatusSnapshot {
            device_id: self.device_id.clone(),
            name: self.name.clone(),
            user: self.user.clone(),
            platform: self.platform,
            at: self.at,
            presence: self.presence,
            foreground: match &self.foreground {
                Some(f) => Some(f.clone()),
                None => None,
            },
            battery: self.battery,
            music: match &self.music {
                Some(m) => Some(m.clone()),
                None => None,
            },
            pomodoro: self.pomodoro,
            todos_open: self.todos_open,
            todos_done_today: self.todos_done_today,
            idle_secs: self.idle_secs,
            focus_today_min: self.focus_today_min,
            goal_min: self.goal_min,
            streak_days: self.streak_days,
        }
    }
}

impl StatusSnapshot {
    /// A snapshot that says nothing but who publishes it and that they are there.
    pub open spec fn bare(self, platform: Platform) -> bool {
        &&& self.user@ == Seq::<char>::empty()
        &&& self.platform == platform
        &&& self.presence == Presence::Active
        &&& self.foreground is None
        &&& self.battery is None
        &&& self.music is None
        &&& self.pomodoro is None
        &&& self.todos_open == 0
        &&& self.todos_done_today == 0
        &&& self.idle_secs is None
        &&& self.focus_today_min == 0
        &&& self.goal_min == 0
        &&& self.streak_days == 0
    }

    /// A bare snapshot taken now.
    pub fn new(device_id: &str, name: &str, platform: Platform) -> (r: StatusSnapshot)
        ensures
            r.device_id@ == device_id@,
            r.name@ == name@,
            r.bare(platform),
    {
        StatusSnapshot::taken_at(device_id, name, platform, now_ms())
    }

    /// A bare snapshot taken at a given time.
    pub fn taken_at(device_id: &str, name: &str, platform: Platform, at: i64) -> (r: StatusSnapshot)
        ensures
            r.device_id@ == device_id@,
            r.name@ == name@,
            r.bare(platform),
            r.at == at,
    {
        StatusSnapshot {
            device_id: device_id.to_string(),
            name: name.to_string(),
            user: String::new(),
            platform,
            at,
            presence: Presence::Active,
            foreground: None,
            battery: None,
            music: None,
            pomodoro: None,
            todos_open: 0,
            todos_done_today: 0,
            idle_secs: None,
            focus_today_min: 0,
            goal_min: 0,
            streak_days: 0,
        }
    }

    pub open spec fn stale(self, now: int, max_age_ms: int) -> bool {
        clip(now - self.at) > max_age_ms
    }

    /// True when the snapshot is older than `max_age_ms` and should be shown as
    /// stale / offline.
    pub fn is_stale(&self, now: i64, max_age_ms: i64) -> (r: bool)
        ensures
            r == self.stale(now as int, max_age_ms as int),
    {
        minus(now, self.at) > max_age_ms
    }

    /// The presence to show: offline when the data is stale.
    pub open spec fn seen_as(self, now: int, max_age_ms: int) -> Presence {
        if self.stale(now, max_age_ms) {
            Presence::Offline
        } else {
            self.presence
        }
    }

    /// In a focus round, as far as fresh data says.
    pub open spec fn seen_focusing(self, now: int, max_age_ms: int) -> bool {
        !self.stale(now, max_age_ms) && self.focusing()
    }

    pub open spec fn goal_met_spec(self) -> bool {
        self.goal_min > 0 && self.focus_today_min >= self.goal_min
    }

    pub fn goal_met(&self) -> (r: bool)
        ensures
            r == self.goal_met_spec(),
    {
        self.goal_min > 0 && self.focus_today_min >= self.goal_min
    }

    pub open spec fn focusing(self) -> bool {
        self.pomodoro matches Some(p) && p.phase == PomodoroPhase::Focus && p.paused_left_ms is None
    }

    /// Whether this device claims to be in a focus round right now.
    pub fn is_focusing(&self) -> (r: bool)
        ensures
            r == self.focusing(),
    {
        match &self.pomodoro {
            Some(p) => p.phase == PomodoroPhase::Focus && !p.paused(),
            None => false,
        }
    }

    /// The foreground app as a single comparable string, for distraction checks.
    pub fn foreground_app(&self) -> (r: Option<&str>)
        ensures
            match self.foreground {
                Some(f) => r matches Some(app) && app@ == f.app@,
                None => r is None,
            },
    {
        match &self.foreground {
            Some(f) => Some(f.app.as_str()),
            None => None,
        }
    }
}

/// An interaction sent to the peer.
///
/// The list is ordered by how often it gets used for the tool's actual purpose:
/// nagging comes first, comfort last.
#[derive(Debug, Clone, Copy, PartialEq, Eq, Structural)]
pub enum NudgeKind {
    /// Left-clicking the peer avatar / tapping the notification button.
    Knock,
    Hug,
    Coffee,
    /// "Come rest" suggestion.
    Rest,
    /// "Let's focus together": invites a synced pomodoro.
    FocusTogether,
    /// "Stop slacking off." Sent when the peer is supposed to be focusing but
    /// clearly is not.
    Nag,
    /// Acknowledges a finished round or a met goal. Praise is the other half of
    /// accountability; without it the tool is only ever unpleasant.
    Cheer,
}

impl NudgeKind {
    pub open spec fn name_text(self) -> Seq<char> {
        match self {
            NudgeKind::Knock => "Knock"@,
            NudgeKind::Hug => "Hug"@,
            NudgeKind::Coffee => "Coffee"@,
            NudgeKind::Rest => "Rest"@,
            NudgeKind::FocusTogether => "FocusTogether"@,
            NudgeKind::Nag => "Nag"@,
            NudgeKind::Cheer => "Cheer"@,
        }
    }

    /// The kind by its name in code.
    pub fn name(self) -> (r: &'static str)
        ensures
            r@ == self.name_text(),
    {
        match self {
            NudgeKind::Knock => "Knock",
            NudgeKind::Hug => "Hug",
            NudgeKind::Coffee => "Coffee",
            NudgeKind::Rest => "Rest",
            NudgeKind::FocusTogether => "FocusTogether",
            NudgeKind::Nag => "Nag",
            NudgeKind::Cheer => "Cheer",
        }
    }

    /// Ordered for the menus: the accountability actions first.
    pub const ALL: [NudgeKind; 7] = [
        NudgeKind::Nag,
        NudgeKind::FocusTogether,
        NudgeKind::Cheer,
        NudgeKind::Knock,
        NudgeKind::Hug,
        NudgeKind::Coffee,
        NudgeKind::Rest,
    ];

    pub open spec fn emoji_text(self) -> Seq<char> {
        match self {
            NudgeKind::Knock => "👋"@,
            NudgeKind::Hug => "🤗"@,
            NudgeKind::Coffee => "☕"@,
            NudgeKind::Rest => "🛋"@,
            NudgeKind::FocusTogether => "🍅"@,
            NudgeKind::Nag => "👀"@,
            NudgeKind::Cheer => "🎉"@,
        }
    }

    pub fn emoji(self) -> (r: &'static str)
        ensures
            r@ == self.emoji_text(),
    {
        match self {
            NudgeKind::Knock => "👋",
            NudgeKind::Hug => "🤗",
            NudgeKind::Coffee => "☕",
            NudgeKind::Rest => "🛋",
            NudgeKind::FocusTogether => "🍅",
            NudgeKind::Nag => "👀",
            NudgeKind::Cheer => "🎉",
        }
    }

    pub open spec fn label_text(self) -> Seq<char> {
        match self {
            NudgeKind::Knock => "敲一敲"@,
            NudgeKind::Hug => "抱抱"@,
            NudgeKind::Coffee => "请喝咖啡"@,
            NudgeKind::Rest => "去休息"@,
            NudgeKind::FocusTogether => "一起专注"@,
            NudgeKind::Nag => "别摸鱼了"@,
            NudgeKind::Cheer => "夸一夸"@,
        }
    }

    pub fn label(self) -> (r: &'static str)
        ensures
            r@ == self.label_text(),
    {
        match self {
            NudgeKind::Knock => "敲一敲",
            NudgeKind::Hug => "抱抱",
            NudgeKind::Coffee => "请喝咖啡",
            NudgeKind::Rest => "去休息",
            NudgeKind::FocusTogether => "一起专注",
            NudgeKind::Nag => "别摸鱼了",
            NudgeKind::Cheer => "夸一夸",
        }
    }

    pub open spec fn sentence(self) -> Seq<char> {
        match self {
            NudgeKind::Knock => "敲了敲你"@,
            NudgeKind::Hug => "抱了抱你"@,
            NudgeKind::Coffee => "请你喝咖啡"@,
            NudgeKind::Rest => "让你去休息"@,
            NudgeKind::FocusTogether => "邀你一起专注"@,
            NudgeKind::Nag => "发现你在摸鱼"@,
            NudgeKind::Cheer => "为你鼓掌"@,
        }
    }

    /// Sentence used when the sender adds no text of their own.
    fn default_text(self) -> (r: &'static str)
        ensures
            r@ == self.sentence(),
    {
        match self {
            NudgeKind::Knock => "敲了敲你",
            NudgeKind::Hug => "抱了抱你",
            NudgeKind::Coffee => "请你喝咖啡",
            NudgeKind::Rest => "让你去休息",
            NudgeKind::FocusTogether => "邀你一起专注",
            NudgeKind::Nag => "发现你在摸鱼",
            NudgeKind::Cheer => "为你鼓掌",
        }
    }

    /// Whether this should break through do-not-disturb.
    ///
    /// A nag that waits until the peer happens to look at their screen is
    /// useless, so it is the one interaction allowed to interrupt. Everything
    /// else respects [`Presence::Busy`].
    pub fn is_urgent(self) -> (r: bool)
        ensures
            r == (self == NudgeKind::Nag),
    {
        matches!(self, NudgeKind::Nag)
    }
}

#[derive(Debug, PartialEq, Eq)]
pub struct Nudge {
    pub kind: NudgeKind,
    /// Optional short text typed by the sender.
    pub text: Option<String>,
    /// Display name of the sender, so the receiver can render it without having
    /// a status snapshot yet.
    pub from_name: String,
    pub at: i64,
}

/// What a nudge says.
pub struct NudgeText {
    pub kind: NudgeKind,
    pub text: Option<Seq<char>>,
    pub from_name: Seq<char>,
    pub at: int,
}

impl View for Nudge {
    type V = NudgeText;

    open spec fn view(&self) -> NudgeText {
        NudgeText {
            kind: self.kind,
            text: option_text(self.text),
            from_name: self.from_name@,
            at: self.at as int,
        }
    }
}

impl Clone for Nudge {
    fn clone(&self) -> (r: Nudge)
        ensures
            r == *self,
    {
        Nudge {
            kind: self.kind,
            text: clone_option(&self.text),
            from_name: self.from_name.clone(),
            at: self.at,
        }
    }
}

impl Nudge {
    /// A nudge without text, sent now.
    pub fn new(kind: NudgeKind, from_name: &str) -> (r: Nudge)
        ensures
            r.kind == kind,
            r.text is None,
            r.from_name@ == from_name@,
    {
        Nudge::sent_at(kind, from_name, now_ms())
    }

    /// A nudge without text, sent at a given time.
    pub fn sent_at(kind: NudgeKind, from_name: &str, at: i64) -> (r: Nudge)
        ensures
            r.kind == kind,
            r.text is None,
            r.from_name@ == from_name@,
            r.at == at,
    {
        Nudge { kind, text: None, from_name: from_name.to_string(), at }
    }

    pub open spec fn body_text(self) -> Seq<char> {
        if self.text matches Some(t) && t@.len() > 0 {
            self.kind.emoji_text() + " "@ + self.from_name@ + "："@ + self.text->0@
        } else {
            self.kind.emoji_text() + " "@ + self.from_name@ + " "@ + self.kind.sentence()
        }
    }

    /// One-line body for a toast / notification.
    pub fn body(&self) -> (r: String)
        ensures
            r@ == self.body_text(),
    {
        let head = self.kind.emoji().to_string().concat(" ").concat(self.from_name.as_str());
        if let Some(t) = &self.text {
            if !t.as_str().is_empty() {
                return head.concat("：").concat(t.as_str());
            }
        }
        head.concat(" ").concat(self.kind.default_text())
    }
}

/// The plaintext payload exchanged between peers, i.e. what sits inside the
/// AEAD box.
#[derive(Debug, PartialEq)]
pub enum PeerMessage {
    /// Full status. Retained by the relay so a peer that connects later gets it.
    Status(StatusSnapshot),
    /// Interaction. Never retained.
    Nudge(Nudge),
    /// Full to-do list of the sender.
    Todos { device_id: String, items: Vec<Todo>, at: i64 },
    /// Keeps the E2E channel warm and lets peers measure round-trip time.
    Ping { at: i64 },
    Pong { at: i64 },
}

impl PeerMessage {
    /// Whether the relay should store this as the sender's latest state.
    pub fn retained(&self) -> (r: bool)
        ensures
            r == (self is Status || self is Todos),
    {
        matches!(self, PeerMessage::Status(_) | PeerMessage::Todos { .. })
    }

    pub open spec fn slot(self) -> Option<Seq<char>> {
        match self {
            PeerMessage::Status(_) => Some("status"@),
            PeerMessage::Todos { .. } => Some("todos"@),
            _ => None,
        }
    }

    /// Retain slot name. Distinct kinds must not overwrite each other.
    pub fn retain_slot(&self) -> (r: Option<&'static str>)
        ensures
            match self.slot() {
                Some(name) => r matches Some(s) && s@ == name,
                None => r is None,
            },
            r is Some <==> self is Status || self is Todos,
    {
        match self {
            PeerMessage::Status(_) => Some("status"),
            PeerMessage::Todos { .. } => Some("todos"),
            _ => None,
        }
    }
}

/// The two retained kinds of message have slots of their own, so neither
/// overwrites the other.
pub proof fn retain_slots_are_distinct(a: PeerMessage, b: PeerMessage)
    requires
        a is Status,
        b is Todos,
    ensures
        a.slot() is Some,
        b.slot() is Some,
        a.slot() != b.slot(),
{
    reveal_strlit("status");
    reveal_strlit("todos");
    assert("status"@.len() != "todos"@.len());
}

/// A snapshot is stale when it is older than allowed, and not before.
pub proof fn only_old_snapshots_are_stale(s: StatusSnapshot, now: i64, max_age_ms: i64)
    requires
        i64::MIN <= now - s.at <= i64::MAX,
    ensures
        s.stale(now as int, max_age_ms as int) <==> now > s.at + max_age_ms,
{
}

/// A goal is met from the minute on that reaches it; a goal of zero never is.
pub proof fn goals_are_met_when_reached(s: StatusSnapshot)
    ensures
        s.goal_min == 0 ==> !s.goal_met_spec(),
        s.goal_min > 0 ==> (s.goal_met_spec() <==> s.goal_min <= s.focus_today_min),
{
}

/// The clock shows whole minutes and seconds, which together are the whole seconds
/// that are left.
pub proof fn the_clock_shows_what_is_left(s: PomodoroState, now: int) -> (r: (nat, nat))
    ensures
        s.clock_text(now) == padded(r.0, 2) + ":"@ + padded(r.1, 2),
        r.1 < 60,
        0 <= s.remaining(now) - 1000 * (60 * r.0 + r.1) < 1000,
{
    let total = s.remaining(now) / 1000;
    ((total / 60) as nat, (total % 60) as nat)
}

/// Only a focus round that is not paused counts as focusing.
pub proof fn breaks_and_pauses_are_no_focus(s: StatusSnapshot)
    ensures
        s.pomodoro is None ==> !s.focusing(),
        s.pomodoro matches Some(p) ==> (s.focusing() <==> p.phase != PomodoroPhase::Idle && p.phase
            != PomodoroPhase::ShortBreak && p.phase != PomodoroPhase::LongBreak
            && !(p.paused_left_ms is Some)),
{
}

/// Old data shows its sender offline and not focusing; fresh data shows what it says.
pub proof fn only_fresh_data_is_believed(s: StatusSnapshot, now: i64, max_age_ms: i64)
    requires
        i64::MIN <= now - s.at <= i64::MAX,
    ensures
        now - s.at > max_age_ms ==> s.seen_as(now as int, max_age_ms as int) == Presence::Offline
            && !s.seen_focusing(now as int, max_age_ms as int),
        now - s.at <= max_age_ms ==> s.seen_as(now as int, max_age_ms as int) == s.presence
            && s.seen_focusing(now as int, max_age_ms as int) == s.focusing(),
{
}

/// No two presences share a name, a label or a colour.
pub proof fn presences_are_told_apart(a: Presence, b: Presence)
    ensures
        a.name_text() == b.name_text() ==> a == b,
        a.label_text() == b.label_text() ==> a == b,
        a.rgb_spec() == b.rgb_spec() ==> a == b,
{
    reveal_strlit("Active");
    reveal_strlit("Resting");
    reveal_strlit("Away");
    reveal_strlit("Busy");
    reveal_strlit("Offline");
    reveal_strlit("在忙");
    reveal_strlit("休息中");
    reveal_strlit("离开");
    reveal_strlit("免打扰");
    reveal_strlit("离线");
    assert("Active"@.len() == 6 && "Active"@[0] == 'A');
    assert("Resting"@.len() == 7 && "Resting"@[0] == 'R');
    assert("Away"@.len() == 4 && "Away"@[0] == 'A');
    assert("Busy"@.len() == 4 && "Busy"@[0] == 'B');
    assert("Offline"@.len() == 7 && "Offline"@[0] == 'O');
    assert("在忙"@.len() == 2 && "在忙"@[0] == '在');
    assert("休息中"@.len() == 3 && "休息中"@[0] == '休');
    assert("离开"@.len() == 2 && "离开"@[0] == '离');
    assert("免打扰"@.len() == 3 && "免打扰"@[0] == '免');
    assert("离线"@.len() == 2 && "离线"@[0] == '离');
    assert("离开"@[1] != "离线"@[1]);
}

/// No two kinds of poke share a name, an emoji, a label or a sentence.
pub proof fn pokes_are_told_apart(a: NudgeKind, b: NudgeKind)
    ensures
        a.name_text() == b.name_text() ==> a == b,
        a.emoji_text() == b.emoji_text() ==> a == b,
        a.label_text() == b.label_text() ==> a == b,
        a.sentence() == b.sentence() ==> a == b,
{
    reveal_strlit("Knock");
    reveal_strlit("Hug");
    reveal_strlit("Coffee");
    reveal_strlit("Rest");
    reveal_strlit("FocusTogether");
    reveal_strlit("Nag");
    reveal_strlit("Cheer");
    reveal_strlit("👋");
    reveal_strlit("🤗");
    reveal_strlit("☕");
    reveal_strlit("🛋");
    reveal_strlit("🍅");
    reveal_strlit("👀");
    reveal_strlit("🎉");
    reveal_strlit("敲一敲");
    reveal_strlit("抱抱");
    reveal_strlit("请喝咖啡");
    reveal_strlit("去休息");
    reveal_strlit("一起专注");
    reveal_strlit("别摸鱼了");
    reveal_strlit("夸一夸");
    reveal_strlit("敲了敲你");
    reveal_strlit("抱了抱你");
    reveal_strlit("请你喝咖啡");
    reveal_strlit("让你去休息");
    reveal_strlit("邀你一起专注");
    reveal_strlit("发现你在摸鱼");
    reveal_strlit("为你鼓掌");
    assert("Knock"@.len() == 5 && "Knock"@[0] == 'K');
    assert("Hug"@.len() == 3 && "Hug"@[0] == 'H');
    assert("Coffee"@.len() == 6 && "Coffee"@[0] == 'C');
    assert("Rest"@.len() == 4 && "Rest"@[0] == 'R');
    assert("FocusTogether"@.len() == 13 && "FocusTogether"@[0] == 'F');
    assert("Nag"@.len() == 3 && "Nag"@[0] == 'N');
    assert("Cheer"@.len() == 5 && "Cheer"@[0] == 'C');
    assert("👋"@.len() == 1 && "👋"@[0] == '👋');
    assert("🤗"@.len() == 1 && "🤗"@[0] == '🤗');
    assert("☕"@.len() == 1 && "☕"@[0] == '☕');
    assert("🛋"@.len() == 1 && "🛋"@[0] == '🛋');
    assert("🍅"@.len() == 1 && "🍅"@[0] == '🍅');
    assert("👀"@.len() == 1 && "👀"@[0] == '👀');
    assert("🎉"@.len() == 1 && "🎉"@[0] == '🎉');
    assert("敲一敲"@.len() == 3 && "敲一敲"@[0] == '敲');
    assert("抱抱"@.len() == 2 && "抱抱"@[0] == '抱');
    assert("请喝咖啡"@.len() == 4 && "请喝咖啡"@[0] == '请');
    assert("去休息"@.len() == 3 && "去休息"@[0] == '去');
    assert("一起专注"@.len() == 4 && "一起专注"@[0] == '一');
    assert("别摸鱼了"@.len() == 4 && "别摸鱼了"@[0] == '别');
    assert("夸一夸"@.len() == 3 && "夸一夸"@[0] == '夸');
    assert("敲了敲你"@.len() == 4 && "敲了敲你"@[0] == '敲');
    assert("抱了抱你"@.len() == 4 && "抱了抱你"@[0] == '抱');
    assert("请你喝咖啡"@.len() == 5 && "请你喝咖啡"@[0] == '请');
    assert("让你去休息"@.len() == 5 && "让你去休息"@[0] == '让');
    assert("邀你一起专注"@.len() == 6 && "邀你一起专注"@[0] == '邀');
    assert("发现你在摸鱼"@.len() == 6 && "发现你在摸鱼"@[0] == '发');
    assert("为你鼓掌"@.len() == 4 && "为你鼓掌"@[0] == '为');
}

/// No two phases share a label, and no two platforms a name.
pub proof fn phases_and_platforms_are_told_apart(
    a: PomodoroPhase,
    b: PomodoroPhase,
    x: Platform,
    y: Platform,
)
    ensures
        a.label_text() == b.label_text() ==> a == b,
        x.name_text() == y.name_text() ==> x == y,
{
    reveal_strlit("未开始");
    reveal_strlit("专注");
    reveal_strlit("小休");
    reveal_strlit("长休");
    reveal_strlit("Windows");
    reveal_strlit("Linux");
    reveal_strlit("Android");
    reveal_strlit("Other");
    assert("未开始"@.len() == 3 && "未开始"@[0] == '未');
    assert("专注"@.len() == 2 && "专注"@[0] == '专');
    assert("小休"@.len() == 2 && "小休"@[0] == '小');
    assert("长休"@.len() == 2 && "长休"@[0] == '长');
    assert("Windows"@.len() == 7 && "Windows"@[0] == 'W');
    assert("Linux"@.len() == 5 && "Linux"@[0] == 'L');
    assert("Android"@.len() == 7 && "Android"@[0] == 'A');
    assert("Other"@.len() == 5 && "Other"@[0] == 'O');
}

/// A deadline comes closer by the time that passes, and is never behind; a paused
/// timer stands still; one without a deadline has nothing left.
pub proof fn the_rest_runs_down(s: PomodoroState, now: i64, later: i64)
    requires
        now <= later,
        s.ends_at matches Some(end) ==> end - now <= i64::MAX,
    ensures
        s.paused_left_ms is Some ==> s.remaining(now as int) == s.remaining(later as int),
        s.paused_left_ms matches Some(left) ==> (left >= 0 ==> s.remaining(now as int) == left),
        s.paused_left_ms is None && s.ends_at is None ==> s.remaining(now as int) == 0,
        s.paused_left_ms is None ==> (s.ends_at matches Some(end) ==> {
            &&& now < end ==> s.remaining(now as int) == end - now
            &&& now >= end ==> s.remaining(now as int) == 0
            &&& later <= end ==> s.remaining(now as int) - s.remaining(later as int) == later - now
        }),
        s.remaining(now as int) >= 0,
{
}

/// Music is told with its artist where there is one, and by its title alone where
/// there is none.
pub proof fn music_is_told_with_its_artist(m: NowPlaying)
    ensures
        m.artist is None ==> m.one_line_text() == m.title@,
        m.artist matches Some(a) ==> (a@.len() == 0 ==> m.one_line_text() == m.title@),
        m.artist matches Some(a) ==> (a@.len() > 0 ==> m.one_line_text() == a@ + " - "@ + m.title@),
{
}

/// A poke says who sent it, and the sender's own words where there are any.
pub proof fn pokes_say_who_and_what(n: Nudge)
    ensures
        ({
            let head = n.kind.emoji_text() + " "@ + n.from_name@;
            &&& head.is_prefix_of(n.body_text())
            &&& n.text matches Some(t) ==> (t@.len() > 0 ==> n.body_text() == head + "："@ + t@)
            &&& n.text matches Some(t) ==> (t@.len() == 0 ==> n.body_text() == head + " "@
                + n.kind.sentence())
            &&& n.text is None ==> n.body_text() == head + " "@ + n.kind.sentence()
        }),
{
}

/// Only statuses and lists are retained for those who come later.
pub proof fn only_state_is_retained(m: PeerMessage)
    ensures
        m.slot() is Some <==> m is Status || m is Todos,
{
}

}
