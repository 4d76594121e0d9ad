//! Client configuration.
//!
//! Shared by the desktop and Android front-ends. Nothing here decides *where*
//! the file lives: the desktop uses the OS config directory while Android passes
//! its private app dir.

use vstd::prelude::*;

use crate::crypto::{code_char, hex, is_code_char, random_id};
use crate::model::Platform;
use crate::text::{
    chars_of, clone_option, clone_strings, contains, find, find_last, lower, lower_of, occurs,
    covers, holds_all, text_of, texts,
};

verus! {

/// `app` contains one of the listed words, whatever the case of either; an empty
/// word matches nothing.
pub open spec fn listed(list: Seq<String>, app: Seq<char>) -> bool {
    exists|i: int| #[trigger] listed_at(list, app, i)
}

pub open spec fn listed_at(list: Seq<String>, app: Seq<char>, i: int) -> bool {
    0 <= i < list.len() && list[i]@.len() > 0 && occurs(lower(app), lower(list[i]@))
}

/// Case-insensitive substring match against a list of words.
fn on_list(list: &Vec<String>, app: &str) -> (r: bool)
    ensures
        r == listed(list@, app@),
{
    let app_lower = lower_of(app);
    let mut i: usize = 0;
    while i < list.len()
        invariant
            i <= list@.len(),
            app_lower@ == lower(app@),
            forall|k: int| 0 <= k < i ==> !listed_at(list@, app@, k),
        decreases list@.len() - i,
    {
        let word = lower_of(list[i].as_str());
        if !list[i].as_str().is_empty() && contains(app_lower.as_slice(), word.as_slice()) {
            assert(listed_at(list@, app@, i as int));
            return true;
        }
        i = i + 1;
    }
    false
}

/// What the local device is allowed to publish. Everything defaults to the
/// least surprising choice: share the app, but not what the window says.
#[derive(Debug)]
pub struct Privacy {
    pub share_foreground_app: bool,
    /// Window titles often contain file names or chat partners, so this is off
    /// by default even when the app name is shared.
    pub share_window_title: bool,
    pub share_battery: bool,
    pub share_music: bool,
    pub share_pomodoro: bool,
    pub share_todos: bool,
    /// Publish seconds-since-last-input, which drives automatic "away".
    pub share_idle: bool,
    /// Process names that are replaced with a placeholder before publishing.
    pub blocked_apps: Vec<String>,
}

impl Privacy {
    /// The same settings, with the same words in the same order.
    pub open spec fn like(self, other: Privacy) -> bool {
        &&& self.share_foreground_app == other.share_foreground_app
        &&& self.share_window_title == other.share_window_title
        &&& self.share_battery == other.share_battery
        &&& self.share_music == other.share_music
        &&& self.share_pomodoro == other.share_pomodoro
        &&& self.share_todos == other.share_todos
        &&& self.share_idle == other.share_idle
        &&& self.blocked_apps@ == other.blocked_apps@
    }

    /// Whatever may be told here may be told there.
    pub open spec fn within(self, other: Privacy) -> bool {
        &&& self.share_foreground_app ==> other.share_foreground_app
        &&& self.share_window_title ==> other.share_window_title
        &&& self.share_battery ==> other.share_battery
        &&& self.share_music ==> other.share_music
        &&& self.share_pomodoro ==> other.share_pomodoro
        &&& self.share_todos ==> other.share_todos
        &&& self.share_idle ==> other.share_idle
        &&& covers(texts(self.blocked_apps@), texts(other.blocked_apps@))
    }

    /// Whether whatever may be told here may be told there.
    pub fn is_within(&self, other: &Privacy) -> (r: bool)
        ensures
            r == self.within(*other),
    {
        (!self.share_foreground_app || other.share_foreground_app) && (!self.share_window_title
            || other.share_window_title) && (!self.share_battery || other.share_battery) && (
        !self.share_music || other.share_music) && (!self.share_pomodoro || other.share_pomodoro)
            && (!self.share_todos || other.share_todos) && (!self.share_idle || other.share_idle)
            && holds_all(&self.blocked_apps, &other.blocked_apps)
    }

    /// Share everything but window titles, and block no app.
    pub open spec fn initial(self) -> bool {
        &&& self.share_foreground_app
        &&& !self.share_window_title
        &&& self.share_battery
        &&& self.share_music
        &&& self.share_pomodoro
        &&& self.share_todos
        &&& self.share_idle
        &&& self.blocked_apps@ == Seq::<String>::empty()
    }

    /// Case-insensitive match against the block list.
    pub fn is_blocked(&self, app: &str) -> (r: bool)
        ensures
            r == listed(self.blocked_apps@, app@),
    {
        on_list(&self.blocked_apps, app)
    }
}

impl Clone for Privacy {
    fn clone(&self) -> (r: Privacy)
        ensures
            r.like(*self),
    {
        Privacy {
            share_foreground_app: self.share_foreground_app,
            share_window_title: self.share_window_title,
            share_battery: self.share_battery,
            share_music: self.share_music,
            share_pomodoro: self.share_pomodoro,
            share_todos: self.share_todos,
            share_idle: self.share_idle,
            blocked_apps: clone_strings(&self.blocked_apps),
        }
    }
}

impl Default for Privacy {
    fn default() -> (r: Privacy)
        ensures
            r.initial(),
    {
        Privacy {
            share_foreground_app: true,
            share_window_title: false,
            share_battery: true,
            share_music: true,
            share_pomodoro: true,
            share_todos: true,
            share_idle: true,
            blocked_apps: Vec::new(),
        }
    }
}

/// Pomodoro lengths, in minutes.
#[derive(Debug, Clone, Copy, PartialEq, Eq, Structural)]
pub struct PomodoroConfig {
    pub focus_min: u32,
    pub short_break_min: u32,
    pub long_break_min: u32,
    /// Focus rounds before a long break.
    pub rounds_per_set: u32,
    /// Start the next phase without waiting for a click.
    pub auto_continue: bool,
    /// Flip presence to `Resting` for the duration of a break phase.
    pub presence_follows_phase: bool,
}

impl PomodoroConfig {
    /// The classic lengths.
    pub open spec fn initial() -> PomodoroConfig {
        PomodoroConfig {
            focus_min: 25,
            short_break_min: 5,
            long_break_min: 15,
            rounds_per_set: 4,
            auto_continue: false,
            presence_follows_phase: true,
        }
    }
}

impl Default for PomodoroConfig {
    fn default() -> (r: PomodoroConfig)
        ensures
            r == PomodoroConfig::initial(),
    {
        PomodoroConfig {
            focus_min: 25,
            short_break_min: 5,
            long_break_min: 15,
            rounds_per_set: 4,
            auto_continue: false,
            presence_follows_phase: true,
        }
    }
}

/// The accountability settings: what turns a status widget into something that
/// actually keeps two people working.
#[derive(Debug)]
pub struct Accountability {
    /// Daily focus target in minutes. 0 disables goals and streaks entirely.
    pub daily_goal_min: u32,
    /// Warn *me* when I open a distracting app during a focus round.
    pub warn_on_distraction: bool,
    /// Apps that count as a distraction. Matched case-insensitively as a
    /// substring, so `bilibili` catches both the browser tab and the app.
    pub distracting_apps: Vec<String>,
    /// Seconds a distracting app must stay in the foreground before it counts.
    /// Prevents a flicker while alt-tabbing from tripping the alarm.
    pub distraction_grace_secs: u32,
    /// Tell the peer when I get distracted during a focus round.
    ///
    /// Off by default: being watched is something to opt into, not something a
    /// tool should assume. With it off the warning stays local.
    pub report_distraction_to_peer: bool,
    /// Let the peer's nag break through my do-not-disturb.
    pub allow_urgent_nudges: bool,
    /// Automatically congratulate the peer when they finish a round or hit their
    /// goal, so encouragement does not depend on someone remembering.
    pub auto_cheer: bool,
}

/// A starting list the user is expected to edit.
///
/// Deliberately generic and short: guessing someone's particular time sinks is
/// futile, but an empty list means the feature does nothing until configured.
pub open spec fn default_distractions() -> Seq<Seq<char>> {
    seq![
        "bilibili"@,
        "youtube"@,
        "tiktok"@,
        "douyin"@,
        "netflix"@,
        "steam"@,
        "epicgames"@,
        "discord"@,
        "twitter"@,
        "instagram"@,
        "reddit"@,
        "zhihu"@,
        "weibo"@,
    ]
}

fn default_distracting_apps() -> (r: Vec<String>)
    ensures
        r@.map_values(|s: String| s@) == default_distractions(),
{
    let mut out: Vec<String> = Vec::new();
    out.push("bilibili".to_string());
    out.push("youtube".to_string());
    out.push("tiktok".to_string());
    out.push("douyin".to_string());
    out.push("netflix".to_string());
    out.push("steam".to_string());
    out.push("epicgames".to_string());
    out.push("discord".to_string());
    out.push("twitter".to_string());
    out.push("instagram".to_string());
    out.push("reddit".to_string());
    out.push("zhihu".to_string());
    out.push("weibo".to_string());
    assert(out@.map_values(|s: String| s@) =~= default_distractions());
    out
}

impl Accountability {
    /// The same settings, with the same words in the same order.
    pub open spec fn like(self, other: Accountability) -> bool {
        &&& self.daily_goal_min == other.daily_goal_min
        &&& self.warn_on_distraction == other.warn_on_distraction
        &&& self.distracting_apps@ == other.distracting_apps@
        &&& self.distraction_grace_secs == other.distraction_grace_secs
        &&& self.report_distraction_to_peer == other.report_distraction_to_peer
        &&& self.allow_urgent_nudges == other.allow_urgent_nudges
        &&& self.auto_cheer == other.auto_cheer
    }

    /// Four classic pomodoros a day. A goal of zero would make the whole feature
    /// invisible, and a default of zero is how features go unused.
    pub open spec fn initial(self) -> bool {
        &&& self.daily_goal_min == 100
        &&& self.warn_on_distraction
        &&& self.distracting_apps@.map_values(|s: String| s@) == default_distractions()
        &&& self.distraction_grace_secs == 30
        &&& !self.report_distraction_to_peer
        &&& self.allow_urgent_nudges
        &&& self.auto_cheer
    }

    /// Whether `app` is on the distraction list.
    pub fn is_distracting(&self, app: &str) -> (r: bool)
        ensures
            r == listed(self.distracting_apps@, app@),
    {
        on_list(&self.distracting_apps, app)
    }

    pub fn goals_enabled(&self) -> (r: bool)
        ensures
            r == (self.daily_goal_min > 0),
    {
        self.daily_goal_min > 0
    }
}

impl Clone for Accountability {
    fn clone(&self) -> (r: Accountability)
        ensures
            r.like(*self),
    {
        Accountability {
            daily_goal_min: self.daily_goal_min,
            warn_on_distraction: self.warn_on_distraction,
            distracting_apps: clone_strings(&self.distracting_apps),
            distraction_grace_secs: self.distraction_grace_secs,
            report_distraction_to_peer: self.report_distraction_to_peer,
            allow_urgent_nudges: self.allow_urgent_nudges,
            auto_cheer: self.auto_cheer,
        }
    }
}

impl Default for Accountability {
    fn default() -> (r: Accountability)
        ensures
            r.initial(),
    {
        Accountability {
            daily_goal_min: 100,
            warn_on_distraction: true,
            distracting_apps: default_distracting_apps(),
            distraction_grace_secs: 30,
            report_distraction_to_peer: false,
            allow_urgent_nudges: true,
            auto_cheer: true,
        }
    }
}

#[derive(Debug)]
pub struct ClientConfig {
    /// Relay address as `host:port`.
    pub server: String,
    /// Verify the relay certificate against the system roots. Turn off only for
    /// a self-signed relay on a trusted network; payloads stay end-to-end
    /// encrypted either way.
    pub tls: bool,
    /// Name used for TLS verification when it differs from `server`'s host.
    pub tls_server_name: Option<String>,
    /// Shared pairing code. Both peers must type the same one.
    pub invite_code: String,
    /// Stable id for this installation.
    pub device_id: String,
    /// Name shown to the peer.
    pub device_name: String,
    /// Nickname of the person; devices with the same one are shown together.
    pub user: String,
    pub privacy: Privacy,
    pub pomodoro: PomodoroConfig,
    pub accountability: Accountability,
    /// How often to sample local sensors, in seconds.
    pub poll_secs: u64,
    /// Idle seconds before presence flips to `Away`. 0 disables.
    pub away_after_secs: u32,
    /// Treat a peer snapshot older than this as offline.
    pub peer_stale_secs: u64,
    pub start_minimised: bool,
    pub autostart: bool,
    pub show_overlay: bool,
    /// Overlay position, persisted after dragging.
    pub overlay_x: Option<i32>,
    pub overlay_y: Option<i32>,
    /// Keep the overlay above other windows.
    pub overlay_always_on_top: bool,
    pub check_updates: bool,
    /// `owner/repo` used for the GitHub release check.
    pub update_repo: String,
    pub mute_nudges: bool,
}

impl Clone for ClientConfig {
    fn clone(&self) -> (r: ClientConfig)
        ensures
            r.like(*self),
    {
        ClientConfig {
            server: self.server.clone(),
            tls: self.tls,
            tls_server_name: clone_option(&self.tls_server_name),
            invite_code: self.invite_code.clone(),
            device_id: self.device_id.clone(),
            device_name: self.device_name.clone(),
            user: self.user.clone(),
            privacy: self.privacy.clone(),
            pomodoro: self.pomodoro,
            accountability: self.accountability.clone(),
            poll_secs: self.poll_secs,
            away_after_secs: self.away_after_secs,
            peer_stale_secs: self.peer_stale_secs,
            start_minimised: self.start_minimised,
            autostart: self.autostart,
            show_overlay: self.show_overlay,
            overlay_x: self.overlay_x,
            overlay_y: self.overlay_y,
            overlay_always_on_top: self.overlay_always_on_top,
            check_updates: self.check_updates,
            update_repo: self.update_repo.clone(),
            mute_nudges: self.mute_nudges,
        }
    }
}

impl Default for ClientConfig {
    /// The settings of a device whose machine has no name to offer.
    fn default() -> (r: ClientConfig)
        ensures
            r.fresh(),
            r.device_name@ == "Synctus"@,
    {
        ClientConfig::for_device(default_device_name(None, None, Platform::Other))
    }
}

impl ClientConfig {
    /// The same settings.
    pub open spec fn like(self, other: ClientConfig) -> bool {
        &&& self.server == other.server
        &&& self.tls == other.tls
        &&& self.tls_server_name == other.tls_server_name
        &&& self.invite_code == other.invite_code
        &&& self.device_id == other.device_id
        &&& self.device_name == other.device_name
        &&& self.user == other.user
        &&& self.privacy.like(other.privacy)
        &&& self.pomodoro == other.pomodoro
        &&& self.accountability.like(other.accountability)
        &&& self.poll_secs == other.poll_secs
        &&& self.away_after_secs == other.away_after_secs
        &&& self.peer_stale_secs == other.peer_stale_secs
        &&& self.start_minimised == other.start_minimised
        &&& self.autostart == other.autostart
        &&& self.show_overlay == other.show_overlay
        &&& self.overlay_x == other.overlay_x
        &&& self.overlay_y == other.overlay_y
        &&& self.overlay_always_on_top == other.overlay_always_on_top
        &&& self.check_updates == other.check_updates
        &&& self.update_repo == other.update_repo
        &&& self.mute_nudges == other.mute_nudges
    }

    /// Every setting but the device's name has its default; the device id depends
    /// on chance.
    pub open spec fn fresh(self) -> bool {
        &&& self.server@ == "127.0.0.1:8787"@
        &&& self.tls
        &&& self.tls_server_name is None
        &&& self.invite_code@ == Seq::<char>::empty()
        &&& exists|raw: Seq<u8>| raw.len() == 8 && self.device_id@ == #[trigger] hex(raw)
        &&& self.user@ == Seq::<char>::empty()
        &&& self.privacy.initial()
        &&& self.pomodoro == PomodoroConfig::initial()
        &&& self.accountability.initial()
        &&& self.poll_secs == 5
        &&& self.away_after_secs == 300
        &&& self.peer_stale_secs == 90
        &&& !self.start_minimised
        &&& !self.autostart
        &&& self.show_overlay
        &&& self.overlay_x is None
        &&& self.overlay_y is None
        &&& self.overlay_always_on_top
        &&& self.check_updates
        &&& self.update_repo@ == "LANqed/Synctus"@
        &&& !self.mute_nudges
    }

    /// Default settings for a device of this name.
    pub fn for_device(device_name: String) -> (r: ClientConfig)
        ensures
            r.fresh(),
            r.device_name == device_name,
    {
        ClientConfig {
            server: "127.0.0.1:8787".to_string(),
            tls: true,
            tls_server_name: None,
            invite_code: String::new(),
            device_id: random_id(8),
            device_name,
            user: String::new(),
            privacy: Privacy::default(),
            pomodoro: PomodoroConfig::default(),
            accountability: Accountability::default(),
            poll_secs: 5,
            away_after_secs: 300,
            peer_stale_secs: 90,
            start_minimised: false,
            autostart: false,
            show_overlay: true,
            overlay_x: None,
            overlay_y: None,
            overlay_always_on_top: true,
            check_updates: true,
            update_repo: "LANqed/Synctus".to_string(),
            mute_nudges: false,
        }
    }

    /// Ready to connect only once a pairing code exists: the code has at least
    /// eight letters and digits.
    pub fn is_paired(&self) -> (r: bool)
        ensures
            r == (self.invite_code@.filter(|c: char| is_code_char(c)).len() >= 8),
    {
        let cs = chars_of(self.invite_code.as_str());
        let ghost keep = |c: char| is_code_char(c);
        let mut count: usize = 0;
        for i in 0..cs.len()
            invariant
                cs@ == self.invite_code@,
                keep == (|c: char| is_code_char(c)),
                count == cs@.take(i as int).filter(keep).len(),
                count <= i,
        {
            assert(cs@.take(i + 1).drop_last() == cs@.take(i as int));
            assert(cs@.take(i + 1).last() == cs@[i as int]);
            reveal(Seq::filter);
            if code_char(cs[i]) {
                count = count + 1;
            }
        }
        assert(cs@.take(cs@.len() as int) == cs@);
        count >= 8
    }

    pub open spec fn server_name_text(self) -> Seq<char> {
        let s = self.server@;
        if let Some(name) = self.tls_server_name {
            name@
        } else if s.len() > 0 && s[0] == '[' && s.skip(1).index_of_first(']') is Some {
            s.skip(1).take(s.skip(1).index_of_first(']')->0)
        } else {
            match s.index_of_last(':') {
                Some(i) => s.take(i),
                None => s,
            }
        }
    }

    /// Host part of `server`, used as the default TLS name. Handles `host:port`
    /// and bare `[v6]:port`.
    pub fn server_name(&self) -> (r: String)
        ensures
            r@ == self.server_name_text(),
    {
        if let Some(name) = &self.tls_server_name {
            return name.clone();
        }
        let cs = chars_of(self.server.as_str());
        if cs.len() > 0 && cs[0] == '[' {
            let (_, rest) = cs.as_slice().split_at(1);
            assert(rest@ == cs@.skip(1));
            if let Some(end) = find(rest, ']') {
                let r = text_of(rest, 0, end);
                assert(r@ == cs@.skip(1).take(end as int));
                return r;
            }
        }
        match find_last(cs.as_slice(), ':') {
            Some(i) => {
                let r = text_of(cs.as_slice(), 0, i);
                assert(r@ == cs@.take(i as int));
                r
            },
            None => self.server.clone(),
        }
    }

    pub open spec fn interval(self) -> u64 {
        if self.poll_secs < 1 {
            1
        } else if self.poll_secs > 60 {
            60
        } else {
            self.poll_secs
        }
    }

    /// Seconds between two samples of the local sensors, from one to sixty.
    pub fn poll_interval(&self) -> (r: u64)
        ensures
            r == self.interval(),
    {
        if self.poll_secs < 1 {
            1
        } else if self.poll_secs > 60 {
            60
        } else {
            self.poll_secs
        }
    }

    pub open spec fn stale_ms(self) -> int {
        if self.peer_stale_secs < 15 {
            15_000
        } else if self.peer_stale_secs > 3600 {
            3_600_000
        } else {
            self.peer_stale_secs * 1000
        }
    }

    pub fn peer_stale_ms(&self) -> (r: i64)
        ensures
            r == self.stale_ms(),
    {
        if self.peer_stale_secs < 15 {
            15_000
        } else if self.peer_stale_secs > 3600 {
            3_600_000
        } else {
            (self.peer_stale_secs * 1000) as i64
        }
    }
}

pub open spec fn device_name_text(
    computer_name: Option<String>,
    host_name: Option<String>,
    platform: Platform,
) -> Seq<char> {
    if computer_name matches Some(v) && v@.len() > 0 {
        computer_name->0@
    } else if host_name matches Some(v) && v@.len() > 0 {
        host_name->0@
    } else {
        match platform {
            Platform::Android => "Android"@,
            Platform::Windows => "Windows PC"@,
            Platform::Linux => "Linux PC"@,
            Platform::Other => "Synctus"@,
        }
    }
}

/// Name for a device: what the environment calls the machine (`COMPUTERNAME`
/// before `HOSTNAME`), else one after its platform.
pub fn default_device_name(
    computer_name: Option<String>,
    host_name: Option<String>,
    platform: Platform,
) -> (r: String)
    ensures
        r@ == device_name_text(computer_name, host_name, platform),
{
    if let Some(v) = computer_name {
        if !v.as_str().is_empty() {
            return v;
        }
    }
    if let Some(v) = host_name {
        if !v.as_str().is_empty() {
            return v;
        }
    }
    match platform {
        Platform::Android => "Android".to_string(),
        Platform::Windows => "Windows PC".to_string(),
        Platform::Linux => "Linux PC".to_string(),
        Platform::Other => "Synctus".to_string(),
    }
}

/// Settings within others block every app that those block.
pub proof fn blocked_apps_stay_blocked(a: Privacy, b: Privacy, app: Seq<char>)
    requires
        a.within(b),
        listed(b.blocked_apps@, app),
    ensures
        listed(a.blocked_apps@, app),
{
    let i = choose|i: int| #[trigger] listed_at(b.blocked_apps@, app, i);
    let word = texts(b.blocked_apps@)[i];
    assert(texts(a.blocked_apps@).contains(word));
    let j = texts(a.blocked_apps@).index_of(word);
    assert(a.blocked_apps@[j]@ == word);
    assert(listed_at(a.blocked_apps@, app, j));
}

/// The same letter, whatever the case of either.
pub open spec fn same_letter(a: char, b: char) -> bool {
    ||| a == b
    ||| 'A' <= a <= 'Z' && a as int + 32 == b as int
    ||| 'A' <= b <= 'Z' && b as int + 32 == a as int
}

/// A word stands in an app's name at a place, whatever the case of either.
pub open spec fn stands_at(app: Seq<char>, word: Seq<char>, at: int) -> bool {
    &&& 0 <= at
    &&& at + word.len() <= app.len()
    &&& forall|k: int| 0 <= k < word.len() ==> same_letter(#[trigger] app[at + k], word[k])
}

/// An app is on a list exactly when one of its words, other than an empty one, stands
/// somewhere in the app's name, whatever the case of either.
pub proof fn a_listed_word_is_found_anywhere(list: Seq<String>, app: Seq<char>)
    ensures
        listed(list, app) <==> exists|i: int, at: int|
            0 <= i < list.len() && list[i]@.len() > 0 && #[trigger] stands_at(app, list[i]@, at),
{
    if listed(list, app) {
        let i = choose|i: int| #[trigger] listed_at(list, app, i);
        let word = list[i]@;
        let at = choose|at: int| crate::text::occurs_at(lower(app), lower(word), at);
        assert forall|k: int| 0 <= k < word.len() implies same_letter(
            #[trigger] app[at + k],
            word[k],
        ) by {
            assert(lower(app).subrange(at, at + word.len())[k] == lower(word)[k]);
        }
        assert(stands_at(app, list[i]@, at));
    }
    if exists|i: int, at: int|
        0 <= i < list.len() && list[i]@.len() > 0 && #[trigger] stands_at(app, list[i]@, at) {
        let (i, at) = choose|i: int, at: int|
            0 <= i < list.len() && list[i]@.len() > 0 && #[trigger] stands_at(app, list[i]@, at);
        let word = list[i]@;
        assert forall|k: int| 0 <= k < word.len() implies lower(app).subrange(
            at,
            at + word.len(),
        )[k] == lower(word)[k] by {
            assert(same_letter(app[at + k], word[k]));
        }
        assert(lower(app).subrange(at, at + word.len()) =~= lower(word));
        assert(crate::text::occurs_at(lower(app), lower(word), at));
        assert(listed_at(list, app, i));
    }
}

/// A status counts as fresh for the configured seconds, from a quarter of a minute to
/// an hour.
pub proof fn freshness_is_configured_within_bounds(cfg: ClientConfig)
    ensures
        15 <= cfg.peer_stale_secs <= 3600 ==> cfg.stale_ms() == 1000 * cfg.peer_stale_secs,
        cfg.peer_stale_secs < 15 ==> cfg.stale_ms() == 15_000,
        cfg.peer_stale_secs > 3600 ==> cfg.stale_ms() == 3_600_000,
{
}

/// The name that the server's certificate is held against: the configured one, else
/// the host part of its address, also where that is an address in brackets.
pub proof fn server_names_are_hosts(cfg: ClientConfig, host: Seq<char>, port: Seq<char>)
    ensures
        cfg.tls_server_name matches Some(name) ==> cfg.server_name_text() == name@,
        cfg.tls_server_name is None && cfg.server@ == host + seq![':'] + port && !port.contains(':')
            && !host.contains('[') ==> cfg.server_name_text() == host,
        cfg.tls_server_name is None && cfg.server@ == seq!['['] + host + seq![']'] + port
            && !host.contains(']') ==> cfg.server_name_text() == host,
        cfg.tls_server_name is None && cfg.server@ == host && !host.contains(':') && !host.contains(
            '[',
        ) ==> cfg.server_name_text() == host,
{
    let s = cfg.server@;
    s.index_of_last_ensures(':');
    if s == host + seq![':'] + port && !port.contains(':') && !host.contains('[') {
        assert(s[host.len() as int] == ':');
        assert(s.contains(':'));
        let i = s.index_of_last(':')->0;
        if i > host.len() {
            assert(port[i - host.len() - 1] == s[i]);
        }
        assert(i == host.len());
        assert(s.take(i) =~= host);
        if host.len() > 0 {
            assert(s[0] == host[0]);
        }
    }
    if s == seq!['['] + host + seq![']'] + port && !host.contains(']') {
        let rest = s.skip(1);
        rest.index_of_first_ensures(']');
        assert(rest =~= host + seq![']'] + port);
        assert(rest[host.len() as int] == ']');
        assert(rest.contains(']'));
        let i = rest.index_of_first(']')->0;
        if i < host.len() {
            assert(host[i] == rest[i]);
        }
        assert(i == host.len());
        assert(rest.take(i) =~= host);
        assert(s[0] == '[');
    }
}

/// Settings allow no more than themselves, and no more than what allows more than
/// they do.
pub proof fn allowing_less_is_an_order(a: Privacy, b: Privacy, c: Privacy)
    ensures
        a.within(a),
        a.within(b) && b.within(c) ==> a.within(c),
{
    if a.within(b) && b.within(c) {
        let (x, y, z) = (
            texts(a.blocked_apps@),
            texts(b.blocked_apps@),
            texts(c.blocked_apps@),
        );
        assert forall|i: int| 0 <= i < z.len() implies x.contains(#[trigger] z[i]) by {
            let j = choose|j: int| 0 <= j < y.len() && y[j] == z[i];
            assert(x.contains(y[j]));
        }
    }
}

/// Taking any one permission back, or blocking one more app, allows less; giving one
/// allows no less.
pub proof fn every_permission_counts(a: Privacy, b: Privacy, word: Seq<char>)
    requires
        a.within(b),
    ensures
        a.share_foreground_app ==> b.share_foreground_app,
        a.share_window_title ==> b.share_window_title,
        a.share_battery ==> b.share_battery,
        a.share_music ==> b.share_music,
        a.share_pomodoro ==> b.share_pomodoro,
        a.share_todos ==> b.share_todos,
        a.share_idle ==> b.share_idle,
        texts(b.blocked_apps@).contains(word) ==> texts(a.blocked_apps@).contains(word),
        a.within(Privacy { share_foreground_app: true, ..b }),
        a.within(Privacy { share_window_title: true, ..b }),
        a.within(Privacy { share_battery: true, ..b }),
        a.within(Privacy { share_music: true, ..b }),
        a.within(Privacy { share_pomodoro: true, ..b }),
        a.within(Privacy { share_todos: true, ..b }),
        a.within(Privacy { share_idle: true, ..b }),
        (Privacy { share_foreground_app: false, ..a }).within(
            Privacy { share_foreground_app: false, ..b },
        ),
        (Privacy { share_music: false, ..a }).within(Privacy { share_music: false, ..b }),
        (Privacy { share_todos: false, ..a }).within(Privacy { share_todos: false, ..b }),
{
}

/// A device goes by the name of its machine, the computer's before the host's, and by
/// its platform only where the machine has no name.
pub proof fn machines_name_their_devices(
    computer: Option<String>,
    host: Option<String>,
    platform: Platform,
)
    ensures
        ({
            let name = device_name_text(computer, host, platform);
            let unnamed = computer is None || computer->0@.len() == 0;
            &&& computer matches Some(v) ==> (v@.len() > 0 ==> name == v@)
            &&& unnamed ==> (host matches Some(v) ==> (v@.len() > 0 ==> name == v@))
            &&& unnamed && (host is None || host->0@.len() == 0) ==> name == device_name_text(
                None,
                None,
                platform,
            )
        }),
{
}

/// Samples are configured to be from a second to a minute apart.
pub proof fn samples_are_a_second_to_a_minute_apart(cfg: ClientConfig)
    ensures
        1 <= cfg.interval() <= 60,
        1 <= cfg.poll_secs <= 60 ==> cfg.interval() == cfg.poll_secs,
        cfg.poll_secs > 60 ==> cfg.interval() == 60,
        cfg.poll_secs == 0 ==> cfg.interval() == 1,
{
}

}
