//! What a sample of the operating system says.
//!
//! Each value is absent when the information is unavailable, so the caller never
//! has to branch on the platform. Reading the values is the caller's; this module
//! makes sense of them.

use vstd::prelude::*;

use crate::model::{option_text, Battery, ForegroundApp, NowPlaying};
use crate::text::{
    after_prefix, chars_of, copy_range, find, nothing_to_split, one_more_piece, parse_number, pieces,
    same, say, split, split_on, strip_prefix, text_of, texts, trim, trimmed, trimmed_text, unsigned,
};

verus! {

/// One sample of everything the OS can tell us.
#[derive(Debug)]
pub struct Sample {
    pub foreground: Option<ForegroundApp>,
    pub battery: Option<Battery>,
    pub music: Option<NowPlaying>,
    pub idle_secs: Option<u32>,
}

impl Default for Sample {
    fn default() -> (r: Sample)
        ensures
            r == (Sample { foreground: None, battery: None, music: None, idle_secs: None }),
    {
        Sample { foreground: None, battery: None, music: None, idle_secs: None }
    }
}

/// Longest title that is kept, in characters.
pub const MAX_TITLE: usize = 120;

pub open spec fn title_of(title: Seq<char>) -> Option<Seq<char>> {
    let t = trim(title);
    if t.len() == 0 {
        None
    } else if t.len() > MAX_TITLE {
        Some(t.take(MAX_TITLE as int).push('…'))
    } else {
        Some(t)
    }
}

/// Trim a window title for display and publishing.
///
/// Long titles are the common case (browsers append the site name), and the
/// overlay only has room for a line, so cut early rather than shipping kilobytes
/// in every snapshot.
pub fn trim_title(title: &str) -> (r: Option<String>)
    ensures
        option_text(r) == title_of(title@),
{
    let t = trimmed(title);
    if t.len() == 0 {
        return None;
    }
    if t.len() > MAX_TITLE {
        let mut out = text_of(t.as_slice(), 0, MAX_TITLE);
        assert(out@ == t@.take(MAX_TITLE as int));
        out.push('…');
        Some(out)
    } else {
        let n: usize = t.len();
        assert(t@.subrange(0, n as int) == t@);
        Some(text_of(t.as_slice(), 0, n))
    }
}

fn parse_u32(text: &str) -> (r: Option<u32>)
    ensures
        match r {
            Some(n) => unsigned(text@, u32::MAX as int) == Some(n as int),
            None => unsigned(text@, u32::MAX as int) is None,
        },
{
    let cs = chars_of(text);
    let n = if cs.len() > 0 && cs[0] == '+' {
        let (_, rest) = cs.as_slice().split_at(1);
        assert(rest@ == text@.drop_first());
        parse_number(rest, u32::MAX as u64)
    } else {
        parse_number(cs.as_slice(), u32::MAX as u64)
    };
    match n {
        Some(v) => Some(v as u32),
        None => None,
    }
}

/// The files of a power supply in sysfs, as far as they could be read.
#[derive(Debug)]
pub struct PowerSupply {
    pub kind: Option<String>,
    pub capacity: Option<String>,
    pub status: Option<String>,
    pub time_to_empty_now: Option<String>,
}

/// What a file says, without the white space around it.
pub open spec fn said(file: Option<String>) -> Option<Seq<char>> {
    match file {
        Some(t) => Some(trim(t@)),
        None => None,
    }
}

/// The number in a file.
pub open spec fn counted(file: Option<String>) -> Option<int> {
    match file {
        Some(t) => unsigned(trim(t@), u32::MAX as int),
        None => None,
    }
}

fn count(file: &Option<String>) -> (r: Option<u32>)
    ensures
        match r {
            Some(n) => counted(*file) == Some(n as int),
            None => counted(*file) is None,
        },
{
    match file {
        Some(t) => parse_u32(trimmed_text(t.as_str()).as_str()),
        None => None,
    }
}

impl PowerSupply {
    /// A battery that says how full it is.
    pub open spec fn battery_spec(self) -> Option<Battery> {
        if said(self.kind) != Some("Battery"@) {
            None
        } else {
            match counted(self.capacity) {
                Some(percent) => Some(
                    Battery {
                        percent: if percent > 100 {
                            100u8
                        } else {
                            percent as u8
                        },
                        // "Charging", "Full" and "Not charging" all mean mains
                        // power is present; only "Discharging" means running on
                        // the battery.
                        charging: said(self.status) != Some("Discharging"@),
                        minutes_left: match counted(self.time_to_empty_now) {
                            Some(secs) => Some((secs / 60) as u32),
                            None => None,
                        },
                    },
                ),
                None => None,
            }
        }
    }

    /// The battery that this is, if it is one: AC adapters and the like are not.
    pub fn battery(&self) -> (r: Option<Battery>)
        ensures
            r == self.battery_spec(),
    {
        let is_battery = match &self.kind {
            Some(t) => same(trimmed_text(t.as_str()).as_str(), "Battery"),
            None => false,
        };
        if !is_battery {
            return None;
        }
        let percent: u32 = match count(&self.capacity) {
            Some(p) => p,
            None => {
                return None;
            },
        };
        let discharging = match &self.status {
            Some(t) => same(trimmed_text(t.as_str()).as_str(), "Discharging"),
            None => false,
        };
        let minutes_left = match count(&self.time_to_empty_now) {
            Some(secs) => Some(secs / 60),
            None => None,
        };
        Some(
            Battery {
                percent: if percent > 100 {
                    100
                } else {
                    percent as u8
                },
                charging: !discharging,
                minutes_left,
            },
        )
    }
}

/// The first supply that is a battery.
pub open spec fn first_battery(supplies: Seq<PowerSupply>) -> Option<Battery>
    decreases supplies.len(),
{
    if supplies.len() == 0 {
        None
    } else if supplies[0].battery_spec() is Some {
        supplies[0].battery_spec()
    } else {
        first_battery(supplies.drop_first())
    }
}

/// The battery of a machine: the first one present wins, which is right for the
/// overwhelming majority of machines.
pub fn battery(supplies: &Vec<PowerSupply>) -> (r: Option<Battery>)
    ensures
        r == first_battery(supplies@),
{
    let mut i: usize = 0;
    assert(supplies@.skip(0) == supplies@);
    while i < supplies.len()
        invariant
            i <= supplies@.len(),
            first_battery(supplies@.skip(i as int)) == first_battery(supplies@),
        decreases supplies@.len() - i,
    {
        assert(supplies@.skip(i as int).drop_first() == supplies@.skip(i + 1));
        let found = supplies[i].battery();
        if found.is_some() {
            return found;
        }
        i = i + 1;
    }
    None
}

/// The battery that a power status tells of.
pub open spec fn power_status(line: u8, flags: u8, percent: u8, seconds_left: u32) -> Option<
    Battery,
> {
    if percent == 255 || flags >= 128 {
        None
    } else {
        Some(
            Battery {
                percent: if percent > 100 {
                    100
                } else {
                    percent
                },
                charging: line == 1,
                minutes_left: if seconds_left == u32::MAX {
                    None
                } else {
                    Some((seconds_left / 60) as u32)
                },
            },
        )
    }
}

/// The battery by what Windows reports: `GetSystemPowerStatus` gives the line
/// status, the flags, the percentage and the seconds left. 255 percent means
/// unknown and the top bit of the flags that there is no battery: publishing 255%
/// for a desktop would be nonsense.
pub fn battery_from_flags(line: u8, flags: u8, percent: u8, seconds_left: u32) -> (r: Option<
    Battery,
>)
    ensures
        r == power_status(line, flags, percent, seconds_left),
{
    // A number with its top bit set is 128 or more.
    if percent == 255 || flags >= 128 {
        return None;
    }
    Some(
        Battery {
            percent: if percent > 100 {
                100
            } else {
                percent
            },
            charging: line == 1,
            minutes_left: if seconds_left == u32::MAX {
                None
            } else {
                Some(seconds_left / 60)
            },
        },
    )
}

/// Whole seconds from one reading of a wrapping counter to another.
pub open spec fn seconds_between(then: u32, now: u32) -> int {
    if now >= then {
        (now - then) / 1000
    } else {
        (now + 0x1_0000_0000 - then) / 1000
    }
}

/// Seconds between two readings of a millisecond counter that wraps every ~49
/// days.
pub fn idle_from_ticks(now: u32, last_input: u32) -> (r: u32)
    ensures
        r == seconds_between(last_input, now),
{
    now.wrapping_sub(last_input) / 1000
}

/// The pieces that hold something.
pub open spec fn filled(parts: Seq<Seq<char>>) -> Seq<Seq<char>> {
    parts.filter(|p: Seq<char>| p.len() > 0)
}

/// The class of a window: `WM_CLASS` holds an instance and a class, each closed
/// by a NUL, and the class is the friendlier name (`firefox` rather than
/// `Navigator`).
pub open spec fn class_of(raw: Seq<char>) -> Option<Seq<char>> {
    let parts = filled(split_on(raw, '\0'));
    if parts.len() == 0 {
        None
    } else if parts.len() == 1 {
        Some(parts[0])
    } else {
        Some(parts[1])
    }
}

/// The class of a window.
pub fn window_class(raw: &str) -> (r: Option<String>)
    ensures
        option_text(r) == class_of(raw@),
{
    let parts = split(chars_of(raw).as_slice(), '\0');
    let ghost p = split_on(raw@, '\0');
    assert(pieces(parts@).len() == parts@.len());
    let mut names: Vec<String> = Vec::new();
    reveal(Seq::filter);
    assert(p.take(0).len() == 0);
    for i in 0..parts.len()
        invariant
            pieces(parts@) == p,
            texts(names@) == filled(p.take(i as int)),
    {
        reveal(Seq::filter);
        assert(p.take(i + 1).drop_last() == p.take(i as int));
        assert(p.take(i + 1).last() == parts@[i as int]@);
        let n: usize = parts[i].len();
        if n > 0 {
            assert(parts@[i as int]@.subrange(0, n as int) == parts@[i as int]@);
            say(&mut names, text_of(parts[i].as_slice(), 0, n));
        }
    }
    assert(p.take(p.len() as int) == p);
    assert(texts(names@).len() == names@.len());
    if names.len() == 0 {
        None
    } else if names.len() == 1 {
        assert(texts(names@)[0] == names@[0]@);
        Some(names[0].clone())
    } else {
        assert(texts(names@)[1] == names@[1]@);
        Some(names[1].clone())
    }
}

/// The window in front, by its class and title: without either piece there is
/// nothing worth publishing.
pub fn foreground_window(class: Option<String>, title: Option<String>) -> (r: Option<
    ForegroundApp,
>)
    ensures
        r is Some <==> class is Some || title is Some,
        r matches Some(f) ==> {
            &&& f.app@ == (if class is Some {
                class->0@
            } else {
                title->0@
            })
            &&& f.name == class
            &&& option_text(f.title) == (match title {
                Some(t) => title_of(t@),
                None => None,
            })
        },
{
    let app = match (&class, &title) {
        (Some(c), _) => c.clone(),
        (None, Some(t)) => t.clone(),
        (None, None) => {
            return None;
        },
    };
    let shown = match &title {
        Some(t) => trim_title(t.as_str()),
        None => None,
    };
    Some(ForegroundApp { app, name: class, title: shown })
}

/// What follows the last separator of a path.
pub open spec fn file_name_of(path: Seq<char>) -> Seq<char>
    decreases path.len(),
{
    if path.len() == 0 || path.last() == '/' || path.last() == '\\' {
        Seq::empty()
    } else {
        file_name_of(path.drop_last()).push(path.last())
    }
}

/// The file name of a program. The full path can leak a user name.
pub fn file_name(path: &str) -> (r: String)
    ensures
        r@ == file_name_of(path@),
{
    let cs = chars_of(path);
    let n: usize = cs.len();
    let mut from: usize = n;
    assert(cs@.subrange(n as int, n as int) == Seq::<char>::empty());
    assert(cs@.take(n as int) == cs@);
    assert(file_name_of(cs@) + Seq::<char>::empty() == file_name_of(cs@));
    while from > 0 && cs[from - 1] != '/' && cs[from - 1] != '\\'
        invariant
            cs@ == path@,
            n == cs@.len(),
            from <= n,
            file_name_of(path@) == file_name_of(cs@.take(from as int)) + cs@.subrange(
                from as int,
                n as int,
            ),
        decreases from,
    {
        assert(cs@.take(from as int).drop_last() == cs@.take(from - 1));
        assert(cs@.take(from as int).last() == cs@[from - 1]);
        assert(file_name_of(cs@.take(from - 1)).push(cs@[from - 1]) + cs@.subrange(
            from as int,
            n as int,
        ) == file_name_of(cs@.take(from - 1)) + cs@.subrange(from - 1, n as int));
        from = from - 1;
    }
    assert(from > 0 ==> cs@.take(from as int).last() == cs@[from - 1]);
    assert(Seq::<char>::empty() + cs@.subrange(from as int, n as int) == cs@.subrange(
        from as int,
        n as int,
    ));
    text_of(cs.as_slice(), from, n)
}

/// `name` without this ending, if it has it.
pub open spec fn before_suffix(name: Seq<char>, suffix: Seq<char>) -> Option<Seq<char>> {
    if suffix.len() <= name.len() && name.skip(name.len() - suffix.len()) == suffix {
        Some(name.take(name.len() - suffix.len()))
    } else {
        None
    }
}

fn strip_exe(cs: &Vec<char>) -> (r: Option<Vec<char>>)
    ensures
        match r {
            Some(rest) => before_suffix(cs@, ".exe"@) == Some(rest@),
            None => before_suffix(cs@, ".exe"@) is None,
        },
{
    proof {
        reveal_strlit(".exe");
    }
    let n: usize = cs.len();
    if n >= 4 && cs[n - 4] == '.' && cs[n - 3] == 'e' && cs[n - 2] == 'x' && cs[n - 1] == 'e' {
        assert(cs@.skip(n - 4) == ".exe"@);
        let r = copy_range(cs.as_slice(), 0, n - 4);
        assert(r@ == cs@.take(n - 4));
        Some(r)
    } else {
        proof {
            if n >= 4 && cs@.skip(n - 4) == ".exe"@ {
                assert(cs@.skip(n - 4)[0] == cs@[n - 4]);
                assert(cs@.skip(n - 4)[1] == cs@[n - 3]);
                assert(cs@.skip(n - 4)[2] == cs@[n - 2]);
                assert(cs@.skip(n - 4)[3] == cs@[n - 1]);
            }
        }
        None
    }
}

/// The window in front, by its program and title. The name shown is the program
/// without its ending, if it has it.
pub fn foreground_program(exe: Option<String>, title: Option<String>) -> (r: Option<ForegroundApp>)
    ensures
        r is Some <==> exe is Some || title is Some,
        r matches Some(f) ==> {
            &&& f.app@ == (if exe is Some {
                exe->0@
            } else {
                title->0@
            })
            &&& option_text(f.name) == (match exe {
                Some(e) => before_suffix(e@, ".exe"@),
                None => None,
            })
            &&& option_text(f.title) == (match title {
                Some(t) => title_of(t@),
                None => None,
            })
        },
{
    let name = match &exe {
        Some(e) => match strip_exe(&chars_of(e.as_str())) {
            Some(cs) => {
                let n: usize = cs.len();
                assert(cs@.subrange(0, n as int) == cs@);
                Some(text_of(cs.as_slice(), 0, n))
            },
            None => None,
        },
        None => None,
    };
    match foreground_window(exe, title) {
        Some(f) => Some(ForegroundApp { app: f.app, name, title: f.title }),
        None => None,
    }
}

/// `name` without any endings `.exe`.
pub open spec fn without_exe(name: Seq<char>) -> Seq<char>
    decreases name.len(),
{
    match before_suffix(name, ".exe"@) {
        Some(rest) => if rest.len() < name.len() {
            without_exe(rest)
        } else {
            name
        },
        None => name,
    }
}

/// The recognisable part of the id of an application that plays: ids are verbose
/// (`Spotify.exe!Spotify`), and the leading part names the player.
pub open spec fn player_text(id: Seq<char>) -> Option<Seq<char>> {
    let head = match id.index_of_first('!') {
        Some(i) => id.take(i),
        None => id,
    };
    if without_exe(head).len() == 0 {
        None
    } else {
        Some(without_exe(head))
    }
}

/// The recognisable part of the id of an application that plays.
pub fn player_of(id: &str) -> (r: Option<String>)
    ensures
        option_text(r) == player_text(id@),
{
    let cs = chars_of(id);
    proof {
        reveal_strlit(".exe");
        id@.index_of_first_ensures('!');
    }
    let end: usize = match find(cs.as_slice(), '!') {
        Some(i) => i,
        None => cs.len(),
    };
    let mut head = copy_range(cs.as_slice(), 0, end);
    assert(head@ == match id@.index_of_first('!') {
        Some(i) => id@.take(i),
        None => id@,
    });
    let ghost whole = head@;
    let mut more = true;
    while more
        invariant
            without_exe(head@) == without_exe(whole),
            !more ==> without_exe(head@) == head@,
            ".exe"@.len() == 4,
        decreases head@.len() + more as int,
    {
        match strip_exe(&head) {
            Some(rest) => {
                head = rest;
            },
            None => {
                more = false;
            },
        }
    }
    if head.len() == 0 {
        None
    } else {
        let n: usize = head.len();
        assert(head@.subrange(0, n as int) == head@);
        Some(text_of(head.as_slice(), 0, n))
    }
}

/// What the system's media session tells, as far as it could be read.
#[derive(Debug)]
pub struct MediaSession {
    pub title: Option<String>,
    pub artist: Option<String>,
    pub album: Option<String>,
    /// Id of the application that plays.
    pub app_id: Option<String>,
    /// Whether the session says that it plays.
    pub playing: bool,
}

/// A value, unless it is empty.
pub open spec fn if_any(v: Option<String>) -> Option<String> {
    match v {
        Some(s) => if s@.len() > 0 {
            v
        } else {
            None
        },
        None => None,
    }
}

fn keep_if_any(v: Option<String>) -> (r: Option<String>)
    ensures
        r == if_any(v),
{
    match v {
        Some(s) => if s.as_str().is_empty() {
            None
        } else {
            Some(s)
        },
        None => None,
    }
}

impl MediaSession {
    /// What is told of the session: nothing, if it has no title.
    pub open spec fn plays(self, told: Option<NowPlaying>) -> bool {
        &&& told is Some <==> (self.title matches Some(t) && trim(t@).len() > 0)
        &&& told matches Some(np) ==> {
            &&& Some(np.title) == self.title
            &&& np.artist == if_any(self.artist)
            &&& np.album == if_any(self.album)
            &&& option_text(np.player) == (match self.app_id {
                Some(id) => player_text(id@),
                None => None,
            })
            &&& np.playing == self.playing
        }
    }

    /// What the session plays; one without a title carries nothing worth showing.
    pub fn now_playing(self) -> (r: Option<NowPlaying>)
        ensures
            self.plays(r),
    {
        let title = match self.title {
            Some(t) => t,
            None => {
                return None;
            },
        };
        if trimmed(title.as_str()).len() == 0 {
            return None;
        }
        Some(
            NowPlaying {
                title,
                artist: keep_if_any(self.artist),
                album: keep_if_any(self.album),
                player: match &self.app_id {
                    Some(id) => player_of(id.as_str()),
                    None => None,
                },
                playing: self.playing,
            },
        )
    }
}

/// Who a track is by, as a media player tells it: a list of names or, from players
/// that do not keep to the standard, a single one.
#[derive(Debug)]
pub enum Artists {
    List(Vec<String>),
    One(String),
    Unknown,
}

/// Properties of a media player on the session bus, as far as they could be read.
#[derive(Debug)]
pub struct Player {
    pub bus_name: String,
    pub title: Option<String>,
    pub artists: Artists,
    pub album: Option<String>,
    /// The display name that the player chose.
    pub identity: Option<String>,
    pub status: Option<String>,
}

/// What the bus names of media players start with.
pub const PLAYER_PREFIX: &'static str = "org.mpris.MediaPlayer2.";

/// Whether a name on the bus is one of a media player.
pub fn is_player(bus_name: &str) -> (r: bool)
    ensures
        r == (after_prefix(bus_name@, PLAYER_PREFIX@) is Some),
{
    strip_prefix(bus_name, PLAYER_PREFIX).is_some()
}

/// The first that is not empty.
pub open spec fn first_filled(names: Seq<String>) -> Option<Seq<char>>
    decreases names.len(),
{
    if names.len() == 0 {
        None
    } else if names[0]@.len() > 0 {
        Some(names[0]@)
    } else {
        first_filled(names.drop_first())
    }
}

impl Artists {
    /// The first name of a list that is not empty; a single name whatever it is.
    pub open spec fn first_text(self) -> Option<Seq<char>> {
        match self {
            Artists::List(names) => first_filled(names@),
            Artists::One(name) => Some(name@),
            Artists::Unknown => None,
        }
    }

    pub fn first_of(self) -> (r: Option<String>)
        ensures
            option_text(r) == self.first_text(),
    {
        match self {
            Artists::List(names) => pick_artist(&names),
            Artists::One(name) => Some(name),
            Artists::Unknown => None,
        }
    }
}

fn pick_artist(names: &Vec<String>) -> (r: Option<String>)
    ensures
        option_text(r) == first_filled(names@),
{
    let mut i: usize = 0;
    assert(names@.skip(0) == names@);
    while i < names.len()
        invariant
            i <= names@.len(),
            first_filled(names@.skip(i as int)) == first_filled(names@),
        decreases names@.len() - i,
    {
        assert(names@.skip(i as int).drop_first() == names@.skip(i + 1));
        if !names[i].as_str().is_empty() {
            return Some(names[i].clone());
        }
        i = i + 1;
    }
    None
}

impl Player {
    /// What is told of the player: nothing, if it has no title.
    pub open spec fn plays(self, told: Option<NowPlaying>) -> bool {
        &&& told is Some <==> (self.title matches Some(t) && trim(t@).len() > 0)
        &&& told matches Some(np) ==> {
            &&& Some(np.title) == self.title
            &&& option_text(np.artist) == self.artists.first_text()
            &&& np.album == self.album
            &&& option_text(np.player) == (match self.identity {
                Some(name) => Some(name@),
                None => after_prefix(self.bus_name@, PLAYER_PREFIX@),
            })
            &&& np.playing == (option_text(self.status) == Some("Playing"@))
        }
    }

    /// What the player plays; a player without a title plays nothing worth
    /// showing.
    pub fn now_playing(self) -> (r: Option<NowPlaying>)
        ensures
            self.plays(r),
    {
        let title = match self.title {
            Some(t) => t,
            None => {
                return None;
            },
        };
        if trimmed(title.as_str()).len() == 0 {
            return None;
        }
        let playing = match &self.status {
            Some(s) => same(s.as_str(), "Playing"),
            None => false,
        };
        Some(
            NowPlaying {
                title,
                artist: self.artists.first_of(),
                album: self.album,
                player: match self.identity {
                    Some(name) => Some(name),
                    None => strip_prefix(self.bus_name.as_str(), PLAYER_PREFIX),
                },
                playing,
            },
        )
    }
}

/// A title is told without the white space around it and cut off behind a hundred and
/// twenty characters, with a mark that it was; a blank one is not told.
pub proof fn titles_are_cut_short(title: Seq<char>)
    ensures
        ({
            let t = trim(title);
            &&& title_of(title) is None <==> t.len() == 0
            &&& 0 < t.len() <= 120 ==> title_of(title) == Some(t)
            &&& t.len() > 120 ==> {
                let cut = title_of(title)->0;
                cut.len() == 121 && cut.drop_last() == t.take(120) && cut.last() == '…'
            }
        }),
{
    let t = trim(title);
    if t.len() > 120 {
        assert(title_of(title)->0.drop_last() =~= t.take(120));
    }
}

/// A battery is as full as it says, never more than full, and charges unless it says
/// that it is running down. What is no battery, or does not say how full it is, is not
/// told.
pub proof fn batteries_are_told_as_they_are(s: PowerSupply)
    ensures
        s.battery_spec() is Some <==> said(s.kind) == Some("Battery"@) && counted(s.capacity) is Some,
        s.battery_spec() matches Some(b) ==> {
            let n = counted(s.capacity)->0;
            &&& n <= 100 ==> b.percent == n
            &&& n > 100 ==> b.percent == 100
            &&& !b.charging <==> said(s.status) == Some("Discharging"@)
            &&& b.minutes_left is Some <==> counted(s.time_to_empty_now) is Some
            &&& b.minutes_left matches Some(m) ==> 60 * m <= counted(s.time_to_empty_now)->0 < 60
                * m + 60
        },
{
    if let Some(t) = s.capacity {
        counts_are_not_negative(trim(t@));
    }
    if let Some(t) = s.time_to_empty_now {
        counts_are_not_negative(trim(t@));
    }
}

proof fn counts_are_not_negative(s: Seq<char>)
    ensures
        unsigned(s, u32::MAX as int) matches Some(n) ==> 0 <= n <= u32::MAX,
{
    let d = if s.len() > 0 && s[0] == '+' {
        s.drop_first()
    } else {
        s
    };
    digits_are_not_negative(d);
}

proof fn digits_are_not_negative(s: Seq<char>)
    ensures
        (forall|i: int| 0 <= i < s.len() ==> crate::text::is_digit(#[trigger] s[i]))
            ==> crate::text::digits_value(s) >= 0,
    decreases s.len(),
{
    if s.len() > 0 {
        digits_are_not_negative(s.drop_last());
        if forall|i: int| 0 <= i < s.len() ==> crate::text::is_digit(#[trigger] s[i]) {
            assert(crate::text::is_digit(s[s.len() - 1]));
            assert forall|i: int| 0 <= i < s.drop_last().len() implies crate::text::is_digit(
                #[trigger] s.drop_last()[i],
            ) by {
                assert(s.drop_last()[i] == s[i]);
            }
        }
    }
}

/// Of several supplies the first battery is told, whatever comes behind it.
pub proof fn the_first_battery_counts(supplies: Seq<PowerSupply>, i: int)
    requires
        0 <= i < supplies.len(),
        supplies[i].battery_spec() is Some,
        forall|j: int| 0 <= j < i ==> (#[trigger] supplies[j]).battery_spec() is None,
    ensures
        first_battery(supplies) == supplies[i].battery_spec(),
    decreases i,
{
    if i > 0 {
        assert(supplies[0].battery_spec() is None);
        let rest = supplies.drop_first();
        assert forall|j: int| 0 <= j < i - 1 implies (#[trigger] rest[j]).battery_spec() is None by {
            assert(rest[j] == supplies[j + 1]);
        }
        assert(rest[i - 1] == supplies[i]);
        the_first_battery_counts(rest, i - 1);
    }
}

/// A window that tells an instance and a class goes by its class; one that tells a
/// single name by that.
pub proof fn windows_go_by_their_class(instance: Seq<char>, class: Seq<char>)
    requires
        instance.len() > 0,
        class.len() > 0,
        !instance.contains('\0'),
        !class.contains('\0'),
    ensures
        class_of(instance.push('\0') + class.push('\0')) == Some(class),
        class_of(instance.push('\0') + class) == Some(class),
        class_of(instance.push('\0')) == Some(instance),
        class_of(instance) == Some(instance),
{
    let none = Seq::<Seq<char>>::empty();
    let one = none.push(instance);
    assert(filled(none) == none) by {
        reveal(Seq::filter);
    }
    one_more_name(none, instance);
    assert(class_of(instance) == Some(instance)) by {
        nothing_to_split(instance, '\0');
        assert(one =~= seq![instance]);
    }
    assert(class_of(instance.push('\0')) == Some(instance)) by {
        class_pieces(instance);
        one_more_name(one, Seq::empty());
    }
    assert(class_of(instance.push('\0') + class) == Some(class)) by {
        two_pieces(instance, class);
        one_more_name(one, class);
    }
    assert(class_of(instance.push('\0') + class.push('\0')) == Some(class)) by {
        three_pieces(instance, class);
        one_more_name(one, class);
        one_more_name(one.push(class), Seq::empty());
    }
}

proof fn class_pieces(instance: Seq<char>)
    requires
        !instance.contains('\0'),
    ensures
        split_on(instance.push('\0'), '\0') == Seq::<Seq<char>>::empty().push(instance).push(
            Seq::empty(),
        ),
{
    let nothing = Seq::<char>::empty();
    nothing_to_split(instance, '\0');
    one_more_piece(instance, nothing, '\0');
    assert(instance.push('\0') + nothing =~= instance.push('\0'));
    assert(seq![instance] =~= Seq::<Seq<char>>::empty().push(instance));
}

proof fn two_pieces(instance: Seq<char>, class: Seq<char>)
    requires
        !instance.contains('\0'),
        !class.contains('\0'),
    ensures
        split_on(instance.push('\0') + class, '\0') == Seq::<Seq<char>>::empty().push(
            instance,
        ).push(class),
{
    nothing_to_split(instance, '\0');
    one_more_piece(instance, class, '\0');
    assert(seq![instance] =~= Seq::<Seq<char>>::empty().push(instance));
}

proof fn three_pieces(instance: Seq<char>, class: Seq<char>)
    requires
        !instance.contains('\0'),
        !class.contains('\0'),
    ensures
        split_on(instance.push('\0') + class.push('\0'), '\0') == Seq::<Seq<char>>::empty().push(
            instance,
        ).push(class).push(Seq::empty()),
{
    let nothing = Seq::<char>::empty();
    let both = instance.push('\0') + class;
    two_pieces(instance, class);
    one_more_piece(both, nothing, '\0');
    assert(both.push('\0') + nothing =~= instance.push('\0') + class.push('\0'));
}

proof fn one_more_name(parts: Seq<Seq<char>>, part: Seq<char>)
    ensures
        part.len() > 0 ==> filled(parts.push(part)) == filled(parts).push(part),
        part.len() == 0 ==> filled(parts.push(part)) == filled(parts),
{
    reveal(Seq::filter);
    assert(parts.push(part).drop_last() =~= parts);
    assert(parts.push(part).last() == part);
}

/// A program is told by what stands behind the last separator of its path, and by
/// nothing before it.
pub proof fn programs_go_by_their_file_name(dir: Seq<char>, sep: char, name: Seq<char>)
    requires
        sep == '/' || sep == '\\',
        !name.contains('/'),
        !name.contains('\\'),
    ensures
        file_name_of(dir.push(sep) + name) == name,
        file_name_of(name) == name,
    decreases name.len(),
{
    let path = dir.push(sep) + name;
    if name.len() > 0 {
        let init = name.drop_last();
        assert(name.contains(name.last()));
        assert(!init.contains('/')) by {
            if init.contains('/') {
                let k = choose|k: int| 0 <= k < init.len() && init[k] == '/';
                assert(name[k] == '/');
            }
        }
        assert(!init.contains('\\')) by {
            if init.contains('\\') {
                let k = choose|k: int| 0 <= k < init.len() && init[k] == '\\';
                assert(name[k] == '\\');
            }
        }
        programs_go_by_their_file_name(dir, sep, init);
        assert(path.drop_last() =~= dir.push(sep) + init);
        assert(path.last() == name.last());
        assert(init.push(name.last()) =~= name);
    } else {
        assert(path.last() == sep);
    }
}

/// A player goes by its program, without the ending of one and without what stands
/// behind the mark in its id.
pub proof fn players_go_by_their_program(name: Seq<char>, rest: Seq<char>)
    requires
        name.len() > 0,
        !name.contains('!'),
        name.len() < 4 || name.skip(name.len() - 4) != ".exe"@,
    ensures
        player_text(name + ".exe"@ + seq!['!'] + rest) == Some(name),
        player_text(name + seq!['!'] + rest) == Some(name),
        player_text(name + ".exe"@) == Some(name),
        player_text(name) == Some(name),
{
    reveal_strlit(".exe");
    let program = name + ".exe"@;
    assert(program.skip(program.len() - 4) =~= ".exe"@);
    assert(program.take(program.len() - 4) =~= name);
    assert(without_exe(name) == name);
    assert(without_exe(program) == name);
    assert(!program.contains('!')) by {
        if program.contains('!') {
            let k = choose|k: int| 0 <= k < program.len() && program[k] == '!';
            if k < name.len() {
                assert(name[k] == '!');
            } else {
                assert(program[k] == ".exe"@[k - name.len()]);
            }
        }
    }
    name.index_of_first_ensures('!');
    program.index_of_first_ensures('!');
    marked_ids_are_cut(program, rest);
    marked_ids_are_cut(name, rest);
}

proof fn marked_ids_are_cut(head: Seq<char>, rest: Seq<char>)
    requires
        !head.contains('!'),
    ensures
        ({
            let id = head + seq!['!'] + rest;
            id.index_of_first('!') == Some(head.len() as int) && id.take(head.len() as int) == head
        }),
{
    let id = head + seq!['!'] + rest;
    id.index_of_first_ensures('!');
    assert(id[head.len() as int] == '!');
    assert(id.contains('!'));
    let i = id.index_of_first('!')->0;
    if i < head.len() {
        assert(head[i] == id[i]);
    }
    assert(id.take(head.len() as int) =~= head);
}

/// Of several artists the first one with a name is told.
pub proof fn the_first_named_artist_counts(names: Seq<String>, i: int)
    requires
        0 <= i < names.len(),
        names[i]@.len() > 0,
        forall|j: int| 0 <= j < i ==> (#[trigger] names[j])@.len() == 0,
    ensures
        first_filled(names) == Some(names[i]@),
    decreases i,
{
    if i > 0 {
        assert(names[0]@.len() == 0);
        let rest = names.drop_first();
        assert forall|j: int| 0 <= j < i - 1 implies (#[trigger] rest[j])@.len() == 0 by {
            assert(rest[j] == names[j + 1]);
        }
        assert(rest[i - 1] == names[i]);
        the_first_named_artist_counts(rest, i - 1);
    }
}

/// Music is told exactly when it has a title, with that title and as playing exactly
/// when the player says so.
pub proof fn titled_music_is_told(
    session: MediaSession,
    player: Player,
    a: Option<NowPlaying>,
    b: Option<NowPlaying>,
)
    requires
        session.plays(a),
        player.plays(b),
    ensures
        session.title is None ==> a is None,
        session.title matches Some(t) ==> (trim(t@).len() == 0 ==> a is None),
        session.title matches Some(t) ==> (trim(t@).len() > 0 ==> a is Some && a->0.title == t
            && a->0.playing == session.playing),
        player.title is None ==> b is None,
        player.title matches Some(t) ==> (trim(t@).len() == 0 ==> b is None),
        player.title matches Some(t) ==> (trim(t@).len() > 0 ==> b is Some && b->0.title == t && (
        b->0.playing <==> player.status is Some && player.status->0@ == "Playing"@) && b->0.album
            == player.album),
        a matches Some(np) ==> {
            &&& session.artist matches Some(x) ==> (x@.len() > 0 ==> np.artist == Some(x))
            &&& session.artist matches Some(x) ==> (x@.len() == 0 ==> np.artist is None)
            &&& session.artist is None ==> np.artist is None
            &&& session.album matches Some(x) ==> (x@.len() > 0 ==> np.album == Some(x))
        },
        b matches Some(np) ==> (player.identity matches Some(name) ==> np.player is Some
            && np.player->0@ == name@),
{
}

/// However often the counter wrapped, the seconds that passed between two readings are
/// told, as long as less than one turn of it did.
pub proof fn wrapping_counters_tell_the_seconds(then: u32, passed: u32)
    ensures
        ({
            let now = if then + passed < 0x1_0000_0000 {
                (then + passed) as u32
            } else {
                (then + passed - 0x1_0000_0000) as u32
            };
            1000 * seconds_between(then, now) <= passed < 1000 * seconds_between(then, now) + 1000
        }),
{
}

/// A machine without a battery, or one that does not know how full it is, tells none;
/// else it is as full as it says, and charges exactly while it is on the line.
pub proof fn power_is_told_as_it_is(line: u8, flags: u8, percent: u8, seconds_left: u32)
    ensures
        ({
            let b = power_status(line, flags, percent, seconds_left);
            &&& b is None <==> percent == 255 || flags >= 128
            &&& b matches Some(x) ==> {
                &&& percent <= 100 ==> x.percent == percent
                &&& percent > 100 ==> x.percent == 100
                &&& x.charging <==> line == 1
                &&& seconds_left == 0xffff_ffff <==> x.minutes_left is None
                &&& x.minutes_left matches Some(m) ==> 60 * m <= seconds_left < 60 * m + 60
            }
        }),
{
}

}
