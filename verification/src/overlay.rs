//! What the overlay and the settings window of the desktop show.
//!
//! The overlay is deliberately tiny — an avatar, the peer's presence and one line
//! of detail. Left-clicking the avatar pokes the peer; right-clicking opens the
//! same menu as the tray, so the tray is a convenience rather than the only way
//! in.

use vstd::prelude::*;

use crate::client::ConnState;
use crate::desktop::{LogLine, LogText};
use crate::model::{NudgeKind, PomodoroPhase, PomodoroState, Presence, StatusSnapshot, Todo};
use crate::text::{
    decimal, decimal_text, lines, lines_of, same, say, stack, stacked, stacked_lines_come_apart,
    texts, trim, trim_left, trimmed_ends_in_no_space, trimmed_text, without_cr,
};
use crate::tray::{
    label_of, nudge_label, pomodoro_label, pomodoro_label_text, UiRequest, CHOICES,
};
use crate::VERSION;

verus! {

/// Overlay size in points. Wide enough for `Artist - Title` at the default font
/// size.
pub const OVERLAY_SIZE: [u32; 2] = [260, 96];

/// Settings window size in points.
pub const SETTINGS_SIZE: [u32; 2] = [520, 560];

pub open spec fn hint_text(conn: ConnState) -> Seq<char> {
    match conn {
        ConnState::Connecting => "正在连接…"@,
        ConnState::Online => "已连接"@,
        ConnState::Offline(why) => "离线："@ + why@,
        ConnState::Rejected(why) => "被拒绝："@ + why@ + "\n请检查配对码与服务器地址"@,
    }
}

/// What is wrong with the connection, and what to do about it.
pub fn connection_hint(conn: &ConnState) -> (r: String)
    ensures
        r@ == hint_text(*conn),
{
    match conn {
        ConnState::Connecting => "正在连接…".to_string(),
        ConnState::Online => "已连接".to_string(),
        ConnState::Offline(why) => "离线：".to_string().concat(why.as_str()),
        ConnState::Rejected(why) => "被拒绝：".to_string().concat(why.as_str()).concat(
            "\n请检查配对码与服务器地址",
        ),
    }
}

/// The first line of the overlay: who it is about, in which state, and whether
/// there is something to worry about.
#[derive(Debug)]
pub struct Headline {
    pub name: String,
    pub badge: String,
    pub presence: String,
    pub rgb: (u8, u8, u8),
    /// What is wrong with the connection, unless nothing is.
    pub warning: Option<String>,
}

/// What a device is called: by its user and its name, or by its name alone where it
/// belongs to no user.
pub open spec fn called(peer: StatusSnapshot) -> Seq<char> {
    if peer.user@.len() == 0 {
        peer.name@
    } else {
        peer.user@ + " · "@ + peer.name@
    }
}

fn call(peer: &StatusSnapshot) -> (r: String)
    ensures
        r@ == called(*peer),
{
    if peer.user.as_str().is_empty() {
        peer.name.clone()
    } else {
        peer.user.clone().concat(" · ").concat(peer.name.as_str())
    }
}

/// The first line of the overlay.
pub fn headline(peer: Option<&StatusSnapshot>, presence: Presence, conn: &ConnState) -> (r:
    Headline)
    ensures
        r.name@ == (match peer {
            Some(p) => called(*p),
            None => "等待对方…"@,
        }),
        r.badge@ == (match peer {
            Some(p) => match p.platform {
                crate::model::Platform::Windows => "WIN"@,
                crate::model::Platform::Linux => "TUX"@,
                crate::model::Platform::Android => "AND"@,
                crate::model::Platform::Other => "?"@,
            },
            None => "--"@,
        }),
        r.presence@ == presence.label_text(),
        r.rgb == presence.rgb_spec(),
        r.warning is Some <==> !(*conn is Online),
        r.warning matches Some(w) ==> w@ == hint_text(*conn),
{
    let (name, badge) = match peer {
        Some(p) => (call(p), p.platform.icon().to_string()),
        None => ("等待对方…".to_string(), "--".to_string()),
    };
    let warning = match conn {
        ConnState::Online => None,
        _ => Some(connection_hint(conn)),
    };
    Headline {
        name,
        badge,
        presence: presence.label().to_string(),
        rgb: presence.rgb(),
        warning,
    }
}

/// How many of the 24 dots around the avatar are lit: the part of a full focus
/// round that remains of the peer's phase. None when no phase runs.
pub open spec fn lit_dots(pom: Option<PomodoroState>, now: int) -> int {
    match pom {
        Some(p) => if p.phase == PomodoroPhase::Idle {
            0
        } else if p.remaining(now) >= 1_500_000 {
            24
        } else {
            p.remaining(now) * 24 / 1_500_000
        },
        None => 0,
    }
}

/// How many of the 24 dots around the avatar are lit.
pub fn ring(pom: Option<&PomodoroState>, now: i64) -> (r: u32)
    ensures
        r == lit_dots(
            match pom {
                Some(p) => Some(*p),
                None => None,
            },
            now as int,
        ),
        r <= 24,
{
    match pom {
        Some(p) => {
            if p.phase == PomodoroPhase::Idle {
                return 0;
            }
            let left: i64 = p.remaining_ms(now);
            if left >= 1_500_000 {
                24
            } else {
                (left * 24 / 1_500_000) as u32
            }
        },
        None => 0,
    }
}

/// An entry of the context menu.
#[derive(Debug)]
pub struct MenuLine {
    pub text: String,
    pub request: UiRequest,
}

/// What an entry of the context menu says and does.
pub struct MenuText {
    pub text: Seq<char>,
    pub request: UiRequest,
}

impl View for MenuLine {
    type V = MenuText;

    open spec fn view(&self) -> MenuText {
        MenuText { text: self.text@, request: self.request }
    }
}

pub open spec fn menu_text(lines: Seq<MenuLine>) -> Seq<MenuText> {
    lines.map_values(|l: MenuLine| l@)
}

fn add_line(out: &mut Vec<MenuLine>, text: String, request: UiRequest)
    ensures
        menu_text(final(out)@) == menu_text(old(out)@).push(MenuText { text: text@, request }),
{
    out.push(MenuLine { text, request });
}

/// Heading of the context menu.
pub fn menu_heading() -> (r: String)
    ensures
        r@ == "Synctus "@ + VERSION@,
{
    "Synctus ".to_string().concat(VERSION)
}

/// Heading of the choice of presence.
pub fn presence_heading(own: Presence) -> (r: String)
    ensures
        r@ == "我的状态："@ + own.label_text(),
{
    "我的状态：".to_string().concat(own.label())
}

/// The pokes of the context menu.
pub fn nudge_lines() -> (r: Vec<MenuLine>)
    ensures
        menu_text(r@) == NudgeKind::ALL@.map_values(
            |k: NudgeKind| MenuText { text: nudge_label(k), request: UiRequest::Nudge(k) },
        ),
{
    let kinds = NudgeKind::ALL;
    let mut out: Vec<MenuLine> = Vec::new();
    let ghost f = |k: NudgeKind| MenuText { text: nudge_label(k), request: UiRequest::Nudge(k) };
    for i in 0..7
        invariant
            kinds@ == NudgeKind::ALL@,
            kinds@.len() == 7,
            f == (|k: NudgeKind| MenuText { text: nudge_label(k), request: UiRequest::Nudge(k) }),
            menu_text(out@) == NudgeKind::ALL@.take(i as int).map_values(f),
    {
        let kind = kinds[i];
        assert(kind == NudgeKind::ALL@[i as int]);
        assert(NudgeKind::ALL@.take(i + 1) == NudgeKind::ALL@.take(i as int).push(kind));
        add_line(&mut out, label_of(kind), UiRequest::Nudge(kind));
    }
    assert(NudgeKind::ALL@.take(7) == NudgeKind::ALL@);
    out
}

/// The presences of the context menu.
pub fn presence_lines() -> (r: Vec<MenuLine>)
    ensures
        menu_text(r@) == CHOICES@.map_values(
            |p: Presence| MenuText { text: p.label_text(), request: UiRequest::SetPresence(p) },
        ),
{
    let choices = CHOICES;
    let mut out: Vec<MenuLine> = Vec::new();
    let ghost f = |p: Presence| MenuText {
        text: p.label_text(),
        request: UiRequest::SetPresence(p),
    };
    for i in 0..4
        invariant
            choices@ == CHOICES@,
            choices@.len() == 4,
            f == (|p: Presence| MenuText {
                text: p.label_text(),
                request: UiRequest::SetPresence(p),
            }),
            menu_text(out@) == CHOICES@.take(i as int).map_values(f),
    {
        let p = choices[i];
        assert(p == CHOICES@[i as int]);
        assert(CHOICES@.take(i + 1) == CHOICES@.take(i as int).push(p));
        add_line(&mut out, p.label().to_string(), UiRequest::SetPresence(p));
    }
    assert(CHOICES@.take(4) == CHOICES@);
    out
}

pub open spec fn timer_text(state: PomodoroState, now: int) -> Seq<MenuText> {
    seq![
        MenuText { text: pomodoro_label_text(state, now), request: UiRequest::TogglePomodoro },
    ] + (if state.phase == PomodoroPhase::Idle {
        Seq::empty()
    } else {
        seq![
            MenuText { text: "跳过当前阶段"@, request: UiRequest::SkipPhase },
            MenuText { text: "停止番茄钟"@, request: UiRequest::StopPomodoro },
        ]
    })
}

/// The timer in the context menu: what cannot be done now is not offered.
pub fn timer_lines(state: &PomodoroState, now: i64) -> (r: Vec<MenuLine>)
    ensures
        menu_text(r@) == timer_text(*state, now as int),
{
    let mut out: Vec<MenuLine> = Vec::new();
    add_line(&mut out, pomodoro_label(state, now), UiRequest::TogglePomodoro);
    if state.phase != PomodoroPhase::Idle {
        add_line(&mut out, "跳过当前阶段".to_string(), UiRequest::SkipPhase);
        add_line(&mut out, "停止番茄钟".to_string(), UiRequest::StopPomodoro);
    }
    assert(menu_text(out@) =~= timer_text(*state, now as int));
    out
}

/// The rest of the context menu.
pub fn other_lines() -> (r: Vec<MenuLine>)
    ensures
        menu_text(r@) == seq![
            MenuText { text: "设置…"@, request: UiRequest::OpenSettings },
            MenuText { text: "检查更新"@, request: UiRequest::CheckUpdate },
            MenuText { text: "重新连接"@, request: UiRequest::Reconnect },
            MenuText { text: "退出"@, request: UiRequest::Quit },
        ],
{
    let mut out: Vec<MenuLine> = Vec::new();
    add_line(&mut out, "设置…".to_string(), UiRequest::OpenSettings);
    add_line(&mut out, "检查更新".to_string(), UiRequest::CheckUpdate);
    add_line(&mut out, "重新连接".to_string(), UiRequest::Reconnect);
    add_line(&mut out, "退出".to_string(), UiRequest::Quit);
    assert(menu_text(out@) =~= seq![
        MenuText { text: "设置…"@, request: UiRequest::OpenSettings },
        MenuText { text: "检查更新"@, request: UiRequest::CheckUpdate },
        MenuText { text: "重新连接"@, request: UiRequest::Reconnect },
        MenuText { text: "退出"@, request: UiRequest::Quit },
    ]);
    out
}

// ---------------------------------------------------------------- settings

/// Lines that hold something, without the white space around it.
pub open spec fn entries(lines: Seq<Seq<char>>) -> Seq<Seq<char>> {
    lines.map_values(|l: Seq<char>| trim(l)).filter(|l: Seq<char>| l.len() > 0)
}

/// The list that a text box holds, one entry a line.
pub fn parse_list(text: &str) -> (r: Vec<String>)
    ensures
        texts(r@) == entries(lines_of(text@)),
{
    let all = lines(text);
    let ghost t = texts(all@);
    let ghost trims = t.map_values(|l: Seq<char>| trim(l));
    let mut out: Vec<String> = Vec::new();
    assert(entries(t.take(0)) == Seq::<Seq<char>>::empty()) by {
        reveal(Seq::filter);
    }
    for i in 0..all.len()
        invariant
            t == texts(all@),
            texts(out@) == entries(t.take(i as int)),
    {
        reveal(Seq::filter);
        let entry = trimmed_text(all[i].as_str());
        let ghost before = t.take(i as int).map_values(|l: Seq<char>| trim(l));
        let ghost after = t.take(i + 1).map_values(|l: Seq<char>| trim(l));
        assert(after.drop_last() == before);
        assert(after.last() == entry@);
        if !entry.as_str().is_empty() {
            say(&mut out, entry);
        }
    }
    assert(t.take(t.len() as int) == t);
    out
}

/// The text that shows a list, one entry a line.
pub fn show_list(list: &Vec<String>) -> (r: String)
    ensures
        r@ == stacked(texts(list@)),
{
    assert(texts(list@).skip(0) == texts(list@));
    stack(list, 0)
}

/// What is said of the rounds of the day.
pub fn rounds_line(state: &PomodoroState) -> (r: String)
    ensures
        r@ == "今日完成 "@ + decimal(state.completed_today as nat) + " 个回合，当前组内第 "@
            + decimal(state.round as nat) + " 个"@,
{
    "今日完成 ".to_string().concat(decimal_text(state.completed_today as u64).as_str()).concat(
        " 个回合，当前组内第 ",
    ).concat(decimal_text(state.round as u64).as_str()).concat(" 个")
}

/// Whether there is anything to clear.
pub fn any_done(todos: &Vec<Todo>) -> (r: bool)
    ensures
        r == exists|i: int| 0 <= i < todos@.len() && (#[trigger] todos@[i]).done,
{
    let mut i: usize = 0;
    while i < todos.len()
        invariant
            i <= todos@.len(),
            forall|k: int| 0 <= k < i ==> !(#[trigger] todos@[k]).done,
        decreases todos@.len() - i,
    {
        if todos[i].done {
            return true;
        }
        i = i + 1;
    }
    false
}

/// An item of the peer's list.
pub fn peer_todo_line(todo: &Todo) -> (r: String)
    ensures
        r@ == (if todo.done {
            "☑"@
        } else {
            "☐"@
        }) + " "@ + todo.title@,
{
    let mark = if todo.done {
        "☑"
    } else {
        "☐"
    };
    mark.to_string().concat(" ").concat(todo.title.as_str())
}

/// Heading of the log.
pub fn log_heading(device_id: &str, paired: bool) -> (r: String)
    ensures
        r@ == "设备 ID "@ + device_id@ + " · 房间 "@ + (if paired {
            "已配对"@
        } else {
            "未配对"@
        }),
{
    let what = if paired {
        "已配对"
    } else {
        "未配对"
    };
    "设备 ID ".to_string().concat(device_id).concat(" · 房间 ").concat(what)
}

/// A number in decimal, with spaces before it up to four characters.
pub open spec fn aligned(n: nat) -> Seq<char> {
    let d = decimal(n);
    if d.len() < 4 {
        Seq::new((4 - d.len()) as nat, |i: int| ' ') + d
    } else {
        d
    }
}

fn align(n: u64) -> (r: String)
    ensures
        r@ == aligned(n as nat),
{
    let d = decimal_text(n);
    let have: usize = d.as_str().unicode_len();
    let mut out = String::new();
    let mut i: usize = have;
    while i < 4
        invariant
            have <= i,
            i <= 4 || i == have,
            out@ == Seq::new((i - have) as nat, |k: int| ' '),
        decreases 4 - i,
    {
        out.push(' ');
        i = i + 1;
        assert(out@ =~= Seq::new((i - have) as nat, |k: int| ' '));
    }
    if have < 4 {
        out.concat(d.as_str())
    } else {
        d
    }
}

/// A line of the log, with its age in seconds.
pub open spec fn log_line(line: LogText, now: u64) -> Seq<char> {
    aligned(
        if now >= line.at {
            ((now - line.at) / 1000) as nat
        } else {
            0
        },
    ) + "s  "@ + line.text
}

/// The newest lines of the log, oldest first.
pub open spec fn log_tail(log: Seq<LogLine>, now: u64) -> Seq<Seq<char>> {
    let shown = if log.len() > 100 {
        log.skip(log.len() - 100)
    } else {
        log
    };
    shown.map_values(|l: LogLine| log_line(l@, now))
}

/// The newest lines of the log, oldest first.
pub fn log_lines(log: &Vec<LogLine>, now: u64) -> (r: Vec<String>)
    ensures
        texts(r@) == log_tail(log@, now),
{
    let from: usize = if log.len() > 100 {
        log.len() - 100
    } else {
        0
    };
    let ghost shown = log@.skip(from as int);
    assert(log@.skip(0) == log@);
    let mut out: Vec<String> = Vec::new();
    let mut i: usize = from;
    while i < log.len()
        invariant
            from <= i <= log@.len(),
            shown == log@.skip(from as int),
            texts(out@) == shown.take(i - from).map_values(|l: LogLine| log_line(l@, now)),
        decreases log@.len() - i,
    {
        let ago: u64 = if now >= log[i].at {
            (now - log[i].at) / 1000
        } else {
            0
        };
        assert(shown.take(i - from + 1) == shown.take(i - from).push(log@[i as int]));
        say(&mut out, align(ago).concat("s  ").concat(log[i].text.as_str()));
        i = i + 1;
    }
    assert(shown.take(shown.len() as int) == shown);
    out
}

/// Arguments of the desktop client.
#[derive(Debug, Clone, Copy, PartialEq, Eq, Structural)]
pub struct DesktopArgs {
    pub minimised: bool,
    pub help: bool,
    pub version: bool,
}

/// One of these is among the arguments.
pub open spec fn given(args: Seq<Seq<char>>, a: Seq<char>, b: Seq<char>, c: Seq<char>) -> bool {
    args.contains(a) || args.contains(b) || args.contains(c)
}

/// Reads the arguments of the desktop client. Unknown ones are ignored.
pub fn parse_args(args: &Vec<String>) -> (r: DesktopArgs)
    ensures
        r.minimised == given(texts(args@), "--minimised"@, "--minimized"@, "-m"@),
        r.help == given(texts(args@), "-h"@, "--help"@, "--help"@),
        r.version == given(texts(args@), "-V"@, "--version"@, "--version"@),
{
    let minimised = is_given(args, "--minimised", "--minimized", "-m");
    let help = is_given(args, "-h", "--help", "--help");
    let version = is_given(args, "-V", "--version", "--version");
    DesktopArgs { minimised, help, version }
}

fn is_given(args: &Vec<String>, a: &str, b: &str, c: &str) -> (r: bool)
    ensures
        r == given(texts(args@), a@, b@, c@),
{
    let ghost t = texts(args@);
    let mut i: usize = 0;
    while i < args.len()
        invariant
            t == texts(args@),
            i <= args@.len(),
            forall|k: int| 0 <= k < i ==> #[trigger] t[k] != a@ && t[k] != b@ && t[k] != c@,
        decreases args@.len() - i,
    {
        assert(t[i as int] == args@[i as int]@);
        let arg = args[i].as_str();
        if same(arg, a) || same(arg, b) || same(arg, c) {
            return true;
        }
        i = i + 1;
    }
    false
}

pub const DESKTOP_USAGE: &'static str = "

用法:
  synctus-desktop [选项]

选项:
  -m, --minimised   启动时隐藏悬浮窗（开机自启使用）
  -h, --help        显示本帮助
  -V, --version     显示版本

环境变量:
  SYNCTUS_CONFIG_DIR  覆盖配置目录（便携模式）
  SYNCTUS_LOG         日志过滤，如 synctus=debug

首次使用请在设置中填入与对方相同的配对码。";

/// Help of the desktop client.
pub fn desktop_help() -> (r: String)
    ensures
        r@ == "Synctus 桌面端 "@ + VERSION@ + DESKTOP_USAGE@,
{
    "Synctus 桌面端 ".to_string().concat(VERSION).concat(DESKTOP_USAGE)
}

/// An entry that a line of a text box can hold: it has no white space around it, no
/// line end in it, and something in it.
pub open spec fn fits_a_line(entry: Seq<char>) -> bool {
    entry.len() > 0 && trim(entry) == entry && !entry.contains('\n')
}

/// The list that is read from a text box is the list that was put into it.
pub proof fn shown_entries_are_kept(list: Seq<Seq<char>>)
    requires
        forall|i: int| 0 <= i < list.len() ==> fits_a_line(#[trigger] list[i]),
    ensures
        entries(lines_of(stacked(list))) == list,
{
    if list.len() == 0 {
        let nothing = Seq::<char>::empty();
        nothing.index_of_first_ensures('\n');
        assert(lines_of(nothing) == Seq::<Seq<char>>::empty());
    } else {
        assert forall|i: int| 0 <= i < list.len() implies without_cr(#[trigger] list[i])
            == list[i] by {
            assert(fits_a_line(list[i]));
            trimmed_ends_in_no_space(trim_left(list[i]));
        }
        stacked_lines_come_apart(list);
        assert(fits_a_line(list[list.len() - 1]));
        let ended = list.drop_last().map_values(|l: Seq<char>| without_cr(l));
        assert(ended == list.drop_last());
        assert(lines_of(stacked(list)) == list);
    }
    fitting_entries_stay(list);
}

proof fn fitting_entries_stay(list: Seq<Seq<char>>)
    requires
        forall|i: int| 0 <= i < list.len() ==> fits_a_line(#[trigger] list[i]),
    ensures
        entries(list) == list,
    decreases list.len(),
{
    reveal(Seq::filter);
    assert forall|i: int| 0 <= i < list.len() implies trim(#[trigger] list[i]) == list[i] by {
        assert(fits_a_line(list[i]));
    }
    assert(list.map_values(|l: Seq<char>| trim(l)) =~= list);
    if list.len() > 0 {
        let init = list.drop_last();
        assert forall|i: int| 0 <= i < init.len() implies fits_a_line(#[trigger] init[i]) by {
            assert(init[i] == list[i]);
        }
        fitting_entries_stay(init);
        assert(init.map_values(|l: Seq<char>| trim(l)) =~= init);
        assert(fits_a_line(list[list.len() - 1]));
        assert(list == init.push(list.last()));
    }
}

/// Each of the twenty-four dots stands for the same part of a focus round of
/// twenty-five minutes: so many are lit as fit into the rest of the phase.
pub proof fn dots_measure_the_rest(p: PomodoroState, now: int)
    requires
        p.phase != PomodoroPhase::Idle,
    ensures
        ({
            let dots = lit_dots(Some(p), now);
            let left = p.remaining(now);
            &&& left < 25 * 60_000 ==> 0 <= dots < 24 && dots * 62_500 <= left < (dots + 1) * 62_500
            &&& left >= 25 * 60_000 ==> dots == 24
        }),
        lit_dots(None, now) == 0,
        lit_dots(Some(PomodoroState { phase: PomodoroPhase::Idle, ..p }), now) == 0,
{
    assert(p.remaining(now) >= 0);
}

/// A device is called by its name, and by its user first where it has one.
pub proof fn devices_are_called_by_user_and_name(p: StatusSnapshot)
    ensures
        p.user@.len() == 0 ==> called(p) == p.name@,
        p.user@.len() > 0 ==> called(p) == p.user@ + " · "@ + p.name@,
{
}

/// What cannot be done with an idle timer is not offered.
pub proof fn idle_timers_offer_a_start(state: PomodoroState, now: int)
    ensures
        ({
            let t = timer_text(state, now);
            &&& t[0].request == UiRequest::TogglePomodoro
            &&& state.phase == PomodoroPhase::Idle ==> t.len() == 1
            &&& state.phase != PomodoroPhase::Idle ==> t.len() == 3 && t[1].request
                == UiRequest::SkipPhase && t[2].request == UiRequest::StopPomodoro
        }),
{
}

/// A number takes up four places at least, with blanks before it.
pub proof fn numbers_are_aligned(n: nat)
    ensures
        aligned(n).len() >= 4,
        decimal(n).is_suffix_of(aligned(n)),
        forall|i: int|
            0 <= i < aligned(n).len() - decimal(n).len() ==> #[trigger] aligned(n)[i] == ' ',
        decimal(n).len() >= 4 ==> aligned(n) == decimal(n),
        decimal(n).len() <= 4 ==> aligned(n).len() == 4,
{
    let d = decimal(n);
    let a = aligned(n);
    assert(d =~= a.subrange(a.len() - d.len(), a.len() as int));
}

/// A line of the log tells its age in whole seconds before its text; the newest
/// hundred lines are shown, in their order.
pub proof fn the_newest_lines_are_shown(log: Seq<LogLine>, now: u64, i: int)
    requires
        0 <= i < log.len(),
        log[i].at <= now,
    ensures
        log_line(log[i]@, now) == aligned(((now - log[i].at) / 1000) as nat) + "s  "@
            + log[i].text@,
        log.len() <= 100 ==> log_tail(log, now).len() == log.len() && log_tail(log, now)[i]
            == log_line(log[i]@, now),
        log.len() > 100 ==> log_tail(log, now).len() == 100,
        log.len() > 100 && i >= log.len() - 100 ==> log_tail(log, now)[i - (log.len() - 100)]
            == log_line(log[i]@, now),
{
}

/// What is wrong with the connection is told with its reason.
pub proof fn lost_links_are_explained(why: String)
    ensures
        ("离线："@ + why@).is_prefix_of(hint_text(ConnState::Offline(why))),
        ("被拒绝："@ + why@).is_prefix_of(hint_text(ConnState::Rejected(why))),
        hint_text(ConnState::Online) == "已连接"@,
        hint_text(ConnState::Connecting) == "正在连接…"@,
{
}

}
