//! Desktop notifications for peer interactions and pomodoro transitions: what
//! they say, and how loudly.

use vstd::prelude::*;

use crate::model::{Nudge, PomodoroPhase};
use crate::text::{decimal, decimal_text};

verus! {

/// How loudly a notification asks to be noticed.
///
/// Windows toasts are *silent unless a sound is named*, so the sound has to be
/// chosen here for both platforms rather than left to the default.
#[derive(Debug, Clone, Copy, PartialEq, Eq, Structural)]
pub enum Alert {
    /// Informational; must not interrupt.
    Silent,
    /// A short chime, for pokes and peer events.
    Chime,
    /// The pomodoro boundary cue: louder, and meant to be heard from across the
    /// room when the user has already looked away from the screen.
    Reminder,
}

impl Alert {
    pub open spec fn xdg_sound(self) -> Option<Seq<char>> {
        match self {
            Alert::Silent => None,
            Alert::Chime => Some("message-new-instant"@),
            Alert::Reminder => Some("alarm-clock-elapsed"@),
        }
    }

    /// Freedesktop sound theme name, played by the notification daemon.
    pub fn xdg_name(self) -> (r: Option<&'static str>)
        ensures
            match r {
                Some(name) => self.xdg_sound() == Some(name@),
                None => self.xdg_sound() is None,
            },
    {
        match self {
            Alert::Silent => None,
            Alert::Chime => Some("message-new-instant"),
            Alert::Reminder => Some("alarm-clock-elapsed"),
        }
    }

    pub open spec fn toast_sound(self) -> Option<Seq<char>> {
        match self {
            Alert::Silent => None,
            Alert::Chime => Some("IM"@),
            Alert::Reminder => Some("Reminder"@),
        }
    }

    /// Windows toast sound.
    pub fn toast_name(self) -> (r: Option<&'static str>)
        ensures
            match r {
                Some(name) => self.toast_sound() == Some(name@),
                None => self.toast_sound() is None,
            },
    {
        match self {
            Alert::Silent => None,
            Alert::Chime => Some("IM"),
            Alert::Reminder => Some("Reminder"),
        }
    }

    /// Whether the notification is urgent: only the pomodoro cue is.
    pub fn is_critical(self) -> (r: bool)
        ensures
            r == (self == Alert::Reminder),
    {
        matches!(self, Alert::Reminder)
    }
}

/// A notification to show.
#[derive(Debug)]
pub struct Notice {
    pub summary: String,
    pub body: String,
    pub alert: Alert,
}

/// What a notification says.
pub struct NoticeText {
    pub summary: Seq<char>,
    pub body: Seq<char>,
    pub alert: Alert,
}

impl View for Notice {
    type V = NoticeText;

    open spec fn view(&self) -> NoticeText {
        NoticeText { summary: self.summary@, body: self.body@, alert: self.alert }
    }
}

pub open spec fn nudge_notice(n: Nudge) -> NoticeText {
    NoticeText {
        summary: n.kind.emoji_text() + " "@ + n.from_name@,
        body: n.body_text(),
        alert: Alert::Chime,
    }
}

/// Announce an incoming poke.
pub fn nudge(n: &Nudge) -> (r: Notice)
    ensures
        r@ == nudge_notice(*n),
{
    Notice {
        summary: n.kind.emoji().to_string().concat(" ").concat(n.from_name.as_str()),
        body: n.body(),
        alert: Alert::Chime,
    }
}

pub open spec fn focus_notice(next: PomodoroPhase, minutes: u32) -> NoticeText {
    NoticeText {
        summary: "🍅 番茄钟工作结束了"@,
        body: "专注了 "@ + decimal(minutes as nat) + " 分钟，该休息了（接下来是"@
            + next.label_text() + "）"@,
        alert: Alert::Reminder,
    }
}

/// Announce the end of a focus round: work is over, go and rest.
pub fn focus_finished(next: PomodoroPhase, minutes: u32) -> (r: Notice)
    ensures
        r@ == focus_notice(next, minutes),
{
    Notice {
        summary: "🍅 番茄钟工作结束了".to_string(),
        body: "专注了 ".to_string().concat(decimal_text(minutes as u64).as_str()).concat(
            " 分钟，该休息了（接下来是",
        ).concat(next.label()).concat("）"),
        alert: Alert::Reminder,
    }
}

/// Warn that the break is about to end, so the user is back at the keyboard when
/// the next round starts rather than fifteen seconds into it.
pub fn break_ending_soon(seconds: u32) -> (r: Notice)
    ensures
        r@ == (NoticeText {
            summary: "☕ 休息时间快结束了"@,
            body: "还剩 "@ + decimal(seconds as nat) + " 秒，尽快转换为工作状态"@,
            alert: Alert::Reminder,
        }),
{
    Notice {
        summary: "☕ 休息时间快结束了".to_string(),
        body: "还剩 ".to_string().concat(decimal_text(seconds as u64).as_str()).concat(
            " 秒，尽快转换为工作状态",
        ),
        alert: Alert::Reminder,
    }
}

pub open spec fn break_notice() -> NoticeText {
    NoticeText {
        summary: "☕ 休息结束"@,
        body: "回到工作状态，开始下一个专注回合"@,
        alert: Alert::Reminder,
    }
}

/// Announce the end of a break.
pub fn break_finished() -> (r: Notice)
    ensures
        r@ == break_notice(),
{
    Notice {
        summary: "☕ 休息结束".to_string(),
        body: "回到工作状态，开始下一个专注回合".to_string(),
        alert: Alert::Reminder,
    }
}

pub open spec fn goal_notice(goal_min: u32, streak_days: u32) -> NoticeText {
    NoticeText {
        summary: "🎉 达成目标"@,
        body: if streak_days > 1 {
            "今天的 "@ + decimal(goal_min as nat) + " 分钟完成了，已连续 "@ + decimal(
                streak_days as nat,
            ) + " 天"@
        } else {
            "今天的 "@ + decimal(goal_min as nat) + " 分钟完成了"@
        },
        alert: Alert::Chime,
    }
}

/// Celebrate meeting the daily goal.
pub fn goal_reached(goal_min: u32, streak_days: u32) -> (r: Notice)
    ensures
        r@ == goal_notice(goal_min, streak_days),
{
    let head = "今天的 ".to_string().concat(decimal_text(goal_min as u64).as_str());
    let body = if streak_days > 1 {
        head.concat(" 分钟完成了，已连续 ").concat(
            decimal_text(streak_days as u64).as_str(),
        ).concat(" 天")
    } else {
        head.concat(" 分钟完成了")
    };
    Notice { summary: "🎉 达成目标".to_string(), body, alert: Alert::Chime }
}

pub open spec fn distraction_notice(app: Seq<char>, remaining: Seq<char>) -> NoticeText {
    NoticeText {
        summary: "👀 还在专注中"@,
        body: app + " 打开了，这一轮还剩 "@ + remaining,
        alert: Alert::Chime,
    }
}

/// Warn that a distracting app is open during a focus round.
///
/// Aimed at the user themselves: catching yourself is the point, and this fires
/// whether or not the peer is told.
pub fn distraction(app: &str, remaining: &str) -> (r: Notice)
    ensures
        r@ == distraction_notice(app@, remaining@),
{
    Notice {
        summary: "👀 还在专注中".to_string(),
        body: app.to_string().concat(" 打开了，这一轮还剩 ").concat(remaining),
        alert: Alert::Chime,
    }
}

pub open spec fn update_notice(version: Seq<char>) -> NoticeText {
    NoticeText {
        summary: "有新版本可用"@,
        body: "Synctus "@ + version + " 已发布，可在托盘菜单中打开下载页"@,
        alert: Alert::Silent,
    }
}

/// Tell the user a newer release exists. Deliberately does not auto-install.
pub fn update_available(version: &str) -> (r: Notice)
    ensures
        r@ == update_notice(version@),
{
    Notice {
        summary: "有新版本可用".to_string(),
        body: "Synctus ".to_string().concat(version).concat(" 已发布，可在托盘菜单中打开下载页"),
        alert: Alert::Silent,
    }
}

pub open spec fn presence_notice(name: Seq<char>, online: bool) -> NoticeText {
    if online {
        NoticeText { summary: "对方上线了"@, body: name + " 已连接"@, alert: Alert::Silent }
    } else {
        NoticeText { summary: "对方离线了"@, body: name + " 已断开"@, alert: Alert::Silent }
    }
}

/// Report a peer coming online or going offline.
pub fn peer_presence(name: &str, online: bool) -> (r: Notice)
    ensures
        r@ == presence_notice(name@, online),
{
    if online {
        Notice {
            summary: "对方上线了".to_string(),
            body: name.to_string().concat(" 已连接"),
            alert: Alert::Silent,
        }
    } else {
        Notice {
            summary: "对方离线了".to_string(),
            body: name.to_string().concat(" 已断开"),
            alert: Alert::Silent,
        }
    }
}

/// Only informational notifications are silent, on either platform.
pub proof fn only_informational_is_silent(alert: Alert)
    ensures
        alert.xdg_sound() is None <==> alert == Alert::Silent,
        alert.toast_sound() is None <==> alert == Alert::Silent,
{
}

/// The ends of phases ring, pokes and what concerns oneself chime, and news that can
/// wait is silent.
pub proof fn alerts_fit_the_occasion(
    n: Nudge,
    next: PomodoroPhase,
    minutes: u32,
    days: u32,
    text: Seq<char>,
    online: bool,
)
    ensures
        focus_notice(next, minutes).alert == Alert::Reminder,
        break_notice().alert == Alert::Reminder,
        nudge_notice(n).alert == Alert::Chime,
        goal_notice(minutes, days).alert == Alert::Chime,
        distraction_notice(text, text).alert == Alert::Chime,
        update_notice(text).alert == Alert::Silent,
        presence_notice(text, online).alert == Alert::Silent,
{
}

/// A notice names what it is about: the sender and their words, the minutes and what
/// follows, the app and what is left, the version, the device and what it did.
pub proof fn notices_name_their_subject(
    n: Nudge,
    next: PomodoroPhase,
    minutes: u32,
    days: u32,
    app: Seq<char>,
    left: Seq<char>,
)
    ensures
        nudge_notice(n).summary == n.kind.emoji_text() + " "@ + n.from_name@,
        nudge_notice(n).body == n.body_text(),
        focus_notice(next, minutes).body == "专注了 "@ + decimal(minutes as nat)
            + " 分钟，该休息了（接下来是"@ + next.label_text() + "）"@,
        distraction_notice(app, left).body == app + " 打开了，这一轮还剩 "@ + left,
        update_notice(app).body == "Synctus "@ + app + " 已发布，可在托盘菜单中打开下载页"@,
        presence_notice(app, true).body == app + " 已连接"@,
        presence_notice(app, false).body == app + " 已断开"@,
        days > 1 ==> goal_notice(minutes, days).body == "今天的 "@ + decimal(minutes as nat)
            + " 分钟完成了，已连续 "@ + decimal(days as nat) + " 天"@,
        days <= 1 ==> goal_notice(minutes, days).body == "今天的 "@ + decimal(minutes as nat)
            + " 分钟完成了"@,
{
}

}
