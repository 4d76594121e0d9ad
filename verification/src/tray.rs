//! The right-click menu of the tray icon.
//!
//! The tray is the primary entry point when the overlay is hidden. Menu entries
//! are known by their ids, which is what the platform gives back in its events.

use vstd::prelude::*;

use crate::model::{NudgeKind, PomodoroPhase, PomodoroState, Presence};
use crate::store::Timer;
use crate::text::{after_prefix, decimal, decimal_text, same, strip_prefix};

verus! {

/// Requests the tray and overlay can raise.
#[derive(Debug, Clone, Copy, PartialEq, Eq, Structural)]
pub enum UiRequest {
    /// Poke the peer.
    Nudge(NudgeKind),
    SetPresence(Presence),
    TogglePomodoro,
    StartFocus,
    StopPomodoro,
    SkipPhase,
    ToggleOverlay,
    OpenSettings,
    CheckUpdate,
    Reconnect,
    Quit,
}

pub const NUDGE_PREFIX: &'static str = "nudge:";

pub const PRESENCE_PREFIX: &'static str = "presence:";

pub const POMODORO_TOGGLE: &'static str = "pomodoro:toggle";

pub const POMODORO_SKIP: &'static str = "pomodoro:skip";

pub const POMODORO_STOP: &'static str = "pomodoro:stop";

pub const OVERLAY_TOGGLE: &'static str = "overlay:toggle";

pub const SETTINGS: &'static str = "settings";

pub const UPDATE: &'static str = "update";

pub const RECONNECT: &'static str = "reconnect";

pub const QUIT: &'static str = "quit";

pub const SUMMARY: &'static str = "summary";

/// The presences that a user can choose, in menu order.
pub const CHOICES: [Presence; 4] = [
    Presence::Active,
    Presence::Resting,
    Presence::Busy,
    Presence::Away,
];

/// The pokes below the top level of the menu.
pub const OTHERS: [NudgeKind; 5] = [
    NudgeKind::Cheer,
    NudgeKind::Knock,
    NudgeKind::Hug,
    NudgeKind::Coffee,
    NudgeKind::Rest,
];

pub open spec fn nudge_id_text(kind: NudgeKind) -> Seq<char> {
    NUDGE_PREFIX@ + kind.name_text()
}

/// The id of a poke.
pub fn nudge_id(kind: NudgeKind) -> (r: String)
    ensures
        r@ == nudge_id_text(kind),
{
    NUDGE_PREFIX.to_string().concat(kind.name())
}

pub open spec fn presence_id_text(presence: Presence) -> Seq<char> {
    PRESENCE_PREFIX@ + presence.name_text()
}

/// The id of a presence.
pub fn presence_id(presence: Presence) -> (r: String)
    ensures
        r@ == presence_id_text(presence),
{
    PRESENCE_PREFIX.to_string().concat(presence.name())
}

/// The kind with this name.
pub open spec fn nudge_named(name: Seq<char>) -> Option<NudgeKind> {
    if name == "Nag"@ {
        Some(NudgeKind::Nag)
    } else if name == "FocusTogether"@ {
        Some(NudgeKind::FocusTogether)
    } else if name == "Cheer"@ {
        Some(NudgeKind::Cheer)
    } else if name == "Knock"@ {
        Some(NudgeKind::Knock)
    } else if name == "Hug"@ {
        Some(NudgeKind::Hug)
    } else if name == "Coffee"@ {
        Some(NudgeKind::Coffee)
    } else if name == "Rest"@ {
        Some(NudgeKind::Rest)
    } else {
        None
    }
}

fn parse_nudge(name: &str) -> (r: Option<NudgeKind>)
    ensures
        r == nudge_named(name@),
{
    if same(name, "Nag") {
        Some(NudgeKind::Nag)
    } else if same(name, "FocusTogether") {
        Some(NudgeKind::FocusTogether)
    } else if same(name, "Cheer") {
        Some(NudgeKind::Cheer)
    } else if same(name, "Knock") {
        Some(NudgeKind::Knock)
    } else if same(name, "Hug") {
        Some(NudgeKind::Hug)
    } else if same(name, "Coffee") {
        Some(NudgeKind::Coffee)
    } else if same(name, "Rest") {
        Some(NudgeKind::Rest)
    } else {
        None
    }
}

/// The presence with this name, among those that can be chosen.
pub open spec fn presence_named(name: Seq<char>) -> Option<Presence> {
    if name == "Active"@ {
        Some(Presence::Active)
    } else if name == "Resting"@ {
        Some(Presence::Resting)
    } else if name == "Busy"@ {
        Some(Presence::Busy)
    } else if name == "Away"@ {
        Some(Presence::Away)
    } else {
        None
    }
}

fn parse_presence(name: &str) -> (r: Option<Presence>)
    ensures
        r == presence_named(name@),
{
    if same(name, "Active") {
        Some(Presence::Active)
    } else if same(name, "Resting") {
        Some(Presence::Resting)
    } else if same(name, "Busy") {
        Some(Presence::Busy)
    } else if same(name, "Away") {
        Some(Presence::Away)
    } else {
        None
    }
}

/// What an entry of the menu asks for.
pub open spec fn request_of(id: Seq<char>) -> Option<UiRequest> {
    match after_prefix(id, NUDGE_PREFIX@) {
        Some(name) => match nudge_named(name) {
            Some(kind) => Some(UiRequest::Nudge(kind)),
            None => None,
        },
        None => match after_prefix(id, PRESENCE_PREFIX@) {
            Some(name) => match presence_named(name) {
                Some(p) => Some(UiRequest::SetPresence(p)),
                None => None,
            },
            None => if id == POMODORO_TOGGLE@ {
                Some(UiRequest::TogglePomodoro)
            } else if id == POMODORO_SKIP@ {
                Some(UiRequest::SkipPhase)
            } else if id == POMODORO_STOP@ {
                Some(UiRequest::StopPomodoro)
            } else if id == OVERLAY_TOGGLE@ {
                Some(UiRequest::ToggleOverlay)
            } else if id == SETTINGS@ {
                Some(UiRequest::OpenSettings)
            } else if id == UPDATE@ {
                Some(UiRequest::CheckUpdate)
            } else if id == RECONNECT@ {
                Some(UiRequest::Reconnect)
            } else if id == QUIT@ {
                Some(UiRequest::Quit)
            } else {
                None
            },
        },
    }
}

/// What an entry of the menu asks for.
pub fn map_menu_id(raw: &str) -> (r: Option<UiRequest>)
    ensures
        r == request_of(raw@),
{
    if let Some(name) = strip_prefix(raw, NUDGE_PREFIX) {
        return match parse_nudge(name.as_str()) {
            Some(kind) => Some(UiRequest::Nudge(kind)),
            None => None,
        };
    }
    if let Some(name) = strip_prefix(raw, PRESENCE_PREFIX) {
        return match parse_presence(name.as_str()) {
            Some(p) => Some(UiRequest::SetPresence(p)),
            None => None,
        };
    }
    if same(raw, POMODORO_TOGGLE) {
        Some(UiRequest::TogglePomodoro)
    } else if same(raw, POMODORO_SKIP) {
        Some(UiRequest::SkipPhase)
    } else if same(raw, POMODORO_STOP) {
        Some(UiRequest::StopPomodoro)
    } else if same(raw, OVERLAY_TOGGLE) {
        Some(UiRequest::ToggleOverlay)
    } else if same(raw, SETTINGS) {
        Some(UiRequest::OpenSettings)
    } else if same(raw, UPDATE) {
        Some(UiRequest::CheckUpdate)
    } else if same(raw, RECONNECT) {
        Some(UiRequest::Reconnect)
    } else if same(raw, QUIT) {
        Some(UiRequest::Quit)
    } else {
        None
    }
}

/// An entry of the menu.
#[derive(Debug)]
pub struct Item {
    pub id: String,
    pub text: String,
    pub enabled: bool,
}

/// A part of the menu.
#[derive(Debug)]
pub enum Entry {
    Item(Item),
    Separator,
    Submenu { text: String, items: Vec<Item> },
}

/// What an entry says.
pub struct ItemText {
    pub id: Seq<char>,
    pub text: Seq<char>,
    pub enabled: bool,
}

/// What a part of the menu says.
pub enum EntryText {
    Item(ItemText),
    Separator,
    Submenu { text: Seq<char>, items: Seq<ItemText> },
}

impl View for Item {
    type V = ItemText;

    open spec fn view(&self) -> ItemText {
        ItemText { id: self.id@, text: self.text@, enabled: self.enabled }
    }
}

pub open spec fn items_text(items: Seq<Item>) -> Seq<ItemText> {
    items.map_values(|i: Item| i@)
}

impl View for Entry {
    type V = EntryText;

    open spec fn view(&self) -> EntryText {
        match *self {
            Entry::Item(i) => EntryText::Item(i@),
            Entry::Separator => EntryText::Separator,
            Entry::Submenu { text, items } => EntryText::Submenu {
                text: text@,
                items: items_text(items@),
            },
        }
    }
}

pub open spec fn entries_text(entries: Seq<Entry>) -> Seq<EntryText> {
    entries.map_values(|e: Entry| e@)
}

fn item(id: String, text: String, enabled: bool) -> (r: Item)
    ensures
        r@ == (ItemText { id: id@, text: text@, enabled }),
{
    Item { id, text, enabled }
}

fn add_entry(entries: &mut Vec<Entry>, entry: Entry)
    ensures
        entries_text(final(entries)@) == entries_text(old(entries)@).push(entry@),
{
    entries.push(entry);
}

pub open spec fn nudge_label(kind: NudgeKind) -> Seq<char> {
    kind.emoji_text() + " "@ + kind.label_text()
}

/// A poke as the menus call it.
pub fn label_of(kind: NudgeKind) -> (r: String)
    ensures
        r@ == nudge_label(kind),
{
    kind.emoji().to_string().concat(" ").concat(kind.label())
}

pub open spec fn nudge_item(kind: NudgeKind, enabled: bool) -> ItemText {
    ItemText { id: nudge_id_text(kind), text: nudge_label(kind), enabled }
}

pub open spec fn presence_item(p: Presence) -> ItemText {
    ItemText { id: presence_id_text(p), text: p.label_text(), enabled: true }
}

pub open spec fn fixed_item(id: Seq<char>, text: Seq<char>) -> EntryText {
    EntryText::Item(ItemText { id, text, enabled: true })
}

/// The menu when the icon is created.
pub open spec fn menu_text() -> Seq<EntryText> {
    seq![
        // Read-only text, shown as an entry that is never enabled.
        EntryText::Item(ItemText { id: SUMMARY@, text: "今日专注　—"@, enabled: false }),
        EntryText::Separator,
        // The two accountability actions are top-level: a nag hidden two clicks
        // deep does not get sent.
        EntryText::Item(nudge_item(NudgeKind::Nag, false)),
        EntryText::Item(nudge_item(NudgeKind::FocusTogether, true)),
        EntryText::Submenu {
            text: "其他互动"@,
            items: OTHERS@.map_values(|k: NudgeKind| nudge_item(k, true)),
        },
        EntryText::Submenu {
            text: "我的状态"@,
            items: CHOICES@.map_values(|p: Presence| presence_item(p)),
        },
        EntryText::Separator,
        fixed_item(POMODORO_TOGGLE@, "开始专注"@),
        fixed_item(POMODORO_SKIP@, "跳过当前阶段"@),
        fixed_item(POMODORO_STOP@, "停止番茄钟"@),
        EntryText::Separator,
        fixed_item(OVERLAY_TOGGLE@, "显示/隐藏悬浮窗"@),
        fixed_item(SETTINGS@, "设置…"@),
        fixed_item(UPDATE@, "检查更新"@),
        fixed_item(RECONNECT@, "重新连接"@),
        EntryText::Separator,
        fixed_item(QUIT@, "退出"@),
    ]
}

fn other_nudges() -> (r: Vec<Item>)
    ensures
        items_text(r@) == OTHERS@.map_values(|k: NudgeKind| nudge_item(k, true)),
{
    let kinds = OTHERS;
    let mut out: Vec<Item> = Vec::new();
    for i in 0..5
        invariant
            kinds@ == OTHERS@,
            kinds@.len() == 5,
            items_text(out@) == OTHERS@.take(i as int).map_values(
                |k: NudgeKind| nudge_item(k, true),
            ),
    {
        assert(OTHERS@.take(i + 1) == OTHERS@.take(i as int).push(kinds@[i as int]));
        let kind = kinds[i];
        assert(kind == OTHERS@[i as int]);
        let ghost was = items_text(out@);
        out.push(item(nudge_id(kind), label_of(kind), true));
        assert(items_text(out@) == was.push(nudge_item(kind, true)));
    }
    assert(OTHERS@.take(5) == OTHERS@);
    out
}

fn presences() -> (r: Vec<Item>)
    ensures
        items_text(r@) == CHOICES@.map_values(|p: Presence| presence_item(p)),
{
    let choices = CHOICES;
    let mut out: Vec<Item> = Vec::new();
    for i in 0..4
        invariant
            choices@ == CHOICES@,
            choices@.len() == 4,
            items_text(out@) == CHOICES@.take(i as int).map_values(|p: Presence| presence_item(p)),
    {
        assert(CHOICES@.take(i + 1) == CHOICES@.take(i as int).push(choices@[i as int]));
        let p = choices[i];
        assert(p == CHOICES@[i as int]);
        let ghost was = items_text(out@);
        out.push(item(presence_id(p), p.label().to_string(), true));
        assert(items_text(out@) == was.push(presence_item(p)));
    }
    assert(CHOICES@.take(4) == CHOICES@);
    out
}

fn add_item(entries: &mut Vec<Entry>, id: &str, text: &str)
    ensures
        entries_text(final(entries)@) == entries_text(old(entries)@).push(fixed_item(id@, text@)),
{
    add_entry(entries, Entry::Item(item(id.to_string(), text.to_string(), true)));
}

/// The menu when the icon is created.
pub fn menu() -> (r: Vec<Entry>)
    ensures
        entries_text(r@) == menu_text(),
{
    let mut m: Vec<Entry> = Vec::new();
    add_entry(
        &mut m,
        Entry::Item(item(SUMMARY.to_string(), "今日专注　—".to_string(), false)),
    );
    add_entry(&mut m, Entry::Separator);
    add_entry(
        &mut m,
        Entry::Item(item(nudge_id(NudgeKind::Nag), label_of(NudgeKind::Nag), false)),
    );
    add_entry(
        &mut m,
        Entry::Item(
            item(nudge_id(NudgeKind::FocusTogether), label_of(NudgeKind::FocusTogether), true),
        ),
    );
    add_entry(&mut m, Entry::Submenu { text: "其他互动".to_string(), items: other_nudges() });
    add_entry(&mut m, Entry::Submenu { text: "我的状态".to_string(), items: presences() });
    add_entry(&mut m, Entry::Separator);
    add_item(&mut m, POMODORO_TOGGLE, "开始专注");
    add_item(&mut m, POMODORO_SKIP, "跳过当前阶段");
    add_item(&mut m, POMODORO_STOP, "停止番茄钟");
    add_entry(&mut m, Entry::Separator);
    add_item(&mut m, OVERLAY_TOGGLE, "显示/隐藏悬浮窗");
    add_item(&mut m, SETTINGS, "设置…");
    add_item(&mut m, UPDATE, "检查更新");
    add_item(&mut m, RECONNECT, "重新连接");
    add_entry(&mut m, Entry::Separator);
    add_item(&mut m, QUIT, "退出");
    assert(entries_text(m@) =~= menu_text());
    m
}

pub open spec fn pomodoro_label_text(state: PomodoroState, now: int) -> Seq<char> {
    if state.phase == PomodoroPhase::Idle {
        "开始专注"@
    } else if state.paused_left_ms is Some {
        "继续（"@ + state.clock_text(now) + "）"@
    } else {
        "暂停（"@ + state.phase.label_text() + " "@ + state.clock_text(now) + "）"@
    }
}

/// What the one button of the timer does next.
pub fn pomodoro_label(state: &PomodoroState, now: i64) -> (r: String)
    ensures
        r@ == pomodoro_label_text(*state, now as int),
{
    if state.phase == PomodoroPhase::Idle {
        "开始专注".to_string()
    } else if state.paused() {
        "继续（".to_string().concat(state.remaining_text(now).as_str()).concat("）")
    } else {
        "暂停（".to_string().concat(state.phase.label()).concat(" ").concat(
            state.remaining_text(now).as_str(),
        ).concat("）")
    }
}

/// The accountability parts of the menu and the tooltip.
#[derive(Debug)]
pub struct TrayTexts {
    /// Today's two focus totals; the most useful line in the menu.
    pub summary: String,
    /// The nag entry. Disabled unless the peer is actually in a focus round, so
    /// the menu itself tells you whether nagging would mean anything.
    pub nag_enabled: bool,
    pub nag: String,
    /// The only always-visible surface when the overlay is hidden, so it carries
    /// the comparison too.
    pub tooltip: String,
}

/// Two totals, as the tray puts them.
pub open spec fn versus(mine: u32, theirs: u32) -> Seq<char> {
    "我 "@ + decimal(mine as nat) + " / TA "@ + decimal(theirs as nat)
}

impl TrayTexts {
    /// These are the texts for two totals, a goal and what the peer is at.
    pub open spec fn compares(
        self,
        mine: u32,
        theirs: u32,
        goal: u32,
        peer_focusing: bool,
        peer_slacking: bool,
    ) -> bool {
        &&& self.summary@ == (if goal > 0 {
            "今日专注　"@ + versus(mine, theirs) + "　目标 "@ + decimal(goal as nat)
        } else {
            "今日专注　"@ + versus(mine, theirs)
        })
        &&& self.nag_enabled == peer_focusing
        &&& self.nag@ == (if peer_slacking {
            NudgeKind::Nag.emoji_text() + " 抓到了，别摸鱼了"@
        } else {
            nudge_label(NudgeKind::Nag)
        })
        &&& self.tooltip@ == (if goal > 0 {
            "Synctus\n今日专注："@ + versus(mine, theirs) + "（目标 "@ + decimal(goal as nat)
                + " 分钟）"@
        } else {
            "Synctus\n今日专注："@ + versus(mine, theirs)
        })
    }
}

/// The accountability parts of the menu and the tooltip.
pub fn accountability(
    mine: u32,
    theirs: u32,
    goal: u32,
    peer_focusing: bool,
    peer_slacking: bool,
) -> (r: TrayTexts)
    ensures
        r.compares(mine, theirs, goal, peer_focusing, peer_slacking),
{
    let totals = "我 ".to_string().concat(decimal_text(mine as u64).as_str()).concat(
        " / TA ",
    ).concat(decimal_text(theirs as u64).as_str());
    let summary = "今日专注　".to_string().concat(totals.as_str());
    let tooltip = "Synctus\n今日专注：".to_string().concat(totals.as_str());
    TrayTexts {
        summary: if goal > 0 {
            summary.concat("　目标 ").concat(decimal_text(goal as u64).as_str())
        } else {
            summary
        },
        nag_enabled: peer_focusing,
        nag: if peer_slacking {
            // Say what was caught, so the menu entry itself is the evidence.
            NudgeKind::Nag.emoji().to_string().concat(" 抓到了，别摸鱼了")
        } else {
            label_of(NudgeKind::Nag)
        },
        tooltip: if goal > 0 {
            tooltip.concat("（目标 ").concat(decimal_text(goal as u64).as_str()).concat(" 分钟）")
        } else {
            tooltip
        },
    }
}

proof fn names_are_revealed()
    ensures
        "Nag"@.len() == 3,
        "Hug"@.len() == 3,
        "Nag"@[0] != "Hug"@[0],
        "FocusTogether"@.len() == 13,
        "Cheer"@.len() == 5,
        "Knock"@.len() == 5,
        "Cheer"@[0] != "Knock"@[0],
        "Coffee"@.len() == 6,
        "Rest"@.len() == 4,
        "Active"@.len() == 6,
        "Resting"@.len() == 7,
        "Busy"@.len() == 4,
        "Away"@.len() == 4,
        "Busy"@[0] != "Away"@[0],
        "nudge:"@.len() == 6,
        "presence:"@.len() == 9,
        "nudge:"@[0] == 'n',
        "presence:"@[0] == 'p',
{
    reveal_strlit("Nag");
    reveal_strlit("Hug");
    reveal_strlit("FocusTogether");
    reveal_strlit("Cheer");
    reveal_strlit("Knock");
    reveal_strlit("Coffee");
    reveal_strlit("Rest");
    reveal_strlit("Active");
    reveal_strlit("Resting");
    reveal_strlit("Busy");
    reveal_strlit("Away");
    reveal_strlit("nudge:");
    reveal_strlit("presence:");
}

/// The id of each poke maps back to it.
pub proof fn nudge_ids_round_trip(kind: NudgeKind)
    ensures
        request_of(nudge_id_text(kind)) == Some(UiRequest::Nudge(kind)),
{
    names_are_revealed();
    let id = nudge_id_text(kind);
    assert(id.subrange(0, NUDGE_PREFIX@.len() as int) == NUDGE_PREFIX@);
    assert(id.skip(NUDGE_PREFIX@.len() as int) == kind.name_text());
}

/// The id of each presence that can be chosen maps back to it.
pub proof fn presence_ids_round_trip(p: Presence)
    requires
        p != Presence::Offline,
    ensures
        request_of(presence_id_text(p)) == Some(UiRequest::SetPresence(p)),
{
    names_are_revealed();
    let id = presence_id_text(p);
    assert(id[0] == 'p');
    if NUDGE_PREFIX@.is_prefix_of(id) {
        assert(id.subrange(0, NUDGE_PREFIX@.len() as int)[0] == NUDGE_PREFIX@[0]);
    }
    assert(id.subrange(0, PRESENCE_PREFIX@.len() as int) == PRESENCE_PREFIX@);
    assert(id.skip(PRESENCE_PREFIX@.len() as int) == p.name_text());
}

/// The one button of the timer is labelled by what it does next: it starts an idle
/// timer, continues a paused one and pauses a running one.
pub proof fn the_button_says_what_it_does(t: Timer, now: i64)
    ensures
        ({
            let label = pomodoro_label_text(t.state, now as int);
            let after = t.toggled(now as int).state;
            let clock = t.state.clock_text(now as int);
            &&& t.state.phase == PomodoroPhase::Idle ==> label == "开始专注"@ && after.phase
                == PomodoroPhase::Focus
            &&& t.state.phase != PomodoroPhase::Idle && t.state.paused_left_ms is Some ==> label
                == "继续（"@ + clock + "）"@ && after.paused_left_ms is None
            &&& t.state.phase != PomodoroPhase::Idle && t.state.paused_left_ms is None ==> label
                == "暂停（"@ + t.state.phase.label_text() + " "@ + clock + "）"@
                && after.paused_left_ms is Some
        }),
{
}

/// Each fixed entry of the menu asks for what it says.
pub proof fn entries_ask_for_what_they_say()
    ensures
        request_of(POMODORO_TOGGLE@) == Some(UiRequest::TogglePomodoro),
        request_of(POMODORO_SKIP@) == Some(UiRequest::SkipPhase),
        request_of(POMODORO_STOP@) == Some(UiRequest::StopPomodoro),
        request_of(OVERLAY_TOGGLE@) == Some(UiRequest::ToggleOverlay),
        request_of(SETTINGS@) == Some(UiRequest::OpenSettings),
        request_of(UPDATE@) == Some(UiRequest::CheckUpdate),
        request_of(RECONNECT@) == Some(UiRequest::Reconnect),
        request_of(QUIT@) == Some(UiRequest::Quit),
{
    reveal_strlit("pomodoro:toggle");
    reveal_strlit("pomodoro:skip");
    reveal_strlit("pomodoro:stop");
    reveal_strlit("overlay:toggle");
    reveal_strlit("settings");
    reveal_strlit("update");
    reveal_strlit("reconnect");
    reveal_strlit("quit");
    reveal_strlit("nudge:");
    reveal_strlit("presence:");
    assert(POMODORO_TOGGLE@.len() == 15);
    if NUDGE_PREFIX@.is_prefix_of(POMODORO_TOGGLE@) {
        assert(POMODORO_TOGGLE@.subrange(0, 6)[0] == NUDGE_PREFIX@[0]);
    }
    if PRESENCE_PREFIX@.is_prefix_of(POMODORO_TOGGLE@) {
        assert(POMODORO_TOGGLE@.subrange(0, 9)[1] == PRESENCE_PREFIX@[1]);
    }
    assert(POMODORO_SKIP@.len() == 13);
    if NUDGE_PREFIX@.is_prefix_of(POMODORO_SKIP@) {
        assert(POMODORO_SKIP@.subrange(0, 6)[0] == NUDGE_PREFIX@[0]);
    }
    if PRESENCE_PREFIX@.is_prefix_of(POMODORO_SKIP@) {
        assert(POMODORO_SKIP@.subrange(0, 9)[1] == PRESENCE_PREFIX@[1]);
    }
    assert(POMODORO_STOP@.len() == 13);
    if NUDGE_PREFIX@.is_prefix_of(POMODORO_STOP@) {
        assert(POMODORO_STOP@.subrange(0, 6)[0] == NUDGE_PREFIX@[0]);
    }
    if PRESENCE_PREFIX@.is_prefix_of(POMODORO_STOP@) {
        assert(POMODORO_STOP@.subrange(0, 9)[1] == PRESENCE_PREFIX@[1]);
    }
    assert(OVERLAY_TOGGLE@.len() == 14);
    if NUDGE_PREFIX@.is_prefix_of(OVERLAY_TOGGLE@) {
        assert(OVERLAY_TOGGLE@.subrange(0, 6)[0] == NUDGE_PREFIX@[0]);
    }
    if PRESENCE_PREFIX@.is_prefix_of(OVERLAY_TOGGLE@) {
        assert(OVERLAY_TOGGLE@.subrange(0, 9)[0] == PRESENCE_PREFIX@[0]);
    }
    assert(SETTINGS@.len() == 8);
    if NUDGE_PREFIX@.is_prefix_of(SETTINGS@) {
        assert(SETTINGS@.subrange(0, 6)[0] == NUDGE_PREFIX@[0]);
    }
    assert(UPDATE@.len() == 6);
    if NUDGE_PREFIX@.is_prefix_of(UPDATE@) {
        assert(UPDATE@.subrange(0, 6)[0] == NUDGE_PREFIX@[0]);
    }
    assert(RECONNECT@.len() == 9);
    if NUDGE_PREFIX@.is_prefix_of(RECONNECT@) {
        assert(RECONNECT@.subrange(0, 6)[0] == NUDGE_PREFIX@[0]);
    }
    if PRESENCE_PREFIX@.is_prefix_of(RECONNECT@) {
        assert(RECONNECT@.subrange(0, 9)[0] == PRESENCE_PREFIX@[0]);
    }
    assert(QUIT@.len() == 4);
    assert(POMODORO_STOP@[10] != POMODORO_SKIP@[10]);
}

/// No name but those of the menu asks for anything: a poke is asked for by its own
/// id only, and so is a presence.
pub proof fn requests_come_from_their_ids(id: Seq<char>, kind: NudgeKind, p: Presence)
    ensures
        request_of(id) == Some(UiRequest::Nudge(kind)) ==> id == nudge_id_text(kind),
        request_of(id) == Some(UiRequest::SetPresence(p)) ==> id == presence_id_text(p),
        request_of(id) != Some(UiRequest::SetPresence(Presence::Offline)),
{
    names_are_revealed();
    if NUDGE_PREFIX@.is_prefix_of(id) {
        assert(id =~= NUDGE_PREFIX@ + id.skip(NUDGE_PREFIX@.len() as int));
    }
    if PRESENCE_PREFIX@.is_prefix_of(id) {
        assert(id =~= PRESENCE_PREFIX@ + id.skip(PRESENCE_PREFIX@.len() as int));
    }
}

/// The two totals stand in the menu and in the tooltip, ours first, with the goal
/// where there is one. A nag can be sent exactly while the peer is in a focus round,
/// and says so when they are caught slacking.
pub proof fn totals_are_compared(
    r: TrayTexts,
    mine: u32,
    theirs: u32,
    goal: u32,
    peer_focusing: bool,
    peer_slacking: bool,
)
    requires
        r.compares(mine, theirs, goal, peer_focusing, peer_slacking),
    ensures
        r.nag_enabled <==> peer_focusing,
        ({
            let totals = "我 "@ + decimal(mine as nat) + " / TA "@ + decimal(theirs as nat);
            &&& goal == 0 ==> r.summary@ == "今日专注　"@ + totals && r.tooltip@
                == "Synctus\n今日专注："@ + totals
            &&& goal > 0 ==> r.summary@ == "今日专注　"@ + totals + "　目标 "@ + decimal(goal as nat)
                && r.tooltip@ == "Synctus\n今日专注："@ + totals + "（目标 "@ + decimal(goal as nat)
                + " 分钟）"@
        }),
        peer_slacking ==> r.nag@ == "👀"@ + " 抓到了，别摸鱼了"@,
        !peer_slacking ==> r.nag@ == "👀"@ + " "@ + "别摸鱼了"@,
{
}

}
