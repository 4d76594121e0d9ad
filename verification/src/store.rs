//! Local state: to-do list, pomodoro engine and the peer view.
//!
//! All of it is UI-framework agnostic and synchronously testable: the desktop
//! and Android layers only turn user input into calls here and render the
//! result.

use vstd::prelude::*;

use crate::clock::{clip, minus, plus};
use crate::config::PomodoroConfig;
use crate::dates::{day, day_of, utc_date, utc_date_text, DAY_MS};
use crate::model::{PomodoroPhase, PomodoroState, Presence, StatusSnapshot, Todo};
use crate::table::Table;

verus! {

// ---------------------------------------------------------------------------
// To-dos and counters
// ---------------------------------------------------------------------------

/// To-do list plus the pomodoro counters that survive a restart.
#[derive(Debug)]
pub struct LocalData {
    pub todos: Vec<Todo>,
    /// Focus rounds finished today.
    pub completed_today: u32,
    /// Date (`YYYY-MM-DD` in UTC) the counter belongs to.
    pub counter_date: String,
    /// Rounds completed in the current set, for long-break scheduling.
    pub round: u32,
    /// Minutes of focus today.
    pub focus_today_min: u32,
    /// Days in a row on which the goal was met.
    pub streak_days: u32,
    /// Date on which the goal was met last.
    pub goal_date: String,
}

impl Default for LocalData {
    fn default() -> (r: LocalData)
        ensures
            r.todos@ == Seq::<Todo>::empty(),
            r.completed_today == 0,
            r.counter_date@ == Seq::<char>::empty(),
            r.round == 0,
            r.focus_today_min == 0,
            r.streak_days == 0,
            r.goal_date@ == Seq::<char>::empty(),
    {
        LocalData {
            todos: Vec::new(),
            completed_today: 0,
            counter_date: String::new(),
            round: 0,
            focus_today_min: 0,
            streak_days: 0,
            goal_date: String::new(),
        }
    }
}

impl Clone for LocalData {
    fn clone(&self) -> (r: LocalData)
        ensures
            r.todos@ == self.todos@,
            r.completed_today == self.completed_today,
            r.counter_date == self.counter_date,
            r.round == self.round,
            r.focus_today_min == self.focus_today_min,
            r.streak_days == self.streak_days,
            r.goal_date == self.goal_date,
    {
        LocalData {
            todos: crate::model::clone_todos(&self.todos),
            completed_today: self.completed_today,
            counter_date: self.counter_date.clone(),
            round: self.round,
            focus_today_min: self.focus_today_min,
            streak_days: self.streak_days,
            goal_date: self.goal_date.clone(),
        }
    }
}

/// The items that are still open.
pub open spec fn open_todos(todos: Seq<Todo>) -> Seq<Todo> {
    todos.filter(|t: Todo| !t.done)
}

/// The items that were done on the day of `now`.
pub open spec fn done_todos(todos: Seq<Todo>, now: int) -> Seq<Todo> {
    todos.filter(|t: Todo| done_on_day_of(t, now))
}

pub open spec fn done_on_day_of(t: Todo, now: int) -> bool {
    t.done && (t.done_at matches Some(at) && day_of(at as int) == day_of(now))
}

/// A streak at the start of a day: it is broken unless the goal was met the day
/// before.
pub open spec fn lasting(streak_days: u32, goal_date: Seq<char>, now: int) -> u32 {
    if goal_date == utc_date_text(clip(now - 86_400_000)) {
        streak_days
    } else {
        0
    }
}

/// How many items of a list are still open.
pub fn count_open(todos: &Vec<Todo>) -> (r: u32)
    ensures
        r == open_todos(todos@).len() as u32,
{
    let mut count: usize = 0;
    for i in 0..todos.len()
        invariant
            count == open_todos(todos@.take(i as int)).len(),
            count <= i,
    {
        reveal(Seq::filter);
        assert(todos@.take(i + 1).drop_last() == todos@.take(i as int));
        assert(todos@.take(i + 1).last() == todos@[i as int]);
        if !todos[i].done {
            count = count + 1;
        }
    }
    assert(todos@.take(todos@.len() as int) == todos@);
    #[verifier::truncate]
    (count as u32)
}

/// How many items of a list were done on the day of `now`.
pub fn count_done(todos: &Vec<Todo>, now: i64) -> (r: u32)
    ensures
        r == done_todos(todos@, now as int).len() as u32,
{
    let today: i64 = day(now);
    let mut count: usize = 0;
    for i in 0..todos.len()
        invariant
            today == day_of(now as int),
            count == done_todos(todos@.take(i as int), now as int).len(),
            count <= i,
    {
        reveal(Seq::filter);
        assert(todos@.take(i + 1).drop_last() == todos@.take(i as int));
        assert(todos@.take(i + 1).last() == todos@[i as int]);
        let hit = match todos[i].done_at {
            Some(at) => todos[i].done && day(at) == today,
            None => false,
        };
        if hit {
            count = count + 1;
        }
    }
    assert(todos@.take(todos@.len() as int) == todos@);
    #[verifier::truncate]
    (count as u32)
}

impl LocalData {
    pub fn open_count(&self) -> (r: u32)
        ensures
            r == open_todos(self.todos@).len() as u32,
    {
        count_open(&self.todos)
    }

    pub fn done_today(&self, now: i64) -> (r: u32)
        ensures
            r == done_todos(self.todos@, now as int).len() as u32,
    {
        count_done(&self.todos, now)
    }

    /// Resets the daily counters when the date rolled over. Call before reading
    /// the counters so a session that spans midnight starts a fresh day. A streak
    /// lasts only if the goal was met the day before.
    pub fn roll_day(&mut self, now: i64)
        ensures
            final(self).counter_date@ == utc_date_text(now as int),
            final(self).todos == old(self).todos,
            final(self).goal_date == old(self).goal_date,
            old(self).counter_date@ == utc_date_text(now as int) ==> *final(self) == *old(self),
            old(self).counter_date@ != utc_date_text(now as int) ==> {
                &&& final(self).completed_today == 0
                &&& final(self).round == 0
                &&& final(self).focus_today_min == 0
                &&& final(self).streak_days == lasting(
                    old(self).streak_days,
                    old(self).goal_date@,
                    now as int,
                )
            },
    {
        let today = utc_date(now);
        if self.counter_date != today {
            self.counter_date = today;
            self.completed_today = 0;
            self.round = 0;
            self.focus_today_min = 0;
            if self.goal_date != utc_date(minus(now, DAY_MS)) {
                self.streak_days = 0;
            }
        }
    }
}

// ---------------------------------------------------------------------------
// Pomodoro
// ---------------------------------------------------------------------------

/// What happened on the last [`Pomodoro::tick`], so the UI knows when to notify.
#[derive(Debug, Clone, Copy, PartialEq, Eq, Structural)]
pub enum PomodoroEvent {
    Nothing,
    /// A focus round finished; payload is the phase that follows.
    FocusFinished(PomodoroPhase),
    /// A break finished.
    BreakFinished,
}

/// The pomodoro timer.
///
/// Deadline-based rather than tick-based: the timer stays correct across sleep,
/// process suspension and Android's doze mode, and only the deadline is synced.
#[derive(Debug, Clone, Copy)]
pub struct Pomodoro {
    cfg: PomodoroConfig,
    state: PomodoroState,
}

/// Settings and state of a timer.
pub struct Timer {
    pub cfg: PomodoroConfig,
    pub state: PomodoroState,
}

impl View for Pomodoro {
    type V = Timer;

    closed spec fn view(&self) -> Timer {
        Timer { cfg: self.cfg, state: self.state }
    }
}

pub open spec fn at_least_one(n: u32) -> u32 {
    if n == 0 {
        1
    } else {
        n
    }
}

/// Length of a phase. A length of zero counts as one minute.
pub open spec fn phase_min(cfg: PomodoroConfig, phase: PomodoroPhase) -> u32 {
    match phase {
        PomodoroPhase::Focus => at_least_one(cfg.focus_min),
        PomodoroPhase::ShortBreak => at_least_one(cfg.short_break_min),
        PomodoroPhase::LongBreak => at_least_one(cfg.long_break_min),
        PomodoroPhase::Idle => 0,
    }
}

/// The break that follows the focus round of this number.
pub open spec fn break_after(cfg: PomodoroConfig, round: u32) -> PomodoroPhase {
    if round % at_least_one(cfg.rounds_per_set) == 0 {
        PomodoroPhase::LongBreak
    } else {
        PomodoroPhase::ShortBreak
    }
}

pub open spec fn one_more(n: u32) -> u32 {
    if n == u32::MAX {
        n
    } else {
        (n + 1) as u32
    }
}

impl Timer {
    pub open spec fn stopped(self) -> Timer {
        Timer {
            state: PomodoroState::idle(self.state.round, self.state.completed_today),
            ..self
        }
    }

    pub open spec fn started(self, phase: PomodoroPhase, now: int) -> Timer {
        if phase == PomodoroPhase::Idle {
            self.stopped()
        } else {
            Timer {
                state: PomodoroState {
                    phase,
                    ends_at: Some(clip(now + phase_min(self.cfg, phase) * 60_000) as i64),
                    paused_left_ms: None,
                    ..self.state
                },
                ..self
            }
        }
    }

    pub open spec fn paused(self, now: int) -> Timer {
        if self.state.phase == PomodoroPhase::Idle || self.state.paused_left_ms is Some {
            self
        } else {
            Timer {
                state: PomodoroState {
                    paused_left_ms: Some(self.state.remaining(now) as i64),
                    ..self.state
                },
                ..self
            }
        }
    }

    pub open spec fn resumed(self, now: int) -> Timer {
        match self.state.paused_left_ms {
            Some(left) => Timer {
                state: PomodoroState {
                    ends_at: Some(clip(now + left) as i64),
                    paused_left_ms: None,
                    ..self.state
                },
                ..self
            },
            None => self,
        }
    }

    /// The one button of the timer: start when idle, else pause or resume.
    pub open spec fn toggled(self, now: int) -> Timer {
        if self.state.phase == PomodoroPhase::Idle {
            self.started(PomodoroPhase::Focus, now)
        } else if self.state.paused_left_ms is Some {
            self.resumed(now)
        } else {
            self.paused(now)
        }
    }

    /// The phase is over at `now`.
    pub open spec fn due(self, now: int) -> bool {
        &&& self.state.phase != PomodoroPhase::Idle
        &&& self.state.paused_left_ms is None
        &&& self.state.remaining(now) == 0
    }

    /// What follows a phase that is over: the other kind of phase when the timer
    /// continues by itself, else none.
    pub open spec fn ticked(self, now: int) -> (Timer, PomodoroEvent) {
        if !self.due(now) {
            (self, PomodoroEvent::Nothing)
        } else if self.state.phase == PomodoroPhase::Focus {
            let round = one_more(self.state.round);
            let next = break_after(self.cfg, round);
            let counted = Timer {
                state: PomodoroState {
                    round,
                    completed_today: one_more(self.state.completed_today),
                    ..self.state
                },
                ..self
            };
            (
                if self.cfg.auto_continue {
                    counted.started(next, now)
                } else {
                    counted.stopped()
                },
                PomodoroEvent::FocusFinished(next),
            )
        } else {
            (
                if self.cfg.auto_continue {
                    self.started(PomodoroPhase::Focus, now)
                } else {
                    self.stopped()
                },
                PomodoroEvent::BreakFinished,
            )
        }
    }

    /// The deadline moved to `now`.
    pub open spec fn hurried(self, now: int) -> Timer {
        Timer {
            state: PomodoroState {
                ends_at: Some(now as i64),
                paused_left_ms: None,
                ..self.state
            },
            ..self
        }
    }

    pub open spec fn skipped(self, now: int) -> (Timer, PomodoroEvent) {
        if self.state.phase == PomodoroPhase::Idle {
            (self, PomodoroEvent::Nothing)
        } else {
            self.hurried(now).ticked(now)
        }
    }

    /// The counters of a new day.
    pub open spec fn on_new_day(self) -> Timer {
        Timer { state: PomodoroState { round: 0, completed_today: 0, ..self.state }, ..self }
    }

    pub open spec fn presence(self) -> Option<Presence> {
        if !self.cfg.presence_follows_phase {
            None
        } else {
            match self.state.phase {
                PomodoroPhase::Focus => Some(Presence::Busy),
                PomodoroPhase::ShortBreak => Some(Presence::Resting),
                PomodoroPhase::LongBreak => Some(Presence::Resting),
                PomodoroPhase::Idle => None,
            }
        }
    }
}

impl Pomodoro {
    pub fn new(cfg: PomodoroConfig, round: u32, completed_today: u32) -> (r: Pomodoro)
        ensures
            r@ == (Timer { cfg, state: PomodoroState::idle(round, completed_today) }),
    {
        Pomodoro {
            cfg,
            state: PomodoroState {
                phase: PomodoroPhase::Idle,
                ends_at: None,
                paused_left_ms: None,
                round,
                completed_today,
            },
        }
    }

    pub fn state(&self) -> (r: PomodoroState)
        ensures
            r == self@.state,
    {
        self.state
    }

    pub fn config(&self) -> (r: PomodoroConfig)
        ensures
            r == self@.cfg,
    {
        self.cfg
    }

    pub fn set_config(&mut self, cfg: PomodoroConfig)
        ensures
            final(self)@ == (Timer { cfg, ..old(self)@ }),
    {
        self.cfg = cfg;
    }

    /// Starts counting afresh; the phase that runs goes on.
    pub fn start_day(&mut self)
        ensures
            final(self)@ == old(self)@.on_new_day(),
    {
        self.state.round = 0;
        self.state.completed_today = 0;
    }

    fn phase_minutes(&self, phase: PomodoroPhase) -> (r: u32)
        ensures
            r == phase_min(self@.cfg, phase),
    {
        match phase {
            PomodoroPhase::Focus => or_one(self.cfg.focus_min),
            PomodoroPhase::ShortBreak => or_one(self.cfg.short_break_min),
            PomodoroPhase::LongBreak => or_one(self.cfg.long_break_min),
            PomodoroPhase::Idle => 0,
        }
    }

    /// Begins `phase` at `now`.
    pub fn start(&mut self, phase: PomodoroPhase, now: i64)
        ensures
            final(self)@ == old(self)@.started(phase, now as int),
    {
        if phase == PomodoroPhase::Idle {
            self.stop();
            return;
        }
        let minutes: u32 = self.phase_minutes(phase);
        self.state.phase = phase;
        self.state.paused_left_ms = None;
        self.state.ends_at = Some(plus(now, minutes as i64 * 60_000));
    }

    /// Starts a focus round.
    pub fn start_focus(&mut self, now: i64)
        ensures
            final(self)@ == old(self)@.started(PomodoroPhase::Focus, now as int),
    {
        self.start(PomodoroPhase::Focus, now);
    }

    /// Freezes the countdown, keeping the remaining time.
    pub fn pause(&mut self, now: i64)
        ensures
            final(self)@ == old(self)@.paused(now as int),
    {
        if self.state.phase != PomodoroPhase::Idle && !self.state.paused() {
            self.state.paused_left_ms = Some(self.state.remaining_ms(now));
        }
    }

    /// Resumes from a pause by pushing the deadline out.
    pub fn resume(&mut self, now: i64)
        ensures
            final(self)@ == old(self)@.resumed(now as int),
    {
        if let Some(left) = self.state.paused_left_ms {
            self.state.paused_left_ms = None;
            self.state.ends_at = Some(plus(now, left));
        }
    }

    pub fn toggle_pause(&mut self, now: i64)
        ensures
            final(self)@ == (if old(self)@.state.paused_left_ms is Some {
                old(self)@.resumed(now as int)
            } else {
                old(self)@.paused(now as int)
            }),
    {
        if self.state.paused() {
            self.resume(now);
        } else {
            self.pause(now);
        }
    }

    /// Cancels the timer, keeping today's counters.
    pub fn stop(&mut self)
        ensures
            final(self)@ == old(self)@.stopped(),
    {
        self.state.phase = PomodoroPhase::Idle;
        self.state.ends_at = None;
        self.state.paused_left_ms = None;
    }

    /// Ends the current phase immediately, as if the deadline had passed.
    pub fn skip(&mut self, now: i64) -> (r: PomodoroEvent)
        ensures
            (final(self)@, r) == old(self)@.skipped(now as int),
    {
        if self.state.phase == PomodoroPhase::Idle {
            return PomodoroEvent::Nothing;
        }
        self.state.paused_left_ms = None;
        self.state.ends_at = Some(now);
        self.tick(now)
    }

    /// Advances the state machine. Call at any cadence; correctness depends only
    /// on `now`.
    pub fn tick(&mut self, now: i64) -> (r: PomodoroEvent)
        ensures
            (final(self)@, r) == old(self)@.ticked(now as int),
    {
        if self.state.phase == PomodoroPhase::Idle || self.state.paused() {
            return PomodoroEvent::Nothing;
        }
        if self.state.remaining_ms(now) > 0 {
            return PomodoroEvent::Nothing;
        }
        match self.state.phase {
            PomodoroPhase::Focus => {
                self.state.completed_today = self.state.completed_today.saturating_add(1);
                self.state.round = self.state.round.saturating_add(1);
                let rounds: u32 = or_one(self.cfg.rounds_per_set);
                let next = if self.state.round % rounds == 0 {
                    PomodoroPhase::LongBreak
                } else {
                    PomodoroPhase::ShortBreak
                };
                if self.cfg.auto_continue {
                    self.start(next, now);
                } else {
                    self.stop();
                }
                PomodoroEvent::FocusFinished(next)
            },
            PomodoroPhase::ShortBreak | PomodoroPhase::LongBreak => {
                if self.cfg.auto_continue {
                    self.start(PomodoroPhase::Focus, now);
                } else {
                    self.stop();
                }
                PomodoroEvent::BreakFinished
            },
            PomodoroPhase::Idle => PomodoroEvent::Nothing,
        }
    }

    /// Presence implied by the current phase, when the option is enabled.
    pub fn implied_presence(&self) -> (r: Option<Presence>)
        ensures
            r == self@.presence(),
    {
        if !self.cfg.presence_follows_phase {
            return None;
        }
        match self.state.phase {
            PomodoroPhase::Focus => Some(Presence::Busy),
            PomodoroPhase::ShortBreak | PomodoroPhase::LongBreak => Some(Presence::Resting),
            PomodoroPhase::Idle => None,
        }
    }
}

fn or_one(n: u32) -> (r: u32)
    ensures
        r == at_least_one(n),
{
    if n == 0 {
        1
    } else {
        n
    }
}

/// A timer has a deadline exactly while a phase runs; it is paused only then, and
/// with a rest that is not negative.
pub open spec fn is_sound(t: Timer) -> bool {
    &&& t.state.phase == PomodoroPhase::Idle <==> t.state.ends_at is None
    &&& t.state.paused_left_ms matches Some(left) ==> t.state.phase != PomodoroPhase::Idle && left
        >= 0
}

/// A new timer is idle and has no deadline, and every operation keeps it so that it
/// has a deadline exactly while a phase runs, and is paused only then, with a rest
/// that is not negative.
pub proof fn timers_stay_sound(
    t: Timer,
    cfg: PomodoroConfig,
    round: u32,
    completed_today: u32,
    phase: PomodoroPhase,
    now: int,
)
    requires
        is_sound(t),
    ensures
        is_sound(Timer { cfg, state: PomodoroState::idle(round, completed_today) }),
        is_sound(Timer { cfg, ..t }),
        is_sound(t.started(phase, now)),
        is_sound(t.stopped()),
        is_sound(t.paused(now)),
        is_sound(t.resumed(now)),
        is_sound(t.toggled(now)),
        is_sound(t.ticked(now).0),
        is_sound(t.skipped(now).0),
        is_sound(t.on_new_day()),
{
}

/// A paused timer shows the same remaining time for ever.
pub proof fn pause_freezes(t: Timer, at: int, later: int)
    requires
        t.state.phase != PomodoroPhase::Idle,
    ensures
        t.paused(at).state.remaining(later) == t.state.remaining(at),
        !t.paused(at).due(later),
{
}

/// Resuming carries on with the time that was left, whenever it happens.
pub proof fn resume_carries_on(t: Timer, at: int, later: int)
    requires
        t.state.phase != PomodoroPhase::Idle,
        later + t.state.remaining(at) <= i64::MAX,
        later >= i64::MIN,
    ensures
        t.paused(at).resumed(later).state.remaining(later) == t.state.remaining(at),
        t.paused(at).resumed(later).state.paused_left_ms is None,
{
}

/// Ticking before the deadline changes nothing, however often.
pub proof fn early_ticks_do_nothing(t: Timer, now: int)
    requires
        t.state.remaining(now) > 0,
    ensures
        t.ticked(now) == (t, PomodoroEvent::Nothing),
{
}

/// Only the deadline matters: a tick at any time after it finishes the phase, and
/// which event comes out does not depend on when it happens.
pub proof fn late_ticks_agree(t: Timer, end: i64, a: int, b: int)
    requires
        t.state.phase != PomodoroPhase::Idle,
        t.state.paused_left_ms is None,
        t.state.ends_at == Some(end),
        a >= end,
        b >= end,
    ensures
        t.ticked(a).1 == t.ticked(b).1,
        t.ticked(a).1 != PomodoroEvent::Nothing,
        !t.cfg.auto_continue ==> t.ticked(a) == t.ticked(b),
{
}

/// Stopping keeps the counters, and a stopped timer stays as it is.
pub proof fn stop_keeps_the_counters(t: Timer, now: int)
    ensures
        t.stopped().state.round == t.state.round,
        t.stopped().state.completed_today == t.state.completed_today,
        t.stopped().ticked(now) == (t.stopped(), PomodoroEvent::Nothing),
        t.stopped().skipped(now) == (t.stopped(), PomodoroEvent::Nothing),
{
}

/// Skipping ends the phase just as its deadline does.
pub proof fn skip_is_an_early_deadline(t: Timer, end: i64)
    requires
        t.state.phase != PomodoroPhase::Idle,
        t.state.paused_left_ms is None,
        t.state.ends_at == Some(end),
    ensures
        t.skipped(end as int) == t.ticked(end as int),
{
    assert(t.hurried(end as int) == t);
}

/// Finishing a focus round counts it, once, and nothing else counts.
pub proof fn only_finished_rounds_count(t: Timer, now: int)
    ensures
        t.ticked(now).1 is FocusFinished ==> {
            &&& t.ticked(now).0.state.round == one_more(t.state.round)
            &&& t.ticked(now).0.state.completed_today == one_more(t.state.completed_today)
            &&& t.ticked(now).1 == PomodoroEvent::FocusFinished(
                break_after(t.cfg, one_more(t.state.round)),
            )
        },
        !(t.ticked(now).1 is FocusFinished) ==> {
            &&& t.ticked(now).0.state.round == t.state.round
            &&& t.ticked(now).0.state.completed_today == t.state.completed_today
        },
{
}

/// Of the rounds in a set, counted from a fresh start, only the last one is
/// followed by a long break.
pub proof fn long_break_ends_the_set(cfg: PomodoroConfig, round: u32)
    requires
        1 <= round <= at_least_one(cfg.rounds_per_set),
    ensures
        break_after(cfg, round) == PomodoroPhase::LongBreak <==> round == at_least_one(
            cfg.rounds_per_set,
        ),
{
    let n = at_least_one(cfg.rounds_per_set);
    if round < n {
        vstd::arithmetic::div_mod::lemma_small_mod(round as nat, n as nat);
    } else {
        vstd::arithmetic::div_mod::lemma_mod_self_0(n as int);
    }
}

// ---------------------------------------------------------------------------
// The peer
// ---------------------------------------------------------------------------

/// The peer side of the world: latest snapshot and to-dos per device.
#[derive(Debug)]
pub struct PeerView {
    devices: Table<StatusSnapshot>,
    todos: Table<Vec<Todo>>,
    online: Table<bool>,
}

/// What is known of the peer's devices, by device id.
pub struct Peers {
    pub devices: Map<Seq<char>, StatusSnapshot>,
    pub todos: Map<Seq<char>, Seq<Todo>>,
    pub online: Map<Seq<char>, bool>,
}

impl View for PeerView {
    type V = Peers;

    closed spec fn view(&self) -> Peers {
        Peers {
            devices: self.devices@,
            todos: self.todos@.map_values(|v: Vec<Todo>| v@),
            online: self.online@,
        }
    }
}

impl Peers {
    pub open spec fn nobody() -> Peers {
        Peers { devices: Map::empty(), todos: Map::empty(), online: Map::empty() }
    }

    /// A device that is connected and has published lately.
    pub open spec fn live(self, id: Seq<char>, now: int, stale_ms: int) -> bool {
        &&& self.devices.contains_key(id)
        &&& self.online.contains_key(id) && self.online[id]
        &&& !self.devices[id].stale(now, stale_ms)
    }

    /// The device to display: the most recently updated one of those that are
    /// live, or of all when none is. Which of two that were updated at the same
    /// time it is stays open.
    pub open spec fn displayed(self, id: Seq<char>, now: int, stale_ms: int) -> bool {
        &&& self.devices.contains_key(id)
        &&& if exists|k: Seq<char>| self.live(k, now, stale_ms) {
            &&& self.live(id, now, stale_ms)
            &&& forall|k: Seq<char>|
                #[trigger] self.live(k, now, stale_ms) ==> self.devices[k].at <= self.devices[id].at
        } else {
            forall|k: Seq<char>| #[trigger]
                self.devices.contains_key(k) ==> self.devices[k].at <= self.devices[id].at
        }
    }

    /// What is known of the device is newer.
    pub open spec fn outdates(self, snap: StatusSnapshot) -> bool {
        self.devices.contains_key(snap.device_id@) && self.devices[snap.device_id@].at > snap.at
    }

    /// The device said this of itself.
    pub open spec fn with_status(self, snap: StatusSnapshot) -> Peers {
        Peers {
            devices: self.devices.insert(snap.device_id@, snap),
            online: self.online.insert(snap.device_id@, true),
            ..self
        }
    }

    /// The device may have said this of itself, unless that is old news.
    pub open spec fn told(self, snap: StatusSnapshot) -> Peers {
        if self.outdates(snap) {
            self
        } else {
            self.with_status(snap)
        }
    }

    /// A status tells of a goal that the device had not met before, or of a round
    /// that it had not finished.
    pub open spec fn achieves(self, snap: StatusSnapshot) -> bool {
        let before = self.devices[snap.device_id@];
        &&& self.devices.contains_key(snap.device_id@)
        &&& !self.outdates(snap)
        &&& {
            ||| snap.goal_met_spec() && !before.goal_met_spec()
            ||| (before.pomodoro matches Some(was) && snap.pomodoro matches Some(new)
                && new.completed_today > was.completed_today)
        }
    }

    /// Nothing has been heard of any device.
    pub open spec fn none_known(self) -> bool {
        forall|k: Seq<char>| !#[trigger] self.devices.contains_key(k)
    }
}

impl Default for PeerView {
    fn default() -> (r: PeerView)
        ensures
            r.wf(),
            r@ == Peers::nobody(),
    {
        let r = PeerView { devices: Table::new(), todos: Table::new(), online: Table::new() };
        assert(r@.todos =~= Map::<Seq<char>, Seq<Todo>>::empty());
        r
    }
}

impl PeerView {
    /// Every snapshot stands under the id of the device that published it.
    pub closed spec fn wf(&self) -> bool {
        &&& self.devices.wf()
        &&& self.todos.wf()
        &&& self.online.wf()
        &&& forall|k: Seq<char>| #[trigger]
            self.devices@.contains_key(k) ==> self.devices@[k].device_id@ == k
    }

    /// What stands under an id was published by the device of that id.
    pub proof fn ids_agree(&self, id: Seq<char>)
        requires
            self.wf(),
            self@.devices.contains_key(id),
        ensures
            self@.devices[id].device_id@ == id,
    {
    }

    /// Stores a snapshot, ignoring one older than what we already have.
    ///
    /// Out-of-order delivery is possible after a reconnect, when the relay
    /// replays a retained status while a fresh one is already in flight.
    pub fn apply_status(&mut self, snap: StatusSnapshot) -> (r: bool)
        requires
            old(self).wf(),
        ensures
            final(self).wf(),
            r == !old(self)@.outdates(snap),
            final(self)@ == old(self)@.told(snap),
    {
        if let Some(existing) = self.devices.get(snap.device_id.as_str()) {
            if existing.at > snap.at {
                return false;
            }
        }
        let id = snap.device_id.clone();
        self.online.insert(snap.device_id.clone(), true);
        self.devices.insert(id, snap);
        true
    }

    /// Whether a status tells of a goal that was met or a round that was finished
    /// since the device was heard of last.
    pub fn is_achievement(&self, snap: &StatusSnapshot) -> (r: bool)
        requires
            self.wf(),
        ensures
            r == self@.achieves(*snap),
    {
        match self.devices.get(snap.device_id.as_str()) {
            Some(before) => {
                let finished = match (before.pomodoro, snap.pomodoro) {
                    (Some(was), Some(new)) => new.completed_today > was.completed_today,
                    _ => false,
                };
                before.at <= snap.at && ((snap.goal_met() && !before.goal_met()) || finished)
            },
            None => false,
        }
    }

    pub fn apply_todos(&mut self, device_id: String, items: Vec<Todo>)
        requires
            old(self).wf(),
        ensures
            final(self).wf(),
            final(self)@ == (Peers {
                todos: old(self)@.todos.insert(device_id@, items@),
                ..old(self)@
            }),
    {
        let ghost before = self@;
        self.todos.insert(device_id, items);
        assert(self@.todos =~= before.todos.insert(device_id@, items@));
    }

    pub fn set_online(&mut self, device_id: &str, online: bool)
        requires
            old(self).wf(),
        ensures
            final(self).wf(),
            final(self)@ == (Peers {
                online: old(self)@.online.insert(device_id@, online),
                ..old(self)@
            }),
    {
        self.online.insert(device_id.to_string(), online);
    }

    /// Drops everything; used when the connection is lost so the UI does not show
    /// stale peers as live.
    pub fn clear(&mut self)
        requires
            old(self).wf(),
        ensures
            final(self).wf(),
            final(self)@ == Peers::nobody(),
    {
        *self = PeerView::default();
    }

    /// The latest snapshot of each device.
    pub fn devices(&self) -> (r: Vec<&StatusSnapshot>)
        requires
            self.wf(),
        ensures
            forall|i: int|
                0 <= i < r@.len() ==> {
                    &&& self@.devices.contains_key((#[trigger] r@[i]).device_id@)
                    &&& self@.devices[r@[i].device_id@] == *r@[i]
                },
            forall|i: int, j: int|
                0 <= i < j < r@.len() ==> r@[i].device_id@ != r@[j].device_id@,
            forall|k: Seq<char>| #[trigger]
                self@.devices.contains_key(k) ==> exists|i: int|
                    0 <= i < r@.len() && (#[trigger] r@[i]).device_id@ == k,
    {
        let mut out: Vec<&StatusSnapshot> = Vec::new();
        let n: usize = self.devices.len();
        for i in 0..n
            invariant
                self.wf(),
                n == self.devices.order().len(),
                out@.len() == i,
                forall|j: int| 0 <= j < i ==> *(#[trigger] out@[j]) == self.devices.values()[j],
                forall|j: int|
                    0 <= j < i ==> (#[trigger] out@[j]).device_id@ == self.devices.order()[j],
        {
            proof {
                self.devices.at_position(i as int);
            }
            out.push(self.devices.value(i));
        }
        proof {
            assert forall|i: int| 0 <= i < out@.len() implies {
                &&& self@.devices.contains_key((#[trigger] out@[i]).device_id@)
                &&& self@.devices[out@[i].device_id@] == *out@[i]
            } by {
                self.devices.at_position(i);
            }
            assert forall|k: Seq<char>| #[trigger] self@.devices.contains_key(k) implies exists|
                i: int,
            |
                0 <= i < out@.len() && (#[trigger] out@[i]).device_id@ == k by {
                let j = self.devices.position_of(k);
                assert(out@[j].device_id@ == k);
            }
        }
        out
    }

    /// What a device last said of itself.
    pub fn device(&self, device_id: &str) -> (r: Option<&StatusSnapshot>)
        requires
            self.wf(),
        ensures
            match r {
                Some(s) => self@.devices.contains_key(device_id@) && *s
                    == self@.devices[device_id@],
                None => !self@.devices.contains_key(device_id@),
            },
    {
        self.devices.get(device_id)
    }

    /// The to-do list that a device published last; empty when it published none.
    pub fn todos(&self, device_id: &str) -> (r: Vec<Todo>)
        requires
            self.wf(),
        ensures
            r@ == (if self@.todos.contains_key(device_id@) {
                self@.todos[device_id@]
            } else {
                Seq::<Todo>::empty()
            }),
    {
        match self.todos.get(device_id) {
            Some(v) => crate::model::clone_todos(v),
            None => Vec::new(),
        }
    }

    /// Whether the device at a position is live.
    fn live_at(&self, i: usize, now: i64, stale_ms: i64) -> (r: bool)
        requires
            self.wf(),
            i < self.devices.order().len(),
        ensures
            r == self@.live(self.devices.order()[i as int], now as int, stale_ms as int),
    {
        proof {
            self.devices.at_position(i as int);
        }
        let s = self.devices.value(i);
        match self.online.get(s.device_id.as_str()) {
            Some(on) => *on && !s.is_stale(now, stale_ms),
            None => false,
        }
    }

    /// The peer we display: most recently updated device that is not stale.
    ///
    /// A person may run Synctus on both a PC and a phone; showing the freshest
    /// one avoids flapping between them.
    pub fn primary(&self, now: i64, stale_ms: i64) -> (r: Option<&StatusSnapshot>)
        requires
            self.wf(),
        ensures
            r is None <==> self@.none_known(),
            r matches Some(s) ==> {
                &&& self@.displayed(s.device_id@, now as int, stale_ms as int)
                &&& self@.devices[s.device_id@] == *s
            },
    {
        let n: usize = self.devices.len();
        let ghost keys = self.devices.order();
        let mut best: Option<usize> = None;
        for i in 0..n
            invariant
                self.wf(),
                n == keys.len(),
                keys == self.devices.order(),
                best matches Some(b) ==> {
                    &&& b < i
                    &&& self@.live(keys[b as int], now as int, stale_ms as int)
                },
                forall|j: int|
                    #![trigger keys[j]]
                    0 <= j < i && self@.live(keys[j], now as int, stale_ms as int) ==> (
                    best is Some && self.devices.values()[j].at
                        <= self.devices.values()[best->0 as int].at),
        {
            if self.live_at(i, now, stale_ms) {
                match best {
                    Some(b) => {
                        if self.devices.value(i).at >= self.devices.value(b).at {
                            best = Some(i);
                        }
                    },
                    None => {
                        best = Some(i);
                    },
                }
            }
        }
        if let Some(b) = best {
            proof {
                let id = keys[b as int];
                self.devices.at_position(b as int);
                assert forall|k: Seq<char>| #[trigger]
                    self@.live(k, now as int, stale_ms as int) implies self@.devices[k].at
                    <= self@.devices[id].at by {
                    let j = self.devices.position_of(k);
                    assert(keys[j] == k);
                }
            }
            return Some(self.devices.value(b));
        }
        proof {
            assert forall|k: Seq<char>| !#[trigger] self@.live(k, now as int, stale_ms as int) by {
                if self@.live(k, now as int, stale_ms as int) {
                    let j = self.devices.position_of(k);
                    assert(keys[j] == k);
                }
            }
        }
        if n == 0 {
            proof {
                assert forall|k: Seq<char>| !#[trigger] self@.devices.contains_key(k) by {
                    if self@.devices.contains_key(k) {
                        let j = self.devices.position_of(k);
                    }
                }
            }
            return None;
        }
        let mut top: usize = 0;
        for i in 0..n
            invariant
                self.wf(),
                n == self.devices.order().len(),
                top < n,
                forall|j: int|
                    0 <= j < i ==> (#[trigger] self.devices.values()[j]).at
                        <= self.devices.values()[top as int].at,
        {
            if self.devices.value(i).at >= self.devices.value(top).at {
                top = i;
            }
        }
        proof {
            let id = keys[top as int];
            self.devices.at_position(top as int);
            assert forall|k: Seq<char>| #[trigger]
                self@.devices.contains_key(k) implies self@.devices[k].at
                <= self@.devices[id].at by {
                let j = self.devices.position_of(k);
                assert(self.devices.values()[j].at <= self.devices.values()[top as int].at);
            }
        }
        Some(self.devices.value(top))
    }

    /// Effective presence, downgraded to `Offline` when the data is stale.
    pub fn presence(&self, now: i64, stale_ms: i64) -> (r: Presence)
        requires
            self.wf(),
        ensures
            self@.none_known() ==> r == Presence::Offline,
            !self@.none_known() ==> exists|id: Seq<char>| #[trigger]
                self@.displayed(id, now as int, stale_ms as int) && r
                    == self@.devices[id].seen_as(now as int, stale_ms as int),
    {
        match self.primary(now, stale_ms) {
            Some(s) => if s.is_stale(now, stale_ms) {
                Presence::Offline
            } else {
                s.presence
            },
            None => Presence::Offline,
        }
    }

    /// My minutes of focus today beside those of the peer we display; the peer
    /// counts for nothing while no device of theirs is known.
    pub fn focus_comparison(&self, mine: u32, now: i64, stale_ms: i64) -> (r: (u32, u32))
        requires
            self.wf(),
        ensures
            r.0 == mine,
            self@.none_known() ==> r.1 == 0,
            !self@.none_known() ==> exists|id: Seq<char>| #[trigger]
                self@.displayed(id, now as int, stale_ms as int) && r.1
                    == self@.devices[id].focus_today_min,
    {
        match self.primary(now, stale_ms) {
            Some(s) => (mine, s.focus_today_min),
            None => (mine, 0),
        }
    }

    /// Whether the peer we display is in a focus round, as far as fresh data says.
    pub fn is_focusing(&self, now: i64, stale_ms: i64) -> (r: bool)
        requires
            self.wf(),
        ensures
            self@.none_known() ==> !r,
            !self@.none_known() ==> exists|id: Seq<char>| #[trigger]
                self@.displayed(id, now as int, stale_ms as int) && r
                    == self@.devices[id].seen_focusing(now as int, stale_ms as int),
    {
        match self.primary(now, stale_ms) {
            Some(s) => !s.is_stale(now, stale_ms) && s.is_focusing(),
            None => false,
        }
    }
}

/// What is known of a device never gets older.
pub proof fn news_is_never_replaced_by_old_news(p: Peers, snap: StatusSnapshot, id: Seq<char>)
    requires
        p.devices.contains_key(id),
    ensures
        p.told(snap).devices.contains_key(id),
        p.told(snap).devices[id].at >= p.devices[id].at,
        id != snap.device_id@ ==> p.told(snap).devices[id] == p.devices[id],
{
}

/// Two snapshots that were not taken at the same time may arrive in either order.
pub proof fn snapshots_may_arrive_out_of_order(p: Peers, a: StatusSnapshot, b: StatusSnapshot)
    requires
        a.device_id@ == b.device_id@ ==> a.at != b.at,
    ensures
        p.told(a).told(b) == p.told(b).told(a),
{
    assert(p.told(a).told(b).devices =~= p.told(b).told(a).devices);
    assert(p.told(a).told(b).online =~= p.told(b).told(a).online);
}

/// What was achieved is news only once.
pub proof fn achieved_once(p: Peers, snap: StatusSnapshot)
    ensures
        !p.told(snap).achieves(snap),
{
}

/// Where nobody is known, nobody is displayed.
pub proof fn nobody_is_displayed(id: Seq<char>, now: int, stale_ms: int)
    ensures
        Peers::nobody().none_known(),
        !Peers::nobody().displayed(id, now, stale_ms),
{
}

/// Of the devices that may be displayed none is older than another, and either all
/// of them are live or none is.
pub proof fn displayed_devices_are_equally_fresh(
    p: Peers,
    a: Seq<char>,
    b: Seq<char>,
    now: int,
    stale_ms: int,
)
    requires
        p.displayed(a, now, stale_ms),
        p.displayed(b, now, stale_ms),
    ensures
        p.devices[a].at == p.devices[b].at,
        p.live(a, now, stale_ms) == p.live(b, now, stale_ms),
{
    if exists|k: Seq<char>| p.live(k, now, stale_ms) {
        assert(p.live(a, now, stale_ms) && p.live(b, now, stale_ms));
    } else {
        assert(p.devices.contains_key(a) && p.devices.contains_key(b));
    }
}

/// A phase that is started lasts the minutes that are configured for it, a length of
/// zero counting as one minute: so much is left at first, it runs down with the
/// clock, and the phase is over when it is used up, and not before.
pub proof fn started_phases_last_their_minutes(
    t: Timer,
    phase: PomodoroPhase,
    minutes: u32,
    now: i64,
    later: i64,
)
    requires
        phase == PomodoroPhase::Focus ==> minutes == t.cfg.focus_min,
        phase == PomodoroPhase::ShortBreak ==> minutes == t.cfg.short_break_min,
        phase == PomodoroPhase::LongBreak ==> minutes == t.cfg.long_break_min,
        phase != PomodoroPhase::Idle,
        now + 60_000 * minutes <= i64::MAX,
        now + 60_000 <= i64::MAX,
        now <= later,
    ensures
        ({
            let ms = if minutes == 0 {
                60_000
            } else {
                60_000 * minutes
            };
            let s = t.started(phase, now as int).state;
            &&& s.phase == phase
            &&& s.paused_left_ms is None
            &&& s.round == t.state.round
            &&& s.completed_today == t.state.completed_today
            &&& s.remaining(now as int) == ms
            &&& s.remaining(later as int) == (if later - now < ms {
                ms - (later - now)
            } else {
                0
            })
            &&& (t.started(phase, now as int).ticked(later as int).1 is Nothing) == (later - now
                < ms)
        }),
        t.started(phase, now as int).cfg == t.cfg,
{
}

/// What follows a phase whose deadline has come. A focus round is counted and
/// followed by a break, the long one after the last round of a set; a break counts
/// for nothing and is followed by a focus round. What follows starts by itself only
/// where that is configured.
pub proof fn phases_follow_each_other(t: Timer, end: i64, now: i64)
    requires
        t.state.paused_left_ms is None,
        t.state.ends_at == Some(end),
        end <= now,
        t.state.round < u32::MAX,
        t.state.completed_today < u32::MAX,
    ensures
        ({
            let (after, event) = t.ticked(now as int);
            let set = if t.cfg.rounds_per_set == 0 {
                1
            } else {
                t.cfg.rounds_per_set as int
            };
            let next = if t.state.phase != PomodoroPhase::Focus {
                PomodoroPhase::Focus
            } else if (t.state.round + 1) % set == 0 {
                PomodoroPhase::LongBreak
            } else {
                PomodoroPhase::ShortBreak
            };
            &&& after.cfg == t.cfg
            &&& t.state.phase == PomodoroPhase::Focus ==> {
                &&& event == PomodoroEvent::FocusFinished(next)
                &&& after.state.round == t.state.round + 1
                &&& after.state.completed_today == t.state.completed_today + 1
            }
            &&& t.state.phase == PomodoroPhase::ShortBreak || t.state.phase
                == PomodoroPhase::LongBreak ==> {
                &&& event == PomodoroEvent::BreakFinished
                &&& after.state.round == t.state.round
                &&& after.state.completed_today == t.state.completed_today
            }
            &&& t.state.phase == PomodoroPhase::Idle ==> event == PomodoroEvent::Nothing && after
                == t
            &&& t.state.phase != PomodoroPhase::Idle ==> {
                &&& t.cfg.auto_continue ==> after.state.phase == next && after.state.ends_at is Some
                    && after.state.ends_at == t.started(next, now as int).state.ends_at
                &&& !t.cfg.auto_continue ==> after.state.phase == PomodoroPhase::Idle
                    && after.state.ends_at is None
                &&& after.state.paused_left_ms is None
            }
        }),
{
}

/// While time is left, or the timer is paused, a tick does nothing.
pub proof fn no_phase_ends_early(t: Timer, end: i64, now: i64)
    requires
        t.state.ends_at == Some(end),
        now < end || t.state.paused_left_ms is Some,
    ensures
        t.ticked(now as int) == (t, PomodoroEvent::Nothing),
{
}

/// Skipping ends whatever phase runs, at whatever time and paused or not, as its
/// deadline would; an idle timer has nothing to skip.
pub proof fn skipping_ends_any_phase(t: Timer, now: i64)
    ensures
        t.state.phase == PomodoroPhase::Idle ==> t.skipped(now as int) == (
            t,
            PomodoroEvent::Nothing,
        ),
        t.state.phase != PomodoroPhase::Idle ==> t.skipped(now as int) == (Timer {
            state: PomodoroState { ends_at: Some(now), paused_left_ms: None, ..t.state },
            ..t
        }).ticked(now as int),
        t.state.phase == PomodoroPhase::Focus ==> t.skipped(now as int).1 is FocusFinished,
        t.state.phase == PomodoroPhase::ShortBreak || t.state.phase == PomodoroPhase::LongBreak
            ==> t.skipped(now as int).1 is BreakFinished,
{
}

/// The one button starts a focus round on an idle timer, freezes a running one and
/// lets a frozen one go on with what was left; it never changes the phase or the
/// counters of a timer that is not idle.
pub proof fn the_button_starts_pauses_and_resumes(t: Timer, now: i64, later: i64)
    requires
        is_sound(t),
        now <= later,
        t.state.ends_at matches Some(end) ==> now <= end && end - now <= i64::MAX && later + (end
            - now) <= i64::MAX,
        t.state.paused_left_ms matches Some(left) ==> now + left <= i64::MAX,
    ensures
        t.state.phase == PomodoroPhase::Idle ==> t.toggled(now as int) == t.started(
            PomodoroPhase::Focus,
            now as int,
        ),
        t.state.phase != PomodoroPhase::Idle ==> {
            let once = t.toggled(now as int);
            &&& once.state.phase == t.state.phase
            &&& once.state.round == t.state.round
            &&& once.state.completed_today == t.state.completed_today
            &&& once.cfg == t.cfg
            &&& (once.state.paused_left_ms is Some) == (t.state.paused_left_ms is None)
            &&& once.state.remaining(now as int) == t.state.remaining(now as int)
            &&& t.state.paused_left_ms is None ==> {
                &&& once.state.remaining(later as int) == t.state.ends_at->0 - now
                &&& once.toggled(later as int).state.ends_at == Some(
                    (later + (t.state.ends_at->0 - now)) as i64,
                )
                &&& once.toggled(later as int).state.paused_left_ms is None
            }
        },
{
}

/// Pausing freezes what is left, and does nothing to a timer that is idle or paused;
/// resuming lets a paused timer go on with it, and does nothing to any other.
pub proof fn pauses_freeze_what_is_left(t: Timer, now: i64, later: i64)
    requires
        t.state.phase != PomodoroPhase::Idle ==> (t.state.ends_at matches Some(end) && now <= end
            && end - now <= i64::MAX),
    ensures
        t.state.phase == PomodoroPhase::Idle || t.state.paused_left_ms is Some ==> t.paused(
            now as int,
        ) == t,
        t.state.phase != PomodoroPhase::Idle && t.state.paused_left_ms is None ==> {
            let p = t.paused(now as int);
            &&& p.state.paused_left_ms == Some((t.state.ends_at->0 - now) as i64)
            &&& p.state.remaining(later as int) == t.state.ends_at->0 - now
            &&& p.state.phase == t.state.phase
            &&& p.state.round == t.state.round
            &&& p.state.completed_today == t.state.completed_today
        },
        t.state.paused_left_ms is None ==> t.resumed(now as int) == t,
        t.state.paused_left_ms matches Some(left) ==> (later + left <= i64::MAX && later + left
            >= i64::MIN ==> {
            let r = t.resumed(later as int);
            &&& r.state.paused_left_ms is None
            &&& r.state.ends_at == Some((later + left) as i64)
            &&& r.state.phase == t.state.phase
        }),
{
}

/// Stopping leaves an idle timer without a deadline; the counters stay. A new day
/// starts the counters again and leaves the phase alone.
pub proof fn stopping_goes_idle(t: Timer, now: int)
    ensures
        t.stopped().state.round == t.state.round,
        t.stopped().state.completed_today == t.state.completed_today,
        t.started(PomodoroPhase::Idle, now) == t.stopped(),
        t.stopped().state.phase == PomodoroPhase::Idle,
        t.stopped().state.ends_at is None,
        t.stopped().state.paused_left_ms is None,
        t.stopped().cfg == t.cfg,
        t.on_new_day().state.round == 0,
        t.on_new_day().state.completed_today == 0,
        t.on_new_day().state.phase == t.state.phase,
        t.on_new_day().state.ends_at == t.state.ends_at,
        t.on_new_day().state.paused_left_ms == t.state.paused_left_ms,
        t.on_new_day().cfg == t.cfg,
{
}

/// Where the timer speaks for the user, a focus round means busy and a break means
/// resting; an idle timer says nothing, and so does one that was not asked to speak.
pub proof fn phases_imply_presence(t: Timer)
    ensures
        !t.cfg.presence_follows_phase || t.state.phase == PomodoroPhase::Idle <==> t.presence()
            is None,
        t.cfg.presence_follows_phase && t.state.phase == PomodoroPhase::Focus <==> t.presence()
            == Some(Presence::Busy),
        t.cfg.presence_follows_phase && (t.state.phase == PomodoroPhase::ShortBreak
            || t.state.phase == PomodoroPhase::LongBreak) <==> t.presence() == Some(
            Presence::Resting,
        ),
{
}

/// Every item of a list is open or done, and counts once.
pub proof fn each_item_counts_once(todos: Seq<Todo>, t: Todo, now: i64)
    ensures
        open_todos(Seq::<Todo>::empty()).len() == 0,
        done_todos(Seq::<Todo>::empty(), now as int).len() == 0,
        open_todos(todos.push(t)).len() == open_todos(todos).len() + if t.done {
            0int
        } else {
            1
        },
        done_todos(todos.push(t), now as int).len() == done_todos(todos, now as int).len() + if t.done
            && t.done_at is Some && t.done_at->0 as int / 86_400_000 == now as int / 86_400_000 {
            1int
        } else {
            0
        },
{
    reveal(Seq::filter);
    assert(todos.push(t).drop_last() == todos);
    assert(todos.push(t).last() == t);
}

/// A streak outlives the night exactly when the goal was met on the day before.
pub proof fn streaks_need_every_day(streak_days: u32, goal_date: Seq<char>, now: i64)
    requires
        now - 86_400_000 >= i64::MIN,
    ensures
        goal_date == utc_date_text(now - 86_400_000) ==> lasting(
            streak_days,
            goal_date,
            now as int,
        ) == streak_days,
        goal_date != utc_date_text(now - 86_400_000) ==> lasting(
            streak_days,
            goal_date,
            now as int,
        ) == 0,
{
}

/// Of the devices that are connected and published within the limit, one that
/// published last is displayed, whatever the others did. Where there is none, one
/// that published last of all is.
pub proof fn the_freshest_live_device_is_displayed(
    p: Peers,
    id: Seq<char>,
    other: Seq<char>,
    now: i64,
    stale_ms: i64,
)
    requires
        p.displayed(id, now as int, stale_ms as int),
        p.devices.contains_key(other),
        0 <= now - p.devices[id].at <= i64::MAX,
        0 <= now - p.devices[other].at <= i64::MAX,
    ensures
        p.devices.contains_key(id),
        ({
            let live = p.online.contains_key(other) && p.online[other] && now
                - p.devices[other].at <= stale_ms;
            let shown = p.online.contains_key(id) && p.online[id] && now - p.devices[id].at
                <= stale_ms;
            &&& live ==> shown && p.devices[other].at <= p.devices[id].at
            &&& !shown ==> !live && p.devices[other].at <= p.devices[id].at
        }),
{
    assert(p.live(other, now as int, stale_ms as int) == (p.online.contains_key(other)
        && p.online[other] && now - p.devices[other].at <= stale_ms));
}

/// A status that is newer, or as new, replaces what was known of its device and
/// makes the device known as connected; an older one changes nothing.
pub proof fn newer_statuses_are_taken(p: Peers, snap: StatusSnapshot)
    ensures
        ({
            let id = snap.device_id@;
            let old_news = p.devices.contains_key(id) && snap.at < p.devices[id].at;
            &&& old_news ==> p.told(snap) == p
            &&& !old_news ==> {
                &&& p.told(snap).devices.contains_key(id)
                &&& p.told(snap).devices[id] == snap
                &&& p.told(snap).online.contains_key(id)
                &&& p.told(snap).online[id]
            }
            &&& p.told(snap).todos == p.todos
            &&& forall|k: Seq<char>|
                k != id ==> (#[trigger] p.told(snap).devices.contains_key(k)
                    <==> p.devices.contains_key(k)) && p.told(snap).online.contains_key(k)
                    == p.online.contains_key(k)
        }),
{
}

/// News of a device that was known is an achievement when it tells of a goal that
/// was not met before, or of more finished rounds; the first news of a device never
/// is, nor is old news.
pub proof fn achievements_are_goals_and_rounds(p: Peers, snap: StatusSnapshot)
    ensures
        ({
            let id = snap.device_id@;
            let was = p.devices[id];
            let known = p.devices.contains_key(id) && was.at <= snap.at;
            let met = snap.goal_min > 0 && snap.focus_today_min >= snap.goal_min;
            let met_before = was.goal_min > 0 && was.focus_today_min >= was.goal_min;
            let rounds = snap.pomodoro is Some && was.pomodoro is Some
                && snap.pomodoro->0.completed_today > was.pomodoro->0.completed_today;
            p.achieves(snap) <==> known && (met && !met_before || rounds)
        }),
{
}

}
