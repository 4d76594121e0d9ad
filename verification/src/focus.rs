//! Distraction detection.
//!
//! This is the part that turns a status widget into something that actually
//! keeps two people working: it notices when you open a time sink *during a focus
//! round* and says so.
//!
//! Two deliberate design choices:
//!
//! * **A grace period, not an instant alarm.** Alt-tabbing past a browser to
//!   check a reference is not slacking off. Only a distracting app that *stays*
//!   in the foreground counts, so the detector tracks how long it has been there
//!   rather than reacting to a single sample.
//! * **Nothing fires outside a focus round.** Watching someone's leisure time is
//!   surveillance, not accountability. The detector is inert unless the pomodoro
//!   says they chose to be focusing.

use vstd::prelude::*;

use crate::clock::{clip, minus};
use crate::config::{listed, Accountability};
use crate::model::ForegroundApp;

verus! {

/// What the detector concluded on the latest sample.
#[derive(Debug, PartialEq, Eq)]
pub enum Distraction {
    /// Nothing to report: not focusing, or the foreground app is fine.
    Nothing,
    /// A distracting app is in the foreground but still inside the grace period.
    /// Not worth a notification, but the UI can show a countdown.
    Pending { app: String, secs: u32 },
    /// Crossed the grace period. Emitted **once** per continuous stretch, so the
    /// caller does not have to debounce notifications itself.
    Started { app: String },
    /// Back to work after a reported distraction, with how long it lasted.
    Ended { app: String, secs: u32 },
}

/// A conclusion, with the app by its characters.
pub enum Verdict {
    Nothing,
    Pending { app: Seq<char>, secs: u32 },
    Started { app: Seq<char> },
    Ended { app: Seq<char>, secs: u32 },
}

impl View for Distraction {
    type V = Verdict;

    open spec fn view(&self) -> Verdict {
        match *self {
            Distraction::Nothing => Verdict::Nothing,
            Distraction::Pending { app, secs } => Verdict::Pending { app: app@, secs },
            Distraction::Started { app } => Verdict::Started { app: app@ },
            Distraction::Ended { app, secs } => Verdict::Ended { app: app@, secs },
        }
    }
}

/// Tracks the foreground app across samples.
///
/// Time is passed in rather than read from the clock so the whole thing is
/// testable without sleeping.
#[derive(Debug)]
pub struct DistractionTracker {
    /// The distracting app currently in the foreground, and when it started.
    current: Option<Current>,
}

#[derive(Debug)]
struct Current {
    app: String,
    since_ms: i64,
    /// Whether [`Distraction::Started`] was already emitted for this stretch.
    reported: bool,
}

/// A distracting app that has stayed in the foreground since some time.
pub struct Stretch {
    pub app: Seq<char>,
    pub since_ms: int,
    /// Whether the stretch has been announced.
    pub reported: bool,
}

impl View for DistractionTracker {
    type V = Option<Stretch>;

    closed spec fn view(&self) -> Option<Stretch> {
        match self.current {
            Some(c) => Some(
                Stretch { app: c.app@, since_ms: c.since_ms as int, reported: c.reported },
            ),
            None => None,
        }
    }
}

/// The app that a sample holds against the user: it is in the foreground, on the
/// list, and there is a focus round and a wish to be warned. A missing foreground
/// app (locked screen, Wayland, no permission) is not evidence of slacking.
pub open spec fn watched(
    foreground: Option<ForegroundApp>,
    focusing: bool,
    cfg: Accountability,
) -> Option<Seq<char>> {
    match foreground {
        Some(f) => if focusing && cfg.warn_on_distraction && listed(
            cfg.distracting_apps@,
            f.app@,
        ) {
            Some(f.app@)
        } else {
            None
        },
        None => None,
    }
}

/// Whole seconds, rounded towards zero.
pub open spec fn whole_secs(ms: int) -> int {
    if ms >= 0 {
        ms / 1000
    } else {
        -((-ms) / 1000)
    }
}

/// How long a stretch has lasted, in the seconds that a report gives.
pub open spec fn lasted(since_ms: int, now_ms: int) -> u32 {
    let secs = whole_secs(clip(now_ms - since_ms));
    if secs < 0 {
        0
    } else {
        secs as u32
    }
}

/// One sample: what is tracked afterwards, and what is concluded.
pub open spec fn observe(
    current: Option<Stretch>,
    app: Option<Seq<char>>,
    grace_ms: int,
    now_ms: int,
) -> (Option<Stretch>, Verdict) {
    match (current, app) {
        // Back to work, or never away: the stretch is over, and its end is
        // reported if its start was.
        (Some(c), None) => (
            None,
            if c.reported {
                Verdict::Ended { app: c.app, secs: lasted(c.since_ms, now_ms) }
            } else {
                Verdict::Nothing
            },
        ),
        (None, None) => (None, Verdict::Nothing),
        // A new stretch. A zero-second grace period fires immediately rather than
        // wait a whole sample interval.
        (None, Some(a)) => (
            Some(Stretch { app: a, since_ms: now_ms, reported: grace_ms == 0 }),
            if grace_ms == 0 {
                Verdict::Started { app: a }
            } else {
                Verdict::Pending { app: a, secs: 0 }
            },
        ),
        (Some(c), Some(a)) => if c.app != a {
            // Switched from one distracting app to another: the clock restarts, so
            // hopping between two of them does not accumulate into a report.
            (
                Some(Stretch { app: a, since_ms: now_ms, reported: false }),
                if c.reported {
                    Verdict::Ended { app: c.app, secs: lasted(c.since_ms, now_ms) }
                } else {
                    Verdict::Pending { app: a, secs: 0 }
                },
            )
        } else if c.reported {
            // Already reported; quiet until it ends.
            (Some(c), Verdict::Nothing)
        } else if clip(now_ms - c.since_ms) >= grace_ms {
            (Some(Stretch { reported: true, ..c }), Verdict::Started { app: a })
        } else {
            (
                Some(c),
                Verdict::Pending {
                    app: a,
                    secs: whole_secs(clip(now_ms - c.since_ms)) as u32,
                },
            )
        },
    }
}

/// One sample of the foreground: what is tracked afterwards, and what is concluded.
pub open spec fn sampled(
    current: Option<Stretch>,
    foreground: Option<ForegroundApp>,
    focusing: bool,
    cfg: Accountability,
    now_ms: int,
) -> (Option<Stretch>, Verdict) {
    observe(
        current,
        watched(foreground, focusing, cfg),
        cfg.distraction_grace_secs * 1000,
        now_ms,
    )
}

impl Default for DistractionTracker {
    fn default() -> (r: DistractionTracker)
        ensures
            r@ is None,
    {
        DistractionTracker { current: None }
    }
}

impl DistractionTracker {
    pub fn new() -> (r: DistractionTracker)
        ensures
            r@ is None,
    {
        DistractionTracker { current: None }
    }

    /// Feeds one sample.
    ///
    /// `focusing` comes from the local pomodoro; when it is false the tracker
    /// resets, because a distraction that ends when the round does is not a
    /// distraction.
    pub fn update(
        &mut self,
        foreground: Option<&ForegroundApp>,
        focusing: bool,
        cfg: &Accountability,
        now_ms: i64,
    ) -> (r: Distraction)
        ensures
            ({
                let fg = match foreground {
                    Some(f) => Some(*f),
                    None => None,
                };
                (final(self)@, r@) == sampled(old(self)@, fg, focusing, *cfg, now_ms as int)
            }),
    {
        if !focusing || !cfg.warn_on_distraction {
            return self.reset(now_ms);
        }
        let app = match foreground {
            Some(f) => &f.app,
            None => {
                return self.reset(now_ms);
            },
        };
        if !cfg.is_distracting(app.as_str()) {
            return self.reset(now_ms);
        }
        let grace_ms: i64 = cfg.distraction_grace_secs as i64 * 1000;
        match self.current.take() {
            Some(current) => {
                if current.app != *app {
                    self.current = Some(
                        Current { app: app.clone(), since_ms: now_ms, reported: false },
                    );
                    if current.reported {
                        Distraction::Ended {
                            app: current.app,
                            secs: elapsed_secs(current.since_ms, now_ms),
                        }
                    } else {
                        Distraction::Pending { app: app.clone(), secs: 0 }
                    }
                } else {
                    let elapsed: i64 = minus(now_ms, current.since_ms);
                    if current.reported {
                        self.current = Some(current);
                        Distraction::Nothing
                    } else if elapsed >= grace_ms {
                        let name = current.app.clone();
                        self.current = Some(
                            Current {
                                app: current.app,
                                since_ms: current.since_ms,
                                reported: true,
                            },
                        );
                        Distraction::Started { app: name }
                    } else {
                        let name = current.app.clone();
                        self.current = Some(current);
                        Distraction::Pending { app: name, secs: trunc_secs(elapsed) }
                    }
                }
            },
            None => {
                let reported = grace_ms == 0;
                self.current = Some(Current { app: app.clone(), since_ms: now_ms, reported });
                if reported {
                    Distraction::Started { app: app.clone() }
                } else {
                    Distraction::Pending { app: app.clone(), secs: 0 }
                }
            },
        }
    }

    /// Clears the current stretch, reporting its end if it was ever announced.
    fn reset(&mut self, now_ms: i64) -> (r: Distraction)
        ensures
            (final(self)@, r@) == observe(old(self)@, None, 0, now_ms as int),
            forall|grace: int|
                (final(self)@, r@) == #[trigger] observe(old(self)@, None, grace, now_ms as int),
    {
        match self.current.take() {
            Some(current) => if current.reported {
                Distraction::Ended {
                    app: current.app,
                    secs: elapsed_secs(current.since_ms, now_ms),
                }
            } else {
                Distraction::Nothing
            },
            None => Distraction::Nothing,
        }
    }

    /// The app currently being watched, if any. For the UI's countdown.
    pub fn current_app(&self) -> (r: Option<&str>)
        ensures
            match self@ {
                Some(c) => r matches Some(app) && app@ == c.app,
                None => r is None,
            },
    {
        match &self.current {
            Some(c) => Some(c.app.as_str()),
            None => None,
        }
    }

    /// Whether a distraction has been reported and is still ongoing.
    pub fn is_distracted(&self) -> (r: bool)
        ensures
            r == reported(self@),
    {
        match &self.current {
            Some(c) => c.reported,
            None => false,
        }
    }
}

/// A stretch is tracked and has been announced.
pub open spec fn reported(current: Option<Stretch>) -> bool {
    current matches Some(c) && c.reported
}

fn trunc_secs(ms: i64) -> (r: u32)
    ensures
        r == whole_secs(ms as int) as u32,
{
    let wide: i128 = ms as i128;
    let secs: i128 = if wide >= 0 {
        wide / 1000
    } else {
        -((-wide) / 1000)
    };
    #[verifier::truncate]
    (secs as u32)
}

fn elapsed_secs(since_ms: i64, now_ms: i64) -> (r: u32)
    ensures
        r == lasted(since_ms as int, now_ms as int),
{
    let ms: i64 = minus(now_ms, since_ms);
    if ms < 1000 {
        0
    } else {
        trunc_secs(ms)
    }
}

// ---------------------------------------------------------------------------
// What holds of the detector
// ---------------------------------------------------------------------------

/// Nothing fires outside a focus round, without the wish to be warned, or without
/// a listed app in the foreground: nothing is announced and nothing is tracked.
pub proof fn inert_unless_watching(current: Option<Stretch>, grace_ms: int, now_ms: int)
    ensures
        observe(current, None, grace_ms, now_ms).0 is None,
        !(observe(current, None, grace_ms, now_ms).1 is Started),
        !(observe(current, None, grace_ms, now_ms).1 is Pending),
        current is None ==> observe(current, None, grace_ms, now_ms).1 is Nothing,
{
}

/// An announcement comes only after the app has stayed for the grace period.
pub proof fn announced_only_after_the_grace_period(
    current: Option<Stretch>,
    app: Option<Seq<char>>,
    grace_ms: int,
    now_ms: int,
)
    requires
        observe(current, app, grace_ms, now_ms).1 is Started,
    ensures
        app is Some,
        observe(current, app, grace_ms, now_ms).1->Started_app == app->0,
        match current {
            Some(c) => c.app == app->0 && !c.reported && clip(now_ms - c.since_ms) >= grace_ms,
            None => grace_ms == 0,
        },
{
}

/// The end of a distraction is reported only if its start was, for the same app.
pub proof fn ended_only_what_was_announced(
    current: Option<Stretch>,
    app: Option<Seq<char>>,
    grace_ms: int,
    now_ms: int,
)
    requires
        observe(current, app, grace_ms, now_ms).1 is Ended,
    ensures
        reported(current),
        observe(current, app, grace_ms, now_ms).1->Ended_app == current->0.app,
        app != Some(current->0.app),
{
}

/// One sample, as the detector sees it.
pub struct Sample {
    pub app: Option<Seq<char>>,
    pub grace_ms: int,
    pub now_ms: int,
}

/// What a run of samples leaves tracked.
pub open spec fn tracked_after(current: Option<Stretch>, samples: Seq<Sample>) -> Option<Stretch>
    decreases samples.len(),
{
    if samples.len() == 0 {
        current
    } else {
        let s = samples.last();
        observe(tracked_after(current, samples.drop_last()), s.app, s.grace_ms, s.now_ms).0
    }
}

/// How many announcements a run of samples makes.
pub open spec fn announcements(current: Option<Stretch>, samples: Seq<Sample>) -> int
    decreases samples.len(),
{
    if samples.len() == 0 {
        0
    } else {
        let s = samples.last();
        let before = tracked_after(current, samples.drop_last());
        announcements(current, samples.drop_last()) + if observe(
            before,
            s.app,
            s.grace_ms,
            s.now_ms,
        ).1 is Started {
            1int
        } else {
            0
        }
    }
}

/// How many ends a run of samples reports.
pub open spec fn endings(current: Option<Stretch>, samples: Seq<Sample>) -> int
    decreases samples.len(),
{
    if samples.len() == 0 {
        0
    } else {
        let s = samples.last();
        let before = tracked_after(current, samples.drop_last());
        endings(current, samples.drop_last()) + if observe(
            before,
            s.app,
            s.grace_ms,
            s.now_ms,
        ).1 is Ended {
            1int
        } else {
            0
        }
    }
}

/// Each stretch is announced once: over any run of samples from a fresh tracker,
/// announcements and ends alternate, so that there is one more announcement than
/// ends while a distraction goes on, and as many otherwise.
pub proof fn announced_once_per_stretch(samples: Seq<Sample>)
    ensures
        announcements(None, samples) - endings(None, samples) == if reported(
            tracked_after(None, samples),
        ) {
            1int
        } else {
            0
        },
    decreases samples.len(),
{
    if samples.len() > 0 {
        announced_once_per_stretch(samples.drop_last());
    }
}

/// A listed app that is still in front when the grace period is over is announced by
/// that very sample, however late the sample comes, and only then.
pub proof fn who_stays_past_the_grace_period_is_caught(
    c: Stretch,
    fg: ForegroundApp,
    cfg: Accountability,
    now_ms: i64,
)
    requires
        cfg.warn_on_distraction,
        listed(cfg.distracting_apps@, fg.app@),
        c.app == fg.app@,
        !c.reported,
        i64::MIN <= c.since_ms <= i64::MAX,
    ensures
        ({
            let (after, verdict) = sampled(Some(c), Some(fg), true, cfg, now_ms as int);
            let due = now_ms - c.since_ms >= 1000 * cfg.distraction_grace_secs;
            &&& due ==> verdict == (Verdict::Started { app: fg.app@ })
            &&& !due ==> (verdict matches Verdict::Pending { app, secs } && app == fg.app@ && (
            0 <= now_ms - c.since_ms ==> 1000 * secs <= now_ms - c.since_ms < 1000 * secs + 1000))
            &&& after == Some(Stretch { app: fg.app@, since_ms: c.since_ms, reported: due })
        }),
{
}

/// Once announced, a stretch is silent while it goes on.
pub proof fn announced_stretches_are_silent(
    c: Stretch,
    fg: ForegroundApp,
    cfg: Accountability,
    now_ms: i64,
)
    requires
        cfg.warn_on_distraction,
        listed(cfg.distracting_apps@, fg.app@),
        c.app == fg.app@,
        c.reported,
    ensures
        sampled(Some(c), Some(fg), true, cfg, now_ms as int) == (Some(c), Verdict::Nothing),
{
}

/// A listed app that was not in front before is tracked from this sample on. It is
/// announced at once only by a fresh tracker with no grace period at all.
pub proof fn a_stretch_begins_when_the_app_appears(
    current: Option<Stretch>,
    fg: ForegroundApp,
    cfg: Accountability,
    now_ms: i64,
)
    requires
        cfg.warn_on_distraction,
        listed(cfg.distracting_apps@, fg.app@),
        current matches Some(c) ==> c.app != fg.app@,
    ensures
        ({
            let (after, verdict) = sampled(current, Some(fg), true, cfg, now_ms as int);
            let at_once = current is None && cfg.distraction_grace_secs == 0;
            &&& after == Some(
                Stretch { app: fg.app@, since_ms: now_ms as int, reported: at_once },
            )
            &&& at_once ==> verdict == (Verdict::Started { app: fg.app@ })
            &&& !at_once ==> (current matches Some(c) && c.reported) || verdict
                == (Verdict::Pending { app: fg.app@, secs: 0 })
        }),
{
}

/// A stretch ends with the round, with the wish to be warned, with the app or with
/// its place on the list, and its end is told with its length if it was announced.
pub proof fn a_stretch_ends_when_work_resumes(
    c: Stretch,
    fg: Option<ForegroundApp>,
    focusing: bool,
    cfg: Accountability,
    now_ms: i64,
)
    requires
        i64::MIN <= c.since_ms <= now_ms,
        now_ms - c.since_ms < 0x1_0000_0000 * 1000,
    ensures
        ({
            let (after, verdict) = sampled(Some(c), fg, focusing, cfg, now_ms as int);
            let (none, silence) = sampled(None, fg, focusing, cfg, now_ms as int);
            let working = !focusing || !cfg.warn_on_distraction || fg is None || !listed(
                cfg.distracting_apps@,
                fg->0.app@,
            );
            let elsewhere = !working && fg->0.app@ != c.app;
            &&& working ==> after is None && none is None && silence is Nothing
            &&& working && !c.reported ==> verdict is Nothing
            &&& c.reported && (working || elsewhere) ==> (verdict matches Verdict::Ended {
                app,
                secs,
            } && app == c.app && 1000 * secs <= now_ms - c.since_ms < 1000 * secs + 1000)
        }),
{
}

/// Whoever sees one app at every sample is warned at the first one that is the grace
/// period or more after the first sighting, and not before.
pub proof fn the_first_late_sample_warns(samples: Seq<Sample>, app: Seq<char>, grace_ms: int)
    requires
        samples.len() > 0,
        grace_ms > 0,
        grace_ms <= i64::MAX,
        forall|i: int|
            0 <= i < samples.len() ==> (#[trigger] samples[i]).app == Some(app)
                && samples[i].grace_ms == grace_ms,
        forall|i: int|
            0 <= i < samples.len() - 1 ==> (#[trigger] samples[i]).now_ms - samples[0].now_ms
                < grace_ms,
        samples.last().now_ms - samples[0].now_ms >= grace_ms,
    ensures
        observe(
            tracked_after(None, samples.drop_last()),
            Some(app),
            grace_ms,
            samples.last().now_ms,
        ).1 == (Verdict::Started { app }),
        announcements(None, samples.drop_last()) == 0,
        announcements(None, samples) == 1,
{
    let init = samples.drop_last();
    if samples.len() == 1 {
        assert(samples.last() == samples[0]);
    } else {
        assert(samples[0].now_ms == init[0].now_ms);
        assert forall|i: int| 0 <= i < init.len() implies (#[trigger] init[i]).app == Some(app)
            && init[i].grace_ms == grace_ms && init[i].now_ms - init[0].now_ms < grace_ms by {
            assert(init[i] == samples[i]);
        }
        still_waiting(init, app, grace_ms);
        assert(samples[samples.len() - 1] == samples.last());
    }
}

proof fn still_waiting(samples: Seq<Sample>, app: Seq<char>, grace_ms: int)
    requires
        samples.len() > 0,
        0 < grace_ms <= i64::MAX,
        forall|i: int|
            0 <= i < samples.len() ==> (#[trigger] samples[i]).app == Some(app)
                && samples[i].grace_ms == grace_ms && samples[i].now_ms - samples[0].now_ms
                < grace_ms,
    ensures
        tracked_after(None, samples) == Some(
            Stretch { app, since_ms: samples[0].now_ms, reported: false },
        ),
        announcements(None, samples) == 0,
    decreases samples.len(),
{
    let init = samples.drop_last();
    assert(samples[samples.len() - 1] == samples.last());
    if samples.len() == 1 {
        reveal_with_fuel(tracked_after, 2);
        reveal_with_fuel(announcements, 2);
        assert(init.len() == 0);
    } else {
        assert(init[0] == samples[0]);
        assert forall|i: int| 0 <= i < init.len() implies (#[trigger] init[i]).app == Some(app)
            && init[i].grace_ms == grace_ms && init[i].now_ms - init[0].now_ms < grace_ms by {
            assert(init[i] == samples[i]);
        }
        still_waiting(init, app, grace_ms);
    }
}

}
