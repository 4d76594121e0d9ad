//! Token-bucket rate limiting for relayed frames.
//!
//! Per connection, not per room: one misbehaving device must not slow down its
//! peer. Uses readings of a clock rather than a background timer, so an idle
//! connection costs nothing.
//!
//! The bucket counts in billionths of a token: at a rate of `n` tokens per second
//! it gains `n` of them per nanosecond, so nothing is lost to rounding.

use vstd::prelude::*;

verus! {

/// Billionths in a token, and nanoseconds in a second.
pub const NANO: u64 = 1_000_000_000;

pub struct RateLimiter {
    /// Tokens added per second.
    rate: u32,
    /// Maximum tokens held.
    burst: u32,
    /// Billionths of a token held.
    tokens: u64,
    /// Reading of the clock at the last refill, in nanoseconds.
    last: u64,
}

/// What a bucket is.
pub struct Bucket {
    pub rate: int,
    pub burst: int,
    /// Billionths of a token held.
    pub tokens: int,
    pub last: int,
}

impl View for RateLimiter {
    type V = Bucket;

    closed spec fn view(&self) -> Bucket {
        Bucket {
            rate: self.rate as int,
            burst: self.burst as int,
            tokens: self.tokens as int,
            last: self.last as int,
        }
    }
}

impl Bucket {
    /// A full bucket for these settings.
    pub open spec fn full(per_sec: int, burst: int, now: int) -> Bucket {
        Bucket {
            rate: larger(per_sec, 1),
            burst: larger(larger(burst, per_sec), 1),
            tokens: larger(larger(burst, per_sec), 1) * NANO,
            last: now,
        }
    }

    pub open spec fn wf(self) -> bool {
        &&& 1 <= self.rate <= self.burst <= u32::MAX
        &&& 0 <= self.tokens <= self.burst * NANO
        &&& 0 <= self.last
    }

    /// The bucket at `now`: what it gained since, and no more than it can hold. A
    /// clock that stands still or runs backward adds nothing.
    pub open spec fn refilled(self, now: int) -> Bucket {
        if now <= self.last {
            self
        } else if self.tokens + (now - self.last) * self.rate > self.burst * NANO {
            Bucket { tokens: self.burst * NANO, last: now, ..self }
        } else {
            Bucket { tokens: self.tokens + (now - self.last) * self.rate, last: now, ..self }
        }
    }

    /// There is a token to take.
    pub open spec fn grants(self, now: int) -> bool {
        self.refilled(now).tokens >= NANO
    }

    /// The bucket after a token was asked for.
    pub open spec fn asked(self, now: int) -> Bucket {
        if self.grants(now) {
            Bucket { tokens: self.refilled(now).tokens - NANO, ..self.refilled(now) }
        } else {
            self.refilled(now)
        }
    }
}

pub open spec fn larger(a: int, b: int) -> int {
    if a > b {
        a
    } else {
        b
    }
}

impl RateLimiter {
    pub open spec fn wf(&self) -> bool {
        self@.wf()
    }

    /// A full bucket, so a client can publish its initial state immediately. A
    /// burst below the rate would throttle below the configured steady state, so
    /// it is raised to it.
    pub fn new(per_sec: u32, burst: u32, now_ns: u64) -> (r: RateLimiter)
        ensures
            r.wf(),
            r@ == Bucket::full(per_sec as int, burst as int, now_ns as int),
    {
        let rate: u32 = if per_sec > 1 {
            per_sec
        } else {
            1
        };
        let top: u32 = if burst > rate {
            burst
        } else {
            rate
        };
        RateLimiter { rate, burst: top, tokens: top as u64 * NANO, last: now_ns }
    }

    /// Takes one token. `false` means the caller should drop the frame.
    pub fn allow(&mut self, now_ns: u64) -> (r: bool)
        requires
            old(self).wf(),
        ensures
            final(self).wf(),
            r == old(self)@.grants(now_ns as int),
            final(self)@ == old(self)@.asked(now_ns as int),
    {
        self.refill(now_ns);
        if self.tokens >= NANO {
            self.tokens = self.tokens - NANO;
            true
        } else {
            false
        }
    }

    fn refill(&mut self, now_ns: u64)
        requires
            old(self).wf(),
        ensures
            final(self).wf(),
            final(self)@ == old(self)@.refilled(now_ns as int),
    {
        if now_ns > self.last {
            let elapsed: u64 = now_ns - self.last;
            assert(elapsed * self.rate <= u64::MAX * u32::MAX) by (nonlinear_arith)
                requires
                    0 <= elapsed <= u64::MAX,
                    0 <= self.rate <= u32::MAX,
            ;
            assert(elapsed * self.rate >= 0) by (nonlinear_arith)
                requires
                    0 <= elapsed,
                    0 <= self.rate,
            ;
            let gained: u128 = elapsed as u128 * self.rate as u128;
            let full: u64 = self.burst as u64 * NANO;
            let sum: u128 = self.tokens as u128 + gained;
            self.tokens = if sum > full as u128 {
                full
            } else {
                sum as u64
            };
            self.last = now_ns;
        }
    }
}

/// The bucket after a token was asked for at each of these times.
pub open spec fn after_all(b: Bucket, times: Seq<int>) -> Bucket
    decreases times.len(),
{
    if times.len() == 0 {
        b
    } else {
        after_all(b, times.drop_last()).asked(times.last())
    }
}

/// How many of the requests at these times are granted.
pub open spec fn granted(b: Bucket, times: Seq<int>) -> int
    decreases times.len(),
{
    if times.len() == 0 {
        0
    } else {
        granted(b, times.drop_last()) + if after_all(b, times.drop_last()).grants(times.last()) {
            1int
        } else {
            0
        }
    }
}

/// What the bucket holds and has given away never exceeds what it had and gained:
/// over any time no more than the burst, plus the rate for that time, gets
/// through.
pub proof fn never_more_than_the_rate(b: Bucket, times: Seq<int>)
    requires
        b.wf(),
    ensures
        after_all(b, times).wf(),
        after_all(b, times).rate == b.rate,
        after_all(b, times).burst == b.burst,
        after_all(b, times).last >= b.last,
        granted(b, times) * NANO + after_all(b, times).tokens <= b.tokens + (after_all(
            b,
            times,
        ).last - b.last) * b.rate,
        granted(b, times) * NANO <= b.burst * NANO + (after_all(b, times).last - b.last) * b.rate,
    decreases times.len(),
{
    if times.len() > 0 {
        let t = times.last();
        never_more_than_the_rate(b, times.drop_last());
        let mid = after_all(b, times.drop_last());
        if t > mid.last {
            assert((t - mid.last) * mid.rate >= 0) by (nonlinear_arith)
                requires
                    t > mid.last,
                    mid.rate >= 0,
            ;
            assert((t - b.last) * b.rate == (mid.last - b.last) * b.rate + (t - mid.last) * b.rate)
                by (nonlinear_arith);
        }
    }
}

/// A full bucket serves a burst at once: of so many requests at one time it grants
/// all, up to the burst, and no more.
pub proof fn burst_is_served_at_once(b: Bucket, times: Seq<int>, now: int)
    requires
        b.wf(),
        b.tokens == b.burst * NANO,
        now >= b.last,
        forall|i: int| 0 <= i < times.len() ==> #[trigger] times[i] == now,
    ensures
        granted(b, times) == (if times.len() <= b.burst {
            times.len() as int
        } else {
            b.burst
        }),
        after_all(b, times).tokens == (b.burst - granted(b, times)) * NANO,
        after_all(b, times).burst == b.burst,
        after_all(b, times).rate == b.rate,
        times.len() > 0 ==> after_all(b, times).last == now,
    decreases times.len(),
{
    if times.len() > 0 {
        let init = times.drop_last();
        assert forall|i: int| 0 <= i < init.len() implies #[trigger] init[i] == now by {
            assert(init[i] == times[i]);
        }
        burst_is_served_at_once(b, init, now);
        assert(times.last() == now);
        let mid = after_all(b, init);
        if init.len() == 0 && now > b.last {
            assert((now - b.last) * b.rate >= 0) by (nonlinear_arith)
                requires
                    now > b.last,
                    b.rate >= 0,
            ;
        }
    }
}

/// A bucket that is not full gains a token in the time that the rate gives for one:
/// whoever waits for a second, divided by the rate, is served.
pub proof fn waiting_is_rewarded(b: Bucket, now: int)
    requires
        b.wf(),
        (now - b.last) * b.rate >= 1_000_000_000,
        now > b.last,
    ensures
        b.grants(now),
{
}

/// What was not used up is not lost: over any time, either the bucket runs full or it
/// gains exactly the rate for that time.
pub proof fn the_rate_is_earned(b: Bucket, now: int)
    requires
        b.wf(),
        now >= b.last,
    ensures
        ({
            let after = b.refilled(now);
            let gained = b.tokens + (now - b.last) * b.rate;
            &&& gained <= b.burst * 1_000_000_000 ==> after.tokens == gained
            &&& gained > b.burst * 1_000_000_000 ==> after.tokens == b.burst * 1_000_000_000
            &&& after.rate == b.rate && after.burst == b.burst && after.last == now
        }),
{
    if now == b.last {
        assert((now - b.last) * b.rate == 0) by (nonlinear_arith)
            requires
                now == b.last,
        ;
    }
}

/// A request is granted exactly when a whole token is there, and costs exactly that;
/// a refused one costs nothing.
pub proof fn requests_cost_one_token(b: Bucket, now: int)
    requires
        b.wf(),
    ensures
        b.grants(now) <==> b.refilled(now).tokens >= 1_000_000_000,
        b.grants(now) ==> b.asked(now).tokens == b.refilled(now).tokens - 1_000_000_000,
        !b.grants(now) ==> b.asked(now).tokens == b.refilled(now).tokens,
{
}

/// A new bucket fills at the configured rate and is full of the configured burst: at
/// least one token a second, and never less of them than the rate.
pub proof fn new_buckets_are_full(per_sec: u32, burst: u32, now: int)
    ensures
        ({
            let b = Bucket::full(per_sec as int, burst as int, now);
            &&& per_sec >= 1 ==> b.rate == per_sec
            &&& per_sec == 0 ==> b.rate == 1
            &&& burst >= per_sec && burst >= 1 ==> b.burst == burst
            &&& burst < per_sec ==> b.burst == per_sec
            &&& b.burst >= b.rate
            &&& b.tokens == 1_000_000_000 * b.burst
            &&& b.last == now
        }),
{
}

}
