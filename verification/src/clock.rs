//! Time: the wall clock, and arithmetic on timestamps that cannot overflow.

use std::time::{SystemTime, SystemTimeError};

use vstd::prelude::*;

verus! {

/// `std::time::SystemTime`, a reading of the wall clock.
#[verifier::external_type_specification]
#[verifier::external_body]
pub struct ExSystemTime(SystemTime);

/// `std::time::SystemTimeError`, for a clock that stands before the epoch.
#[verifier::external_type_specification]
#[verifier::external_body]
pub struct ExSystemTimeError(SystemTimeError);

/// `SystemTime::now` reads the clock; nothing is promised of the reading.
pub assume_specification[ SystemTime::now ]() -> SystemTime;

/// `Duration::as_millis` gives whole milliseconds, of which the longest duration
/// has 2^64 times a thousand, less one. How many it is of a given duration is left
/// unsaid: a duration has no parts that a contract could speak of.
pub assume_specification[ core::time::Duration::as_millis ](d: &core::time::Duration) -> (r: u128)
    ensures
        r <= 18446744073709551615999,
;

/// `SystemTime::duration_since` the unix epoch. It fails when the clock stands
/// before the epoch; nothing is promised of the duration.
#[verifier::external_body]
fn since_epoch(t: &SystemTime) -> (r: Result<core::time::Duration, SystemTimeError>) {
    t.duration_since(SystemTime::UNIX_EPOCH)
}

/// Current unix timestamp in milliseconds. Which it is depends on the clock.
pub fn now_ms() -> i64 {
    let now = SystemTime::now();
    match since_epoch(&now) {
        Ok(d) => unix_ms(Some(d.as_millis())),
        Err(_) => unix_ms(None),
    }
}

/// The timestamp for a number of milliseconds since the epoch; zero for a clock
/// that stands before it.
pub fn unix_ms(since_epoch: Option<u128>) -> (r: i64)
    ensures
        r == match since_epoch {
            Some(ms) => ms as i64,
            None => 0,
        },
{
    match since_epoch {
        Some(ms) => #[verifier::truncate]
        (ms as i64),
        None => 0,
    }
}

/// The nearest number that a timestamp can hold.
pub open spec fn clip(n: int) -> int {
    if n < i64::MIN {
        i64::MIN as int
    } else if n > i64::MAX {
        i64::MAX as int
    } else {
        n
    }
}

/// `a - b`, held within the range of a timestamp.
pub fn minus(a: i64, b: i64) -> (r: i64)
    ensures
        r == clip(a - b),
{
    clipped(a as i128 - b as i128)
}

/// `a + b`, held within the range of a timestamp.
pub fn plus(a: i64, b: i64) -> (r: i64)
    ensures
        r == clip(a + b),
{
    clipped(a as i128 + b as i128)
}

fn clipped(n: i128) -> (r: i64)
    ensures
        r == clip(n as int),
{
    if n < i64::MIN as i128 {
        i64::MIN
    } else if n > i64::MAX as i128 {
        i64::MAX
    } else {
        n as i64
    }
}

/// Times are kept as they are where they fit, and held at the end that they pass where
/// they do not.
pub proof fn times_are_held_within_range(n: int)
    ensures
        i64::MIN <= n <= i64::MAX ==> clip(n) == n,
        n > i64::MAX ==> clip(n) == i64::MAX,
        n < i64::MIN ==> clip(n) == i64::MIN,
{
}

}
