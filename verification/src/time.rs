//! Spans of time and the clock readings that the runtime hands in.
use vstd::prelude::*;

verus! {

/// A span of time: whole seconds and the nanoseconds of the second that has begun.
#[derive(Debug, Clone, Copy, PartialEq, Eq, Structural)]
pub struct Duration {
    pub secs: u64,
    pub nanos: u32,
}

impl Duration {
    /// The span in nanoseconds.
    pub open spec fn total_nanos(self) -> nat {
        (self.secs * 1_000_000_000 + self.nanos) as nat
    }

    /// Fewer than a second's worth of nanoseconds stand beside the seconds.
    pub open spec fn wf(self) -> bool {
        self.nanos < 1_000_000_000
    }

    pub fn zero() -> (r: Self)
        ensures
            r.wf(),
            r == (Duration { secs: 0, nanos: 0 }),
    {
        Duration { secs: 0, nanos: 0 }
    }

    pub fn from_secs(secs: u64) -> (r: Self)
        ensures
            r.wf(),
            r == (Duration { secs, nanos: 0 }),
    {
        Duration { secs, nanos: 0 }
    }

    pub fn from_millis(millis: u64) -> (r: Self)
        ensures
            r.wf(),
            r.total_nanos() == millis * 1_000_000,
    {
        Duration { secs: millis / 1000, nanos: ((millis % 1000) * 1_000_000) as u32 }
    }

    /// The span of a number of nanoseconds whose seconds fit.
    pub fn from_total_nanos(nanos: u128) -> (r: Self)
        requires
            nanos < 1_000_000_000 * 0x1_0000_0000_0000_0000,
        ensures
            r.wf(),
            r.total_nanos() == nanos,
    {
        Duration {
            secs: (nanos / 1_000_000_000) as u64,
            nanos: (nanos % 1_000_000_000) as u32,
        }
    }

    pub fn is_zero(&self) -> (r: bool)
        ensures
            r == (self.total_nanos() == 0),
    {
        self.secs == 0 && self.nanos == 0
    }

    pub fn as_nanos(&self) -> (r: u128)
        ensures
            r == self.total_nanos(),
    {
        self.secs as u128 * 1_000_000_000 + self.nanos as u128
    }
}

/// Whether at least `interval` has passed between two readings of a monotonic clock, in
/// nanoseconds. A clock that runs backwards counts as one that stands still.
pub open spec fn elapsed_reaches(since: u64, now: u64, interval: Duration) -> bool {
    (if now >= since {
        now - since
    } else {
        0
    }) >= interval.total_nanos()
}

/// Whether at least `interval` has passed between two clock readings.
pub fn has_elapsed(since: u64, now: u64, interval: Duration) -> (r: bool)
    ensures
        r == elapsed_reaches(since, now, interval),
{
    let elapsed: u64 = if now >= since {
        now - since
    } else {
        0
    };
    elapsed as u128 >= interval.as_nanos()
}

/// An interval has passed exactly where the clock has moved on by at least as much; one of no
/// length has always passed. A clock that has run backwards has not moved on.
pub proof fn law_when_an_interval_has_passed(since: u64, now: u64, interval: Duration)
    ensures
        interval.secs == 0 && interval.nanos == 0 ==> elapsed_reaches(since, now, interval),
        interval.secs > 0 || interval.nanos > 0 ==> (elapsed_reaches(since, now, interval) <==> now
            - since >= interval.secs * 1_000_000_000 + interval.nanos),
{
}

/// Each second is a thousand million nanoseconds; durations with fewer nanoseconds than that beside
/// the seconds are the same where they are as long.
pub proof fn law_durations_are_as_long_as_they_say(a: Duration, b: Duration)
    ensures
        a.total_nanos() == 1_000_000_000 * a.secs + a.nanos,
        a.wf() && b.wf() && a.total_nanos() == b.total_nanos() ==> a == b,
        a.wf() <==> a.nanos <= 999_999_999,
{
}

} // verus!
