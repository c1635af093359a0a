//! Time values and the clock that supplies them.
//!
//! A [`Duration`] is a span of time and an [`Instant`] a point on a clock's
//! timeline, both counted in whole nanoseconds. Only differences and
//! comparisons of instants mean anything; an instant says nothing about the
//! time of day.

use vstd::prelude::*;

verus! {

/// The nanoseconds in one second.
pub const NANOS_PER_SEC: u128 = 1_000_000_000;

/// The nanoseconds in one millisecond.
pub const NANOS_PER_MILLI: u128 = 1_000_000;

/// A span of time in nanoseconds.
#[derive(Clone, Copy, Debug, PartialEq, Eq, Structural)]
pub struct Duration {
    pub nanos: u128,
}

impl Duration {
    /// The difference `self - rhs`, or zero where `rhs` is the longer span.
    pub open spec fn spec_saturating_sub(self, rhs: Duration) -> Duration {
        if self.nanos >= rhs.nanos {
            Duration { nanos: (self.nanos - rhs.nanos) as u128 }
        } else {
            Duration { nanos: 0 }
        }
    }

    /// The sum `self + rhs`, or the longest span where the sum is longer.
    pub open spec fn spec_saturating_add(self, rhs: Duration) -> Duration {
        if self.nanos + rhs.nanos <= u128::MAX {
            Duration { nanos: (self.nanos + rhs.nanos) as u128 }
        } else {
            Duration { nanos: u128::MAX }
        }
    }

    /// The empty span.
    pub fn zero() -> (d: Duration)
        ensures
            d.nanos == 0,
    {
        Duration { nanos: 0 }
    }

    pub fn from_nanos(nanos: u128) -> (d: Duration)
        ensures
            d.nanos == nanos,
    {
        Duration { nanos }
    }

    pub fn from_millis(millis: u64) -> (d: Duration)
        ensures
            d.nanos == millis * NANOS_PER_MILLI,
    {
        assert(millis * NANOS_PER_MILLI <= u128::MAX) by (nonlinear_arith)
            requires
                millis <= u64::MAX,
                NANOS_PER_MILLI == 1_000_000,
        ;
        Duration { nanos: millis as u128 * NANOS_PER_MILLI }
    }

    pub fn from_secs(secs: u64) -> (d: Duration)
        ensures
            d.nanos == secs * NANOS_PER_SEC,
    {
        assert(secs * NANOS_PER_SEC <= u128::MAX) by (nonlinear_arith)
            requires
                secs <= u64::MAX,
                NANOS_PER_SEC == 1_000_000_000,
        ;
        Duration { nanos: secs as u128 * NANOS_PER_SEC }
    }

    pub fn as_nanos(&self) -> (nanos: u128)
        ensures
            nanos == self.nanos,
    {
        self.nanos
    }

    pub fn saturating_sub(self, rhs: Duration) -> (d: Duration)
        ensures
            d == self.spec_saturating_sub(rhs),
    {
        if self.nanos >= rhs.nanos {
            Duration { nanos: self.nanos - rhs.nanos }
        } else {
            Duration { nanos: 0 }
        }
    }

    pub fn saturating_add(self, rhs: Duration) -> (d: Duration)
        ensures
            d == self.spec_saturating_add(rhs),
    {
        if self.nanos <= u128::MAX - rhs.nanos {
            Duration { nanos: self.nanos + rhs.nanos }
        } else {
            Duration { nanos: u128::MAX }
        }
    }
}

/// A point on a clock's timeline, in nanoseconds from the clock's origin.
#[derive(Clone, Copy, Debug, PartialEq, Eq, Structural)]
pub struct Instant {
    pub nanos: u128,
}

impl Instant {
    /// The span from `earlier` to `self`, or zero where `earlier` is the later
    /// of the two.
    pub open spec fn spec_duration_since(self, earlier: Instant) -> Duration {
        if self.nanos >= earlier.nanos {
            Duration { nanos: (self.nanos - earlier.nanos) as u128 }
        } else {
            Duration { nanos: 0 }
        }
    }

    pub fn from_nanos(nanos: u128) -> (i: Instant)
        ensures
            i.nanos == nanos,
    {
        Instant { nanos }
    }

    pub fn as_nanos(&self) -> (nanos: u128)
        ensures
            nanos == self.nanos,
    {
        self.nanos
    }

    pub fn duration_since(self, earlier: Instant) -> (d: Duration)
        ensures
            d == self.spec_duration_since(earlier),
    {
        if self.nanos >= earlier.nanos {
            Duration { nanos: self.nanos - earlier.nanos }
        } else {
            Duration { nanos: 0 }
        }
    }
}

/// A source of instants.
///
/// Neither method promises anything of what it returns: a timer that is driven
/// by a clock has to cope with every reading.
pub trait TimeProvider {
    type Instant: Copy + Clone;

    type Duration: Copy + Clone;

    /// The clock's present reading.
    fn now(&self) -> Self::Instant;

    /// The time that has passed since `since`.
    fn elapsed(&self, since: Self::Instant) -> Self::Duration;
}

#[verifier::external_type_specification]
#[verifier::external_body]
pub struct ExSystemInstant(std::time::Instant);

/// Calls `std::time::Instant::now`, which reads the system's monotonic clock.
/// Nothing is claimed of the reading.
#[verifier::external_body]
fn system_now() -> std::time::Instant {
    std::time::Instant::now()
}

/// Calls `std::time::Instant::elapsed`, which measures the time from `origin`
/// to now and returns zero, rather than fail, where `origin` lies ahead of the
/// clock. Nothing is claimed of the span.
#[verifier::external_body]
fn system_elapsed(origin: &std::time::Instant) -> std::time::Duration {
    origin.elapsed()
}

/// Calls `std::time::Duration::as_nanos`, which gives a span as a whole number
/// of nanoseconds. The number is left open: the spans this is applied to are
/// clock readings.
#[verifier::external_body]
fn span_nanos(span: &std::time::Duration) -> u128 {
    span.as_nanos()
}

/// The system's monotonic clock. Its instants count from the moment the clock
/// was made.
pub struct StdTime {
    origin: std::time::Instant,
}

impl StdTime {
    /// A clock whose origin is the present moment.
    pub fn new() -> StdTime {
        StdTime { origin: system_now() }
    }
}

impl TimeProvider for StdTime {
    type Instant = Instant;

    type Duration = Duration;

    fn now(&self) -> Instant {
        let span = system_elapsed(&self.origin);
        Instant { nanos: span_nanos(&span) }
    }

    fn elapsed(&self, since: Instant) -> (span: Duration)
        ensures
            exists|now: Instant| span == #[trigger] now.spec_duration_since(since),
    {
        let now = self.now();
        now.duration_since(since)
    }
}

} // verus!
