//! Monotonic time as plain nanosecond counts, and the clock that reads it.
//!
//! Every decision in this crate takes the time as a value of [`Instant`], so
//! it can be stated and proved for every reading the clock may give. Only
//! [`Clock`] asks the operating system.

use vstd::prelude::*;

verus! {

/// Nanoseconds in one second.
pub const NANOS_PER_SEC: u128 = 1_000_000_000;

/// Nanoseconds in one millisecond.
pub const NANOS_PER_MILLI: u128 = 1_000_000;

/// A span of time, in whole nanoseconds.
#[derive(Clone, Copy, Debug, PartialEq, Eq, PartialOrd, Ord, Structural)]
pub struct Duration {
    /// Length of the span.
    pub nanos: u128,
}

impl Duration {
    /// A span of `secs` seconds.
    pub fn from_secs(secs: u64) -> (r: Duration)
        ensures
            r.nanos == secs * NANOS_PER_SEC,
    {
        Duration { nanos: secs as u128 * NANOS_PER_SEC }
    }

    /// A span of `millis` milliseconds.
    pub fn from_millis(millis: u64) -> (r: Duration)
        ensures
            r.nanos == millis * NANOS_PER_MILLI,
    {
        Duration { nanos: millis as u128 * NANOS_PER_MILLI }
    }

    /// A span of `nanos` nanoseconds.
    pub fn from_nanos(nanos: u128) -> (r: Duration)
        ensures
            r.nanos == nanos,
    {
        Duration { nanos }
    }
}

/// A point on the monotonic clock, in nanoseconds from the clock's origin.
///
/// Points before the origin are negative. The range is wide enough that every
/// reading of an operating-system clock, moved by any span this crate uses,
/// has an exact representation.
#[derive(Clone, Copy, Debug, PartialEq, Eq, PartialOrd, Ord, Structural)]
pub struct Instant {
    /// Offset from the clock's origin.
    pub nanos: i128,
}

impl Instant {
    /// The span from `earlier` to `self`, zero if `earlier` is the later one.
    pub open spec fn since(self, earlier: Instant) -> int {
        if self.nanos <= earlier.nanos {
            0
        } else {
            self.nanos - earlier.nanos
        }
    }

    /// The point `span` nanoseconds after `self`, held at the end of the
    /// representable range.
    pub open spec fn after(self, span: int) -> int {
        if self.nanos + span <= i128::MAX {
            self.nanos + span
        } else {
            i128::MAX as int
        }
    }

    /// The span from `earlier` to `self`, or zero if `earlier` is not earlier.
    pub fn duration_since(self, earlier: Instant) -> (r: Duration)
        ensures
            r.nanos == self.since(earlier),
    {
        if self.nanos <= earlier.nanos {
            return Duration { nanos: 0 };
        }
        if earlier.nanos >= 0 || self.nanos < 0 {
            Duration { nanos: (self.nanos - earlier.nanos) as u128 }
        } else {
            // The gap spans the origin and may not fit a signed count.
            let below: u128 = (-(earlier.nanos + 1)) as u128;
            Duration { nanos: self.nanos as u128 + below + 1 }
        }
    }

    /// The point `span` after `self`, held at the end of the representable range.
    pub fn plus(self, span: Duration) -> (r: Instant)
        ensures
            r.nanos == self.after(span.nanos as int),
    {
        let room: Duration = (Instant { nanos: i128::MAX }).duration_since(self);
        if span.nanos >= room.nanos {
            return Instant { nanos: i128::MAX };
        }
        if span.nanos <= i128::MAX as u128 {
            Instant { nanos: self.nanos + span.nanos as i128 }
        } else {
            // `self` is before the origin and the sum is not.
            let below: u128 = (-(self.nanos + 1)) as u128 + 1;
            Instant { nanos: (span.nanos - below) as i128 }
        }
    }
}

/// An operating-system clock reading, opaque to the verifier.
#[verifier::external_type_specification]
#[verifier::external_body]
pub struct ExStdInstant(std::time::Instant);

/// Reads the monotonic clock with `std::time::Instant::now`. Nothing is
/// claimed of the reading.
#[verifier::external_body]
fn read_origin() -> (r: std::time::Instant) {
    std::time::Instant::now()
}

/// The time passed since `origin` by `std::time::Instant::elapsed`, as whole
/// seconds and the nanoseconds beyond them. Claims only that the nanoseconds
/// are less than one second; how much time has passed is up to the clock.
#[verifier::external_body]
fn elapsed_since(origin: &std::time::Instant) -> (r: (u64, u32))
    ensures
        r.1 < 1_000_000_000,
{
    let span = origin.elapsed();
    (span.as_secs(), span.subsec_nanos())
}

/// The monotonic clock: readings count from the moment it was started.
pub struct Clock {
    /// The reading that every other one is measured against.
    origin: std::time::Instant,
}

impl Clock {
    /// Starts a clock whose origin is the current moment.
    pub fn start() -> (r: Clock) {
        Clock { origin: read_origin() }
    }

    /// The current moment: some [`Clock::reading`], never before the start. Which
    /// one, and that readings never go back, is the operating system's to keep.
    pub fn now(&self) -> (r: Instant)
        ensures
            0 <= r.nanos < 0x1_0000_0000_0000_0000 * NANOS_PER_SEC,
    {
        let (secs, nanos) = elapsed_since(&self.origin);
        Clock::reading(secs, nanos)
    }

    /// The moment `secs` seconds and `nanos` nanoseconds after a clock was
    /// started.
    pub fn reading(secs: u64, nanos: u32) -> (r: Instant)
        ensures
            r.nanos == secs * NANOS_PER_SEC + nanos,
    {
        Instant { nanos: secs as i128 * 1_000_000_000 + nanos as i128 }
    }
}

/// Spans add up: of three points in order, the way from the first to the last
/// is the way over the middle one; and there is no way back.
pub proof fn spans_add_up(a: Instant, b: Instant, c: Instant)
    requires
        a.nanos <= b.nanos <= c.nanos,
    ensures
        c.since(a) == c.since(b) + b.since(a),
        a.since(b) == 0,
        a.nanos < b.nanos ==> b.since(a) > 0,
{
}

/// Going on by a span and measuring the way gives the span, as far as the
/// clock's range goes; beyond it the end of the range is reached.
pub proof fn span_leads_where_it_is_measured(from: Instant, span: u128)
    ensures
        from.nanos + span <= i128::MAX ==> (Instant {
            nanos: from.after(span as int) as i128,
        }).since(from) == span,
        from.nanos + span > i128::MAX ==> from.after(span as int) == i128::MAX,
{
}

} // verus!
