//! Points in time and spans of time as plain numbers.
use vstd::prelude::*;

verus! {

/// The latest point in time: the last nanosecond of a 64-bit count of seconds.
pub const LATEST_NANOS: i128 = 9_223_372_036_854_775_807_999_999_999;

/// The earliest point in time: the first nanosecond of a 64-bit count of seconds.
pub const EARLIEST_NANOS: i128 = -9_223_372_036_854_775_808_000_000_000;

pub const NANOS_PER_SEC: u128 = 1_000_000_000;

/// A point in time, in nanoseconds since 1970-01-01 00:00:00 UTC.
#[derive(Debug, Clone, Copy, PartialEq, Eq, Structural)]
pub struct Timestamp {
    pub nanos: i128,
}

/// A span of time, in nanoseconds.
#[derive(Debug, Clone, Copy, PartialEq, Eq, Structural)]
pub struct Span {
    pub nanos: u128,
}

impl Span {
    /// The span of `secs` seconds.
    pub fn from_secs(secs: u64) -> (res: Span)
        ensures
            res.nanos == secs * NANOS_PER_SEC,
    {
        Span { nanos: secs as u128 * NANOS_PER_SEC }
    }
}

/// The end of what a clock can count: 2^64 seconds.
pub const CLOCK_NANOS: u128 = 18_446_744_073_709_551_616_000_000_000;

impl Span {
    /// A clock can have counted this span.
    pub open spec fn on_a_clock(self) -> bool {
        self.nanos < CLOCK_NANOS
    }
}

impl Timestamp {
    /// A clock can show this point in time.
    pub open spec fn on_a_clock(self) -> bool {
        -CLOCK_NANOS < self.nanos < CLOCK_NANOS
    }

    /// The point in time that lies `span` after this one, if there is one.
    pub open spec fn plus(self, span: Span) -> Option<Timestamp> {
        if self.nanos + span.nanos <= LATEST_NANOS {
            Some(Timestamp { nanos: (self.nanos + span.nanos) as i128 })
        } else {
            None
        }
    }

    /// The point in time that lies `span` before this one, if there is one.
    pub open spec fn minus(self, span: Span) -> Option<Timestamp> {
        if self.nanos - span.nanos >= EARLIEST_NANOS {
            Some(Timestamp { nanos: (self.nanos - span.nanos) as i128 })
        } else {
            None
        }
    }

    /// The span from `earlier` to this point in time: none when `earlier` is not earlier.
    pub open spec fn since(self, earlier: Timestamp) -> Span {
        if self.nanos >= earlier.nanos {
            Span { nanos: (self.nanos - earlier.nanos) as u128 }
        } else {
            Span { nanos: 0 }
        }
    }

    pub fn checked_add(self, span: Span) -> (res: Option<Timestamp>)
        ensures
            res == self.plus(span),
    {
        match self.nanos.checked_add_unsigned(span.nanos) {
            Some(nanos) => if nanos <= LATEST_NANOS {
                Some(Timestamp { nanos })
            } else {
                None
            },
            None => None,
        }
    }

    pub fn checked_sub(self, span: Span) -> (res: Option<Timestamp>)
        ensures
            res == self.minus(span),
    {
        match self.nanos.checked_sub_unsigned(span.nanos) {
            Some(nanos) => if nanos >= EARLIEST_NANOS {
                Some(Timestamp { nanos })
            } else {
                None
            },
            None => None,
        }
    }

    /// Whether this point in time is no later than `span` after `now`.
    pub fn is_within(self, now: Timestamp, span: Span) -> (res: bool)
        ensures
            res == (self.nanos <= now.nanos + span.nanos),
    {
        if self.nanos <= now.nanos {
            true
        } else {
            match now.nanos.checked_add_unsigned(span.nanos) {
                Some(limit) => self.nanos <= limit,
                None => true,
            }
        }
    }

    pub fn saturating_since(self, earlier: Timestamp) -> (res: Span)
        ensures
            res == self.since(earlier),
    {
        if self.nanos < earlier.nanos {
            return Span { nanos: 0 };
        }
        match self.nanos.checked_sub(earlier.nanos) {
            Some(nanos) => Span { nanos: nanos as u128 },
            // Only a time before and a time after 1970 lie so far apart.
            None => Span { nanos: self.nanos as u128 + (-(earlier.nanos + 1)) as u128 + 1 },
        }
    }
}

/// `std::time::SystemTime::now`, as the whole seconds and the nanoseconds beyond them that
/// separate it from `std::time::UNIX_EPOCH`: `Ok` for a time after it, `Err` for a time before it.
/// The nanoseconds do not make up a second.
///
/// What the clock shows is left unsaid.
#[verifier::external_body]
fn clock() -> (res: Result<(u64, u32), (u64, u32)>)
    ensures
        match res {
            Ok((_, nanos)) => nanos < NANOS_PER_SEC,
            Err((_, nanos)) => nanos < NANOS_PER_SEC,
        },
{
    match std::time::SystemTime::now().duration_since(std::time::UNIX_EPOCH) {
        Ok(after) => Ok((after.as_secs(), after.subsec_nanos())),
        Err(before) => Err((before.duration().as_secs(), before.duration().subsec_nanos())),
    }
}

/// The point in time at which a clock stands that is `reading` away from 1970-01-01 00:00:00 UTC,
/// in whole seconds and nanoseconds beyond them.
pub open spec fn clock_time(reading: Result<(u64, u32), (u64, u32)>) -> int {
    match reading {
        Ok((secs, nanos)) => secs * NANOS_PER_SEC + nanos,
        Err((secs, nanos)) => -(secs * NANOS_PER_SEC + nanos),
    }
}

/// The point in time of a clock reading: `Ok` for a time after 1970-01-01 00:00:00 UTC, `Err` for
/// a time before it.
pub fn time_of(reading: Result<(u64, u32), (u64, u32)>) -> (res: Timestamp)
    ensures
        res.nanos == clock_time(reading),
{
    match reading {
        Ok((secs, nanos)) => Timestamp { nanos: secs as i128 * 1_000_000_000 + nanos as i128 },
        Err((secs, nanos)) => Timestamp {
            nanos: -(secs as i128 * 1_000_000_000 + nanos as i128),
        },
    }
}

/// The current time.
pub(crate) fn now() -> (res: Timestamp)
    ensures
        res.on_a_clock(),
{
    let reading = clock();
    time_of(reading)
}

/// A point on the monotonic clock of the crate `instant`.
#[verifier::external_type_specification]
#[verifier::external_body]
pub struct ExInstant(instant::Instant);

/// `instant::Instant::now`.
///
/// What the clock shows is left unsaid.
#[verifier::external_body]
pub(crate) fn start_clock() -> (res: instant::Instant) {
    instant::Instant::now()
}

/// `instant::Instant::elapsed`, as whole seconds and nanoseconds beyond them, which do not make up
/// a second.
///
/// What the clock shows is left unsaid.
#[verifier::external_body]
fn read_clock(start: &instant::Instant) -> (res: (u64, u32))
    ensures
        res.1 < NANOS_PER_SEC,
{
    let passed = start.elapsed();
    (passed.as_secs(), passed.subsec_nanos())
}

/// The nanoseconds in a span of whole seconds and nanoseconds beyond them.
pub open spec fn span_nanos(secs: u64, nanos: u32) -> int {
    secs * NANOS_PER_SEC + nanos
}

/// The span of whole seconds and nanoseconds beyond them.
pub fn span_of(secs: u64, nanos: u32) -> (res: Span)
    ensures
        res.nanos == span_nanos(secs, nanos),
{
    Span { nanos: secs as u128 * NANOS_PER_SEC + nanos as u128 }
}

/// The span of time that has passed since `start`: as many seconds as the clock has counted, and
/// the part of a second beyond them.
pub(crate) fn elapsed(start: &instant::Instant) -> (res: Span)
    ensures
        res.on_a_clock(),
        exists|secs: u64, nanos: u32|
            nanos < NANOS_PER_SEC && res.nanos == #[trigger] span_nanos(secs, nanos),
{
    let (secs, nanos) = read_clock(start);
    span_of(secs, nanos)
}

/// Going forth and back by the same span leads to the same time, and the time that has passed is
/// that span.
pub proof fn law_times_add_up(time: Timestamp, span: Span)
    requires
        EARLIEST_NANOS <= time.nanos,
    ensures
        time.plus(span) matches Some(later) ==> later.nanos == time.nanos + span.nanos
            && later.minus(span) == Some(time) && later.since(time) == span && (span.nanos > 0
            ==> time.since(later).nanos == 0),
        time.plus(span) is None <==> time.nanos + span.nanos > LATEST_NANOS,
        time.minus(span) matches Some(earlier) ==> earlier.nanos == time.nanos - span.nanos
            && time.since(earlier) == span,
        time.minus(span) is None <==> time.nanos - span.nanos < EARLIEST_NANOS,
{
}

/// A clock that shows a time after the epoch shows the seconds and the rest of them; one before it
/// shows the same, backwards.
pub proof fn law_clocks_count_from_the_epoch(secs: u64, nanos: u32)
    requires
        nanos < NANOS_PER_SEC,
    ensures
        clock_time(Ok((secs, nanos))) == -clock_time(Err((secs, nanos))),
        clock_time(Ok((secs, nanos))) / (NANOS_PER_SEC as int) == secs,
        clock_time(Ok((secs, nanos))) % (NANOS_PER_SEC as int) == nanos,
        span_nanos(secs, nanos) == clock_time(Ok((secs, nanos))),
{
}

} // verus!
