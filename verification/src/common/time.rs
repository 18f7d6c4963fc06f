//! Points in time and lengths of time as plain nanosecond counts.

use vstd::prelude::*;

verus! {

pub const NANOS_PER_SECOND: u128 = 1_000_000_000;

pub const NANOS_PER_MILLI: u128 = 1_000_000;

pub const NANOS_PER_MICRO: u128 = 1_000;

/// The last point the monotonic clock can represent: all seconds of an `i64`, all but one
/// nanosecond of the next one.
pub const LAST_MOMENT_NANOS: u128 = 9_223_372_036_854_775_807_999_999_999;

/// A length of time.
#[derive(Debug, Clone, Copy, PartialEq, Eq, Structural)]
pub struct Span {
    pub nanos: u128,
}

/// A point on the monotonic clock, counted from a fixed reference point.
#[derive(Debug, Clone, Copy, PartialEq, Eq, Structural)]
pub struct Moment {
    pub nanos: u128,
}

impl Span {
    pub fn from_secs(secs: u64) -> (span: Self)
        ensures
            span.nanos == secs * NANOS_PER_SECOND,
    {
        Self { nanos: secs as u128 * NANOS_PER_SECOND }
    }

    pub fn from_millis(millis: u64) -> (span: Self)
        ensures
            span.nanos == millis * NANOS_PER_MILLI,
    {
        Self { nanos: millis as u128 * NANOS_PER_MILLI }
    }

    /// The longest span the system clock can report: all seconds of a `u64`, all but one
    /// nanosecond of the next one.
    pub fn max() -> (span: Self)
        ensures
            span.nanos == u64::MAX * NANOS_PER_SECOND + 999_999_999,
    {
        Self { nanos: u64::MAX as u128 * NANOS_PER_SECOND + 999_999_999 }
    }
}

impl Moment {
    /// The time that passed from `earlier` to here, or none if `earlier` lies ahead.
    pub fn saturating_since(self, earlier: Moment) -> (span: Span)
        ensures
            span.nanos == span_between(earlier, self),
    {
        if self.nanos >= earlier.nanos {
            Span { nanos: self.nanos - earlier.nanos }
        } else {
            Span { nanos: 0 }
        }
    }

    /// The point that lies `span` after this one, if the clock can represent it.
    pub fn checked_add(self, span: Span) -> (moment: Option<Moment>)
        ensures
            moment == if self.nanos + span.nanos <= LAST_MOMENT_NANOS {
                Some(Moment { nanos: (self.nanos + span.nanos) as u128 })
            } else {
                None
            },
    {
        if self.nanos <= LAST_MOMENT_NANOS && span.nanos <= LAST_MOMENT_NANOS - self.nanos {
            Some(Moment { nanos: self.nanos + span.nanos })
        } else {
            None
        }
    }

    /// The point that lies `span` after this one.
    pub fn plus(self, span: Span) -> (moment: Moment)
        requires
            self.nanos + span.nanos <= u128::MAX,
        ensures
            moment.nanos == self.nanos + span.nanos,
    {
        Moment { nanos: self.nanos + span.nanos }
    }
}

/// Nanoseconds from `earlier` to `later`, zero if they are out of order.
pub open spec fn span_between(earlier: Moment, later: Moment) -> nat {
    if later.nanos >= earlier.nanos {
        (later.nanos - earlier.nanos) as nat
    } else {
        0
    }
}

/// Whole units of `unit` nanoseconds, capped at the largest `u64`.
pub open spec fn saturating_units(nanos: nat, unit: nat) -> nat {
    if nanos / unit <= u64::MAX {
        nanos / unit
    } else {
        u64::MAX as nat
    }
}

/// Milliseconds elapsed since `started_at`, saturating instead of overflowing
pub fn elapsed_ms(started_at: Moment, now: Moment) -> (millis: u64)
    ensures
        millis == saturating_units(span_between(started_at, now), 1_000_000),
{
    duration_ms(now.saturating_since(started_at))
}

/// Microseconds elapsed since `started_at`, saturating instead of overflowing
pub fn elapsed_us(started_at: Moment, now: Moment) -> (micros: u64)
    ensures
        micros == saturating_units(span_between(started_at, now), 1_000),
{
    duration_us(now.saturating_since(started_at))
}

pub fn duration_ms(duration: Span) -> (millis: u64)
    ensures
        millis == saturating_units(duration.nanos as nat, 1_000_000),
{
    let millis: u128 = duration.nanos / NANOS_PER_MILLI;
    if millis <= u64::MAX as u128 {
        millis as u64
    } else {
        u64::MAX
    }
}

pub fn duration_us(duration: Span) -> (micros: u64)
    ensures
        micros == saturating_units(duration.nanos as nat, 1_000),
{
    let micros: u128 = duration.nanos / NANOS_PER_MICRO;
    if micros <= u64::MAX as u128 {
        micros as u64
    } else {
        u64::MAX
    }
}

/// Milliseconds between an optional start and a known end, saturating if they are out of order
pub fn duration_ms_between(started_at: Option<Moment>, ended_at: Moment) -> (millis: Option<u64>)
    ensures
        millis == match started_at {
            Some(started_at) => Some(
                saturating_units(span_between(started_at, ended_at), 1_000_000) as u64,
            ),
            None => None::<u64>,
        },
{
    match started_at {
        Some(started_at) => Some(duration_ms(ended_at.saturating_since(started_at))),
        None => None,
    }
}

/// Counted units of a length are as many as fit into it, up to what can be counted.
pub proof fn law_counted_units_fit(nanos: nat, unit: nat)
    requires
        unit > 0,
    ensures
        saturating_units(nanos, unit) * unit <= nanos,
        saturating_units(nanos, unit) < u64::MAX ==> nanos < (saturating_units(nanos, unit) + 1)
            * unit,
{
    vstd::arithmetic::div_mod::lemma_fundamental_div_mod(nanos as int, unit as int);
    let count = nanos as int / (unit as int);
    let rest = nanos as int % (unit as int);
    assert(count * unit <= nanos < (count + 1) * unit) by (nonlinear_arith)
        requires
            nanos == unit * count + rest,
            0 <= rest < unit,
    ;
    if count > u64::MAX {
        assert(u64::MAX * unit <= count * unit) by (nonlinear_arith)
            requires
                count > u64::MAX,
                unit > 0,
        ;
    }
}

/// The time between two moments leads from one to the other; there is none backwards.
pub proof fn law_spans_lead_to_the_later_moment(earlier: Moment, later: Moment)
    ensures
        earlier.nanos <= later.nanos ==> earlier.nanos + span_between(earlier, later)
            == later.nanos,
        later.nanos <= earlier.nanos ==> span_between(earlier, later) == 0,
        NANOS_PER_SECOND == 1_000_000_000,
        NANOS_PER_MILLI == 1_000_000,
        NANOS_PER_MICRO == 1_000,
{
}

} // verus!
