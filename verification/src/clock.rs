//! Points in time as plain numbers.

use vstd::prelude::*;

verus! {

/// A point in time: whole seconds since 1970 in UTC, and the nanoseconds past them,
/// which exceed 999 999 999 during a leap second.
#[derive(Debug, Clone, Copy, PartialEq, Eq, Structural)]
pub struct Timestamp {
    /// Whole seconds since 1970.
    pub secs: i64,
    /// Nanoseconds past the second.
    pub nanos: u32,
}

/// The point in time that an RFC 3339 text denotes.
pub uninterp spec fn rfc3339_instant(text: Seq<char>) -> Option<Timestamp>;

/// `chrono::DateTime::parse_from_rfc3339`, with the result taken apart by
/// `timestamp` and `timestamp_subsec_nanos`: the point in time that the text
/// denotes, if it denotes one.
#[verifier::external_body]
pub(crate) fn parse_rfc3339(text: &str) -> (at: Option<Timestamp>)
    ensures
        at == rfc3339_instant(text@),
{
    let at = chrono::DateTime::parse_from_rfc3339(text).ok()?;
    Some(Timestamp { secs: at.timestamp(), nanos: at.timestamp_subsec_nanos() })
}

/// The RFC 3339 text of a point in time, in UTC and to the millisecond. What lies outside
/// the calendar has none.
pub uninterp spec fn rfc3339_text(secs: i64, nanos: u32) -> Option<Seq<char>>;

/// `chrono::DateTime::from_timestamp`, written by `to_rfc3339_opts` in UTC and to the
/// millisecond. The text ends in the letter that stands for UTC. Outside leap seconds and
/// before the year 10000, `parse_from_rfc3339` reads it as the point in time without what is
/// finer than a millisecond.
#[verifier::external_body]
fn write_rfc3339(at: Timestamp) -> (text: Option<String>)
    ensures
        match text {
            Some(text) => {
                &&& rfc3339_text(at.secs, at.nanos) == Some(text@)
                &&& text@.len() > 0
                &&& text@.last() == 'Z'
                &&& 0 <= at.secs < 253_402_300_800 && at.nanos < 1_000_000_000
                    ==> rfc3339_instant(text@) == Some(to_the_millisecond(at))
            },
            None => rfc3339_text(at.secs, at.nanos) is None,
        },
{
    let at = chrono::DateTime::from_timestamp(at.secs, at.nanos)?;
    Some(at.to_rfc3339_opts(chrono::SecondsFormat::Millis, true))
}

/// `chrono::Utc::now`, taken apart by `timestamp` and `timestamp_subsec_nanos`: what
/// the system clock says, which must lie past 1970. Nothing is known of it beforehand but
/// that it lies in the calendar.
#[verifier::external_body]
pub(crate) fn utc_now() -> (now: Timestamp)
    ensures
        rfc3339_text(now.secs, now.nanos) is Some,
{
    let now = chrono::Utc::now();
    Timestamp { secs: now.timestamp(), nanos: now.timestamp_subsec_nanos() }
}

/// A point in time without what is finer than a millisecond.
pub open spec fn to_the_millisecond(at: Timestamp) -> Timestamp {
    Timestamp { secs: at.secs, nanos: (at.nanos as int / 1_000_000 * 1_000_000) as u32 }
}

/// Whether a text is that of a point in time `at`: the stamp of what happened then.
pub open spec fn stamped_at(text: Seq<char>, at: Timestamp) -> bool {
    &&& rfc3339_text(at.secs, at.nanos) == Some(text)
    &&& text.len() > 0
    &&& text.last() == 'Z'
    &&& 0 <= at.secs < 253_402_300_800 && at.nanos < 1_000_000_000 ==> rfc3339_instant(text)
        == Some(to_the_millisecond(at))
}

/// Whether a text is the stamp of some point in time.
pub open spec fn is_stamp(text: Seq<char>) -> bool {
    exists|at: Timestamp| #[trigger] stamped_at(text, at)
}

/// What the system clock says, in UTC and to the millisecond, as RFC 3339 text.
pub fn current_timestamp() -> (text: String)
    ensures
        is_stamp(text@),
{
    let now = utc_now();
    match write_rfc3339(now) {
        Some(text) => {
            assert(stamped_at(text@, now));
            text
        },
        None => {
            assert(false);
            String::new()
        },
    }
}

/// The second of the day at which a point in time lies.
pub open spec fn second_of_day(at: Timestamp) -> int {
    at.secs as int % 86_400
}

/// The second of the day at which a point in time lies.
fn clock_second(at: Timestamp) -> (second: i128)
    ensures
        second == second_of_day(at),
{
    let shifted: u128 = (at.secs as i128 + 86_400 * 200_000_000_000_000) as u128;
    (shifted % 86_400) as i128
}

/// The nanoseconds from `earlier` to `later`. A leap second between two times of
/// day counts.
pub open spec fn nanos_between(earlier: Timestamp, later: Timestamp) -> int {
    let leap = if second_of_day(later) > second_of_day(earlier) && earlier.nanos >= 1_000_000_000 {
        1int
    } else if second_of_day(later) < second_of_day(earlier) && later.nanos >= 1_000_000_000 {
        -1int
    } else {
        0int
    };
    (later.secs - earlier.secs + leap) * 1_000_000_000 + (later.nanos - earlier.nanos)
}

/// The nanoseconds from `earlier` to `later`.
pub fn nanos_since(earlier: Timestamp, later: Timestamp) -> (nanos: i128)
    ensures
        nanos == nanos_between(earlier, later),
{
    let late_second: i128 = clock_second(later);
    let early_second: i128 = clock_second(earlier);
    let leap: i128 = if late_second > early_second && earlier.nanos >= 1_000_000_000 {
        1
    } else if late_second < early_second && later.nanos >= 1_000_000_000 {
        -1
    } else {
        0
    };
    (later.secs as i128 - earlier.secs as i128 + leap) * 1_000_000_000 + (later.nanos as i128
        - earlier.nanos as i128)
}

// ---------------------------------------------------------------------------
// Spans
// ---------------------------------------------------------------------------

/// A span of time, to the nanosecond. A reading of a clock that only goes forward is
/// the span since that clock started.
#[derive(Debug, Clone, Copy, PartialEq, Eq, Structural)]
pub struct Duration {
    secs: u64,
    nanos: u32,
}

impl View for Duration {
    type V = nat;

    closed spec fn view(&self) -> nat {
        self.secs as nat * 1_000_000_000 + self.nanos as nat
    }
}

/// The nanoseconds of a number of whole seconds.
pub open spec fn seconds(secs: u64) -> nat {
    secs as nat * 1_000_000_000
}

/// The nanoseconds of a number of whole milliseconds.
pub open spec fn millis(ms: u64) -> nat {
    ms as nat * 1_000_000
}

impl Duration {
    #[verifier::type_invariant]
    spec fn normalized(self) -> bool {
        self.nanos < 1_000_000_000
    }

    /// A number of whole seconds.
    pub fn from_secs(secs: u64) -> (span: Self)
        ensures
            span@ == seconds(secs),
    {
        Duration { secs, nanos: 0 }
    }

    /// A number of whole milliseconds.
    pub fn from_millis(ms: u64) -> (span: Self)
        ensures
            span@ == millis(ms),
    {
        Duration { secs: ms / 1_000, nanos: ((ms % 1_000) * 1_000_000) as u32 }
    }

    /// A number of nanoseconds.
    pub fn from_nanos(nanos: u64) -> (span: Self)
        ensures
            span@ == nanos,
    {
        Duration { secs: nanos / 1_000_000_000, nanos: (nanos % 1_000_000_000) as u32 }
    }

    /// The whole seconds of the span.
    pub fn as_secs(self) -> (secs: u64)
        ensures
            secs == self@ / 1_000_000_000,
    {
        proof {
            use_type_invariant(&self);
        }
        self.secs
    }

    /// The nanoseconds past the whole seconds.
    pub fn subsec_nanos(self) -> (nanos: u32)
        ensures
            nanos == self@ % 1_000_000_000,
            nanos < 1_000_000_000,
    {
        proof {
            use_type_invariant(&self);
        }
        self.nanos
    }

    /// The nanoseconds of the span.
    pub fn as_nanos(self) -> (nanos: u128)
        ensures
            nanos == self@,
    {
        self.secs as u128 * 1_000_000_000 + self.nanos as u128
    }

    /// The whole milliseconds of the span.
    pub fn as_millis(self) -> (ms: u128)
        ensures
            ms == self@ / 1_000_000,
    {
        self.as_nanos() / 1_000_000
    }

    /// Whether the span is shorter than another.
    pub fn shorter_than(self, other: Duration) -> (shorter: bool)
        ensures
            shorter == (self@ < other@),
    {
        self.as_nanos() < other.as_nanos()
    }

    /// The span less another, or none at all when the other is longer.
    pub fn less(self, other: Duration) -> (rest: Self)
        ensures
            rest@ == if self@ >= other@ {
                (self@ - other@) as nat
            } else {
                0
            },
    {
        proof {
            use_type_invariant(&self);
            use_type_invariant(&other);
        }
        if self.shorter_than(other) {
            return Duration { secs: 0, nanos: 0 };
        }
        if self.nanos >= other.nanos {
            Duration { secs: self.secs - other.secs, nanos: self.nanos - other.nanos }
        } else {
            Duration {
                secs: self.secs - other.secs - 1,
                nanos: self.nanos + 1_000_000_000 - other.nanos,
            }
        }
    }

    /// The shorter of two spans.
    pub fn at_most(self, other: Duration) -> (span: Self)
        ensures
            span@ == if other@ < self@ {
                other@
            } else {
                self@
            },
    {
        if other.shorter_than(self) { other } else { self }
    }

    /// The longer of two spans.
    pub fn at_least(self, other: Duration) -> (span: Self)
        ensures
            span@ == if self@ < other@ {
                other@
            } else {
                self@
            },
    {
        if self.shorter_than(other) { other } else { self }
    }

    /// The whole milliseconds of the span, or the largest number there is when they do
    /// not fit.
    pub fn millis_saturating(self) -> (ms: u64)
        ensures
            ms == if self@ / 1_000_000 > u64::MAX {
                u64::MAX as nat
            } else {
                self@ / 1_000_000
            },
    {
        let ms: u128 = self.as_millis();
        if ms > u64::MAX as u128 { u64::MAX } else { ms as u64 }
    }
}

/// A span as Rust's `{:?}` writes it.
pub uninterp spec fn span_text(secs: u64, nanos: u32) -> Seq<char>;

/// `format!` with `{:?}` on a `std::time::Duration`: the span in the unit that suits it.
#[verifier::external_body]
fn debug_span(secs: u64, nanos: u32) -> (text: String)
    requires
        nanos < 1_000_000_000,
    ensures
        text@ == span_text(secs, nanos),
{
    format!("{:?}", std::time::Duration::new(secs, nanos))
}

impl Duration {
    /// The span in the unit that suits it.
    pub fn describe(self) -> (text: String)
        ensures
            text@ == span_text((self@ / 1_000_000_000) as u64, (self@ % 1_000_000_000) as u32),
    {
        let secs: u64 = self.as_secs();
        let nanos: u32 = self.subsec_nanos();
        debug_span(secs, nanos)
    }
}

} // verus!
