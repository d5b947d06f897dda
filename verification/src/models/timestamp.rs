//! Points in time at the resolution at which the store persists them: whole
//! seconds since 1970-01-01T00:00:00Z, within the span of the calendar.

use chrono::{DateTime, TimeZone, Utc};
use vstd::prelude::*;

verus! {

/// Seconds since the epoch of the first instant of the calendar
/// (the start of the year -262143).
pub const MIN_TIMESTAMP_SECONDS: i64 = -8_334_601_228_800;

/// Seconds since the epoch of the last whole second of the calendar
/// (the end of the year 262142).
pub const MAX_TIMESTAMP_SECONDS: i64 = 8_210_266_876_799;

/// Whether a number of seconds since the epoch names an instant of the calendar.
pub open spec fn representable(seconds: int) -> bool {
    MIN_TIMESTAMP_SECONDS <= seconds <= MAX_TIMESTAMP_SECONDS
}

/// The instant, in seconds since the epoch, that a strict RFC 3339 date-time
/// string denotes according to chrono, or `None` where chrono refuses the
/// string.
pub uninterp spec fn rfc3339_seconds(text: Seq<char>) -> Option<int>;

/// Converts a number of seconds through chrono: `Utc.timestamp_opt(seconds, 0)`,
/// then `single()`, then `DateTime::timestamp` on what came back.
///
/// Trusted: chrono accepts exactly the seconds that fall within its calendar,
/// from the first second of the year -262143 to the last second of the year
/// 262142, and the instant it builds reports the same number of seconds.
#[verifier::external_body]
fn calendar_seconds(seconds: i64) -> (accepted: Option<i64>)
    ensures
        accepted == if representable(seconds as int) {
            Some(seconds)
        } else {
            None::<i64>
        },
{
    Utc.timestamp_opt(seconds, 0).single().map(|instant| instant.timestamp())
}

/// Parses a date-time with `DateTime::parse_from_rfc3339`, moves it to UTC
/// with `with_timezone` and reads its seconds with `DateTime::timestamp`.
///
/// Trusted: whether the string is accepted and the instant it denotes depend
/// on the string alone, and every instant that chrono builds lies within its
/// calendar.
#[verifier::external_body]
fn rfc3339_to_seconds(value: &str) -> (parsed: Option<i64>)
    ensures
        parsed is Some <==> rfc3339_seconds(value@) is Some,
        parsed matches Some(seconds) ==> rfc3339_seconds(value@) == Some(seconds as int)
            && representable(seconds as int),
{
    DateTime::parse_from_rfc3339(value).ok().map(|instant| instant.with_timezone(&Utc).timestamp())
}

/// An instant of the calendar, at whole-second resolution.
#[derive(Debug, Clone, Copy, PartialEq, Eq, Structural)]
pub struct Timestamp {
    seconds: i64,
}

impl View for Timestamp {
    type V = int;

    closed spec fn view(&self) -> int {
        self.seconds as int
    }
}

impl DeepView for Timestamp {
    type V = int;

    open spec fn deep_view(&self) -> int {
        self.view()
    }
}

impl Timestamp {
    /// Every instant lies within the calendar.
    #[verifier::type_invariant]
    pub open spec fn within_calendar(self) -> bool {
        representable(self@)
    }

    /// The instant `seconds` after the epoch, or `None` where the calendar
    /// does not reach that far.
    pub fn from_seconds(seconds: i64) -> (instant: Option<Timestamp>)
        ensures
            instant is Some <==> representable(seconds as int),
            instant matches Some(t) ==> t@ == seconds,
    {
        match calendar_seconds(seconds) {
            Some(accepted) => Some(Timestamp { seconds: accepted }),
            None => None,
        }
    }

    /// Seconds since the epoch; this is the form in which the store keeps an
    /// instant.
    pub fn seconds(&self) -> (seconds: i64)
        ensures
            seconds == self@,
            representable(seconds as int),
    {
        proof {
            use_type_invariant(self);
        }
        self.seconds
    }

    /// Reads a strict RFC 3339 date-time. Fractions of a second are dropped.
    pub fn parse_rfc3339(value: &str) -> (instant: Option<Timestamp>)
        ensures
            instant is Some <==> rfc3339_seconds(value@) is Some,
            instant matches Some(t) ==> rfc3339_seconds(value@) == Some(t@),
    {
        match rfc3339_to_seconds(value) {
            Some(seconds) => Some(Timestamp { seconds }),
            None => None,
        }
    }

    /// This instant moved by `delta` seconds, or `None` where that leaves the
    /// calendar.
    pub fn checked_add_seconds(&self, delta: i64) -> (moved: Option<Timestamp>)
        ensures
            moved is Some <==> representable(self@ + delta),
            moved matches Some(t) ==> t@ == self@ + delta,
    {
        proof {
            use_type_invariant(self);
        }
        match self.seconds.checked_add(delta) {
            Some(sum) => {
                if MIN_TIMESTAMP_SECONDS <= sum && sum <= MAX_TIMESTAMP_SECONDS {
                    Some(Timestamp { seconds: sum })
                } else {
                    None
                }
            },
            None => None,
        }
    }

    /// Whether this instant is not later than `other`.
    pub fn is_at_or_before(&self, other: &Timestamp) -> (earlier: bool)
        ensures
            earlier == (self@ <= other@),
    {
        self.seconds <= other.seconds
    }

    /// Whether this instant is later than `other`.
    pub fn is_after(&self, other: &Timestamp) -> (later: bool)
        ensures
            later == (self@ > other@),
    {
        self.seconds > other.seconds
    }

    /// Two instants are the same value exactly when they are the same number
    /// of seconds.
    pub proof fn lemma_view_injective(a: Timestamp, b: Timestamp)
        ensures
            a@ == b@ <==> a == b,
    {
    }
}

} // verus!
