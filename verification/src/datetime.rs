//! Plain representations of wall-clock instants and time spans.

use vstd::prelude::*;

verus! {

/// A wall-clock instant, counted in milliseconds since the Unix epoch, in
/// UTC.
#[derive(Clone, Copy, Debug, PartialEq, Eq, Structural, Hash)]
pub struct DateTime {
    /// Milliseconds since the Unix epoch.
    pub millis: i64,
}

impl DateTime {
    /// Builds an instant from a count of milliseconds since the Unix epoch.
    pub fn from_millis(millis: i64) -> (r: DateTime)
        ensures
            r.millis == millis,
    {
        DateTime { millis }
    }

    /// The count of milliseconds since the Unix epoch.
    pub fn as_millis(&self) -> (r: i64)
        ensures
            r == self.millis,
    {
        self.millis
    }
}

/// A non-negative span of time, counted in milliseconds.
#[derive(Clone, Copy, Debug, PartialEq, Eq, Structural, Hash)]
pub struct Duration {
    /// The span's length in milliseconds.
    pub millis: u64,
}

impl Duration {
    /// Builds a span from a count of milliseconds.
    pub fn from_millis(millis: u64) -> (r: Duration)
        ensures
            r.millis == millis,
    {
        Duration { millis }
    }

    /// The span's length in milliseconds.
    pub fn as_millis(&self) -> (r: u64)
        ensures
            r == self.millis,
    {
        self.millis
    }
}

/// Relies on `chrono::Utc::now` for the current wall-clock time; nothing
/// is promised of the instant it returns.  Like the clock itself, this
/// aborts on a host whose system time is set before 1970.
#[verifier::external_body]
pub(crate) fn now() -> DateTime {
    DateTime { millis: chrono::Utc::now().timestamp_millis() }
}

} // verus!
