//! The wall clock.

use vstd::prelude::*;

verus! {

/// One reading of the local wall clock.
#[derive(Debug, Clone, Copy, PartialEq, Eq, Structural)]
pub struct Moment {
    /// The local calendar date, counted in days of the proleptic Gregorian
    /// calendar with 1 January of year 1 as day 1.
    pub day: i32,
    /// Milliseconds since 1970-01-01T00:00:00Z.
    pub millis: i64,
}

/// Reads the clock with `chrono::Local::now`. The date is that of
/// `DateTime::date_naive`, numbered by `Datelike::num_days_from_ce`; the
/// instant is `DateTime::timestamp_millis`. What comes back depends on when
/// and where the call is made, so nothing is claimed of it. chrono panics
/// where the system clock stands before 1970.
#[verifier::external_body]
pub(crate) fn local_now() -> (now: Moment) {
    let now = chrono::Local::now();
    Moment {
        day: chrono::Datelike::num_days_from_ce(&now.date_naive()),
        millis: now.timestamp_millis(),
    }
}

} // verus!
