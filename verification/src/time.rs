//! Points in time and calendar days, as the event log orders and filters them.

use vstd::prelude::*;

verus! {

/// A calendar day, counted in days from 1 January of year 1.
#[derive(Copy, Clone, Debug, PartialEq, Eq, Structural)]
pub struct Date {
    pub day: i32,
}

/// A point in time: a calendar day, the second of that day and the
/// nanosecond of that second.
#[derive(Copy, Clone, Debug, PartialEq, Eq, Structural)]
pub struct Timestamp {
    pub day: i32,
    pub second: u32,
    pub nano: u32,
}

impl Timestamp {
    /// Strictly earlier: days first, then seconds, then nanoseconds.
    pub open spec fn before(self, other: Timestamp) -> bool {
        self.day < other.day || (self.day == other.day && (self.second < other.second || (
        self.second == other.second && self.nano < other.nano)))
    }

    /// The calendar day on which this point in time falls.
    pub open spec fn on(self) -> Date {
        Date { day: self.day }
    }

    pub fn new(day: i32, second: u32, nano: u32) -> (ts: Timestamp)
        ensures
            ts == (Timestamp { day, second, nano }),
    {
        Timestamp { day, second, nano }
    }

    /// The seconds from 1 January 1970 to this point in time; negative
    /// before that day.
    pub open spec fn unix(self) -> int {
        (self.day - 719163) * 86400 + self.second
    }

    /// The seconds from 1 January 1970 to this point in time, and 0 for a
    /// point in time before that day.
    pub fn unix_seconds(&self) -> (seconds: u64)
        ensures
            seconds == if self.unix() < 0 {
                0
            } else {
                self.unix()
            },
    {
        let days: i64 = self.day as i64 - 719163;
        let seconds: i64 = days * 86400 + self.second as i64;
        if seconds < 0 {
            0
        } else {
            seconds as u64
        }
    }

    pub fn is_before(&self, other: &Timestamp) -> (earlier: bool)
        ensures
            earlier == self.before(*other),
    {
        self.day < other.day || (self.day == other.day && (self.second < other.second || (
        self.second == other.second && self.nano < other.nano)))
    }

    pub fn date(&self) -> (date: Date)
        ensures
            date == self.on(),
    {
        Date { day: self.day }
    }
}

/// Reads the clock with `chrono::Utc::now` and splits the answer into day,
/// second of the day and nanosecond, each as chrono reports it. Nothing is
/// claimed of the value: it depends on when the call is made.
#[verifier::external_body]
pub(crate) fn current_timestamp() -> Timestamp {
    let now = chrono::Utc::now().naive_utc();
    Timestamp {
        day: chrono::Datelike::num_days_from_ce(&now),
        second: chrono::Timelike::num_seconds_from_midnight(&now),
        nano: chrono::Timelike::nanosecond(&now),
    }
}

} // verus!
