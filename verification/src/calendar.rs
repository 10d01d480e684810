//! Local calendar dates and creation timestamps.
//!
//! The ledger scopes sequence numbers and reports to the *local*
//! calendar day, so an order's creation instant is kept as the local
//! date it falls on together with the second of that day.  The clock
//! itself is an outside concern: `now_local` is the one place the
//! system time is read.

use vstd::prelude::*;

verus! {

/// A local calendar date, as year, month (1..=12) and day of month
/// (1..=31).  Dates act as plain keys: the ledger never does calendar
/// arithmetic on them, it only groups orders that share a date.
#[derive(Clone, Copy, PartialEq, Eq, Structural, Debug)]
pub struct Date {
    pub year: i32,
    pub month: u8,
    pub day: u8,
}

impl Date {
    /// The field ranges every date produced by the clock satisfies.
    pub open spec fn wf(self) -> bool {
        1 <= self.month <= 12 && 1 <= self.day <= 31
    }
}

/// The instant an order was created: its local calendar date and the
/// second of that day.  Instants compare lexicographically, date first.
#[derive(Clone, Copy, PartialEq, Eq, Structural, Debug)]
pub struct Timestamp {
    pub date: Date,
    pub secs_of_day: u32,
}

impl Timestamp {
    pub open spec fn wf(self) -> bool {
        self.date.wf() && self.secs_of_day < 86400
    }

    /// `self` is no later than `other`.
    pub open spec fn le(self, other: Timestamp) -> bool {
        if self.date.year != other.date.year {
            self.date.year < other.date.year
        } else if self.date.month != other.date.month {
            self.date.month < other.date.month
        } else if self.date.day != other.date.day {
            self.date.day < other.date.day
        } else {
            self.secs_of_day <= other.secs_of_day
        }
    }
}

/// Reads the wall clock.  Relies on `chrono::Local::now` and the
/// `Datelike` / `Timelike` accessors: `month` is 1..=12, `day` is
/// 1..=31, and `num_seconds_from_midnight` counts non-leap seconds
/// past midnight, below 86400.
#[verifier::external_body]
pub(crate) fn now_local() -> (t: Timestamp)
    ensures
        t.wf(),
{
    let now = chrono::Local::now();
    let date = chrono::DateTime::date_naive(&now);
    Timestamp {
        date: Date {
            year: chrono::Datelike::year(&date),
            month: chrono::Datelike::month(&date) as u8,
            day: chrono::Datelike::day(&date) as u8,
        },
        secs_of_day: chrono::Timelike::num_seconds_from_midnight(&now),
    }
}

} // verus!
