//! A wrapper over the system clock, and the rule that tells whether a
//! date is Christmas day.  The clock is the one boundary: the rule itself
//! is a pure function of month and day.

use chrono::Datelike;
use vstd::prelude::*;

verus! {

/// The current date, read from the system clock in UTC.
pub struct Clock;

impl Clock {
    /// Relies on chrono::Utc::now and chrono::Datelike::month: the month
    /// number of the current UTC date, which chrono documents to range
    /// from 1 to 12.  Note that chrono::Utc::now panics on a machine
    /// whose clock stands before the Unix epoch.
    #[verifier::external_body]
    pub fn month(&self) -> (month: u32)
        ensures
            1 <= month <= 12,
    {
        let today = chrono::Utc::now();
        today.month()
    }

    /// Relies on chrono::Utc::now and chrono::Datelike::day: the day of
    /// month of the current UTC date, which chrono documents to range
    /// from 1 to 31.  Note that chrono::Utc::now panics on a machine
    /// whose clock stands before the Unix epoch.
    #[verifier::external_body]
    pub fn day(&self) -> (day: u32)
        ensures
            1 <= day <= 31,
    {
        let today = chrono::Utc::now();
        today.day()
    }
}

/// Decides whether a discount day has come: the discounted day is the
/// 25th of December.
pub struct ChristmasDiscount {
    clock: Clock,
}

impl ChristmasDiscount {
    pub fn new(clock: Clock) -> (discount: Self) {
        ChristmasDiscount { clock }
    }

    /// Whether the given date is Christmas day.
    pub fn is_christmas_on(month: u32, day: u32) -> (christmas: bool)
        ensures
            christmas == (month == 12 && day == 25),
    {
        month == 12 && day == 25
    }

    /// Whether today, as the clock reads it, is Christmas day.  The date
    /// comes from the clock, so nothing more than the rule itself can be
    /// promised of the answer.
    pub fn is_christmas(&self) -> bool {
        let month = self.clock.month();
        let day = self.clock.day();
        Self::is_christmas_on(month, day)
    }
}

} // verus!
