//! Calendar days, the clock, and the days on which betting is suspended.

use vstd::prelude::*;

verus! {

/// A day of the year: a month and a day of that month, without a year.
#[derive(Clone, Copy, Debug, PartialEq, Eq, Structural)]
pub struct CalendarDay {
    pub month: u32,
    pub day: u32,
}

impl CalendarDay {
    /// The month is 1 to 12 and the day 1 to 31.
    pub open spec fn in_calendar(self) -> bool {
        1 <= self.month <= 12 && 1 <= self.day <= 31
    }

    /// `self` lies strictly before `other`: in an earlier month, or earlier
    /// in the same month.
    pub open spec fn precedes(self, other: CalendarDay) -> bool {
        self.month < other.month || (self.month == other.month && self.day < other.day)
    }

    pub fn new(month: u32, day: u32) -> (date: CalendarDay)
        ensures
            date.month == month,
            date.day == day,
    {
        CalendarDay { month, day }
    }

    /// Tells whether `self` lies strictly before `other`.
    pub fn is_before(&self, other: &CalendarDay) -> (before: bool)
        ensures
            before == self.precedes(*other),
    {
        self.month < other.month || (self.month == other.month && self.day < other.day)
    }
}

/// Trusted: `chrono::Utc::now` with `Datelike::month` and `Datelike::day`.
/// The result depends on the clock, so only the ranges that chrono documents
/// are claimed: a month of 1 to 12 and a day of 1 to 31. chrono aborts where
/// the system clock stands before 1970.
#[verifier::external_body]
pub(crate) fn utc_today() -> (today: CalendarDay)
    ensures
        today.in_calendar(),
{
    let now = chrono::Utc::now();
    CalendarDay { month: chrono::Datelike::month(&now), day: chrono::Datelike::day(&now) }
}

/// The days on which no status is polled and no bet is placed.
pub open spec fn blackout_days() -> Set<CalendarDay> {
    set![CalendarDay { month: 9, day: 6 }]
}

/// Tells whether betting is suspended on `today`.
pub fn is_excluded_date(today: &CalendarDay) -> (excluded: bool)
    ensures
        excluded == blackout_days().contains(*today),
{
    today.month == 9 && today.day == 6
}

} // verus!
