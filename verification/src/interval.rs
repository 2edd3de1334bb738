//! The recurrence period of a task and the marker of the period it was last seen in.

use crate::today::Today;
use vstd::prelude::*;

verus! {

/// How often a task recurs, together with its period marker: the day of the month (daily) or
/// the ISO week of the year (weekly) for which the task's completion flag was last known to be
/// valid.
#[derive(Clone, Copy, Debug, PartialEq, Eq, Structural)]
pub enum Interval {
    Daily(u8),
    Weekly(u8),
}

impl Interval {
    /// The stored period marker, whichever the variant.
    pub open spec fn marker(self) -> u8 {
        match self {
            Interval::Daily(m) => m,
            Interval::Weekly(m) => m,
        }
    }

    /// Whether the period is a daily one.
    pub open spec fn daily(self) -> bool {
        self is Daily
    }

    /// Whether the marker is one a calendar can show: a day from 1 to 31 for a daily period, a
    /// week from 1 to 53 for a weekly one.
    pub open spec fn in_calendar(self) -> bool {
        match self {
            Interval::Daily(m) => 1 <= m <= 31,
            Interval::Weekly(m) => 1 <= m <= 53,
        }
    }

    /// The marker that a period of this kind has on the given date: the day of the month for a
    /// daily period, the ISO week for a weekly one.
    pub open spec fn marker_on(self, today: Today) -> u8 {
        match self {
            Interval::Daily(_) => today.day,
            Interval::Weekly(_) => today.week,
        }
    }

    /// A period is stale when its marker is behind the date's. The comparison is numeric and
    /// strict, so a marker from the end of one month or year is not behind the first day or week
    /// of the next.
    pub open spec fn stale(self, today: Today) -> bool {
        self.marker() < self.marker_on(today)
    }

    /// The same kind of period with the marker brought up to the given date.
    pub open spec fn moved_to(self, today: Today) -> Interval {
        match self {
            Interval::Daily(_) => Interval::Daily(today.day),
            Interval::Weekly(_) => Interval::Weekly(today.week),
        }
    }

    /// The period of a task created on the given date.
    pub open spec fn started_on(is_daily: bool, today: Today) -> Interval {
        if is_daily {
            Interval::Daily(today.day)
        } else {
            Interval::Weekly(today.week)
        }
    }

    /// Returns the stored period marker, whichever the variant.
    pub fn extract(&self) -> (m: u8)
        ensures
            m == self.marker(),
    {
        match self {
            Self::Daily(s) => *s,
            Self::Weekly(s) => *s,
        }
    }

    /// Whether the period is a daily one.
    pub fn is_daily(&self) -> (d: bool)
        ensures
            d == self.daily(),
    {
        match self {
            Self::Daily(_) => true,
            Self::Weekly(_) => false,
        }
    }

    /// The period of a task created on the given date: daily or weekly as asked, with the
    /// marker taken from the date.
    pub fn starting(is_daily: bool, today: Today) -> (p: Interval)
        ensures
            p == Interval::started_on(is_daily, today),
    {
        if is_daily {
            Interval::Daily(today.day)
        } else {
            Interval::Weekly(today.week)
        }
    }

    /// Whether the marker is behind the given date, so that the task has to be reset.
    pub fn is_stale(&self, today: Today) -> (s: bool)
        ensures
            s == self.stale(today),
    {
        match self {
            Self::Daily(_) => self.extract() < today.day,
            Self::Weekly(_) => self.extract() < today.week,
        }
    }
}

} // verus!
