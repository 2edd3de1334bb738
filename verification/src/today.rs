//! The two numbers of a date that recurrence looks at.

use vstd::prelude::*;

verus! {

/// A date as far as recurrence is concerned: the day of the month and the ISO week of the year.
/// The host reads the clock and hands the date in.
#[derive(Clone, Copy, Debug, PartialEq, Eq, Structural)]
pub struct Today {
    pub day: u8,
    pub week: u8,
}

impl Today {
    /// Whether both numbers are ones a calendar can show: a day from 1 to 31 and a week from 1
    /// to 53.
    pub open spec fn in_calendar(self) -> bool {
        &&& 1 <= self.day <= 31
        &&& 1 <= self.week <= 53
    }

    /// The date with the given day of the month and ISO week, as a calendar reports them.
    ///
    /// Numbers that no calendar shows give nothing; all others are kept as they are, narrowed to
    /// the bytes that period markers are stored in.
    pub fn from_calendar(day: u32, week: u32) -> (today: Option<Today>)
        ensures
            match today {
                Some(t) => t.day == day && t.week == week && t.in_calendar(),
                None => !(1 <= day <= 31 && 1 <= week <= 53),
            },
    {
        if 1 <= day && day <= 31 && 1 <= week && week <= 53 {
            Some(Today { day: day as u8, week: week as u8 })
        } else {
            None
        }
    }
}

} // verus!
