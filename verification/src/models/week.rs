//! Monday-anchored weeks.

use crate::models::date::{
    civil_day, civil_month, civil_year, in_range, short_month_name, weekday_index, Date,
};
use crate::text::{decimal, int_to_string};
use vstd::prelude::*;

verus! {

/// A week, named by the date it starts on. A week made by
/// [`Week::containing`] starts on the Monday on or before the given date.
#[derive(Debug, Clone, Copy, PartialEq, Eq, Structural)]
pub struct Week {
    /// The Monday of this week.
    pub start: Date,
}

/// The number of days from the Monday on or before a date to the date
/// itself.
pub open spec fn days_since_monday(day_number: int) -> nat {
    if weekday_index(day_number) > 0 {
        weekday_index(day_number) as nat
    } else {
        0
    }
}

/// The day number of the Monday on or before the date with the given day
/// number.
pub open spec fn monday_of(day_number: int) -> int {
    day_number - days_since_monday(day_number)
}

/// The text of a week that starts on the given day number: `Oct 13-19, 2025`
/// where the week lies in one month, `Sep 29-Oct 5, 2025` where it does not.
/// The year is that of the first day.
pub open spec fn week_label(start: int) -> Seq<char> {
    let end = start + 6;
    let head = short_month_name(civil_month(start)) + " "@ + decimal(civil_day(start)) + "-"@;
    let tail = decimal(civil_day(end)) + ", "@ + decimal(civil_year(start));
    if civil_month(start) == civil_month(end) {
        head + tail
    } else {
        head + short_month_name(civil_month(end)) + " "@ + tail
    }
}

/// The short name of the weekday with the given index (0 is Monday), and
/// `???` for an index that names no weekday.
pub open spec fn short_weekday_name(index: int) -> Seq<char> {
    if index == 0 {
        "Mon"@
    } else if index == 1 {
        "Tue"@
    } else if index == 2 {
        "Wed"@
    } else if index == 3 {
        "Thu"@
    } else if index == 4 {
        "Fri"@
    } else if index == 5 {
        "Sat"@
    } else if index == 6 {
        "Sun"@
    } else {
        "???"@
    }
}

/// The full name of the weekday with the given index (0 is Monday).
pub open spec fn long_weekday_name(index: int) -> Seq<char> {
    if index == 0 {
        "Monday"@
    } else if index == 1 {
        "Tuesday"@
    } else if index == 2 {
        "Wednesday"@
    } else if index == 3 {
        "Thursday"@
    } else if index == 4 {
        "Friday"@
    } else if index == 5 {
        "Saturday"@
    } else {
        "Sunday"@
    }
}

impl Week {
    /// Whether all seven days of the week are representable dates.
    pub open spec fn complete(self) -> bool {
        in_range(self.start@ + 6)
    }

    /// Create a week containing the given date. The Monday on or before the
    /// date must be representable.
    pub fn containing(date: Date) -> (r: Self)
        requires
            in_range(monday_of(date@)),
        ensures
            r.start@ == monday_of(date@),
            date@ - 6 <= r.start@ <= date@,
    {
        Week { start: Week::get_monday(date) }
    }

    /// Create a week containing the given date, or `None` where the Monday
    /// on or before the date is not representable.
    pub fn checked_containing(date: Date) -> (r: Option<Self>)
        ensures
            match r {
                Some(week) => {
                    &&& in_range(monday_of(date@))
                    &&& week.start@ == monday_of(date@)
                    &&& date@ - 6 <= week.start@ <= date@
                },
                None => !in_range(monday_of(date@)),
            },
    {
        let back: u32 = date.weekday_from_monday();
        let days: i32 = date.num_days_from_ce();
        if days - (back as i32) >= crate::models::date::MIN_DAYS {
            Some(Week::containing(date))
        } else {
            None
        }
    }

    /// The week containing today's date on the local clock, or `None` where
    /// its Monday is not representable.
    pub fn current() -> (r: Option<Self>)
        ensures
            exists|today: int|
                match r {
                    Some(week) => in_range(monday_of(today)) && week.start@ == monday_of(today),
                    None => !in_range(monday_of(today)),
                },
    {
        let today = Date::today();
        let r = Week::checked_containing(today);
        assert(match r {
            Some(week) => in_range(monday_of(today@)) && week.start@ == monday_of(today@),
            None => !in_range(monday_of(today@)),
        });
        r
    }

    /// Get the Monday of the week containing the given date.
    pub fn get_monday(date: Date) -> (r: Date)
        requires
            in_range(monday_of(date@)),
        ensures
            r@ == monday_of(date@),
            date@ - 6 <= r@ <= date@,
    {
        let days_since_monday: u32 = date.weekday_from_monday();
        date.add_days(-(days_since_monday as i32))
    }

    /// Get all 7 days of this week (Monday through Sunday).
    pub fn days(&self) -> (r: [Date; 7])
        requires
            self.complete(),
        ensures
            forall|i: int| 0 <= i < 7 ==> (#[trigger] r@[i])@ == self.start@ + i,
    {
        [
            self.start,
            self.start.add_days(1),
            self.start.add_days(2),
            self.start.add_days(3),
            self.start.add_days(4),
            self.start.add_days(5),
            self.start.add_days(6),
        ]
    }

    /// Get the day at a specific index (0 = Monday, 6 = Sunday).
    pub fn day(&self, index: usize) -> (r: Option<Date>)
        requires
            index < 7 ==> in_range(self.start@ + index),
        ensures
            match r {
                Some(date) => index < 7 && date@ == self.start@ + index,
                None => index >= 7,
            },
    {
        if index < 7 {
            Some(self.start.add_days(index as i32))
        } else {
            None
        }
    }

    /// Get the Sunday of this week.
    pub fn end(&self) -> (r: Date)
        requires
            self.complete(),
        ensures
            r@ == self.start@ + 6,
    {
        self.start.add_days(6)
    }

    /// Move to the next week.
    pub fn next(&self) -> (r: Self)
        requires
            in_range(self.start@ + 7),
        ensures
            r.start@ == self.start@ + 7,
    {
        Week { start: self.start.add_days(7) }
    }

    /// Move to the previous week.
    pub fn prev(&self) -> (r: Self)
        requires
            in_range(self.start@ - 7),
        ensures
            r.start@ == self.start@ - 7,
    {
        Week { start: self.start.add_days(-7) }
    }

    /// Format the week as "Oct 7-13, 2025".
    pub fn format(&self) -> (r: String)
        requires
            self.complete(),
        ensures
            r@ == week_label(self.start@),
    {
        let end = self.end();
        let mut text = self.start.short_month();
        text.append(" ");
        text.append(int_to_string(self.start.day() as i32).as_str());
        text.append("-");
        if self.start.month() != end.month() {
            text.append(end.short_month().as_str());
            text.append(" ");
        }
        text.append(int_to_string(end.day() as i32).as_str());
        text.append(", ");
        text.append(int_to_string(self.start.year()).as_str());
        assert(text@ =~= week_label(self.start@));
        text
    }

    /// Get the weekday name for a day index (0 = Mon, 6 = Sun).
    pub fn weekday_name(index: usize) -> (r: &'static str)
        ensures
            r@ == short_weekday_name(index as int),
    {
        match index {
            0 => "Mon",
            1 => "Tue",
            2 => "Wed",
            3 => "Thu",
            4 => "Fri",
            5 => "Sat",
            6 => "Sun",
            _ => "???",
        }
    }

    /// Get the full weekday name for a date.
    pub fn full_weekday_name(date: Date) -> (r: &'static str)
        ensures
            r@ == long_weekday_name(weekday_index(date@)),
    {
        let index: u32 = date.weekday_from_monday();
        match index {
            0 => "Monday",
            1 => "Tuesday",
            2 => "Wednesday",
            3 => "Thursday",
            4 => "Friday",
            5 => "Saturday",
            _ => "Sunday",
        }
    }
}

} // verus!
