//! Calendar dates as day numbers.
//!
//! A [`Date`] is a day of the proleptic Gregorian calendar, held as the
//! number of days since the start of the common era (January 1 of year 1 is
//! day 1). Ordering, distance and stepping are integer arithmetic on that
//! number; what only a calendar can answer (the day of the week, the civil
//! year, month and day) is asked of `chrono`.

use chrono::Datelike;
use vstd::prelude::*;

verus! {

/// Day number of the earliest date that `chrono` represents
/// (January 1 of year -262143).
pub const MIN_DAYS: i32 = -95_746_129;

/// Day number of the latest date that `chrono` represents
/// (December 31 of year 262142).
pub const MAX_DAYS: i32 = 95_745_399;

/// Whether a day number names a representable date.
pub open spec fn in_range(day_number: int) -> bool {
    MIN_DAYS <= day_number <= MAX_DAYS
}

/// The day of the week of the date with the given day number, counted from
/// Monday (Monday is 0, Sunday is 6), as `chrono` reports it.
pub uninterp spec fn weekday_index(day_number: int) -> int;

/// The day number of the civil date `year`-`month`-`day`, or `None` where the
/// calendar has no such date, as `chrono` reports it.
pub uninterp spec fn ymd_day_number(year: int, month: int, day: int) -> Option<int>;

/// The civil year of the date with the given day number, as `chrono`
/// reports it.
pub uninterp spec fn civil_year(day_number: int) -> int;

/// The civil month (1 to 12) of the date with the given day number, as
/// `chrono` reports it.
pub uninterp spec fn civil_month(day_number: int) -> int;

/// The day of the month (1 to 31) of the date with the given day number, as
/// `chrono` reports it.
pub uninterp spec fn civil_day(day_number: int) -> int;

/// The three-letter English name of a month.
pub open spec fn short_month_name(month: int) -> Seq<char> {
    if month == 1 {
        "Jan"@
    } else if month == 2 {
        "Feb"@
    } else if month == 3 {
        "Mar"@
    } else if month == 4 {
        "Apr"@
    } else if month == 5 {
        "May"@
    } else if month == 6 {
        "Jun"@
    } else if month == 7 {
        "Jul"@
    } else if month == 8 {
        "Aug"@
    } else if month == 9 {
        "Sep"@
    } else if month == 10 {
        "Oct"@
    } else if month == 11 {
        "Nov"@
    } else {
        "Dec"@
    }
}

/// A calendar date.
#[derive(Debug, Clone, Copy, PartialEq, Eq, PartialOrd, Ord, Hash, Structural)]
pub struct Date {
    days: i32,
}

impl View for Date {
    type V = int;

    /// The day number of the date.
    closed spec fn view(&self) -> int {
        self.days as int
    }
}

/// Calls `chrono`'s `Datelike::weekday` on the date with the given day
/// number and converts the answer with `Weekday::num_days_from_monday`.
/// Trusted: the result is the name `weekday_index` at that day number, and
/// lies in `0..7` as the documentation of `num_days_from_monday` tabulates.
#[verifier::external_body]
fn chrono_weekday(days: i32) -> (r: u32)
    requires
        in_range(days as int),
    ensures
        r == weekday_index(days as int),
        r < 7,
{
    chrono::NaiveDate::from_num_days_from_ce_opt(days).unwrap().weekday().num_days_from_monday()
}

/// Calls `chrono`'s `Datelike::year` on the date with the given day number.
/// Trusted: the result is the name `civil_year` at that day number.
#[verifier::external_body]
fn chrono_year(days: i32) -> (r: i32)
    requires
        in_range(days as int),
    ensures
        r == civil_year(days as int),
{
    chrono::NaiveDate::from_num_days_from_ce_opt(days).unwrap().year()
}

/// Calls `chrono`'s `Datelike::month` on the date with the given day
/// number. Trusted: the result is the name `civil_month` at that day number,
/// and ranges from 1 to 12 as the documentation says.
#[verifier::external_body]
fn chrono_month(days: i32) -> (r: u32)
    requires
        in_range(days as int),
    ensures
        r == civil_month(days as int),
        1 <= r <= 12,
{
    chrono::NaiveDate::from_num_days_from_ce_opt(days).unwrap().month()
}

/// Calls `chrono`'s `Datelike::day` on the date with the given day number.
/// Trusted: the result is the name `civil_day` at that day number, and
/// ranges from 1 to 31 as the documentation says.
#[verifier::external_body]
fn chrono_day(days: i32) -> (r: u32)
    requires
        in_range(days as int),
    ensures
        r == civil_day(days as int),
        1 <= r <= 31,
{
    chrono::NaiveDate::from_num_days_from_ce_opt(days).unwrap().day()
}

/// Formats the date with the given day number by `chrono`'s
/// `NaiveDate::format` and the pattern `%b`, the abbreviated month name.
/// Trusted: the text is the three-letter English name of the date's month.
#[verifier::external_body]
fn chrono_short_month(days: i32) -> (r: String)
    requires
        in_range(days as int),
    ensures
        r@ == short_month_name(civil_month(days as int)),
{
    chrono::NaiveDate::from_num_days_from_ce_opt(days).unwrap().format("%b").to_string()
}

/// Calls `chrono`'s `NaiveDate::from_ymd_opt` and reads the day number of
/// the date it makes with `Datelike::num_days_from_ce`.
/// Trusted: the result is the name `ymd_day_number` at the arguments, and a
/// date that was made has a day number between those of `NaiveDate::MIN`
/// and `NaiveDate::MAX`.
#[verifier::external_body]
fn chrono_from_ymd(year: i32, month: u32, day: u32) -> (r: Option<i32>)
    ensures
        match r {
            Some(n) => in_range(n as int) && ymd_day_number(
                year as int,
                month as int,
                day as int,
            ) == Some(n as int),
            None => ymd_day_number(year as int, month as int, day as int) is None,
        },
{
    match chrono::NaiveDate::from_ymd_opt(year, month, day) {
        Some(date) => Some(date.num_days_from_ce()),
        None => None,
    }
}

/// Calls `chrono`'s `Local::now` and takes the calendar date of that moment
/// with `DateTime::date_naive`, as its day number.
/// Trusted: only that the date is one `chrono` represents; which date it is
/// depends on the clock and the time zone.
#[verifier::external_body]
fn chrono_today() -> (r: i32)
    ensures
        in_range(r as int),
{
    chrono::Local::now().date_naive().num_days_from_ce()
}

/// Two dates are equal exactly when their day numbers are.
pub proof fn lemma_date_equality(a: Date, b: Date)
    ensures
        (a == b) <==> (a@ == b@),
{
}

impl Date {
    #[verifier::type_invariant]
    spec fn representable(self) -> bool {
        in_range(self.days as int)
    }

    /// The date with the given day number, if it is representable.
    pub fn from_num_days_from_ce_opt(days: i32) -> (r: Option<Date>)
        ensures
            match r {
                Some(d) => in_range(days as int) && d@ == days,
                None => !in_range(days as int),
            },
    {
        if MIN_DAYS <= days && days <= MAX_DAYS {
            Some(Date { days })
        } else {
            None
        }
    }

    /// The date `year`-`month`-`day`, if the calendar has it.
    pub fn from_ymd_opt(year: i32, month: u32, day: u32) -> (r: Option<Date>)
        ensures
            match r {
                Some(d) => ymd_day_number(year as int, month as int, day as int) == Some(d@),
                None => ymd_day_number(year as int, month as int, day as int) is None,
            },
    {
        match chrono_from_ymd(year, month, day) {
            Some(days) => Some(Date { days }),
            None => None,
        }
    }

    /// Today's date on the local clock: some representable date.
    pub fn today() -> (r: Date)
        ensures
            in_range(r@),
    {
        Date { days: chrono_today() }
    }

    /// The day number of the date; it always names a representable date.
    pub fn num_days_from_ce(&self) -> (r: i32)
        ensures
            r == self@,
            in_range(self@),
    {
        proof {
            use_type_invariant(self);
        }
        self.days
    }

    /// The day of the week, counted from Monday (0) to Sunday (6).
    pub fn weekday_from_monday(&self) -> (r: u32)
        ensures
            r == weekday_index(self@),
            r < 7,
    {
        proof {
            use_type_invariant(self);
        }
        chrono_weekday(self.days)
    }

    /// The civil year of the date.
    pub fn year(&self) -> (r: i32)
        ensures
            r == civil_year(self@),
    {
        proof {
            use_type_invariant(self);
        }
        chrono_year(self.days)
    }

    /// The civil month of the date, from 1 to 12.
    pub fn month(&self) -> (r: u32)
        ensures
            r == civil_month(self@),
            1 <= r <= 12,
    {
        proof {
            use_type_invariant(self);
        }
        chrono_month(self.days)
    }

    /// The day of the month, from 1 to 31.
    pub fn day(&self) -> (r: u32)
        ensures
            r == civil_day(self@),
            1 <= r <= 31,
    {
        proof {
            use_type_invariant(self);
        }
        chrono_day(self.days)
    }

    /// The three-letter English name of the date's month.
    pub fn short_month(&self) -> (r: String)
        ensures
            r@ == short_month_name(civil_month(self@)),
    {
        proof {
            use_type_invariant(self);
        }
        chrono_short_month(self.days)
    }

    /// Whether this date lies strictly before `other`.
    pub fn is_before(&self, other: &Date) -> (r: bool)
        ensures
            r == (self@ < other@),
    {
        self.days < other.days
    }

    /// The date `n` days after this one (before it, for a negative `n`).
    /// That date must be representable: not after the latest date for a
    /// step forward, not before the earliest for a step back.
    pub fn add_days(&self, n: i32) -> (r: Date)
        requires
            n >= 0 ==> self@ + n <= MAX_DAYS,
            n <= 0 ==> self@ + n >= MIN_DAYS,
        ensures
            r@ == self@ + n,
            in_range(r@),
    {
        proof {
            use_type_invariant(self);
        }
        Date { days: self.days + n }
    }

    /// The date `n` days after this one, or `None` where that date is not
    /// representable.
    pub fn checked_add_days(&self, n: i32) -> (r: Option<Date>)
        ensures
            match r {
                Some(d) => in_range(self@ + n) && d@ == self@ + n,
                None => !in_range(self@ + n),
            },
    {
        proof {
            use_type_invariant(self);
        }
        match self.days.checked_add(n) {
            Some(days) => Date::from_num_days_from_ce_opt(days),
            None => None,
        }
    }
}

} // verus!
