//! Civil date-times of the proleptic Gregorian calendar, as plain numbers.

use chrono::{Datelike, FixedOffset, NaiveDate, Timelike};
use vstd::prelude::*;

verus! {

/// The first year that a civil time can name.
pub const MIN_YEAR: i32 = -262_143;

/// The last year that a civil time can name.
pub const MAX_YEAR: i32 = 262_142;

/// The number of seconds in a day.
pub const SECONDS_PER_DAY: i32 = 86_400;

/// A date and a time of day without a time zone.
#[derive(Clone, Copy, Debug, PartialEq, Eq, Structural)]
pub struct CivilTime {
    pub year: i32,
    pub month: u32,
    pub day: u32,
    pub hour: u32,
    pub minute: u32,
    pub second: u32,
}

/// Whether `year` has a 29th of February.
pub open spec fn is_leap_year(year: int) -> bool {
    year % 4 == 0 && (year % 100 != 0 || year % 400 == 0)
}

/// The number of days of `month` in `year`, for a month from 1 to 12.
pub open spec fn days_in_month(year: int, month: int) -> int {
    if month == 2 {
        if is_leap_year(year) { 29 } else { 28 }
    } else if month == 4 || month == 6 || month == 9 || month == 11 {
        30
    } else {
        31
    }
}

impl CivilTime {
    /// The value names a day that exists and a time of day on the 24-hour clock.
    pub open spec fn wf(self) -> bool {
        &&& MIN_YEAR <= self.year <= MAX_YEAR
        &&& 1 <= self.month <= 12
        &&& 1 <= self.day <= days_in_month(self.year as int, self.month as int)
        &&& self.hour < 24
        &&& self.minute < 60
        &&& self.second < 60
    }

    /// The seconds that have passed since midnight.
    pub open spec fn seconds_into_day(self) -> int {
        self.hour * 3600 + self.minute * 60 + self.second
    }

    /// The same day at `seconds` after midnight, for `0 <= seconds < 86_400`.
    pub open spec fn at_seconds_into_day(self, seconds: int) -> CivilTime {
        CivilTime {
            hour: (seconds / 3600) as u32,
            minute: ((seconds % 3600) / 60) as u32,
            second: (seconds % 60) as u32,
            ..self
        }
    }

    /// The same time of day one day earlier, or `None` before the first day of `MIN_YEAR`.
    pub open spec fn previous_day(self) -> Option<CivilTime> {
        if self.day > 1 {
            Some(CivilTime { day: (self.day - 1) as u32, ..self })
        } else if self.month > 1 {
            Some(
                CivilTime {
                    month: (self.month - 1) as u32,
                    day: days_in_month(self.year as int, self.month - 1) as u32,
                    ..self
                },
            )
        } else if self.year > MIN_YEAR {
            Some(CivilTime { year: (self.year - 1) as i32, month: 12, day: 31, ..self })
        } else {
            None
        }
    }

    /// The same time of day one day later, or `None` after the last day of `MAX_YEAR`.
    pub open spec fn next_day(self) -> Option<CivilTime> {
        if self.day < days_in_month(self.year as int, self.month as int) {
            Some(CivilTime { day: (self.day + 1) as u32, ..self })
        } else if self.month < 12 {
            Some(CivilTime { month: (self.month + 1) as u32, day: 1, ..self })
        } else if self.year < MAX_YEAR {
            Some(CivilTime { year: (self.year + 1) as i32, month: 1, day: 1, ..self })
        } else {
            None
        }
    }

    /// The civil time `offset` seconds after `self` (before it, where `offset` is negative).
    ///
    /// An offset moves a time by less than a day; the result is `None` for any other
    /// offset, and where the moved time would leave the years from `MIN_YEAR` to
    /// `MAX_YEAR`.
    pub open spec fn shifted(self, offset: int) -> Option<CivilTime> {
        let total = self.seconds_into_day() + offset;
        if !(-SECONDS_PER_DAY < offset < SECONDS_PER_DAY) {
            None
        } else if total < 0 {
            match self.previous_day() {
                Some(day) => Some(day.at_seconds_into_day(total + SECONDS_PER_DAY)),
                None => None,
            }
        } else if total >= SECONDS_PER_DAY {
            match self.next_day() {
                Some(day) => Some(day.at_seconds_into_day(total - SECONDS_PER_DAY)),
                None => None,
            }
        } else {
            Some(self.at_seconds_into_day(total))
        }
    }
}

/// Tells whether `year` has a 29th of February.
pub fn leap_year(year: i32) -> (leap: bool)
    ensures
        leap == is_leap_year(year as int),
{
    year % 4 == 0 && (year % 100 != 0 || year % 400 == 0)
}

/// Counts the days of `month` in `year`.
pub fn month_length(year: i32, month: u32) -> (days: u32)
    requires
        1 <= month <= 12,
    ensures
        days == days_in_month(year as int, month as int),
{
    if month == 2 {
        if leap_year(year) {
            29
        } else {
            28
        }
    } else if month == 4 || month == 6 || month == 9 || month == 11 {
        30
    } else {
        31
    }
}

impl CivilTime {
    /// Makes a civil time of six numbers, if they name a day that exists and a time of
    /// day on the 24-hour clock.
    pub fn new(year: i32, month: u32, day: u32, hour: u32, minute: u32, second: u32) -> (time:
        Option<CivilTime>)
        ensures
            time == (if (CivilTime { year, month, day, hour, minute, second }).wf() {
                Some(CivilTime { year, month, day, hour, minute, second })
            } else {
                None
            }),
    {
        if year < MIN_YEAR || year > MAX_YEAR || month < 1 || month > 12 || day < 1 {
            return None;
        }
        if day > month_length(year, month) || hour >= 24 || minute >= 60 || second >= 60 {
            return None;
        }
        Some(CivilTime { year, month, day, hour, minute, second })
    }
}

/// Moving a civil time by an offset gives a civil time again.
pub proof fn lemma_shifted_is_well_formed(time: CivilTime, offset: int)
    requires
        time.wf(),
    ensures
        time.shifted(offset) matches Some(moved) ==> moved.wf(),
{
}

/// A time of day set by its seconds since midnight has those seconds since midnight.
proof fn lemma_seconds_are_kept(day: CivilTime, seconds: int)
    requires
        0 <= seconds < SECONDS_PER_DAY,
    ensures
        day.at_seconds_into_day(seconds).seconds_into_day() == seconds,
{
}

/// The day after the day before a day is that day, and the other way round.
proof fn lemma_neighbouring_days(time: CivilTime)
    requires
        time.wf(),
    ensures
        time.previous_day() matches Some(before) ==> before.wf() && before.next_day() == Some(
            time,
        ),
        time.next_day() matches Some(after) ==> after.wf() && after.previous_day() == Some(time),
{
}

/// Moving a civil time by an offset and then back by the same offset gives the time
/// that one started from.
pub proof fn lemma_shifted_back(time: CivilTime, offset: int)
    requires
        time.wf(),
    ensures
        time.shifted(offset) matches Some(moved) ==> moved.shifted(-offset) == Some(time),
{
    if let Some(moved) = time.shifted(offset) {
        let seconds = time.seconds_into_day();
        let total = seconds + offset;
        lemma_neighbouring_days(time);
        if total < 0 {
            let before = time.previous_day()->Some_0;
            lemma_seconds_are_kept(before, total + SECONDS_PER_DAY);
            assert(moved.next_day() == Some(time.at_seconds_into_day(total + SECONDS_PER_DAY)));
            assert(time.at_seconds_into_day(total + SECONDS_PER_DAY).at_seconds_into_day(seconds)
                == time);
        } else if total >= SECONDS_PER_DAY {
            let after = time.next_day()->Some_0;
            lemma_seconds_are_kept(after, total - SECONDS_PER_DAY);
            assert(moved.previous_day() == Some(
                time.at_seconds_into_day(total - SECONDS_PER_DAY),
            ));
            assert(time.at_seconds_into_day(total - SECONDS_PER_DAY).at_seconds_into_day(seconds)
                == time);
        } else {
            lemma_seconds_are_kept(time, total);
            assert(time.at_seconds_into_day(total).at_seconds_into_day(seconds) == time);
        }
    }
}

/// An offset of less than a day never takes a time with a year from 0 to 9999 out of
/// the years that a civil time can name.
pub proof fn lemma_shifted_exists(time: CivilTime, offset: int)
    requires
        time.wf(),
        0 <= time.year <= 9999,
        -SECONDS_PER_DAY < offset < SECONDS_PER_DAY,
    ensures
        time.shifted(offset) is Some,
{
}

/// `chrono::NaiveDateTime::checked_add_offset`, on the date and time that `time` names
/// and the offset `chrono::FixedOffset::east_opt(offset_seconds)`.
///
/// Believed of chrono, not proved: it adds the offset to the time of day and steps to
/// the day before or after where that passes midnight; it gives `None` where that day
/// would lie outside the years it supports, which are those of `CivilTime::wf`; and
/// `east_opt` gives `None` unless the offset is less than a day either way.
#[verifier::external_body]
fn add_offset(time: &CivilTime, offset_seconds: i32) -> (moved: Option<CivilTime>)
    requires
        time.wf(),
    ensures
        moved == time.shifted(offset_seconds as int),
{
    let date = NaiveDate::from_ymd_opt(time.year, time.month, time.day)?;
    let moment = date.and_hms_opt(time.hour, time.minute, time.second)?;
    let moved = moment.checked_add_offset(FixedOffset::east_opt(offset_seconds)?)?;
    Some(
        CivilTime {
            year: moved.year(),
            month: moved.month(),
            day: moved.day(),
            hour: moved.hour(),
            minute: moved.minute(),
            second: moved.second(),
        },
    )
}

/// Moves `time` by `offset_seconds`, east of UTC counted as positive.
///
/// This is flat arithmetic on the calendar: no daylight saving, no leap seconds.
pub fn local_time(time: &CivilTime, offset_seconds: i32) -> (moved: Option<CivilTime>)
    requires
        time.wf(),
    ensures
        moved == time.shifted(offset_seconds as int),
        moved matches Some(m) ==> m.wf(),
{
    add_offset(time, offset_seconds)
}

} // verus!
