//! The texts of a calendar row's date and time columns.

use chrono::NaiveDate;
use vstd::prelude::*;
use crate::civil::CivilTime;

verus! {

/// The date column as a `strftime` pattern: month, day and year between slashes.
pub const DATE_PATTERN: &'static str = "%m/%d/%Y";

/// The time column as a `strftime` pattern: twelve-hour clock, minute, and AM or PM.
pub const CLOCK_PATTERN: &'static str = "%I:%M %p";

/// The digit that stands for `value`, for a value from 0 to 9.
pub open spec fn digit_char(value: int) -> char {
    (value + '0' as int) as char
}

/// `value` written with two digits, for a value from 0 to 99.
pub open spec fn two_digits(value: int) -> Seq<char> {
    seq![digit_char(value / 10), digit_char(value % 10)]
}

/// `value` written with four digits, for a value from 0 to 9999.
pub open spec fn four_digits(value: int) -> Seq<char> {
    two_digits(value / 100) + two_digits(value % 100)
}

/// `value` written in decimal without leading zeros.
pub open spec fn decimal(value: nat) -> Seq<char>
    decreases value,
{
    if value < 10 {
        seq![digit_char(value as int)]
    } else {
        decimal(value / 10).push(digit_char(value as int % 10))
    }
}

/// The year column: four digits for the years 0 to 9999; any other year carries its
/// sign and has at least four digits.
pub open spec fn year_text(year: int) -> Seq<char> {
    if 0 <= year <= 9999 {
        four_digits(year)
    } else if -9999 <= year < 0 {
        seq!['-'] + four_digits(-year)
    } else if year < 0 {
        seq!['-'] + decimal((-year) as nat)
    } else {
        seq!['+'] + decimal(year as nat)
    }
}

/// The hour on a twelve-hour clock, where midnight and noon are 12.
pub open spec fn hour_on_clock(hour: int) -> int {
    if hour % 12 == 0 { 12 } else { hour % 12 }
}

/// The half of the day: AM before noon, PM from noon on.
pub open spec fn meridiem(hour: int) -> Seq<char> {
    if hour < 12 { seq!['A', 'M'] } else { seq!['P', 'M'] }
}

/// The date of `time` as `MM/DD/YYYY`.
pub open spec fn date_text(time: CivilTime) -> Seq<char> {
    two_digits(time.month as int) + seq!['/'] + two_digits(time.day as int) + seq!['/']
        + year_text(time.year as int)
}

/// The time of day of `time` as `hh:mm AM` or `hh:mm PM`.
pub open spec fn clock_text(time: CivilTime) -> Seq<char> {
    two_digits(hour_on_clock(time.hour as int)) + seq![':'] + two_digits(time.minute as int)
        + seq![' '] + meridiem(time.hour as int)
}

/// `chrono::NaiveDateTime::format` with one of the two patterns of this module, turned
/// into a `String`, on the date and time that `time` names.
///
/// Believed of chrono, not proved: `%m`, `%d`, `%I` and `%M` write two digits each,
/// `%I` counting midnight and noon as 12; `%p` writes `AM` or `PM`; `%Y` writes four
/// digits for the years 0 to 9999 and otherwise a sign and at least four digits; all
/// other characters of a pattern are written as they are.
#[verifier::external_body]
fn format_with_pattern(time: &CivilTime, pattern: &str) -> (text: String)
    requires
        time.wf(),
        pattern@ == DATE_PATTERN@ || pattern@ == CLOCK_PATTERN@,
    ensures
        pattern@ == DATE_PATTERN@ ==> text@ == date_text(*time),
        pattern@ == CLOCK_PATTERN@ ==> text@ == clock_text(*time),
{
    let date = NaiveDate::from_ymd_opt(time.year, time.month, time.day).unwrap();
    let moment = date.and_hms_opt(time.hour, time.minute, time.second).unwrap();
    moment.format(pattern).to_string()
}

/// Writes the date of `time` as `MM/DD/YYYY`, month and day with a leading zero.
pub fn render_date(time: &CivilTime) -> (text: String)
    requires
        time.wf(),
    ensures
        text@ == date_text(*time),
{
    format_with_pattern(time, DATE_PATTERN)
}

/// Writes the time of day of `time` on the twelve-hour clock, as `hh:mm AM` or
/// `hh:mm PM`: the hour with a leading zero, midnight and noon as 12.
pub fn render_clock(time: &CivilTime) -> (text: String)
    requires
        time.wf(),
    ensures
        text@ == clock_text(*time),
{
    format_with_pattern(time, CLOCK_PATTERN)
}

} // verus!
