//! The compact timestamp `YYYYMMDDTHHMMSSZ`: its shape, and the civil time it names.

use chrono::{Datelike, NaiveDateTime, Timelike};
use vstd::prelude::*;
use vstd::string::StrSliceExecFns;
use crate::civil::{days_in_month, CivilTime};

verus! {

/// The number of characters of a compact timestamp.
pub const TIMESTAMP_LENGTH: usize = 16;

/// The compact timestamp as a `strftime` pattern.
pub const TIMESTAMP_PATTERN: &'static str = "%Y%m%dT%H%M%SZ";

/// The reason for which chrono refuses a text; this library reads nothing in it.
#[verifier::external_type_specification]
#[verifier::external_body]
pub struct ExParseError(chrono::ParseError);

/// Whether `c` is one of the ten ASCII digits.
pub open spec fn is_digit(c: char) -> bool {
    '0' <= c <= '9'
}

/// The number that the digit `c` stands for.
pub open spec fn digit_value(c: char) -> int {
    c as int - '0' as int
}

/// Whether `text` is eight digits, the letter `T`, six digits and the letter `Z`.
pub open spec fn well_shaped(text: Seq<char>) -> bool {
    &&& text.len() == TIMESTAMP_LENGTH
    &&& text[8] == 'T'
    &&& text[15] == 'Z'
    &&& forall|i: int| 0 <= i < 15 && i != 8 ==> is_digit(#[trigger] text[i])
}

/// The number written by the two digits of `text` that start at `at`.
pub open spec fn two_digit_number(text: Seq<char>, at: int) -> int {
    digit_value(text[at]) * 10 + digit_value(text[at + 1])
}

/// The number written by the four digits of `text` that start at `at`.
pub open spec fn four_digit_number(text: Seq<char>, at: int) -> int {
    two_digit_number(text, at) * 100 + two_digit_number(text, at + 2)
}

/// The civil time that `text` names, if it is a compact timestamp of a time that exists.
///
/// The day has to exist in its month and year, the hour is below 24 and the minute
/// below 60. A second of 60 is read as the last second of its minute.
pub open spec fn timestamp_of(text: Seq<char>) -> Option<CivilTime> {
    let year = four_digit_number(text, 0);
    let month = two_digit_number(text, 4);
    let day = two_digit_number(text, 6);
    let hour = two_digit_number(text, 9);
    let minute = two_digit_number(text, 11);
    let second = two_digit_number(text, 13);
    if well_shaped(text) && 1 <= month <= 12 && 1 <= day <= days_in_month(year, month) && hour
        < 24 && minute < 60 && second <= 60 {
        Some(
            CivilTime {
                year: year as i32,
                month: month as u32,
                day: day as u32,
                hour: hour as u32,
                minute: minute as u32,
                second: if second == 60 { 59 } else { second as u32 },
            },
        )
    } else {
        None
    }
}

/// A compact timestamp names a civil time with a year from 0 to 9999.
pub proof fn lemma_timestamp_is_well_formed(text: Seq<char>)
    ensures
        timestamp_of(text) matches Some(time) ==> time.wf() && 0 <= time.year <= 9999,
{
}

/// Tells whether `text` has the shape of a compact timestamp.
pub fn has_timestamp_shape(text: &str) -> (shaped: bool)
    ensures
        shaped == well_shaped(text@),
{
    if text.unicode_len() != TIMESTAMP_LENGTH {
        return false;
    }
    let mut i: usize = 0;
    while i < TIMESTAMP_LENGTH
        invariant
            i <= TIMESTAMP_LENGTH,
            text@.len() == TIMESTAMP_LENGTH,
            forall|j: int| 0 <= j < i && j != 8 && j != 15 ==> is_digit(#[trigger] text@[j]),
            i > 8 ==> text@[8] == 'T',
            i > 15 ==> text@[15] == 'Z',
        decreases TIMESTAMP_LENGTH - i,
    {
        let c = text.get_char(i);
        let expected = if i == 8 {
            c == 'T'
        } else if i == 15 {
            c == 'Z'
        } else {
            '0' <= c && c <= '9'
        };
        if !expected {
            return false;
        }
        i += 1;
    }
    true
}

/// `chrono::NaiveDateTime::parse_from_str`, handed a text of the compact shape and the
/// compact pattern.
///
/// Believed of chrono, not proved: on such a text it reads the six numbers as they are
/// written, accepts them exactly where the day exists in its month and year, the hour
/// is below 24, the minute below 60 and the second at most 60, and reports a second of
/// 60 as second 59 (the leap second itself is kept in the nanoseconds, which are not
/// carried over).
#[verifier::external_body]
fn parse_with_pattern(text: &str, pattern: &str) -> (parsed: Result<CivilTime, chrono::ParseError>)
    requires
        well_shaped(text@),
        pattern@ == TIMESTAMP_PATTERN@,
    ensures
        match parsed {
            Ok(time) => timestamp_of(text@) == Some(time),
            Err(_) => timestamp_of(text@) is None,
        },
{
    let moment = NaiveDateTime::parse_from_str(text, pattern)?;
    Ok(
        CivilTime {
            year: moment.year(),
            month: moment.month(),
            day: moment.day(),
            hour: moment.hour(),
            minute: moment.minute(),
            second: moment.second(),
        },
    )
}

/// Reads a compact timestamp.
///
/// The text has to match `YYYYMMDDTHHMMSSZ` character for character: signs, blanks and
/// shortened numbers are refused, and so is a day or a time that does not exist.
pub fn parse_timestamp(text: &str) -> (time: Option<CivilTime>)
    ensures
        time == timestamp_of(text@),
        time matches Some(t) ==> t.wf(),
{
    if !has_timestamp_shape(text) {
        return None;
    }
    match parse_with_pattern(text, TIMESTAMP_PATTERN) {
        Ok(time) => Some(time),
        Err(_) => None,
    }
}

} // verus!
