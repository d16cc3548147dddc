//! One row of the calendar sheet, and how an interval becomes one.

use vstd::prelude::*;
use crate::civil::{lemma_shifted_exists, local_time, CivilTime, SECONDS_PER_DAY};
use crate::entry::{EntryError, RawEntry, RawEntryView};
use crate::render::{clock_text, date_text, render_clock, render_date};
use crate::subject::{subject_of, subject_text};
use crate::timestamp::{lemma_timestamp_is_well_formed, parse_timestamp, timestamp_of};

verus! {

/// One calendar entry, every column as the text that goes into the sheet.
#[derive(Clone, Debug, PartialEq, Eq)]
pub struct CalendarEntry {
    pub subject: String,
    pub start_date: String,
    pub start_time: String,
    pub end_date: String,
    pub end_time: String,
    pub description: String,
    pub location: String,
}

/// What a `CalendarEntry` stands for.
pub ghost struct CalendarEntryView {
    pub subject: Seq<char>,
    pub start_date: Seq<char>,
    pub start_time: Seq<char>,
    pub end_date: Seq<char>,
    pub end_time: Seq<char>,
    pub description: Seq<char>,
    pub location: Seq<char>,
}

impl View for CalendarEntry {
    type V = CalendarEntryView;

    open spec fn view(&self) -> CalendarEntryView {
        CalendarEntryView {
            subject: self.subject@,
            start_date: self.start_date@,
            start_time: self.start_time@,
            end_date: self.end_date@,
            end_time: self.end_time@,
            description: self.description@,
            location: self.location@,
        }
    }
}

/// The entry with the given subject that starts and ends at the given local times.
/// Description and location are left empty.
pub open spec fn entry_between(subject: Seq<char>, start: CivilTime, end: CivilTime)
    -> CalendarEntryView {
    CalendarEntryView {
        subject,
        start_date: date_text(start),
        start_time: clock_text(start),
        end_date: date_text(end),
        end_time: clock_text(end),
        description: Seq::empty(),
        location: Seq::empty(),
    }
}

/// The calendar entry for `raw` at `offset` seconds east of UTC.
///
/// `start` is read and moved first, then `end`; the first step that fails is the error.
pub open spec fn calendar_entry_of(raw: RawEntryView, offset: int) -> Result<
    CalendarEntryView,
    EntryError,
> {
    match timestamp_of(raw.start) {
        None => Err(EntryError::StartNotTimestamp),
        Some(start) => match start.shifted(offset) {
            None => Err(EntryError::StartOutOfRange),
            Some(local_start) => match timestamp_of(raw.end) {
                None => Err(EntryError::EndNotTimestamp),
                Some(end) => match end.shifted(offset) {
                    None => Err(EntryError::EndOutOfRange),
                    Some(local_end) => Ok(
                        entry_between(subject_text(raw.tags), local_start, local_end),
                    ),
                },
            },
        },
    }
}

/// The date and the clock time that stand in the sheet for the compact timestamp
/// `text` at `offset` seconds east of UTC, where `text` names a time and the moved time
/// exists.
pub open spec fn local_columns(text: Seq<char>, offset: int) -> Option<(Seq<char>, Seq<char>)> {
    match timestamp_of(text) {
        Some(time) => match time.shifted(offset) {
            Some(local) => Some((date_text(local), clock_text(local))),
            None => None,
        },
        None => None,
    }
}

/// The date and time columns of an entry depend on nothing but the timestamp they are
/// made from and the offset: the start columns on `start`, the end columns on `end`.
pub proof fn lemma_columns_follow_their_timestamp(raw: RawEntryView, offset: int)
    ensures
        calendar_entry_of(raw, offset) matches Ok(row) ==> {
            &&& local_columns(raw.start, offset) == Some((row.start_date, row.start_time))
            &&& local_columns(raw.end, offset) == Some((row.end_date, row.end_time))
            &&& row.subject == subject_text(raw.tags)
            &&& row.description.len() == 0
            &&& row.location.len() == 0
        },
        calendar_entry_of(raw, offset) is Ok <==> local_columns(raw.start, offset) is Some
            && local_columns(raw.end, offset) is Some,
{
}

/// At an offset of less than a day either way, a record is refused for a timestamp
/// only: a compact timestamp has a year of four digits, and no such offset takes it out
/// of the years that a civil time can name.
pub proof fn lemma_offset_within_a_day_stays_in_range(raw: RawEntryView, offset: int)
    requires
        -SECONDS_PER_DAY < offset < SECONDS_PER_DAY,
    ensures
        calendar_entry_of(raw, offset) matches Err(cause) ==> cause
            == EntryError::StartNotTimestamp || cause == EntryError::EndNotTimestamp,
{
    lemma_timestamp_is_well_formed(raw.start);
    lemma_timestamp_is_well_formed(raw.end);
    if let Some(start) = timestamp_of(raw.start) {
        lemma_shifted_exists(start, offset);
    }
    if let Some(end) = timestamp_of(raw.end) {
        lemma_shifted_exists(end, offset);
    }
}

impl CalendarEntry {
    /// Makes the entry with the given subject between two local times.
    pub fn between(subject: String, start: &CivilTime, end: &CivilTime) -> (entry: CalendarEntry)
        requires
            start.wf(),
            end.wf(),
        ensures
            entry@ == entry_between(subject@, *start, *end),
    {
        CalendarEntry {
            subject,
            start_date: render_date(start),
            start_time: render_clock(start),
            end_date: render_date(end),
            end_time: render_clock(end),
            description: String::new(),
            location: String::new(),
        }
    }
}

/// Turns one interval into its calendar entry: the subject from the tags, the start
/// and the end moved by `offset_seconds` and written as date and clock time.
pub fn convert_entry(raw: &RawEntry, offset_seconds: i32) -> (entry: Result<
    CalendarEntry,
    EntryError,
>)
    ensures
        match entry {
            Ok(row) => calendar_entry_of(raw@, offset_seconds as int) == Ok::<
                CalendarEntryView,
                EntryError,
            >(row@),
            Err(cause) => calendar_entry_of(raw@, offset_seconds as int) == Err::<
                CalendarEntryView,
                EntryError,
            >(cause),
        },
{
    let subject = subject_of(&raw.tags);
    let start = match parse_timestamp(raw.start.as_str()) {
        Some(time) => time,
        None => return Err(EntryError::StartNotTimestamp),
    };
    let local_start = match local_time(&start, offset_seconds) {
        Some(time) => time,
        None => return Err(EntryError::StartOutOfRange),
    };
    let end = match parse_timestamp(raw.end.as_str()) {
        Some(time) => time,
        None => return Err(EntryError::EndNotTimestamp),
    };
    let local_end = match local_time(&end, offset_seconds) {
        Some(time) => time,
        None => return Err(EntryError::EndOutOfRange),
    };
    Ok(CalendarEntry::between(subject, &local_start, &local_end))
}

} // verus!
