//! The conversion as a whole: from the text of an export to the bytes of a sheet.

use vstd::prelude::*;
use crate::calendar::{calendar_entry_of, convert_entry, CalendarEntry, CalendarEntryView};
use crate::entry::{extract_entry, raw_entry_of, EntryError};
use crate::json::{json_document, read_document, Json, JsonValue};
use crate::sheet::{
    header_fields, header_record, lemma_row_entry_of_fields, lemma_sheet_with_one_more_row,
    lemma_sheet_without_rows, record_line, row_entry, row_fields, sheet_bytes, sheet_records,
    write_record,
};

verus! {

/// The offset of the calendar's wall clock from UTC, in seconds: four hours to the west.
pub const UTC_OFFSET_SECONDS: i32 = -14_400;

/// Why a conversion stopped.
#[derive(Clone, Debug, PartialEq, Eq)]
pub enum ConversionError {
    /// The text is not JSON, or its root is not an array. `detail` says where and why
    /// in the words of the JSON reader.
    Document { detail: String },
    /// The record at `index`, counted from 0, cannot become a row.
    Record { index: usize, cause: EntryError },
}

/// The calendar entry for a JSON record: the interval it holds, turned into a row.
pub open spec fn row_of(record: JsonValue, offset: int) -> Result<CalendarEntryView, EntryError> {
    match raw_entry_of(record) {
        Ok(raw) => calendar_entry_of(raw, offset),
        Err(cause) => Err(cause),
    }
}

/// The rows for `records` in their order if every record gives one, and otherwise the
/// position of the first record that gives none, with the reason.
pub open spec fn rows_of(records: Seq<JsonValue>, offset: int) -> Result<
    Seq<CalendarEntryView>,
    (int, EntryError),
>
    decreases records.len(),
{
    if records.len() == 0 {
        Ok(Seq::empty())
    } else {
        match rows_of(records.drop_last(), offset) {
            Err(failure) => Err(failure),
            Ok(rows) => match row_of(records.last(), offset) {
                Ok(row) => Ok(rows.push(row)),
                Err(cause) => Err((records.len() - 1, cause)),
            },
        }
    }
}

/// The rows for the records that come before the first one that gives none; all rows
/// where every record gives one.
pub open spec fn rows_before_failure(records: Seq<JsonValue>, offset: int) -> Seq<
    CalendarEntryView,
> {
    match rows_of(records, offset) {
        Ok(rows) => rows,
        Err((index, _)) => match rows_of(records.take(index), offset) {
            Ok(rows) => rows,
            Err(_) => Seq::empty(),
        },
    }
}

/// What a conversion of `records` returns: their number, or the first failure.
pub open spec fn outcome_of(records: Seq<JsonValue>, offset: int) -> Result<
    usize,
    ConversionError,
> {
    match rows_of(records, offset) {
        Ok(rows) => Ok(records.len() as usize),
        Err((index, cause)) => Err(ConversionError::Record { index: index as usize, cause }),
    }
}

/// Turns one JSON record into its calendar entry.
pub fn convert_record(record: &Json, offset_seconds: i32) -> (entry: Result<
    CalendarEntry,
    EntryError,
>)
    ensures
        match entry {
            Ok(row) => row_of(record@, offset_seconds as int) == Ok::<
                CalendarEntryView,
                EntryError,
            >(row@),
            Err(cause) => row_of(record@, offset_seconds as int) == Err::<
                CalendarEntryView,
                EntryError,
            >(cause),
        },
{
    match extract_entry(record) {
        Ok(raw) => convert_entry(&raw, offset_seconds),
        Err(cause) => Err(cause),
    }
}

/// The verdict on one record more is the verdict on the records before it, followed by
/// the verdict on that record.
pub proof fn lemma_rows_of_one_more(records: Seq<JsonValue>, offset: int, index: int)
    requires
        0 <= index < records.len(),
    ensures
        rows_of(records.take(index + 1), offset) == (match rows_of(records.take(index), offset) {
            Err(failure) => Err(failure),
            Ok(rows) => match row_of(records[index], offset) {
                Ok(row) => Ok(rows.push(row)),
                Err(cause) => Err((index, cause)),
            },
        }),
{
    let next = records.take(index + 1);
    assert(next.drop_last() =~= records.take(index));
    assert(next.last() == records[index]);
}

/// Once a beginning of `records` holds a record that gives no row, the verdict on the
/// whole is the verdict on that beginning.
pub proof fn lemma_rows_fail_on(records: Seq<JsonValue>, offset: int, upto: int)
    requires
        0 <= upto <= records.len(),
        rows_of(records.take(upto), offset) is Err,
    ensures
        rows_of(records, offset) == rows_of(records.take(upto), offset),
    decreases records.len() - upto,
{
    if upto < records.len() {
        let next = records.take(upto + 1);
        assert(next.drop_last() =~= records.take(upto));
        lemma_rows_fail_on(records, offset, upto + 1);
    } else {
        assert(records.take(upto) =~= records);
    }
}

/// Where the records do not all give a row, the failure that is reported is that of
/// the first record that gives none: every record before it gives a row, and those
/// rows are the rows of the beginning that ends before it.
pub proof fn lemma_failure_is_the_first(records: Seq<JsonValue>, offset: int)
    ensures
        rows_of(records, offset) matches Err((index, cause)) ==> {
            &&& 0 <= index < records.len()
            &&& row_of(records[index], offset) == Err::<CalendarEntryView, EntryError>(cause)
            &&& rows_of(records.take(index), offset) is Ok
            &&& forall|earlier: int|
                0 <= earlier < index ==> (#[trigger] row_of(records[earlier], offset)) is Ok
        },
    decreases records.len(),
{
    if records.len() > 0 {
        let before = records.drop_last();
        let last = records.len() - 1;
        lemma_failure_is_the_first(before, offset);
        match rows_of(before, offset) {
            Err((index, cause)) => {
                assert(before.take(index) =~= records.take(index));
                assert(before[index] == records[index]);
                assert forall|earlier: int| 0 <= earlier < index implies (#[trigger] row_of(
                    records[earlier],
                    offset,
                )) is Ok by {
                    assert(before[earlier] == records[earlier]);
                }
            },
            Ok(rows) => {
                if row_of(records.last(), offset) is Err {
                    assert(records.take(last) =~= before);
                    lemma_rows_are_in_order(before, offset);
                    assert forall|earlier: int| 0 <= earlier < last implies (#[trigger] row_of(
                        records[earlier],
                        offset,
                    )) is Ok by {
                        assert(before[earlier] == records[earlier]);
                    }
                }
            },
        }
    }
}

/// Where every record gives a row, there is one row per record, in the order of the
/// records.
pub proof fn lemma_rows_are_in_order(records: Seq<JsonValue>, offset: int)
    ensures
        rows_of(records, offset) matches Ok(rows) ==> {
            &&& rows.len() == records.len()
            &&& forall|at: int|
                0 <= at < records.len() ==> (#[trigger] row_of(records[at], offset)) == Ok::<
                    CalendarEntryView,
                    EntryError,
                >(rows[at])
        },
        (forall|at: int| 0 <= at < records.len() ==> (#[trigger] row_of(records[at], offset)) is Ok)
            ==> rows_of(records, offset) is Ok,
    decreases records.len(),
{
    if records.len() > 0 {
        let before = records.drop_last();
        lemma_rows_are_in_order(before, offset);
        assert(forall|at: int| 0 <= at < before.len() ==> before[at] == records[at]);
    }
}

/// The sheet of a conversion that succeeds holds the header and then, for each record
/// in turn, the seven fields of its calendar entry: one header and as many rows as
/// there are records, in their order.
pub proof fn lemma_sheet_has_a_row_per_record(records: Seq<JsonValue>, offset: int)
    requires
        forall|at: int| 0 <= at < records.len() ==> (#[trigger] row_of(records[at], offset)) is Ok,
    ensures
        rows_of(records, offset) is Ok,
        outcome_of(records, offset) == Ok::<usize, ConversionError>(records.len() as usize),
        ({
            let sheet = sheet_records(rows_before_failure(records, offset));
            &&& sheet.len() == records.len() + 1
            &&& sheet[0] == header_fields()
            &&& forall|at: int|
                0 <= at < records.len() ==> row_of(records[at], offset) == Ok::<
                    CalendarEntryView,
                    EntryError,
                >(#[trigger] row_entry(sheet[at + 1]))
        }),
{
    lemma_rows_are_in_order(records, offset);
    let rows = rows_of(records, offset)->Ok_0;
    let sheet = sheet_records(rows);
    assert forall|at: int| 0 <= at < records.len() implies row_of(records[at], offset) == Ok::<
        CalendarEntryView,
        EntryError,
    >(#[trigger] row_entry(sheet[at + 1])) by {
        assert(sheet[at + 1] == row_fields(rows[at]));
        lemma_row_entry_of_fields(rows[at]);
    }
}

/// Converts one record and, where it gives a row, appends the row's line to `sink`.
pub fn write_row_of(record: &Json, offset_seconds: i32, sink: &mut Vec<u8>) -> (written: Result<
    (),
    EntryError,
>)
    ensures
        match row_of(record@, offset_seconds as int) {
            Ok(row) => written is Ok && final(sink)@ == old(sink)@ + record_line(row_fields(row)),
            Err(cause) => written == Err::<(), EntryError>(cause) && final(sink)@ == old(sink)@,
        },
{
    match convert_record(record, offset_seconds) {
        Ok(row) => {
            let fields = row.record();
            write_record(sink, &fields);
            Ok(())
        },
        Err(cause) => {
            assert(sink@ =~= old(sink)@ + Seq::<u8>::empty());
            Err(cause)
        },
    }
}

/// Writes the sheet for `records` to the end of `sink`: the header first, then one row
/// per record in the order of the records, each as soon as it is converted.
///
/// The conversion stops at the first record that gives no row. `sink` then holds the
/// header and the rows of the records before that one, and no later record has been
/// looked at.
pub fn convert_records(records: &Vec<Json>, offset_seconds: i32, sink: &mut Vec<u8>) -> (count:
    Result<usize, ConversionError>)
    ensures
        count == outcome_of(records.deep_view(), offset_seconds as int),
        final(sink)@ == old(sink)@ + sheet_bytes(
            rows_before_failure(records.deep_view(), offset_seconds as int),
        ),
{
    let ghost all = records.deep_view();
    let ghost offset = offset_seconds as int;
    let ghost start = sink@;
    let ghost mut rows: Seq<CalendarEntryView> = Seq::empty();
    let header = header_record();
    write_record(sink, &header);
    proof {
        assert(all.take(0) =~= Seq::empty());
        lemma_sheet_without_rows();
    }
    let mut i: usize = 0;
    while i < records.len()
        invariant
            i <= records.len(),
            all == records.deep_view(),
            offset == offset_seconds as int,
            rows_of(all.take(i as int), offset) == Ok::<Seq<CalendarEntryView>, (int, EntryError)>(
                rows,
            ),
            start == old(sink)@,
            sink@ == start + sheet_bytes(rows),
        decreases records.len() - i,
    {
        proof {
            lemma_rows_of_one_more(all, offset, i as int);
            assert(all[i as int] == records[i as int]@);
        }
        match write_row_of(&records[i], offset_seconds, sink) {
            Ok(()) => {
                proof {
                    let row = row_of(all[i as int], offset)->Ok_0;
                    let line = record_line(row_fields(row));
                    let sheet = sheet_bytes(rows);
                    lemma_sheet_with_one_more_row(rows, row);
                    assert((start + sheet) + line =~= start + (sheet + line));
                    rows = rows.push(row);
                }
            },
            Err(cause) => {
                proof {
                    lemma_rows_fail_on(all, offset, i + 1);
                }
                return Err(ConversionError::Record { index: i, cause });
            },
        }
        i += 1;
    }
    assert(all.take(i as int) =~= all);
    Ok(records.len())
}

/// Converts the text of a Timewarrior export into a calendar sheet at the end of
/// `sink`, and returns the number of rows written after the header.
///
/// A text that is not a JSON array leaves `sink` as it was. Otherwise the header is
/// written, then a row for every record, up to the first record that gives none.
pub fn convert_timewarrior_to_calendar(input_text: &str, sink: &mut Vec<u8>) -> (count: Result<
    usize,
    ConversionError,
>)
    ensures
        match json_document(input_text@) {
            Some(records) => {
                &&& count == outcome_of(records, UTC_OFFSET_SECONDS as int)
                &&& final(sink)@ == old(sink)@ + sheet_bytes(
                    rows_before_failure(records, UTC_OFFSET_SECONDS as int),
                )
            },
            None => {
                &&& count matches Err(ConversionError::Document { .. })
                &&& final(sink)@ == old(sink)@
            },
        },
{
    match read_document(input_text) {
        Ok(records) => convert_records(&records, UTC_OFFSET_SECONDS, sink),
        Err(detail) => Err(ConversionError::Document { detail }),
    }
}

} // verus!
