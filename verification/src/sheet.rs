//! The calendar sheet: comma-separated records of text, one per line.

use vstd::prelude::*;
use vstd::string::StringExecFns;
use vstd::utf8::encode_utf8;
use crate::calendar::{CalendarEntry, CalendarEntryView};

verus! {

/// The byte between two fields: a comma.
pub const DELIMITER: u8 = 0x2C;

/// The byte around a field that cannot stand bare: a double quote.
pub const QUOTE: u8 = 0x22;

/// The byte that ends a record: a line feed.
pub const LINE_FEED: u8 = 0x0A;

/// The carriage return, which readers take for the end of a record too.
pub const CARRIAGE_RETURN: u8 = 0x0D;

/// Whether a field that holds `byte` has to be quoted.
pub open spec fn is_special(byte: u8) -> bool {
    byte == DELIMITER || byte == QUOTE || byte == LINE_FEED || byte == CARRIAGE_RETURN
}

/// Whether `field` has to be quoted: it holds a comma, a quote or a line break.
pub open spec fn needs_quotes(field: Seq<u8>) -> bool {
    exists|i: int| 0 <= i < field.len() && is_special(#[trigger] field[i])
}

/// `field` with every quote written twice.
pub open spec fn with_quotes_doubled(field: Seq<u8>) -> Seq<u8>
    decreases field.len(),
{
    if field.len() == 0 {
        Seq::empty()
    } else if field.last() == QUOTE {
        with_quotes_doubled(field.drop_last()).push(QUOTE).push(QUOTE)
    } else {
        with_quotes_doubled(field.drop_last()).push(field.last())
    }
}

/// `field` as it stands in a record: bare, or between quotes where it needs them.
pub open spec fn field_bytes(field: Seq<u8>) -> Seq<u8> {
    if needs_quotes(field) {
        seq![QUOTE] + with_quotes_doubled(field) + seq![QUOTE]
    } else {
        field
    }
}

/// The fields of a record in their order, with a comma between neighbours.
pub open spec fn fields_bytes(fields: Seq<Seq<u8>>) -> Seq<u8>
    decreases fields.len(),
{
    if fields.len() == 0 {
        Seq::empty()
    } else if fields.len() == 1 {
        field_bytes(fields[0])
    } else {
        fields_bytes(fields.drop_last()) + seq![DELIMITER] + field_bytes(fields.last())
    }
}

/// One record as a line. A record that would be an empty line, which is one without
/// fields or with a single empty field, is written as a pair of quotes.
pub open spec fn record_bytes(fields: Seq<Seq<u8>>) -> Seq<u8> {
    let body = fields_bytes(fields);
    if body.len() == 0 {
        seq![QUOTE, QUOTE, LINE_FEED]
    } else {
        body.push(LINE_FEED)
    }
}

/// The line for a record of texts, each field in UTF-8.
pub open spec fn record_line(fields: Seq<Seq<char>>) -> Seq<u8> {
    record_bytes(fields.map_values(|field: Seq<char>| encode_utf8(field)))
}

/// The lines of `records`, one after the other.
pub open spec fn lines(records: Seq<Seq<Seq<char>>>) -> Seq<u8>
    decreases records.len(),
{
    if records.len() == 0 {
        Seq::empty()
    } else {
        lines(records.drop_last()) + record_line(records.last())
    }
}

/// The names of the seven columns, in the order of the sheet.
pub open spec fn header_fields() -> Seq<Seq<char>> {
    seq![
        "Subject"@,
        "Start Date"@,
        "Start Time"@,
        "End Date"@,
        "End Time"@,
        "Description"@,
        "Location"@,
    ]
}

/// The seven fields of an entry, in the order of the columns.
pub open spec fn row_fields(entry: CalendarEntryView) -> Seq<Seq<char>> {
    seq![
        entry.subject,
        entry.start_date,
        entry.start_time,
        entry.end_date,
        entry.end_time,
        entry.description,
        entry.location,
    ]
}

/// The entry whose seven fields are `fields`.
pub open spec fn row_entry(fields: Seq<Seq<char>>) -> CalendarEntryView {
    CalendarEntryView {
        subject: fields[0],
        start_date: fields[1],
        start_time: fields[2],
        end_date: fields[3],
        end_time: fields[4],
        description: fields[5],
        location: fields[6],
    }
}

/// The fields of an entry hold the whole entry.
pub proof fn lemma_row_entry_of_fields(entry: CalendarEntryView)
    ensures
        row_fields(entry).len() == 7,
        row_entry(row_fields(entry)) == entry,
{
}

/// The records of the sheet for `rows`: the header, then one record per row in the
/// order of the rows.
pub open spec fn sheet_records(rows: Seq<CalendarEntryView>) -> Seq<Seq<Seq<char>>> {
    seq![header_fields()] + rows.map_values(|row: CalendarEntryView| row_fields(row))
}

/// The sheet for `rows` as bytes.
pub open spec fn sheet_bytes(rows: Seq<CalendarEntryView>) -> Seq<u8> {
    lines(sheet_records(rows))
}

/// The sheet without rows is the line of the header.
pub proof fn lemma_sheet_without_rows()
    ensures
        sheet_bytes(Seq::empty()) == record_line(header_fields()),
{
    let records = sheet_records(Seq::empty());
    assert(records =~= seq![header_fields()]);
    assert(records.drop_last() =~= Seq::empty());
    assert(lines(records.drop_last()) =~= Seq::empty());
    assert(lines(records) =~= record_line(header_fields()));
}

/// A further row adds its line to the end of the sheet.
pub proof fn lemma_sheet_with_one_more_row(rows: Seq<CalendarEntryView>, row: CalendarEntryView)
    ensures
        sheet_bytes(rows.push(row)) == sheet_bytes(rows) + record_line(row_fields(row)),
{
    let longer = sheet_records(rows.push(row));
    assert(longer =~= sheet_records(rows).push(row_fields(row)));
    assert(longer.drop_last() =~= sheet_records(rows));
    assert(longer.last() == row_fields(row));
}

/// `csv::Writer::write_record` on a fresh writer over an empty `Vec<u8>` with csv's
/// default settings, followed by `csv::Writer::into_inner`.
///
/// Believed of csv, not proved: such a writer refuses nothing; it writes the fields
/// with commas between them and a line feed after them; it puts a field that holds a
/// comma, a double quote, a line feed or a carriage return between double quotes and
/// doubles the quotes inside it; and it writes a record that would be an empty line as
/// a pair of quotes.
#[verifier::external_body]
fn encode_record(fields: &Vec<String>) -> (line: Option<Vec<u8>>)
    ensures
        line is Some,
        line matches Some(bytes) ==> bytes@ == record_line(fields.deep_view()),
{
    let mut writer = csv::Writer::from_writer(Vec::new());
    writer.write_record(fields).ok()?;
    writer.into_inner().ok()
}

/// Appends one record to `sink` as a line of the sheet.
pub fn write_record(sink: &mut Vec<u8>, fields: &Vec<String>)
    ensures
        final(sink)@ == old(sink)@ + record_line(fields.deep_view()),
{
    match encode_record(fields) {
        Some(mut line) => sink.append(&mut line),
        None => {},
    }
}

/// The names of the columns as a record.
pub fn header_record() -> (fields: Vec<String>)
    ensures
        fields.deep_view() == header_fields(),
{
    let mut fields: Vec<String> = Vec::new();
    fields.push(String::from_str("Subject"));
    fields.push(String::from_str("Start Date"));
    fields.push(String::from_str("Start Time"));
    fields.push(String::from_str("End Date"));
    fields.push(String::from_str("End Time"));
    fields.push(String::from_str("Description"));
    fields.push(String::from_str("Location"));
    assert(fields.deep_view() =~= header_fields());
    fields
}

impl CalendarEntry {
    /// The entry as a record: a copy of its seven columns in the order of the sheet.
    pub fn record(&self) -> (fields: Vec<String>)
        ensures
            fields.deep_view() == row_fields(self@),
    {
        let mut fields: Vec<String> = Vec::new();
        fields.push(self.subject.clone());
        fields.push(self.start_date.clone());
        fields.push(self.start_time.clone());
        fields.push(self.end_date.clone());
        fields.push(self.end_time.clone());
        fields.push(self.description.clone());
        fields.push(self.location.clone());
        assert(fields.deep_view() =~= row_fields(self@));
        fields
    }
}

} // verus!
