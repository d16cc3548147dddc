//! Converts Timewarrior's JSON export into the CSV that calendar applications import.
//!
//! Every tracked interval becomes one calendar row: the tags form the subject, and the
//! start and end instants are moved to a fixed offset from UTC and rendered as a date
//! and a twelve-hour clock time.
//!
//! The way through the modules, from the text that comes in to the bytes that go out:
//! `json` reads the text into a tree, `entry` takes the interval out of a record,
//! `timestamp` reads its two instants, `civil` moves them to local time, `render` and
//! `subject` write the columns, `calendar` puts them into an entry, `sheet` writes
//! entries as records of the sheet, and `convert` runs the whole over every record.
//!
//! JSON is read by serde_json, dates are read, moved and written by chrono, and records
//! are encoded by csv. What this library takes on trust from each of them is stated at
//! the function that makes the call; everything else is proved.

pub mod calendar;
pub mod civil;
pub mod convert;
pub mod entry;
pub mod json;
pub mod render;
pub mod sheet;
pub mod subject;
pub mod timestamp;
