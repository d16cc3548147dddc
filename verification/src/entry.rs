//! One tracked interval as Timewarrior exports it, and how it is read out of a JSON
//! record.

use vstd::prelude::*;
use crate::json::{Json, JsonValue};

verus! {

/// The member that holds the start of an interval.
pub const START_KEY: &'static str = "start";

/// The member that holds the end of an interval.
pub const END_KEY: &'static str = "end";

/// The member that holds the tags of an interval.
pub const TAGS_KEY: &'static str = "tags";

/// One tracked interval: two compact timestamps and the tags in their order.
#[derive(Clone, Debug, PartialEq, Eq)]
pub struct RawEntry {
    pub start: String,
    pub end: String,
    pub tags: Vec<String>,
}

/// What a `RawEntry` stands for.
pub ghost struct RawEntryView {
    pub start: Seq<char>,
    pub end: Seq<char>,
    pub tags: Seq<Seq<char>>,
}

impl View for RawEntry {
    type V = RawEntryView;

    open spec fn view(&self) -> RawEntryView {
        RawEntryView { start: self.start@, end: self.end@, tags: self.tags.deep_view() }
    }
}

/// Why a record cannot become a calendar row.
#[derive(Clone, Copy, Debug, PartialEq, Eq, Structural)]
pub enum EntryError {
    /// The record has no member `start`, or one that is not a string.
    MissingStart,
    /// The record has no member `end`, or one that is not a string.
    MissingEnd,
    /// The record has no member `tags`, or one that is not an array.
    MissingTags,
    /// The tag at `position`, counted from 0, is not a string.
    TagNotText { position: usize },
    /// `start` is not a compact timestamp of a time that exists.
    StartNotTimestamp,
    /// `end` is not a compact timestamp of a time that exists.
    EndNotTimestamp,
    /// `start`, moved by the offset, leaves the years that a civil time can name.
    StartOutOfRange,
    /// `end`, moved by the offset, leaves the years that a civil time can name.
    EndOutOfRange,
}

/// The text of the member `name` of `record`, if it has such a member and it is a string.
pub open spec fn text_member(record: JsonValue, name: Seq<char>) -> Option<Seq<char>> {
    match record.member(name) {
        Some(value) => value.text(),
        None => None,
    }
}

/// The items of the member `name` of `record`, if it has such a member and it is an
/// array.
pub open spec fn items_member(record: JsonValue, name: Seq<char>) -> Option<Seq<JsonValue>> {
    match record.member(name) {
        Some(value) => value.items(),
        None => None,
    }
}

/// The texts of `items` in their order if every item is a string, and otherwise the
/// position of the first item that is not.
pub open spec fn tag_texts(items: Seq<JsonValue>) -> Result<Seq<Seq<char>>, int>
    decreases items.len(),
{
    if items.len() == 0 {
        Ok(Seq::empty())
    } else {
        match tag_texts(items.drop_last()) {
            Err(position) => Err(position),
            Ok(texts) => match items.last().text() {
                Some(text) => Ok(texts.push(text)),
                None => Err(items.len() - 1),
            },
        }
    }
}

/// The interval that `record` holds. `start` is looked at first, then `end`, then
/// `tags`, then each tag in turn; the first that is missing or of the wrong kind is the
/// error. Members of other names are ignored.
pub open spec fn raw_entry_of(record: JsonValue) -> Result<RawEntryView, EntryError> {
    match text_member(record, START_KEY@) {
        None => Err(EntryError::MissingStart),
        Some(start) => match text_member(record, END_KEY@) {
            None => Err(EntryError::MissingEnd),
            Some(end) => match items_member(record, TAGS_KEY@) {
                None => Err(EntryError::MissingTags),
                Some(items) => match tag_texts(items) {
                    Err(position) => Err(EntryError::TagNotText { position: position as usize }),
                    Ok(tags) => Ok(RawEntryView { start, end, tags }),
                },
            },
        },
    }
}

/// Copies the text of the member `name` out of `record`.
fn read_text_member(record: &Json, name: &str) -> (text: Option<String>)
    ensures
        match text {
            Some(t) => text_member(record@, name@) == Some(t@),
            None => text_member(record@, name@) is None,
        },
{
    match record.member(name) {
        Some(value) => match value.as_text() {
            Some(text) => Some(text.clone()),
            None => None,
        },
        None => None,
    }
}

/// Copies the texts of `items`, or reports the first item that is not a string.
fn read_tags(items: &Vec<Json>) -> (tags: Result<Vec<String>, usize>)
    ensures
        match tags {
            Ok(texts) => tag_texts(items.deep_view()) == Ok::<Seq<Seq<char>>, int>(
                texts.deep_view(),
            ),
            Err(position) => tag_texts(items.deep_view()) == Err::<Seq<Seq<char>>, int>(
                position as int,
            ),
        },
{
    let ghost all = items.deep_view();
    let mut tags: Vec<String> = Vec::new();
    let mut i: usize = 0;
    assert(all.take(0) =~= Seq::empty());
    assert(tags.deep_view() =~= Seq::empty());
    while i < items.len()
        invariant
            i <= items.len(),
            all == items.deep_view(),
            tag_texts(all.take(i as int)) == Ok::<Seq<Seq<char>>, int>(tags.deep_view()),
        decreases items.len() - i,
    {
        let ghost before = tags.deep_view();
        proof {
            let next = all.take(i + 1);
            assert(next.drop_last() =~= all.take(i as int));
            assert(next.last() == items[i as int]@);
        }
        match items[i].as_text() {
            Some(text) => {
                tags.push(text.clone());
                assert(tags.deep_view() =~= before.push(text@));
            },
            None => {
                proof {
                    lemma_tag_texts_fails_on(all, i as int + 1);
                }
                return Err(i);
            },
        }
        i += 1;
    }
    assert(all.take(i as int) =~= all);
    Ok(tags)
}

/// Once a beginning of `items` holds an item that is not a string, the verdict on the
/// whole is the verdict on that beginning.
proof fn lemma_tag_texts_fails_on(items: Seq<JsonValue>, upto: int)
    requires
        0 <= upto <= items.len(),
        tag_texts(items.take(upto)) is Err,
    ensures
        tag_texts(items) == tag_texts(items.take(upto)),
    decreases items.len() - upto,
{
    if upto < items.len() {
        let next = items.take(upto + 1);
        assert(next.drop_last() =~= items.take(upto));
        lemma_tag_texts_fails_on(items, upto + 1);
    } else {
        assert(items.take(upto) =~= items);
    }
}

/// Reads the interval out of a JSON record.
pub fn extract_entry(record: &Json) -> (entry: Result<RawEntry, EntryError>)
    ensures
        match entry {
            Ok(raw) => raw_entry_of(record@) == Ok::<RawEntryView, EntryError>(raw@),
            Err(cause) => raw_entry_of(record@) == Err::<RawEntryView, EntryError>(cause),
        },
{
    let start = match read_text_member(record, START_KEY) {
        Some(text) => text,
        None => return Err(EntryError::MissingStart),
    };
    let end = match read_text_member(record, END_KEY) {
        Some(text) => text,
        None => return Err(EntryError::MissingEnd),
    };
    let items = match record.member(TAGS_KEY) {
        Some(value) => match value.as_items() {
            Some(items) => items,
            None => return Err(EntryError::MissingTags),
        },
        None => return Err(EntryError::MissingTags),
    };
    match read_tags(items) {
        Ok(tags) => Ok(RawEntry { start, end, tags }),
        Err(position) => Err(EntryError::TagNotText { position }),
    }
}

} // verus!
