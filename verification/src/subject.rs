//! The subject of a calendar row: the tags of the interval, or a fixed text where it
//! has none.

use vstd::prelude::*;
use vstd::string::StringExecFns;

verus! {

/// The subject of an interval without tags.
pub const FALLBACK_SUBJECT: &'static str = "Timewarrior Task";

/// The texts of `tags` in their order, with one space between neighbours.
pub open spec fn joined_with_spaces(tags: Seq<Seq<char>>) -> Seq<char>
    decreases tags.len(),
{
    if tags.len() == 0 {
        Seq::empty()
    } else if tags.len() == 1 {
        tags[0]
    } else {
        joined_with_spaces(tags.drop_last()) + seq![' '] + tags.last()
    }
}

/// The subject for `tags`: the fallback where there is no tag, else the tags joined.
pub open spec fn subject_text(tags: Seq<Seq<char>>) -> Seq<char> {
    if tags.len() == 0 {
        FALLBACK_SUBJECT@
    } else {
        joined_with_spaces(tags)
    }
}

/// Builds the subject of an interval from its tags.
pub fn subject_of(tags: &Vec<String>) -> (subject: String)
    ensures
        subject@ == subject_text(tags.deep_view()),
{
    if tags.len() == 0 {
        return String::from_str(FALLBACK_SUBJECT);
    }
    let ghost texts = tags.deep_view();
    let mut subject = tags[0].clone();
    let mut i: usize = 1;
    assert(texts.take(1) =~= seq![texts[0]]);
    while i < tags.len()
        invariant
            1 <= i <= tags.len(),
            texts == tags.deep_view(),
            subject@ == joined_with_spaces(texts.take(i as int)),
        decreases tags.len() - i,
    {
        proof {
            reveal_strlit(" ");
            let next = texts.take(i + 1);
            assert(next.drop_last() =~= texts.take(i as int));
            assert(next.last() == tags[i as int]@);
            assert(" "@ =~= seq![' ']);
        }
        subject.append(" ");
        subject.append(tags[i].as_str());
        i += 1;
    }
    assert(texts.take(i as int) =~= texts);
    subject
}

} // verus!
