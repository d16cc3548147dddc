use timewarrior_calendar::subject::{subject_of, FALLBACK_SUBJECT};

fn tags(texts: &[&str]) -> Vec<String> {
    texts.iter().map(|text| text.to_string()).collect()
}

#[test]
fn no_tags_give_the_fallback() {
    assert_eq!(subject_of(&tags(&[])), "Timewarrior Task");
    assert_eq!(FALLBACK_SUBJECT, "Timewarrior Task");
}

#[test]
fn one_tag_is_the_subject() {
    assert_eq!(subject_of(&tags(&["Meeting"])), "Meeting");
}

#[test]
fn tags_are_joined_with_one_space_in_their_order() {
    assert_eq!(subject_of(&tags(&["Meeting", "Sync"])), "Meeting Sync");
    assert_eq!(subject_of(&tags(&["Sync", "Meeting"])), "Sync Meeting");
    assert_eq!(subject_of(&tags(&["a", "b", "c", "d"])), "a b c d");
}

#[test]
fn tags_are_taken_as_they_are() {
    assert_eq!(subject_of(&tags(&["two words", "x,y"])), "two words x,y");
    assert_eq!(subject_of(&tags(&[""])), "");
    assert_eq!(subject_of(&tags(&["", ""])), " ");
    assert_eq!(subject_of(&tags(&["a", "", "b"])), "a  b");
    assert_eq!(subject_of(&tags(&["caf\u{e9}", "\u{65e5}\u{672c}"])), "caf\u{e9} \u{65e5}\u{672c}");
}

#[test]
fn the_subject_agrees_with_join() {
    let many = tags(&["client", "project x", "design", ""]);
    assert_eq!(subject_of(&many), many.join(" "));
}
