use hecto::annotated_string::{AnnotatedString, AnnotationType};

#[test]
fn replace_moves_and_drops_tags() {
    let mut s = AnnotatedString::from("hello world");
    s.add_annotation(AnnotationType::Match, 0, 5);
    s.add_annotation(AnnotationType::Digit, 6, 11);
    s.add_annotation(AnnotationType::SelectedMatch, 2, 3);
    s.replace(1, 4, "");
    assert_eq!(s.to_string(), "ho world");
    let tags = s.annotations();
    assert_eq!(tags.len(), 2);
    assert_eq!((tags[0].start_idx, tags[0].end_idx), (0, 2));
    assert_eq!(tags[1].typ, AnnotationType::Digit);
    assert_eq!((tags[1].start_idx, tags[1].end_idx), (3, 8));
}

#[test]
fn replace_with_longer_text_shifts_tags() {
    let mut s = AnnotatedString::from("ab");
    s.add_annotation(AnnotationType::Match, 1, 2);
    s.replace(0, 1, "xyz");
    assert_eq!(s.to_string(), "xyzb");
    let tags = s.annotations();
    assert_eq!((tags[0].start_idx, tags[0].end_idx), (3, 4));
}

#[test]
fn replace_past_the_end_is_cut() {
    let mut s = AnnotatedString::from("abc");
    s.replace(1, 99, "-");
    assert_eq!(s.to_string(), "a-");
    s.replace(5, 6, "z");
    assert_eq!(s.to_string(), "a-");
}
