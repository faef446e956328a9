use hecto::annotated_string::AnnotationType;
use hecto::line::Line;

#[test]
fn search_for_text() {
    let s = "Löwe 老虎 Léopard Gepardi";
    let line = Line::from(s);
    let grapheme_idx = line.search_from("pard", 2);
    assert_eq!(grapheme_idx, Some(11));
}

#[test]
fn forward() {
    let s = "Löwe 老虎 Léopard Gepardi";
    let line = Line::from(s);
    let grapheme_idx = line.search_forward("pard", 2);
    assert_eq!(grapheme_idx, Some(11));
}

#[test]
fn backward() {
    let s = "Löwe 老虎 Léopard Gepardi";
    let line = Line::from(s);
    let grapheme_idx = line.search_backward("pard", 22);
    assert_eq!(grapheme_idx, Some(18));
}

#[test]
fn insert_then_delete_restores_text() {
    let mut line = Line::from("abc");
    line.insert_char('x', 1);
    assert_eq!(line.to_string(), "axbc");
    line.delete(1);
    assert_eq!(line.to_string(), "abc");
}

#[test]
fn insert_past_end_appends() {
    let mut line = Line::from("ab");
    line.insert_char('c', 7);
    assert_eq!(line.to_string(), "abc");
}

#[test]
fn delete_past_end_changes_nothing() {
    let mut line = Line::from("ab");
    line.delete(2);
    assert_eq!(line.to_string(), "ab");
}

#[test]
fn width_until_count_is_width() {
    let line = Line::from("a老b");
    assert_eq!(line.grapheme_count(), 3);
    assert_eq!(line.width(), 4);
    assert_eq!(line.width_until(line.grapheme_count()), line.width());
    assert_eq!(line.width_until(0), 0);
    assert_eq!(line.width_until(1), 1);
    assert_eq!(line.width_until(2), 3);
    assert_eq!(line.width_until(9), 4);
}

#[test]
fn combining_mark_joins_its_cluster() {
    let line = Line::from("e\u{301}x");
    assert_eq!(line.grapheme_count(), 2);
    assert_eq!(line.width(), 2);
}

#[test]
fn tab_renders_as_space() {
    let line = Line::from("a\tb");
    assert_eq!(line.width(), 3);
    let shown = line.get_visible_graphemes(0..10);
    assert_eq!(shown, "a b");
    assert!(!shown.contains('\t'));
}

#[test]
fn control_and_zero_width_glyphs() {
    let line = Line::from("a\u{1}b\u{200b}");
    assert_eq!(line.get_visible_graphemes(0..10), "a\u{25AF}b\u{B7}");
}

#[test]
fn visible_text_is_clipped_with_ellipses() {
    let line = Line::from("ab老cd");
    assert_eq!(line.get_visible_graphemes(0..3), "ab\u{22EF}");
    assert_eq!(line.get_visible_graphemes(3..6), "\u{22EF}cd");
    assert_eq!(line.get_visible_graphemes(1..2), "b");
    assert_eq!(line.get_visible_graphemes(2..4), "老");
}

#[test]
fn split_keeps_left_and_returns_right() {
    let mut line = Line::from("Löwe老虎");
    let right = line.split(4);
    assert_eq!(line.to_string(), "Löwe");
    assert_eq!(right.to_string(), "老虎");
}

#[test]
fn append_and_delete_last() {
    let mut line = Line::from("ab");
    line.append(&Line::from("cd"));
    assert_eq!(line.to_string(), "abcd");
    line.append_char('e');
    assert_eq!(line.to_string(), "abcde");
    line.delete_last();
    assert_eq!(line.to_string(), "abcd");
    let mut empty = Line::from("");
    empty.delete_last();
    assert!(empty.is_empty());
}

#[test]
fn search_on_empty_line_or_past_end_finds_nothing() {
    let empty = Line::from("");
    assert_eq!(empty.search_forward("a", 0), None);
    let line = Line::from("abc");
    assert_eq!(line.search_forward("a", 3), None);
    assert_eq!(line.search_backward("a", 0), None);
    assert_eq!(line.search_backward("c", 3), Some(2));
    assert_eq!(line.search_backward("c", 2), None);
}

#[test]
fn matches_are_annotated() {
    let line = Line::from("foo bar foo");
    let shown = line.get_annotated_visible_substr(0..20, Some("foo"), Some(8));
    assert_eq!(shown.to_string(), "foo bar foo");
    let tags = shown.annotations();
    assert_eq!(tags.len(), 2);
    assert_eq!(tags[0].typ, AnnotationType::Match);
    assert_eq!((tags[0].start_idx, tags[0].end_idx), (0, 3));
    assert_eq!(tags[1].typ, AnnotationType::SelectedMatch);
    assert_eq!((tags[1].start_idx, tags[1].end_idx), (8, 11));
}

#[test]
fn clipped_match_keeps_visible_part() {
    let line = Line::from("foo bar foo");
    let shown = line.get_annotated_visible_substr(1..6, Some("foo"), None);
    assert_eq!(shown.to_string(), "oo ba");
    let tags = shown.annotations();
    assert_eq!(tags.len(), 1);
    assert_eq!((tags[0].start_idx, tags[0].end_idx), (0, 2));
}
