use hecto::buffer::{Buffer, Location};

fn init() -> Buffer {
    let string = "0_234567890\nfoo345foo90\n2_234567890\n3_234567890\n4_2foo67890\n5_234567890\n6_234567foo\n7_234barfoo\n8_234567890\n9_234567890\n";
    Buffer::from_text(string)
}

fn line_text(buffer: &Buffer, idx: usize) -> String {
    buffer.line(idx).map(|l| l.to_string()).unwrap_or_default()
}

#[test]
fn buffer_search_from_beginning() {
    let buffer = init();
    let from = Location {
        line_idx: 0,
        grapheme_idx: 0,
    };
    let found = Location {
        line_idx: 1,
        grapheme_idx: 0,
    };
    assert_eq!(buffer.search_forward("foo", &from), Some(found));
    assert_eq!(buffer.search_from("foo", &from), Some(found));
}

#[test]
fn buffer_search_for_next() {
    let buffer = init();
    let step_right = 1;
    let from = Location {
        line_idx: 1,
        grapheme_idx: step_right,
    };
    let found = Location {
        line_idx: 1,
        grapheme_idx: 6,
    };
    assert_eq!(buffer.search_forward("foo", &from), Some(found));
    assert_eq!(buffer.search_from("foo", &from), Some(found));
}

#[test]
fn buffer_search_for_next_at_end() {
    let buffer = init();
    let step_right = 3;
    let from = Location {
        line_idx: 6,
        grapheme_idx: 8 + step_right,
    };
    let found = Location {
        line_idx: 7,
        grapheme_idx: 8,
    };
    assert_eq!(buffer.search_forward("foo", &from), Some(found));
    assert_eq!(buffer.search_from("foo", &from), Some(found));
}

#[test]
fn buffer_search_from_middle() {
    let buffer = init();
    let from = Location {
        line_idx: 3,
        grapheme_idx: 9,
    };
    let found = Location {
        line_idx: 4,
        grapheme_idx: 3,
    };
    assert_eq!(buffer.search_forward("foo", &from), Some(found));
    assert_eq!(buffer.search_from("foo", &from), Some(found));
}

#[test]
fn search_finds_second_occurrence() {
    let buffer = Buffer::from_text("foo345foo90");
    let from = Location {
        line_idx: 0,
        grapheme_idx: 1,
    };
    let found = Location {
        line_idx: 0,
        grapheme_idx: 6,
    };
    assert_eq!(buffer.search_forward("foo", &from), Some(found));
}

#[test]
fn search_backward_scans_up() {
    let buffer = init();
    let from = Location {
        line_idx: 4,
        grapheme_idx: 3,
    };
    let found = Location {
        line_idx: 1,
        grapheme_idx: 6,
    };
    assert_eq!(buffer.search_backward("foo", &from), Some(found));
    let top = Location {
        line_idx: 1,
        grapheme_idx: 0,
    };
    assert_eq!(buffer.search_backward("foo", &top), None);
}

#[test]
fn backward_after_forward_finds_the_same_match() {
    let buffer = init();
    let from = Location {
        line_idx: 2,
        grapheme_idx: 0,
    };
    let hit = buffer.search_forward("foo", &from).unwrap();
    let past = Location {
        line_idx: hit.line_idx,
        grapheme_idx: hit.grapheme_idx + 3,
    };
    assert_eq!(buffer.search_backward("foo", &past), Some(hit));
}

#[test]
fn unreadable_file_loads_one_empty_changed_line() {
    let buffer = Buffer::load("", None);
    assert_eq!(buffer.get_height(), 1);
    assert_eq!(line_text(&buffer, 0), "");
    assert!(buffer.is_modified());
    assert!(buffer.is_file_loaded());
}

#[test]
fn load_splits_lines() {
    let buffer = Buffer::load("notes.txt", Some("ab\r\ncd\n\nef\r"));
    assert_eq!(buffer.height(), 4);
    assert_eq!(line_text(&buffer, 0), "ab");
    assert_eq!(line_text(&buffer, 1), "cd");
    assert_eq!(line_text(&buffer, 2), "");
    assert_eq!(line_text(&buffer, 3), "ef\r");
    assert!(!buffer.is_modified());
    assert_eq!(buffer.file_name(), Some("notes.txt".to_string()));
    assert!(Buffer::from_text("").is_empty());
}

#[test]
fn save_then_load_round_trip() {
    let mut buffer = Buffer::from_text("ab\ncd");
    let at = Location {
        line_idx: 0,
        grapheme_idx: 1,
    };
    buffer.insert_char('x', &at);
    assert!(buffer.is_modified());
    let text = buffer.file_text();
    assert_eq!(text, "axb\ncd\n");
    buffer.save_as("out.txt", true);
    assert!(!buffer.is_modified());
    assert!(buffer.is_file_loaded());
    let loaded = Buffer::load("out.txt", Some(&text));
    assert_eq!(loaded.height(), 2);
    assert_eq!(line_text(&loaded, 0), "axb");
    assert_eq!(line_text(&loaded, 1), "cd");
    assert!(!loaded.is_modified());
}

#[test]
fn failed_save_changes_nothing() {
    let mut buffer = Buffer::from_text("ab");
    let at = Location {
        line_idx: 0,
        grapheme_idx: 0,
    };
    buffer.delete(&at);
    buffer.save_as("x.txt", false);
    assert!(buffer.is_modified());
    assert!(!buffer.is_file_loaded());
}

#[test]
fn edits_at_locations() {
    let mut buffer = Buffer::from_text("abc\ndef");
    buffer.insert_newline(&Location {
        line_idx: 0,
        grapheme_idx: 1,
    });
    assert_eq!(buffer.height(), 3);
    assert_eq!(line_text(&buffer, 0), "a");
    assert_eq!(line_text(&buffer, 1), "bc");
    buffer.delete(&Location {
        line_idx: 0,
        grapheme_idx: 1,
    });
    assert_eq!(buffer.height(), 2);
    assert_eq!(line_text(&buffer, 0), "abc");
    buffer.insert_char('z', &Location {
        line_idx: 2,
        grapheme_idx: 0,
    });
    assert_eq!(buffer.height(), 3);
    assert_eq!(line_text(&buffer, 2), "z");
    buffer.delete(&Location {
        line_idx: 5,
        grapheme_idx: 0,
    });
    assert_eq!(buffer.height(), 3);
    buffer.insert_newline(&Location {
        line_idx: 3,
        grapheme_idx: 0,
    });
    assert_eq!(buffer.height(), 4);
    assert_eq!(line_text(&buffer, 3), "");
}

#[test]
fn search_from_beginning() {
    let buffer = init();
    let from = Location {
        line_idx: 0,
        grapheme_idx: 0,
    };
    let found = Location {
        line_idx: 1,
        grapheme_idx: 0,
    };
    assert_eq!(buffer.search_from("foo", &from), Some(found));
}

#[test]
fn search_for_next() {
    let buffer = init();
    let step_right = 1;
    let from = Location {
        line_idx: 1,
        grapheme_idx: step_right,
    };
    let found = Location {
        line_idx: 1,
        grapheme_idx: 6,
    };
    assert_eq!(buffer.search_from("foo", &from), Some(found));
}

#[test]
fn search_for_next_at_end() {
    let buffer = init();
    let step_right = 3;
    let from = Location {
        line_idx: 6,
        grapheme_idx: 8 + step_right,
    };
    let found = Location {
        line_idx: 7,
        grapheme_idx: 8,
    };
    assert_eq!(buffer.search_from("foo", &from), Some(found));
}

#[test]
fn search_from_middle() {
    let buffer = init();
    let from = Location {
        line_idx: 3,
        grapheme_idx: 9,
    };
    let found = Location {
        line_idx: 4,
        grapheme_idx: 3,
    };
    assert_eq!(buffer.search_from("foo", &from), Some(found));
}
