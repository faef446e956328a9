use hecto::buffer::Location;
use hecto::command::{Command, Edit, Move, System};
use hecto::editor::Editor;
use hecto::position::{Position, Size};
use hecto::view::View;

fn view_with(text: &str, height: usize, width: usize) -> View {
    let mut view = View::new();
    view.load("doc.txt", Some(text));
    view.resize(Size { height, width });
    view
}

fn line_text(view: &View, idx: usize) -> String {
    view.buffer().line(idx).map(|l| l.to_string()).unwrap_or_default()
}

#[test]
fn right_at_line_end_goes_to_next_line_start() {
    let mut view = view_with("abcde\nxyz", 10, 20);
    view.handle_move_command(&Move::EndOfLine);
    assert_eq!(
        view.text_location(),
        Location {
            line_idx: 0,
            grapheme_idx: 5
        }
    );
    view.handle_move_command(&Move::Right);
    assert_eq!(
        view.text_location(),
        Location {
            line_idx: 1,
            grapheme_idx: 0
        }
    );
}

#[test]
fn vertical_moves_snap_to_line_length() {
    let mut view = view_with("abcdef\nxy\nlonger line", 10, 20);
    view.handle_move_command(&Move::EndOfLine);
    view.handle_move_command(&Move::Down);
    assert_eq!(
        view.text_location(),
        Location {
            line_idx: 1,
            grapheme_idx: 2
        }
    );
    view.handle_move_command(&Move::Down);
    assert_eq!(
        view.text_location(),
        Location {
            line_idx: 2,
            grapheme_idx: 2
        }
    );
    view.handle_move_command(&Move::Down);
    view.handle_move_command(&Move::Down);
    assert_eq!(
        view.text_location(),
        Location {
            line_idx: 3,
            grapheme_idx: 0
        }
    );
    view.handle_move_command(&Move::Left);
    assert_eq!(
        view.text_location(),
        Location {
            line_idx: 2,
            grapheme_idx: 11
        }
    );
    view.handle_move_command(&Move::StartOfLine);
    view.handle_move_command(&Move::Up);
    view.handle_move_command(&Move::Up);
    view.handle_move_command(&Move::Up);
    assert_eq!(view.text_location(), Location::default());
}

#[test]
fn delete_backward_at_top_left_does_nothing() {
    let mut view = view_with("abc\ndef", 10, 20);
    view.handle_edit_command(&Edit::DeleteBackward);
    assert_eq!(view.text_location(), Location::default());
    assert_eq!(line_text(&view, 0), "abc");
    assert_eq!(line_text(&view, 1), "def");
    assert!(!view.get_status().is_modified);
}

#[test]
fn typing_moves_the_cursor() {
    let mut view = view_with("ac", 10, 20);
    view.handle_move_command(&Move::Right);
    view.handle_edit_command(&Edit::Insert('b'));
    assert_eq!(line_text(&view, 0), "abc");
    assert_eq!(view.text_location().grapheme_idx, 2);
    view.handle_edit_command(&Edit::InsertNewline);
    assert_eq!(line_text(&view, 0), "ab");
    assert_eq!(line_text(&view, 1), "c");
    assert_eq!(
        view.text_location(),
        Location {
            line_idx: 1,
            grapheme_idx: 0
        }
    );
    view.handle_edit_command(&Edit::DeleteBackward);
    assert_eq!(line_text(&view, 0), "abc");
    assert_eq!(
        view.text_location(),
        Location {
            line_idx: 0,
            grapheme_idx: 2
        }
    );
    view.handle_edit_command(&Edit::InsertTab);
    assert_eq!(line_text(&view, 0), "ab\tc");
    view.handle_edit_command(&Edit::DeleteBackward);
    assert_eq!(line_text(&view, 0), "abc");
    view.handle_edit_command(&Edit::Delete);
    assert_eq!(line_text(&view, 0), "ab");
    assert!(view.get_status().is_modified);
}

#[test]
fn cursor_stays_in_view_after_moves() {
    let mut view = view_with("0123456789\na\nb\nc\nd\ne", 3, 4);
    for _ in 0..7 {
        view.handle_move_command(&Move::Right);
        let caret = view.caret_position();
        assert!(caret.row < 3 && caret.col < 4);
    }
    assert_eq!(view.scroll_offset(), Position { row: 0, col: 4 });
    view.handle_move_command(&Move::PageDown);
    view.handle_move_command(&Move::PageDown);
    assert_eq!(view.text_location().line_idx, 4);
    assert_eq!(view.scroll_offset(), Position { row: 2, col: 1 });
    let caret = view.caret_position();
    assert_eq!(caret, Position { row: 2, col: 0 });
    view.resize(Size {
        height: 1,
        width: 4,
    });
    assert_eq!(view.scroll_offset().row, 4);
}

#[test]
fn search_session_moves_and_restores() {
    let mut view = view_with("abc\nfoo x foo", 10, 20);
    assert!(!view.search_next());
    view.enter_search();
    view.search("foo");
    assert_eq!(
        view.text_location(),
        Location {
            line_idx: 1,
            grapheme_idx: 0
        }
    );
    assert!(view.search_next());
    assert_eq!(
        view.text_location(),
        Location {
            line_idx: 1,
            grapheme_idx: 6
        }
    );
    view.search_backward();
    assert_eq!(view.text_location().grapheme_idx, 0);
    view.search("zzz");
    assert_eq!(view.text_location().grapheme_idx, 0);
    view.dismiss_search();
    assert_eq!(view.text_location(), Location::default());
}

#[test]
fn rows_show_visible_text_and_matches() {
    let mut view = view_with("foo bar\nbaz", 5, 5);
    assert_eq!(view.visible_row(0).unwrap().to_string(), "foo b");
    assert_eq!(view.visible_row(1).unwrap().to_string(), "baz");
    assert!(view.visible_row(2).is_none());
    view.enter_search();
    view.search("ba");
    let row = view.visible_row(0).unwrap();
    assert_eq!(row.annotations().len(), 1);
    let status = view.get_status();
    assert_eq!(status.total_lines, 2);
    assert_eq!(status.current_line_idx, 0);
    assert_eq!(status.filename, "doc.txt");
}

#[test]
fn status_without_file_has_no_name() {
    let view = View::new();
    assert_eq!(view.get_status().filename, "[No Name]");
    assert_eq!(view.caret_position(), Position::default());
}

#[test]
fn quitting_a_changed_document_takes_three_requests() {
    let mut editor = Editor::new();
    editor.process_command(Command::System(System::Resize(Size {
        height: 10,
        width: 40,
    })));
    editor.process_command(Command::Edit(Edit::Insert('a')));
    assert!(editor.get_status().is_modified);
    editor.process_command(Command::System(System::Quit));
    assert!(!editor.should_quit());
    editor.process_command(Command::System(System::Quit));
    assert!(!editor.should_quit());
    editor.process_command(Command::System(System::Quit));
    assert!(editor.should_quit());
}

#[test]
fn other_command_resets_quit_requests() {
    let mut editor = Editor::new();
    editor.process_command(Command::Edit(Edit::Insert('a')));
    editor.process_command(Command::System(System::Quit));
    editor.process_command(Command::System(System::Quit));
    editor.process_command(Command::Move(Move::Left));
    editor.process_command(Command::System(System::Quit));
    assert!(!editor.should_quit());
}

#[test]
fn save_prompt_asks_for_a_name() {
    let mut editor = Editor::new();
    editor.process_command(Command::Edit(Edit::Insert('a')));
    assert!(editor.process_command(Command::System(System::Save)).is_none());
    assert!(editor.in_prompt());
    editor.process_command(Command::Edit(Edit::Insert('f')));
    let request = editor.process_command(Command::Edit(Edit::InsertNewline)).unwrap();
    assert_eq!(request.file_name, Some("f".to_string()));
    assert!(!editor.in_prompt());
    editor.complete_save(&request, false);
    assert_eq!(editor.message(), "Error writing file!");
    assert!(editor.get_status().is_modified);
    editor.complete_save(&request, true);
    assert_eq!(editor.message(), "File saved successfully");
    assert!(!editor.get_status().is_modified);
    let again = editor.process_command(Command::System(System::Save)).unwrap();
    assert_eq!(again.file_name, None);
}

#[test]
fn search_prompt_routes_typing_to_the_query() {
    let mut editor = Editor::new();
    editor.load("doc.txt", Some("one\ntwo"));
    editor.process_command(Command::System(System::Search));
    assert!(editor.in_prompt());
    editor.process_command(Command::Edit(Edit::Insert('t')));
    editor.process_command(Command::Edit(Edit::Insert('w')));
    assert_eq!(editor.command_bar().value(), "tw");
    assert_eq!(editor.view().text_location().line_idx, 1);
    editor.process_command(Command::System(System::Dismiss));
    assert!(!editor.in_prompt());
    assert_eq!(editor.view().text_location(), Location::default());
    assert_eq!(editor.message(), "Search aborted");
}

#[test]
fn largest_view_size_scrolls_without_overflow() {
    let mut view = view_with("ab\ncd", usize::MAX, usize::MAX);
    view.handle_move_command(&Move::PageDown);
    assert_eq!(view.text_location().line_idx, 2);
    assert_eq!(view.scroll_offset(), Position { row: 0, col: 0 });
    view.handle_move_command(&Move::PageUp);
    assert_eq!(view.text_location(), Location::default());
    view.resize(Size {
        height: 0,
        width: 0,
    });
    view.handle_move_command(&Move::Down);
    assert_eq!(view.caret_position(), Position { row: 0, col: 0 });
}

#[test]
fn right_at_end_of_last_line_stays() {
    let mut view = view_with("xyz\nabcde", 10, 20);
    view.handle_move_command(&Move::Down);
    view.handle_move_command(&Move::EndOfLine);
    view.handle_move_command(&Move::Right);
    assert_eq!(
        view.text_location(),
        Location {
            line_idx: 1,
            grapheme_idx: 5
        }
    );
}

#[test]
fn newline_puts_cursor_at_next_line_start() {
    let mut view = view_with("abcdef", 10, 20);
    view.handle_move_command(&Move::Right);
    view.handle_move_command(&Move::Right);
    view.handle_edit_command(&Edit::InsertNewline);
    assert_eq!(
        view.text_location(),
        Location {
            line_idx: 1,
            grapheme_idx: 0
        }
    );
    assert_eq!(line_text(&view, 0), "ab");
    assert_eq!(line_text(&view, 1), "cdef");
    assert!(view.get_status().is_modified);
}

#[test]
fn resize_and_search_keep_the_document_state() {
    let mut view = view_with("foo", 10, 20);
    view.resize(Size {
        height: 3,
        width: 3,
    });
    view.enter_search();
    view.search("o");
    view.dismiss_search();
    let status = view.get_status();
    assert!(!status.is_modified);
    assert_eq!(status.filename, "doc.txt");
}

#[test]
fn editor_messages() {
    let mut editor = Editor::new();
    editor.process_command(Command::Edit(Edit::Insert('a')));
    editor.process_command(Command::System(System::Quit));
    assert_eq!(
        editor.message(),
        "WARNING!!! File has unsaved changes. Press Ctrl-T 2 more times to quit."
    );
    editor.process_command(Command::System(System::Quit));
    assert_eq!(
        editor.message(),
        "WARNING!!! File has unsaved changes. Press Ctrl-T 1 more times to quit."
    );
    editor.process_command(Command::System(System::SearchNext));
    assert_eq!(
        editor.message(),
        "Have no search query, please search for something first"
    );
    editor.process_command(Command::System(System::Save));
    editor.process_command(Command::System(System::Dismiss));
    assert_eq!(editor.message(), "Save aborted");
    editor.process_command(Command::System(System::Search));
    assert_eq!(editor.message(), "");
    editor.process_command(Command::Edit(Edit::InsertNewline));
    assert!(!editor.in_prompt());
}

#[test]
fn prompts_leave_the_document_alone() {
    let mut editor = Editor::new();
    editor.process_command(Command::System(System::Resize(Size {
        height: 10,
        width: 40,
    })));
    editor.process_command(Command::Edit(Edit::Insert('a')));
    editor.process_command(Command::Edit(Edit::Insert('b')));
    let before = editor.view().text_location();
    editor.process_command(Command::System(System::Save));
    editor.process_command(Command::Edit(Edit::Insert('x')));
    editor.process_command(Command::Move(Move::Left));
    editor.process_command(Command::System(System::Search));
    assert_eq!(editor.view().text_location(), before);
    assert_eq!(editor.view().size(), Size { height: 8, width: 40 });
    assert!(!editor.view().is_file_loaded());
    editor.process_command(Command::System(System::Dismiss));
    editor.process_command(Command::System(System::Search));
    editor.process_command(Command::Edit(Edit::Insert('a')));
    assert_eq!(editor.view().text_location(), before);
    editor.process_command(Command::System(System::Dismiss));
    assert_eq!(editor.view().text_location(), before);
    editor.process_command(Command::System(System::SearchNext));
    assert_eq!(
        editor.message(),
        "Have no search query, please search for something first"
    );
}
