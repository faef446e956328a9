use hecto::annotated_string::{AnnotatedString, AnnotationType};
use hecto::command::{Command, Edit, KeyCode, KeyEvent, KeyModifiers, Move, System};
use hecto::commandbar::CommandBar;
use hecto::position::Size;
use hecto::statusbar::{to_decimal, MessageBar, StatusBar};
use hecto::view::DocumentStatus;

fn plain() -> KeyModifiers {
    KeyModifiers {
        shift: false,
        control: false,
        alt: false,
        other: false,
    }
}

fn control() -> KeyModifiers {
    KeyModifiers {
        shift: false,
        control: true,
        alt: false,
        other: false,
    }
}

fn key(code: KeyCode, modifiers: KeyModifiers) -> KeyEvent {
    KeyEvent { code, modifiers }
}

#[test]
fn keys_decode_into_commands() {
    assert_eq!(
        Command::from_key(&key(KeyCode::Char('a'), plain())),
        Some(Command::Edit(Edit::Insert('a')))
    );
    let shift = KeyModifiers {
        shift: true,
        ..plain()
    };
    assert_eq!(
        Command::from_key(&key(KeyCode::Char('A'), shift)),
        Some(Command::Edit(Edit::Insert('A')))
    );
    assert_eq!(
        Command::from_key(&key(KeyCode::Char('t'), control())),
        Some(Command::System(System::Quit))
    );
    assert_eq!(
        Command::from_key(&key(KeyCode::Home, plain())),
        Some(Command::Move(Move::StartOfLine))
    );
    assert_eq!(
        Command::from_key(&key(KeyCode::Esc, plain())),
        Some(Command::System(System::Dismiss))
    );
    assert_eq!(Command::from_key(&key(KeyCode::Up, control())), None);
    assert_eq!(Command::from_key(&key(KeyCode::Char('x'), control())), None);
    assert_eq!(
        Command::from_resize(80, 24),
        Command::System(System::Resize(Size {
            height: 24,
            width: 80
        }))
    );
}

#[test]
fn numbers_in_decimal() {
    assert_eq!(to_decimal(0), "0");
    assert_eq!(to_decimal(7), "7");
    assert_eq!(to_decimal(1203), "1203");
}

#[test]
fn status_line_fits_or_is_empty() {
    let mut bar = StatusBar::new();
    let status = DocumentStatus {
        total_lines: 12,
        current_line_idx: 2,
        is_modified: true,
        filename: "a.txt".to_string(),
    };
    assert_eq!(status.line_count_to_string(), "12 lines");
    assert_eq!(status.position_indicator_to_string(), "3/12");
    assert_eq!(status.modified_indicator_to_string(), "(modified)");
    bar.set_needs_redraw(false);
    bar.update_status(status);
    assert!(bar.get_needs_redraw());
    assert_eq!(bar.status_text(31), "a.txt (modified) - 12 lines3/12");
    assert_eq!(bar.status_text(40), "a.txt (modified) - 12 lines         3/12");
    assert_eq!(bar.status_text(30), "");
    assert_eq!(bar.status_text(10), "");
}

#[test]
fn message_bar_cuts_to_width() {
    let mut bar = MessageBar::new();
    bar.update_message("hello world");
    assert_eq!(bar.message(), "hello world");
    assert_eq!(bar.visible_text(5), "hello");
    assert_eq!(bar.visible_text(50), "hello world");
    bar.set_needs_redraw(false);
    bar.update_message("hello world");
    assert!(!bar.get_needs_redraw());
}

#[test]
fn command_bar_shows_the_end_of_the_value() {
    let mut bar = CommandBar::new();
    bar.set_prompt("Find: ");
    bar.resize(Size {
        height: 1,
        width: 10,
    });
    for ch in "abcdef".chars() {
        bar.handle_edit_command(&Edit::Insert(ch));
    }
    assert_eq!(bar.value(), "abcdef");
    assert_eq!(bar.bar_text(), "Find: cdef");
    assert_eq!(bar.caret_position_col(), 10);
    bar.handle_edit_command(&Edit::DeleteBackward);
    bar.handle_edit_command(&Edit::Delete);
    bar.handle_edit_command(&Edit::InsertNewline);
    assert_eq!(bar.value(), "abcde");
    bar.clear_value();
    assert_eq!(bar.value(), "");
    assert_eq!(bar.caret_position_col(), 6);
}

#[test]
fn parts_split_text_by_tag() {
    let mut s = AnnotatedString::from("abcdef");
    s.add_annotation(AnnotationType::Match, 1, 3);
    s.add_annotation(AnnotationType::SelectedMatch, 2, 4);
    let parts = s.parts();
    let texts: Vec<String> = parts.iter().map(|p| p.string.clone()).collect();
    let tags: Vec<Option<AnnotationType>> = parts.iter().map(|p| p.typ).collect();
    assert_eq!(texts, vec!["a", "b", "cd", "ef"]);
    assert_eq!(
        tags,
        vec![
            None,
            Some(AnnotationType::Match),
            Some(AnnotationType::SelectedMatch),
            None
        ]
    );
}
