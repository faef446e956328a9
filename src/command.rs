//! The commands the editor acts on, and how keys and resizes decode into
//! them.
use crate::position::Size;
use vstd::prelude::*;

verus! {

/// A key, as far as decoding looks at it.
#[derive(Clone, Copy, Debug, PartialEq, Eq, Structural)]
pub enum KeyCode {
    Char(char),
    Up,
    Down,
    Left,
    Right,
    PageUp,
    PageDown,
    Home,
    End,
    Tab,
    Enter,
    Delete,
    Backspace,
    Esc,
    Other,
}

/// The modifier keys held: shift, control, alt, and any other.
#[derive(Clone, Copy, Debug, PartialEq, Eq, Structural)]
pub struct KeyModifiers {
    pub shift: bool,
    pub control: bool,
    pub alt: bool,
    pub other: bool,
}

/// A key press.
#[derive(Clone, Copy, Debug, PartialEq, Eq, Structural)]
pub struct KeyEvent {
    pub code: KeyCode,
    pub modifiers: KeyModifiers,
}

pub open spec fn no_modifiers(m: KeyModifiers) -> bool {
    !m.shift && !m.control && !m.alt && !m.other
}

pub open spec fn shift_only(m: KeyModifiers) -> bool {
    m.shift && !m.control && !m.alt && !m.other
}

pub open spec fn control_only(m: KeyModifiers) -> bool {
    !m.shift && m.control && !m.alt && !m.other
}

fn has_no_modifiers(m: &KeyModifiers) -> (r: bool)
    ensures
        r == no_modifiers(*m),
{
    !m.shift && !m.control && !m.alt && !m.other
}

/// The edit a key asks for: a character (alone or with shift), or tab,
/// enter, delete or backspace alone.
pub open spec fn edit_of_key(k: KeyEvent) -> Option<Edit> {
    match k.code {
        KeyCode::Char(ch) => if no_modifiers(k.modifiers) || shift_only(k.modifiers) {
            Some(Edit::Insert(ch))
        } else {
            None
        },
        KeyCode::Tab => if no_modifiers(k.modifiers) {
            Some(Edit::InsertTab)
        } else {
            None
        },
        KeyCode::Enter => if no_modifiers(k.modifiers) {
            Some(Edit::InsertNewline)
        } else {
            None
        },
        KeyCode::Delete => if no_modifiers(k.modifiers) {
            Some(Edit::Delete)
        } else {
            None
        },
        KeyCode::Backspace => if no_modifiers(k.modifiers) {
            Some(Edit::DeleteBackward)
        } else {
            None
        },
        _ => None,
    }
}

/// The movement a key asks for: an arrow, page up or down, home or end,
/// with no modifier.
pub open spec fn move_of_key(k: KeyEvent) -> Option<Move> {
    if !no_modifiers(k.modifiers) {
        None
    } else {
        match k.code {
            KeyCode::Up => Some(Move::Up),
            KeyCode::Down => Some(Move::Down),
            KeyCode::Left => Some(Move::Left),
            KeyCode::Right => Some(Move::Right),
            KeyCode::PageDown => Some(Move::PageDown),
            KeyCode::PageUp => Some(Move::PageUp),
            KeyCode::Home => Some(Move::StartOfLine),
            KeyCode::End => Some(Move::EndOfLine),
            _ => None,
        }
    }
}

/// The editor command a key asks for: control with t, s, f, n or p, or
/// escape alone.
pub open spec fn system_of_key(k: KeyEvent) -> Option<System> {
    if control_only(k.modifiers) {
        match k.code {
            KeyCode::Char('t') => Some(System::Quit),
            KeyCode::Char('s') => Some(System::Save),
            KeyCode::Char('f') => Some(System::Search),
            KeyCode::Char('n') => Some(System::SearchNext),
            KeyCode::Char('p') => Some(System::SearchPrevious),
            _ => None,
        }
    } else if no_modifiers(k.modifiers) && k.code == KeyCode::Esc {
        Some(System::Dismiss)
    } else {
        None
    }
}

/// The command a key asks for: an edit first, then a movement, then an
/// editor command.
pub open spec fn command_of_key(k: KeyEvent) -> Option<Command> {
    match edit_of_key(k) {
        Some(e) => Some(Command::Edit(e)),
        None => match move_of_key(k) {
            Some(m) => Some(Command::Move(m)),
            None => match system_of_key(k) {
                Some(s) => Some(Command::System(s)),
                None => None,
            },
        },
    }
}

/// Cursor movements.
#[derive(Clone, Copy, Debug, PartialEq, Eq, Structural)]
pub enum Move {
    PageUp,
    PageDown,
    StartOfLine,
    EndOfLine,
    Up,
    Left,
    Right,
    Down,
}

/// Changes to the text.
#[derive(Clone, Copy, Debug, PartialEq, Eq, Structural)]
pub enum Edit {
    Insert(char),
    InsertTab,
    InsertNewline,
    Delete,
    DeleteBackward,
}

/// Commands to the editor itself.
#[derive(Clone, Copy, Debug, PartialEq, Eq, Structural)]
pub enum System {
    Save,
    Search,
    SearchNext,
    SearchPrevious,
    Dismiss,
    Resize(Size),
    Quit,
}

#[derive(Clone, Copy, Debug, PartialEq, Eq, Structural)]
pub enum Command {
    Move(Move),
    Edit(Edit),
    System(System),
}

impl Edit {
    pub fn from_key(key: &KeyEvent) -> (r: Option<Edit>)
        ensures
            r == edit_of_key(*key),
    {
        let m = &key.modifiers;
        let plain = has_no_modifiers(m);
        match key.code {
            KeyCode::Char(ch) => {
                if plain || (m.shift && !m.control && !m.alt && !m.other) {
                    Some(Edit::Insert(ch))
                } else {
                    None
                }
            },
            KeyCode::Tab => if plain {
                Some(Edit::InsertTab)
            } else {
                None
            },
            KeyCode::Enter => if plain {
                Some(Edit::InsertNewline)
            } else {
                None
            },
            KeyCode::Delete => if plain {
                Some(Edit::Delete)
            } else {
                None
            },
            KeyCode::Backspace => if plain {
                Some(Edit::DeleteBackward)
            } else {
                None
            },
            _ => None,
        }
    }
}

impl Move {
    pub fn from_key(key: &KeyEvent) -> (r: Option<Move>)
        ensures
            r == move_of_key(*key),
    {
        if !has_no_modifiers(&key.modifiers) {
            return None;
        }
        match key.code {
            KeyCode::Up => Some(Move::Up),
            KeyCode::Down => Some(Move::Down),
            KeyCode::Left => Some(Move::Left),
            KeyCode::Right => Some(Move::Right),
            KeyCode::PageDown => Some(Move::PageDown),
            KeyCode::PageUp => Some(Move::PageUp),
            KeyCode::Home => Some(Move::StartOfLine),
            KeyCode::End => Some(Move::EndOfLine),
            _ => None,
        }
    }
}

impl System {
    pub fn from_key(key: &KeyEvent) -> (r: Option<System>)
        ensures
            r == system_of_key(*key),
    {
        let m = &key.modifiers;
        if !m.shift && m.control && !m.alt && !m.other {
            match key.code {
                KeyCode::Char('t') => Some(System::Quit),
                KeyCode::Char('s') => Some(System::Save),
                KeyCode::Char('f') => Some(System::Search),
                KeyCode::Char('n') => Some(System::SearchNext),
                KeyCode::Char('p') => Some(System::SearchPrevious),
                _ => None,
            }
        } else if has_no_modifiers(m) && key.code == KeyCode::Esc {
            Some(System::Dismiss)
        } else {
            None
        }
    }
}

impl Command {
    /// The command a key asks for, if any.
    pub fn from_key(key: &KeyEvent) -> (r: Option<Command>)
        ensures
            r == command_of_key(*key),
    {
        match Edit::from_key(key) {
            Some(e) => Some(Command::Edit(e)),
            None => match Move::from_key(key) {
                Some(m) => Some(Command::Move(m)),
                None => match System::from_key(key) {
                    Some(s) => Some(Command::System(s)),
                    None => None,
                },
            },
        }
    }

    /// The command for a terminal resized to `width` columns and `height`
    /// rows.
    pub fn from_resize(width: u16, height: u16) -> (r: Command)
        ensures
            r == Command::System(System::Resize(Size { height: height as usize, width: width as usize })),
    {
        Command::System(System::Resize(Size { height: height as usize, width: width as usize }))
    }
}

} // verus!
