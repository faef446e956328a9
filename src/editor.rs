//! The editor's modes: commands go to the document, or to the prompt while
//! a file name or a search query is typed; quitting a changed document
//! takes repeated requests.
use crate::command::{Command, Edit, System};
use crate::commandbar::{value_after_edit, CommandBar};
use crate::line::MAX_LINE_LEN;
use crate::position::{Position, Size};
use crate::statusbar::{decimal, to_decimal, MessageBar, StatusBar};
use crate::view::{
    edit_marks, edit_outcome, found_match, location_after_move, sat_sub, scrolled_to,
    DocumentStatus, View,
};
use vstd::prelude::*;
use vstd::view::View as _;

verus! {

/// How many quit requests in a row leave a changed document.
pub const QUIT_TIMES: u8 = 3;

/// Where commands go: to the document, or to a prompt.
#[derive(Clone, Copy, Debug, PartialEq, Eq, Structural)]
pub enum PromptType {
    Search,
    Save,
    NoPrompt,
}

/// A request to write the document: to its own file, or to the named one.
pub struct SaveRequest {
    pub file_name: Option<String>,
}

/// The mode after `c` in mode `mode`.
pub open spec fn mode_after(mode: PromptType, c: Command, file_loaded: bool) -> PromptType {
    match mode {
        PromptType::NoPrompt => match c {
            Command::System(System::Save) => if file_loaded {
                PromptType::NoPrompt
            } else {
                PromptType::Save
            },
            Command::System(System::Search) => PromptType::Search,
            _ => PromptType::NoPrompt,
        },
        _ => match c {
            Command::System(System::Dismiss) => PromptType::NoPrompt,
            Command::Edit(Edit::InsertNewline) => PromptType::NoPrompt,
            _ => mode,
        },
    }
}

/// A quit request is granted for an unchanged document, or on the last of
/// the requests in a row that a changed one takes.
pub open spec fn quit_granted(modified: bool, quit_times: int) -> bool {
    !modified || quit_times + 1 == QUIT_TIMES
}

/// The warning that a changed document takes `remaining` more quit
/// requests.
pub open spec fn quit_warning(remaining: nat) -> Seq<char> {
    "WARNING!!! File has unsaved changes. Press Ctrl-T "@ + decimal(remaining)
        + " more times to quit."@
}

/// Whether `c` in mode `mode` asks to write the document.
pub open spec fn asks_save(mode: PromptType, c: Command, file_loaded: bool) -> bool {
    ||| mode == PromptType::NoPrompt && c == Command::System(System::Save) && file_loaded
    ||| mode == PromptType::Save && c == Command::Edit(Edit::InsertNewline)
}

/// The editor: a document, a prompt, a message, and the mode.
pub struct Editor {
    should_quit: bool,
    view: View,
    command_bar: CommandBar,
    status_bar: StatusBar,
    message_bar: MessageBar,
    prompt_type: PromptType,
    terminal_size: Size,
    quit_times: u8,
}

impl Editor {
    pub closed spec fn mode(&self) -> PromptType {
        self.prompt_type
    }

    pub closed spec fn quits(&self) -> int {
        self.quit_times as int
    }

    pub closed spec fn quitting(&self) -> bool {
        self.should_quit
    }

    pub closed spec fn message_text(&self) -> Seq<char> {
        self.message_bar.text()
    }

    /// The status the status bar shows.
    pub closed spec fn shown_status(&self) -> DocumentStatus {
        self.status_bar.status()
    }

    pub closed spec fn screen(&self) -> Size {
        self.terminal_size
    }

    pub closed spec fn document(&self) -> View {
        self.view
    }

    pub closed spec fn prompt(&self) -> CommandBar {
        self.command_bar
    }

    pub closed spec fn wf(&self) -> bool {
        &&& self.view.wf()
        &&& self.command_bar.wf()
        &&& self.quit_times < QUIT_TIMES
        &&& (self.prompt_type == PromptType::Search) == self.view.search_state().is_some()
    }

    /// An editor with an empty document, in no prompt.
    pub fn new() -> (r: Editor)
        ensures
            r.wf(),
            r.mode() == PromptType::NoPrompt,
            r.quits() == 0,
            !r.quitting(),
            r.document().text() == Seq::<Seq<char>>::empty(),
    {
        Editor {
            should_quit: false,
            view: View::new(),
            command_bar: CommandBar::new(),
            status_bar: StatusBar::new(),
            message_bar: MessageBar::new(),
            prompt_type: PromptType::NoPrompt,
            terminal_size: Size { height: 0, width: 0 },
            quit_times: 0,
        }
    }

    /// Opens file `file_name`, given what reading it gave.
    pub fn load(&mut self, file_name: &str, content: Option<&str>)
        requires
            old(self).wf(),
            content matches Some(t) ==> t@.len() <= MAX_LINE_LEN,
        ensures
            final(self).wf(),
            final(self).document().file() == Some(file_name@),
            match content {
                Some(t) => final(self).document().text() == crate::buffer::lines_of(t@),
                None => final(self).document().text() == seq![Seq::<char>::empty()],
            },
            final(self).mode() == old(self).mode(),
    {
        self.view.load(file_name, content);
    }

    pub fn should_quit(&self) -> (r: bool)
        ensures
            r == self.quitting(),
    {
        self.should_quit
    }

    pub fn message(&self) -> (r: String)
        ensures
            r@ == self.message_text(),
    {
        self.message_bar.message()
    }

    pub fn message_bar(&self) -> (r: &MessageBar)
        ensures
            r.text() == self.message_text(),
    {
        &self.message_bar
    }

    pub fn status_bar(&self) -> (r: &StatusBar)
        ensures
            r.status() == self.shown_status(),
    {
        &self.status_bar
    }

    /// Hands the document's status to the status bar.
    pub fn refresh_status(&mut self)
        requires
            old(self).wf(),
        ensures
            final(self).wf(),
            final(self).document() == old(self).document(),
            final(self).mode() == old(self).mode(),
            final(self).shown_status().total_lines == final(self).document().text().len(),
            final(self).shown_status().current_line_idx == final(self).document().location().line_idx,
            final(self).shown_status().is_modified == final(self).document().modified(),
    {
        let status = self.view.get_status();
        self.status_bar.update_status(status);
    }

    pub fn in_prompt(&self) -> (r: bool)
        ensures
            r == (self.mode() != PromptType::NoPrompt),
    {
        self.prompt_type != PromptType::NoPrompt
    }

    pub fn view(&self) -> (r: &View)
        ensures
            *r == self.document(),
    {
        &self.view
    }

    pub fn command_bar(&self) -> (r: &CommandBar)
        ensures
            *r == self.prompt(),
    {
        &self.command_bar
    }

    pub fn terminal_size(&self) -> (r: Size)
        ensures
            r == self.screen(),
    {
        self.terminal_size
    }

    /// The text that saving writes.
    pub fn file_text(&self) -> (r: String)
        ensures
            r@ == crate::buffer::saved_text(self.document().text()),
    {
        self.view.file_text()
    }

    /// The document's status.
    pub fn get_status(&self) -> (r: DocumentStatus)
        requires
            self.wf(),
        ensures
            r.total_lines == self.document().text().len(),
            r.current_line_idx == self.document().location().line_idx,
            r.is_modified == self.document().modified(),
            r.filename@ == match self.document().file() {
                Some(f) => f,
                None => "[No Name]"@,
            },
    {
        self.view.get_status()
    }

    /// Where the caret goes on screen: after the prompt's value on the
    /// bottom row while a prompt is open, else at the cursor.
    pub fn caret_position(&self) -> (r: Position)
        requires
            self.wf(),
        ensures
            self.mode() != PromptType::NoPrompt ==> r.row == sat_sub(
                self.screen().height as int,
                1,
            ) && r.col == self.prompt().caret_col(),
            self.mode() == PromptType::NoPrompt ==> r.row == sat_sub(
                self.document().caret().row as int,
                self.document().scroll().row as int,
            ) && r.col == sat_sub(
                self.document().caret().col as int,
                self.document().scroll().col as int,
            ),
    {
        if self.prompt_type != PromptType::NoPrompt {
            Position {
                row: self.terminal_size.height.saturating_sub(1),
                col: self.command_bar.caret_position_col(),
            }
        } else {
            self.view.caret_position()
        }
    }

    /// Shows `new_message` in the message bar.
    pub fn update_message(&mut self, new_message: &str)
        ensures
            final(self).message_text() == new_message@,
            final(self).document() == old(self).document(),
            final(self).prompt() == old(self).prompt(),
            final(self).mode() == old(self).mode(),
            final(self).quits() == old(self).quits(),
            final(self).quitting() == old(self).quitting(),
            final(self).screen() == old(self).screen(),
    {
        self.message_bar.update_message(new_message);
    }

    /// Takes the terminal's new size: the document gets all rows but the two
    /// bars at the bottom.
    fn handle_resize_command(&mut self, size: Size)
        requires
            old(self).wf(),
        ensures
            final(self).wf(),
            final(self).document().text() == old(self).document().text(),
            final(self).document().location() == old(self).document().location(),
            final(self).document().search_state() == old(self).document().search_state(),
            final(self).document().modified() == old(self).document().modified(),
            final(self).document().file() == old(self).document().file(),
            final(self).document().view_size() == (Size {
                height: sat_sub(size.height as int, 2) as usize,
                width: size.width,
            }),
            final(self).prompt().value_text() == old(self).prompt().value_text(),
            final(self).mode() == old(self).mode(),
            final(self).quits() == old(self).quits(),
            final(self).quitting() == old(self).quitting(),
    {
        self.terminal_size = size;
        self.view.resize(Size { height: size.height.saturating_sub(2), width: size.width });
        self.command_bar.resize(Size { height: 1, width: size.width });
    }

    /// Records how a requested save went: the document belongs to the file
    /// written and counts as unchanged when the text was written; the
    /// message says how it went.
    pub fn complete_save(&mut self, request: &SaveRequest, written: bool)
        requires
            old(self).wf(),
        ensures
            final(self).wf(),
            final(self).document().text() == old(self).document().text(),
            written ==> !final(self).document().modified(),
            written ==> final(self).message_text() == "File saved successfully"@,
            !written ==> final(self).message_text() == "Error writing file!"@,
            !written ==> final(self).document().modified() == old(self).document().modified(),
            match request.file_name {
                Some(f) => written ==> final(self).document().file() == Some(f@),
                None => final(self).document().file() == old(self).document().file(),
            },
    {
        match &request.file_name {
            Some(f) => self.view.save_as(f.as_str(), written),
            None => self.view.save(written),
        }
        if written {
            self.update_message("File saved successfully");
        } else {
            self.update_message("Error writing file!");
        }
    }

    /// Opens prompt `prompt_type` with an empty value.
    fn set_prompt(&mut self, prompt_type: PromptType)
        requires
            old(self).wf(),
            prompt_type != PromptType::Search,
            old(self).document().search_state().is_none(),
        ensures
            final(self).wf(),
            final(self).mode() == prompt_type,
            final(self).document() == old(self).document(),
            final(self).prompt().value_text() == Seq::<char>::empty(),
            final(self).quits() == old(self).quits(),
            final(self).quitting() == old(self).quitting(),
    {
        match prompt_type {
            PromptType::Save => self.command_bar.set_prompt("Save as: "),
            _ => {},
        }
        self.command_bar.clear_value();
        self.prompt_type = prompt_type;
    }

    /// Acts on a command in the current mode. A resize reaches the document
    /// in every mode; otherwise, with no prompt open, moves and edits go to
    /// the document, while a prompt is open they go to the prompt. Gives
    /// the save to make, if the command asks for one.
    pub fn process_command(&mut self, command: Command) -> (r: Option<SaveRequest>)
        requires
            old(self).wf(),
        ensures
            final(self).wf(),
            final(self).mode() == mode_after(
                old(self).mode(),
                command,
                old(self).document().file().is_some(),
            ),
            final(self).quitting() == (old(self).quitting() || (old(self).mode()
                == PromptType::NoPrompt && command == Command::System(System::Quit) && quit_granted(
                old(self).document().modified(),
                old(self).quits(),
            ))),
            final(self).quits() == if old(self).mode() != PromptType::NoPrompt {
                old(self).quits()
            } else if command == Command::System(System::Quit) {
                if quit_granted(old(self).document().modified(), old(self).quits()) {
                    old(self).quits()
                } else {
                    old(self).quits() + 1
                }
            } else {
                0
            },
            r.is_some() == asks_save(
                old(self).mode(),
                command,
                old(self).document().file().is_some(),
            ),
            r matches Some(req) ==> match req.file_name {
                Some(f) => old(self).mode() == PromptType::Save && f@ == old(self).prompt().value_text(),
                None => old(self).mode() == PromptType::NoPrompt,
            },
            old(self).mode() == PromptType::NoPrompt ==> match command {
                Command::Move(m) => final(self).document().text() == old(self).document().text()
                    && final(self).document().location() == location_after_move(
                    old(self).document().text(),
                    old(self).document().location(),
                    m,
                    old(self).document().view_size().height as int,
                ),
                Command::Edit(e) => {
                    let out = edit_outcome(
                        old(self).document().text(),
                        old(self).document().location(),
                        old(self).document().scroll(),
                        old(self).document().view_size(),
                        e,
                    );
                    final(self).document().text() == out.0 && final(self).document().location()
                        == out.1
                },
                _ => final(self).document().text() == old(self).document().text(),
            },
            old(self).mode() != PromptType::NoPrompt ==> final(self).document().text() == old(self).document().text(),
            old(self).mode() == PromptType::Search && command == Command::System(System::Dismiss)
                ==> final(self).document().location() == old(self).document().search_state().unwrap().0,
            old(self).mode() == PromptType::Search && (command matches Command::Edit(e)
                && e != Edit::InsertNewline) ==> final(self).document().query() == Some(
                final(self).prompt().value_text(),
            ),
            old(self).mode() != PromptType::NoPrompt ==> match command {
                Command::Edit(e) => e != Edit::InsertNewline ==> final(self).prompt().value_text()
                    == value_after_edit(old(self).prompt().value_text(), e),
                _ => final(self).prompt().value_text() == old(self).prompt().value_text(),
            },
            old(self).mode() != PromptType::NoPrompt ==> final(self).document().modified() == old(self).document().modified(),
            old(self).mode() == PromptType::NoPrompt && command == Command::System(System::Quit)
                && !quit_granted(old(self).document().modified(), old(self).quits()) ==> final(self).message_text() == quit_warning((QUIT_TIMES - old(self).quits() - 1) as nat),
            old(self).mode() == PromptType::Save && command == Command::System(System::Dismiss)
                ==> final(self).message_text() == "Save aborted"@,
            old(self).mode() == PromptType::Search && command == Command::System(System::Dismiss)
                ==> final(self).message_text() == "Search aborted"@,
            old(self).mode() == PromptType::NoPrompt && command == Command::System(
                System::SearchNext,
            ) ==> final(self).message_text()
                == "Have no search query, please search for something first"@,
            old(self).mode() == PromptType::NoPrompt && command == Command::System(System::Search)
                ==> final(self).document().search_state() == Some(
                (old(self).document().location(), None::<Seq<char>>),
            ) && final(self).message_text().len() == 0 && final(self).prompt().value_text()
                == Seq::<char>::empty(),
            old(self).mode() == PromptType::NoPrompt && command == Command::System(System::Save)
                && old(self).document().file().is_none() ==> final(self).prompt().value_text()
                == Seq::<char>::empty(),
            old(self).mode() == PromptType::NoPrompt && (command == Command::System(
                System::SearchNext,
            ) || command == Command::System(System::SearchPrevious)) ==> final(self).document().location() == old(self).document().location() && final(self).document().scroll() == old(self).document().scroll(),
            old(self).mode() == PromptType::NoPrompt ==> match command {
                Command::Move(m) => final(self).document().scroll() == scrolled_to(
                    old(self).document().scroll(),
                    final(self).document().caret(),
                    old(self).document().view_size(),
                ) && final(self).document().modified() == old(self).document().modified(),
                Command::Edit(e) => final(self).document().scroll() == edit_outcome(
                    old(self).document().text(),
                    old(self).document().location(),
                    old(self).document().scroll(),
                    old(self).document().view_size(),
                    e,
                ).2 && final(self).document().modified() == (old(self).document().modified()
                    || edit_marks(
                    old(self).document().text(),
                    old(self).document().location(),
                    old(self).document().view_size(),
                    e,
                )),
                _ => true,
            },
            old(self).mode() == PromptType::Search && command == Command::Edit(Edit::InsertNewline)
                ==> final(self).document().location() == old(self).document().location(),
            !(command matches Command::System(System::Resize(_))) ==> final(self).document().view_size() == old(self).document().view_size(),
            old(self).mode() == PromptType::NoPrompt && (command is Move || command is Edit) ==> {
                &&& final(self).document().file() == old(self).document().file()
                &&& final(self).document().search_state() == old(self).document().search_state()
            },
            old(self).mode() == PromptType::Save ==> {
                &&& final(self).document().file() == old(self).document().file()
                &&& final(self).document().location() == old(self).document().location()
                &&& final(self).document().search_state() == old(self).document().search_state()
            },
            old(self).mode() == PromptType::Save && !(command matches Command::System(
                System::Resize(_),
            )) ==> final(self).document().scroll() == old(self).document().scroll(),
            old(self).mode() == PromptType::Search && command == Command::System(System::Dismiss)
                ==> final(self).document().search_state() is None,
            old(self).mode() == PromptType::Search && (command matches Command::Edit(e)
                && e != Edit::InsertNewline) ==> {
                let st = old(self).document().search_state().unwrap();
                &&& final(self).document().search_state() == Some(
                    (st.0, Some(final(self).prompt().value_text())),
                )
                &&& match found_match(
                    old(self).document().text(),
                    Some(final(self).prompt().value_text()),
                    st.0,
                    true,
                ) {
                    Some(r) => final(self).document().scroll() == scrolled_to(
                        old(self).document().scroll(),
                        final(self).document().caret(),
                        old(self).document().view_size(),
                    ),
                    None => final(self).document().scroll() == old(self).document().scroll(),
                }
            },
            old(self).mode() == PromptType::Search && (command matches Command::Edit(e)
                && e != Edit::InsertNewline) ==> match found_match(
                old(self).document().text(),
                Some(final(self).prompt().value_text()),
                old(self).document().search_state().unwrap().0,
                true,
            ) {
                Some(r) => final(self).document().location() == r,
                None => final(self).document().location() == old(self).document().location(),
            },
    {
        if let Command::System(System::Resize(size)) = command {
            self.handle_resize_command(size);
        }
        match self.prompt_type {
            PromptType::NoPrompt => {
                if command == Command::System(System::Quit) {
                    self.handle_quit();
                    return None;
                }
                if self.quit_times > 0 {
                    self.quit_times = 0;
                    self.update_message("");
                }
                match command {
                    Command::System(System::Save) => {
                        if self.view.is_file_loaded() {
                            return Some(SaveRequest { file_name: None });
                        }
                        self.set_prompt(PromptType::Save);
                    },
                    Command::System(System::Search) => {
                        self.command_bar.set_prompt("Search: ");
                        self.command_bar.clear_value();
                        self.view.enter_search();
                        self.prompt_type = PromptType::Search;
                        self.update_message("");
                        proof {
                            reveal_strlit("");
                        }
                    },
                    Command::System(System::SearchNext) => {
                        if !self.view.search_next() {
                            self.update_message(
                                "Have no search query, please search for something first",
                            );
                        }
                    },
                    Command::System(System::SearchPrevious) => self.view.search_backward(),
                    Command::System(_) => {},
                    Command::Move(m) => self.view.handle_move_command(&m),
                    Command::Edit(e) => self.view.handle_edit_command(&e),
                }
                None
            },
            PromptType::Save => match command {
                Command::System(System::Dismiss) => {
                    self.prompt_type = PromptType::NoPrompt;
                    self.update_message("Save aborted");
                    None
                },
                Command::System(_) => None,
                Command::Move(m) => {
                    self.command_bar.handle_move_command(&m);
                    None
                },
                Command::Edit(Edit::InsertNewline) => {
                    let file_name = self.command_bar.value();
                    self.prompt_type = PromptType::NoPrompt;
                    Some(SaveRequest { file_name: Some(file_name) })
                },
                Command::Edit(e) => {
                    self.command_bar.handle_edit_command(&e);
                    None
                },
            },
            PromptType::Search => {
                match command {
                    Command::System(System::Dismiss) => {
                        self.prompt_type = PromptType::NoPrompt;
                        self.view.dismiss_search();
                        self.update_message("Search aborted");
                    },
                    Command::System(_) => {},
                    Command::Move(m) => self.command_bar.handle_move_command(&m),
                    Command::Edit(Edit::InsertNewline) => {
                        self.prompt_type = PromptType::NoPrompt;
                        self.view.exit_search();
                    },
                    Command::Edit(e) => {
                        self.command_bar.handle_edit_command(&e);
                        let query = self.command_bar.value();
                        self.view.search(query.as_str());
                    },
                }
                None
            },
        }
    }

    /// A quit request with no prompt open.
    fn handle_quit(&mut self)
        requires
            old(self).wf(),
        ensures
            final(self).wf(),
            final(self).document() == old(self).document(),
            final(self).prompt() == old(self).prompt(),
            final(self).mode() == old(self).mode(),
            quit_granted(old(self).document().modified(), old(self).quits()) ==> final(self).quitting() && final(self).quits() == old(self).quits(),
            !quit_granted(old(self).document().modified(), old(self).quits()) ==> final(self).quitting() == old(self).quitting() && final(self).quits() == old(self).quits() + 1
                && final(self).message_text() == quit_warning(
                (QUIT_TIMES - old(self).quits() - 1) as nat,
            ),
    {
        let is_modified = self.view.get_status().is_modified;
        if !is_modified || self.quit_times + 1 == QUIT_TIMES {
            self.should_quit = true;
        } else {
            let remaining = QUIT_TIMES - self.quit_times - 1;
            let mut message = "WARNING!!! File has unsaved changes. Press Ctrl-T ".to_string();
            let count = to_decimal(remaining as usize);
            message.append(count.as_str());
            message.append(" more times to quit.");
            self.update_message(message.as_str());
            self.quit_times = self.quit_times + 1;
        }
    }
}

} // verus!
