//! The one-line prompt where a file name or a search query is typed.
use crate::command::{Edit, Move};
use crate::line::{count_in, pieces, Line, MAX_LINE_LEN};
use crate::text::graphemes_of;
use crate::position::Size;
use crate::view::sat_sub;
use vstd::prelude::*;

verus! {

/// The value after typing `e` into it: a character or a tab is added at
/// the end (not past the longest line), a backspace removes the last
/// cluster, and a line break or a forward delete does nothing.
pub open spec fn value_after_edit(v: Seq<char>, e: Edit) -> Seq<char> {
    match e {
        Edit::Insert(ch) => if v.len() < MAX_LINE_LEN {
            v.push(ch)
        } else {
            v
        },
        Edit::InsertTab => if v.len() < MAX_LINE_LEN {
            v.push('\t')
        } else {
            v
        },
        Edit::DeleteBackward => if count_in(v) > 0 {
            v.subrange(0, crate::line::offset_in(v, count_in(v) - 1))
        } else {
            v
        },
        Edit::InsertNewline | Edit::Delete => v,
    }
}

/// A prompt and the value typed after it.
pub struct CommandBar {
    prompt: String,
    value: Line,
    needs_redraw: bool,
    size: Size,
}

impl CommandBar {
    pub closed spec fn prompt_text(&self) -> Seq<char> {
        self.prompt@
    }

    pub closed spec fn value_text(&self) -> Seq<char> {
        self.value@
    }

    pub closed spec fn bar_size(&self) -> Size {
        self.size
    }

    pub closed spec fn wf(&self) -> bool {
        self.value.wf()
    }

    /// The column of the caret: after the prompt and the value's clusters,
    /// within the bar's width.
    pub open spec fn caret_col(&self) -> int {
        if self.prompt_text().len() + count_in(self.value_text()) <= self.bar_size().width {
            self.prompt_text().len() + count_in(self.value_text())
        } else {
            self.bar_size().width as int
        }
    }

    pub fn new() -> (r: CommandBar)
        ensures
            r.wf(),
            r.prompt_text() == Seq::<char>::empty(),
            r.value_text() == Seq::<char>::empty(),
    {
        CommandBar {
            prompt: String::new(),
            value: Line::default(),
            needs_redraw: true,
            size: Size { height: 0, width: 0 },
        }
    }

    /// Typing into the value; see `value_after_edit`.
    pub fn handle_edit_command(&mut self, edit_command: &Edit)
        requires
            old(self).wf(),
        ensures
            final(self).wf(),
            final(self).prompt_text() == old(self).prompt_text(),
            final(self).bar_size() == old(self).bar_size(),
            final(self).value_text() == value_after_edit(old(self).value_text(), *edit_command),
    {
        match edit_command {
            Edit::InsertNewline | Edit::Delete => {},
            Edit::Insert(ch) => {
                if self.value.len() < MAX_LINE_LEN {
                    self.value.append_char(*ch);
                }
            },
            Edit::InsertTab => {
                if self.value.len() < MAX_LINE_LEN {
                    self.value.append_char('\t');
                }
            },
            Edit::DeleteBackward => self.value.delete_last(),
        }
        self.needs_redraw = true;
    }

    /// The caret does not move inside the value.
    pub fn handle_move_command(&self, _move_command: &Move) {
    }

    /// The typed value.
    pub fn value(&self) -> (r: String)
        requires
            self.wf(),
        ensures
            r@ == self.value_text(),
            r@.len() <= MAX_LINE_LEN,
    {
        proof {
            self.value.lemma_wf_text();
        }
        self.value.to_string()
    }

    /// The column of the caret: after the prompt and the value's clusters,
    /// within the bar's width.
    pub fn caret_position_col(&self) -> (r: usize)
        requires
            self.wf(),
        ensures
            r == self.caret_col(),
    {
        let characters_width = self.prompt.as_str().unicode_len().saturating_add(
            self.value.grapheme_count(),
        );
        if characters_width <= self.size.width {
            characters_width
        } else {
            self.size.width
        }
    }

    pub fn set_prompt(&mut self, prompt: &str)
        requires
            old(self).wf(),
        ensures
            final(self).wf(),
            final(self).prompt_text() == prompt@,
            final(self).value_text() == old(self).value_text(),
            final(self).bar_size() == old(self).bar_size(),
    {
        self.prompt = prompt.to_string();
        self.needs_redraw = true;
    }

    pub fn clear_value(&mut self)
        requires
            old(self).wf(),
        ensures
            final(self).wf(),
            final(self).prompt_text() == old(self).prompt_text(),
            final(self).value_text() == Seq::<char>::empty(),
            final(self).bar_size() == old(self).bar_size(),
    {
        self.value = Line::default();
        self.needs_redraw = true;
    }

    pub fn resize(&mut self, size: Size)
        requires
            old(self).wf(),
        ensures
            final(self).wf(),
            final(self).prompt_text() == old(self).prompt_text(),
            final(self).value_text() == old(self).value_text(),
            final(self).bar_size() == size,
    {
        self.size = size;
        self.needs_redraw = true;
    }

    /// What the bar shows: the prompt, then as much of the end of the value
    /// as the rest of the width holds.
    pub fn bar_text(&self) -> (r: String)
        requires
            self.wf(),
        ensures
            ({
                let area = sat_sub(self.bar_size().width as int, self.prompt_text().len() as int);
                let end = crate::line::cols_in(self.value_text(), count_in(self.value_text()));
                r@ == self.prompt_text() + pieces(
                    graphemes_of(self.value_text()),
                    0,
                    count_in(self.value_text()),
                    sat_sub(end, area),
                    end,
                )
            }),
    {
        let prompt_len = self.prompt.as_str().unicode_len();
        let area_for_value = self.size.width.saturating_sub(prompt_len);
        let value_end = self.value.width();
        let value_start = value_end.saturating_sub(area_for_value);
        let visible = self.value.get_visible_graphemes(value_start..value_end);
        let mut message = self.prompt.clone();
        message.append(visible.as_str());
        message
    }
}

} // verus!
