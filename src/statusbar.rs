//! The status bar and the message bar: the strings they show.
use crate::text::same_text;
use crate::view::{sat_sub, DocumentStatus};
use vstd::prelude::*;
use vstd::view::View as _;

verus! {

broadcast use vstd::seq_lib::group_seq_properties;

pub open spec fn digit_char(d: nat) -> char {
    if d == 0 {
        '0'
    } else if d == 1 {
        '1'
    } else if d == 2 {
        '2'
    } else if d == 3 {
        '3'
    } else if d == 4 {
        '4'
    } else if d == 5 {
        '5'
    } else if d == 6 {
        '6'
    } else if d == 7 {
        '7'
    } else if d == 8 {
        '8'
    } else {
        '9'
    }
}

/// The decimal digits of `n`, most significant first.
pub open spec fn decimal(n: nat) -> Seq<char>
    decreases n,
{
    if n < 10 {
        seq![digit_char(n)]
    } else {
        decimal(n / 10).push(digit_char(n % 10))
    }
}

/// `n` spaces.
pub open spec fn spaces(n: int) -> Seq<char> {
    Seq::new(if n > 0 { n as nat } else { 0 }, |i: int| ' ')
}

/// Two statuses that show the same.
pub open spec fn same_status(a: DocumentStatus, b: DocumentStatus) -> bool {
    &&& a.total_lines == b.total_lines
    &&& a.current_line_idx == b.current_line_idx
    &&& a.is_modified == b.is_modified
    &&& a.filename@ == b.filename@
}

/// "(modified)" for a changed document, else nothing.
pub open spec fn modified_indicator(s: DocumentStatus) -> Seq<char> {
    if s.is_modified {
        "(modified)"@
    } else {
        seq![]
    }
}

/// The number of lines, as in "12 lines".
pub open spec fn line_count(s: DocumentStatus) -> Seq<char> {
    decimal(s.total_lines as nat) + " lines"@
}

/// The cursor's line, counted from one, and the number of lines, as in
/// "3/12".
pub open spec fn position_indicator(s: DocumentStatus) -> Seq<char> {
    let line = if s.current_line_idx < usize::MAX {
        s.current_line_idx + 1
    } else {
        s.current_line_idx as int
    };
    decimal(line as nat) + "/"@ + decimal(s.total_lines as nat)
}

/// The status line for a bar of `width` columns: the file name, the
/// changed mark, and the number of lines on the left, the position on the
/// right; nothing where it does not fit.
pub open spec fn status_line(s: DocumentStatus, width: int) -> Seq<char> {
    let m = modified_indicator(s);
    let beginning = if m.len() == 0 {
        s.filename@ + " - "@ + line_count(s)
    } else {
        s.filename@ + " "@ + m + " - "@ + line_count(s)
    };
    let p = position_indicator(s);
    let remainder = sat_sub(width, beginning.len() as int);
    let full = beginning + spaces(remainder - p.len()) + p;
    if full.len() <= width {
        full
    } else {
        seq![]
    }
}

fn digit(d: usize) -> (r: char)
    requires
        d < 10,
    ensures
        r == digit_char(d as nat),
{
    if d == 0 {
        '0'
    } else if d == 1 {
        '1'
    } else if d == 2 {
        '2'
    } else if d == 3 {
        '3'
    } else if d == 4 {
        '4'
    } else if d == 5 {
        '5'
    } else if d == 6 {
        '6'
    } else if d == 7 {
        '7'
    } else if d == 8 {
        '8'
    } else {
        '9'
    }
}

/// `n` in decimal digits.
pub fn to_decimal(n: usize) -> (r: String)
    ensures
        r@ == decimal(n as nat),
    decreases n,
{
    if n < 10 {
        let mut s = String::new();
        s.push(digit(n));
        assert(s@ =~= seq![digit_char(n as nat)]);
        s
    } else {
        let mut s = to_decimal(n / 10);
        s.push(digit(n % 10));
        s
    }
}

impl DocumentStatus {
    pub fn modified_indicator_to_string(&self) -> (r: String)
        ensures
            r@ == modified_indicator(*self),
    {
        if self.is_modified {
            "(modified)".to_string()
        } else {
            let r = String::new();
            assert(r@ =~= Seq::<char>::empty());
            r
        }
    }

    pub fn line_count_to_string(&self) -> (r: String)
        ensures
            r@ == line_count(*self),
    {
        let mut r = to_decimal(self.total_lines);
        r.append(" lines");
        r
    }

    pub fn position_indicator_to_string(&self) -> (r: String)
        ensures
            r@ == position_indicator(*self),
    {
        let mut r = to_decimal(self.current_line_idx.saturating_add(1));
        r.append("/");
        let total = to_decimal(self.total_lines);
        r.append(total.as_str());
        r
    }
}

/// What the status bar shows.
pub struct StatusBar {
    current_status: DocumentStatus,
    needs_redraw: bool,
}

impl StatusBar {
    pub closed spec fn status(&self) -> DocumentStatus {
        self.current_status
    }

    pub closed spec fn redraw(&self) -> bool {
        self.needs_redraw
    }

    pub fn new() -> (r: StatusBar)
        ensures
            r.status().total_lines == 0,
            r.status().filename@ == Seq::<char>::empty(),
    {
        StatusBar {
            current_status: DocumentStatus {
                total_lines: 0,
                current_line_idx: 0,
                is_modified: false,
                filename: String::new(),
            },
            needs_redraw: true,
        }
    }

    /// Takes the document's status; a different one asks for a redraw.
    pub fn update_status(&mut self, status: DocumentStatus)
        ensures
            final(self).status() == status,
            !same_status(old(self).status(), status) ==> final(self).redraw(),
    {
        let same = self.current_status.total_lines == status.total_lines
            && self.current_status.current_line_idx == status.current_line_idx
            && self.current_status.is_modified == status.is_modified
            && same_text(self.current_status.filename.as_str(), status.filename.as_str());
        if !same {
            self.needs_redraw = true;
        }
        self.current_status = status;
    }

    pub fn set_needs_redraw(&mut self, value: bool)
        ensures
            final(self).redraw() == value,
            final(self).status() == old(self).status(),
    {
        self.needs_redraw = value;
    }

    pub fn get_needs_redraw(&self) -> (r: bool)
        ensures
            r == self.redraw(),
    {
        self.needs_redraw
    }

    /// The status line for a bar of `width` columns.
    pub fn status_text(&self, width: usize) -> (r: String)
        ensures
            r@ == status_line(self.status(), width as int),
    {
        let s = &self.current_status;
        let modified = s.modified_indicator_to_string();
        let lines = s.line_count_to_string();
        let mut beginning = s.filename.clone();
        if modified.as_str().unicode_len() == 0 {
            beginning.append(" - ");
            beginning.append(lines.as_str());
        } else {
            beginning.append(" ");
            beginning.append(modified.as_str());
            beginning.append(" - ");
            beginning.append(lines.as_str());
        }
        let position = s.position_indicator_to_string();
        let beginning_len = beginning.as_str().unicode_len();
        let position_len = position.as_str().unicode_len();
        let remainder = width.saturating_sub(beginning_len);
        let pad = remainder.saturating_sub(position_len);
        let mut full = beginning;
        let mut i: usize = 0;
        let ghost b = full@;
        while i < pad
            invariant
                i <= pad,
                full@ == b + spaces(i as int),
            decreases pad - i,
        {
            full.push(' ');
            i = i + 1;
            assert(full@ =~= b + spaces(i as int));
        }
        full.append(position.as_str());
        let ghost padded = full@;
        assert(padded =~= b + spaces(remainder - position_len) + position@);
        if full.as_str().unicode_len() <= width {
            full
        } else {
            let r = String::new();
            assert(r@ =~= Seq::<char>::empty());
            r
        }
    }
}

/// The message bar: the last message for the user.
pub struct MessageBar {
    current_message: String,
    needs_redraw: bool,
}

impl MessageBar {
    pub closed spec fn text(&self) -> Seq<char> {
        self.current_message@
    }

    pub closed spec fn redraw(&self) -> bool {
        self.needs_redraw
    }

    pub fn new() -> (r: MessageBar)
        ensures
            r.text() == Seq::<char>::empty(),
    {
        MessageBar { current_message: String::new(), needs_redraw: true }
    }

    /// Takes a new message; a different one asks for a redraw.
    pub fn update_message(&mut self, new_message: &str)
        ensures
            final(self).text() == new_message@,
            old(self).text() != new_message@ ==> final(self).redraw(),
            old(self).text() == new_message@ ==> final(self).redraw() == old(self).redraw(),
    {
        let same = same_text(self.current_message.as_str(), new_message);
        if !same {
            self.current_message = new_message.to_string();
            self.needs_redraw = true;
        }
    }

    pub fn message(&self) -> (r: String)
        ensures
            r@ == self.text(),
    {
        self.current_message.clone()
    }

    pub fn set_needs_redraw(&mut self, value: bool)
        ensures
            final(self).redraw() == value,
            final(self).text() == old(self).text(),
    {
        self.needs_redraw = value;
    }

    pub fn get_needs_redraw(&self) -> (r: bool)
        ensures
            r == self.redraw(),
    {
        self.needs_redraw
    }

    /// As much of the message as `width` columns hold, one character a
    /// column.
    pub fn visible_text(&self, width: usize) -> (r: String)
        ensures
            r@ == if self.text().len() <= width {
                self.text()
            } else {
                self.text().subrange(0, width as int)
            },
    {
        let n = self.current_message.as_str().unicode_len();
        if n <= width {
            self.current_message.clone()
        } else {
            self.current_message.as_str().substring_char(0, width).to_string()
        }
    }
}

} // verus!
