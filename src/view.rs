//! The cursor and viewport over a document, and the search session that
//! moves the cursor from match to match.
use crate::annotated_string::AnnotatedString;
use crate::buffer::{
    buffer_backward, buffer_forward, delete_applies, insert_applies, saved_text,
    text_after_delete, text_after_insert, text_after_newline, Buffer, Location,
};
use crate::command::{Edit, Move};
use crate::line::{cols_in, count_in, pieces, visible_in, Line, MAX_LINE_LEN};
use crate::text::graphemes_of;
use crate::position::{Position, Size};
use vstd::prelude::*;
use vstd::view::View as _;

verus! {

pub open spec fn sat_add(a: int, b: int) -> int {
    if a + b > usize::MAX {
        usize::MAX as int
    } else {
        a + b
    }
}

pub open spec fn sat_sub(a: int, b: int) -> int {
    if a >= b {
        a - b
    } else {
        0
    }
}

/// The number of clusters on line `li` of `ls`; none below the last line.
pub open spec fn line_len(ls: Seq<Seq<char>>, li: int) -> int {
    if 0 <= li < ls.len() {
        count_in(ls[li])
    } else {
        0
    }
}

pub open spec fn at(line_idx: int, grapheme_idx: int) -> Location {
    Location { grapheme_idx: grapheme_idx as usize, line_idx: line_idx as usize }
}

/// `l` with its cluster index cut to the length of its line.
pub open spec fn snap_grapheme(ls: Seq<Seq<char>>, l: Location) -> Location {
    let n = line_len(ls, l.line_idx as int);
    at(l.line_idx as int, if l.grapheme_idx <= n { l.grapheme_idx as int } else { n })
}

pub open spec fn moved_up(ls: Seq<Seq<char>>, l: Location, step: int) -> Location {
    snap_grapheme(ls, at(sat_sub(l.line_idx as int, step), l.grapheme_idx as int))
}

/// Down by `step` lines, to the line below the last at most.
pub open spec fn moved_down(ls: Seq<Seq<char>>, l: Location, step: int) -> Location {
    let m = snap_grapheme(ls, at(sat_add(l.line_idx as int, step), l.grapheme_idx as int));
    at(if m.line_idx <= ls.len() { m.line_idx as int } else { ls.len() as int }, m.grapheme_idx as int)
}

pub open spec fn at_line_end(ls: Seq<Seq<char>>, l: Location) -> Location {
    at(l.line_idx as int, line_len(ls, l.line_idx as int))
}

/// One cluster left, or to the end of the line above from the start of a
/// line.
pub open spec fn moved_left(ls: Seq<Seq<char>>, l: Location) -> Location {
    if l.grapheme_idx == 0 && l.line_idx > 0 {
        at_line_end(ls, moved_up(ls, l, 1))
    } else {
        snap_grapheme(ls, at(l.line_idx as int, sat_sub(l.grapheme_idx as int, 1)))
    }
}

/// One cluster right; from the end of a line to the start of the next
/// line, while at the end of the last line the cursor stays.
pub open spec fn moved_right(ls: Seq<Seq<char>>, l: Location) -> Location {
    let g = sat_add(l.grapheme_idx as int, 1);
    if g > line_len(ls, l.line_idx as int) {
        if l.line_idx >= ls.len() || l.line_idx + 1 < ls.len() {
            moved_down(ls, at(l.line_idx as int, 0), 1)
        } else {
            at_line_end(ls, l)
        }
    } else {
        snap_grapheme(ls, at(l.line_idx as int, g))
    }
}

/// Where a movement takes the cursor `l` on the lines `ls` in a view of
/// `height` rows.
pub open spec fn location_after_move(ls: Seq<Seq<char>>, l: Location, m: Move, height: int) -> Location {
    match m {
        Move::Up => moved_up(ls, l, 1),
        Move::Down => moved_down(ls, l, 1),
        Move::Left => moved_left(ls, l),
        Move::Right => moved_right(ls, l),
        Move::PageUp => moved_up(ls, l, sat_sub(height, 1)),
        Move::PageDown => moved_down(ls, l, sat_sub(height, 1)),
        Move::StartOfLine => at(l.line_idx as int, 0),
        Move::EndOfLine => at_line_end(ls, l),
    }
}

/// Where the cursor `l` is drawn on the page of the lines `ls`: its line,
/// and the columns the clusters before it take.
pub open spec fn caret_of(ls: Seq<Seq<char>>, l: Location) -> Position {
    Position {
        row: l.line_idx,
        col: if l.line_idx < ls.len() {
            cols_in(ls[l.line_idx as int], l.grapheme_idx as int) as usize
        } else {
            0
        },
    }
}

/// The offset along one axis that brings `to` into a view of `len` cells
/// scrolled to `off`.
pub open spec fn scroll_axis(off: int, to: int, len: int) -> int {
    if to < off {
        to
    } else if to >= sat_add(off, len) {
        sat_add(sat_sub(to, len), 1)
    } else {
        off
    }
}

pub open spec fn scrolled_to(off: Position, p: Position, size: Size) -> Position {
    Position {
        row: scroll_axis(off.row as int, p.row as int, size.height as int) as usize,
        col: scroll_axis(off.col as int, p.col as int, size.width as int) as usize,
    }
}

/// A view of `size` scrolled to `off` shows position `p`.
pub open spec fn shows(off: Position, p: Position, size: Size) -> bool {
    &&& size.height > 0 ==> off.row <= p.row < off.row + size.height
    &&& size.width > 0 ==> off.col <= p.col < off.col + size.width
}

/// Scrolling to a position brings it into view.
pub proof fn lemma_scrolled_shows(off: Position, p: Position, size: Size)
    ensures
        shows(scrolled_to(off, p, size), p, size),
{
}

/// The match that a search of `query` from `from` finds; none for a
/// missing or empty query.
pub open spec fn found_match(
    ls: Seq<Seq<char>>,
    query: Option<Seq<char>>,
    from: Location,
    forward: bool,
) -> Option<Location> {
    match query {
        Some(q) => if q.len() == 0 {
            None
        } else if forward {
            buffer_forward(ls, q, from)
        } else {
            buffer_backward(ls, q, from)
        },
        None => None,
    }
}

/// The lines, cursor and scroll offset after an edit of the lines `ls` with
/// the cursor at `l`, the view scrolled to `off` and of `size`.
pub open spec fn edit_outcome(
    ls: Seq<Seq<char>>,
    l: Location,
    off: Position,
    size: Size,
    e: Edit,
) -> (Seq<Seq<char>>, Location, Position) {
    match e {
        Edit::Insert(c) => insert_outcome(ls, l, off, size, c),
        Edit::InsertTab => insert_outcome(ls, l, off, size, '\t'),
        Edit::InsertNewline => {
            let ls2 = text_after_newline(ls, l);
            let l2 = at(
                if l.line_idx < ls.len() {
                    l.line_idx + 1
                } else {
                    ls2.len() as int
                },
                0,
            );
            (ls2, l2, scrolled_to(off, caret_of(ls2, l2), size))
        },
        Edit::Delete => (text_after_delete(ls, l), l, off),
        Edit::DeleteBackward => if l.line_idx == 0 && l.grapheme_idx == 0 {
            (ls, l, off)
        } else {
            let l2 = location_after_move(ls, l, Move::Left, size.height as int);
            (text_after_delete(ls, l2), l2, scrolled_to(off, caret_of(ls, l2), size))
        },
    }
}

/// Whether an edit changes the lines, and so marks the document changed.
pub open spec fn edit_marks(ls: Seq<Seq<char>>, l: Location, size: Size, e: Edit) -> bool {
    match e {
        Edit::Insert(_) => insert_applies(ls, l),
        Edit::InsertTab => insert_applies(ls, l),
        Edit::InsertNewline => true,
        Edit::Delete => delete_applies(ls, l),
        Edit::DeleteBackward => if l.line_idx == 0 && l.grapheme_idx == 0 {
            false
        } else {
            delete_applies(ls, location_after_move(ls, l, Move::Left, size.height as int))
        },
    }
}

/// Inserting `c`: the cursor moves right when its line gained a cluster.
pub open spec fn insert_outcome(
    ls: Seq<Seq<char>>,
    l: Location,
    off: Position,
    size: Size,
    c: char,
) -> (Seq<Seq<char>>, Location, Position) {
    let ls2 = text_after_insert(ls, c, l);
    if line_len(ls2, l.line_idx as int) > line_len(ls, l.line_idx as int) {
        let l2 = location_after_move(ls2, l, Move::Right, size.height as int);
        (ls2, l2, scrolled_to(off, caret_of(ls2, l2), size))
    } else {
        (ls2, l, off)
    }
}

/// An active search: where the cursor was when it began, and the query.
pub struct SearchInfo {
    pub previous_location: Location,
    pub query: Option<Line>,
}

/// What the status bar shows of the document.
pub struct DocumentStatus {
    pub total_lines: usize,
    pub current_line_idx: usize,
    pub is_modified: bool,
    pub filename: String,
}

/// A document with a cursor, scrolled for a view of some size.
pub struct View {
    buffer: Buffer,
    needs_redraw: bool,
    size: Size,
    text_location: Location,
    scroll_offset: Position,
    search_info: Option<SearchInfo>,
}

impl View {
    pub closed spec fn text(&self) -> Seq<Seq<char>> {
        self.buffer.text()
    }

    pub closed spec fn modified(&self) -> bool {
        self.buffer.modified()
    }

    pub closed spec fn file(&self) -> Option<Seq<char>> {
        self.buffer.file()
    }

    pub closed spec fn location(&self) -> Location {
        self.text_location
    }

    pub closed spec fn scroll(&self) -> Position {
        self.scroll_offset
    }

    pub closed spec fn view_size(&self) -> Size {
        self.size
    }

    pub closed spec fn redraw(&self) -> bool {
        self.needs_redraw
    }

    /// The active search, if any: where it began, and its query.
    pub closed spec fn search_state(&self) -> Option<(Location, Option<Seq<char>>)> {
        match self.search_info {
            Some(si) => Some(
                (
                    si.previous_location,
                    match si.query {
                        Some(q) => Some(q@),
                        None => None,
                    },
                ),
            ),
            None => None,
        }
    }

    pub open spec fn query(&self) -> Option<Seq<char>> {
        match self.search_state() {
            Some(st) => st.1,
            None => None,
        }
    }

    pub closed spec fn wf(&self) -> bool {
        &&& self.buffer.wf()
        &&& self.search_info matches Some(si) ==> (si.query matches Some(q) ==> q.wf())
    }

    /// The cursor's place on the page.
    pub open spec fn caret(&self) -> Position {
        caret_of(self.text(), self.location())
    }

    /// An empty document, with the cursor at the top and no size yet.
    pub fn new() -> (r: View)
        ensures
            r.wf(),
            r.text() == Seq::<Seq<char>>::empty(),
            r.file() == None::<Seq<char>>,
            r.location() == at(0, 0),
            r.scroll() == (Position { row: 0, col: 0 }),
            r.view_size() == (Size { height: 0, width: 0 }),
            r.search_state() == None::<(Location, Option<Seq<char>>)>,
    {
        View {
            buffer: Buffer::new(),
            needs_redraw: true,
            size: Size { height: 0, width: 0 },
            text_location: Location { grapheme_idx: 0, line_idx: 0 },
            scroll_offset: Position { row: 0, col: 0 },
            search_info: None,
        }
    }

    /// Opens file `file_name`, given what reading it gave (see
    /// `Buffer::load`).
    pub fn load(&mut self, file_name: &str, content: Option<&str>)
        requires
            old(self).wf(),
            content matches Some(t) ==> t@.len() <= MAX_LINE_LEN,
        ensures
            final(self).wf(),
            final(self).file() == Some(file_name@),
            match content {
                Some(t) => final(self).text() == crate::buffer::lines_of(t@) && !final(self).modified(),
                None => final(self).text() == seq![Seq::<char>::empty()] && final(self).modified(),
            },
            final(self).location() == old(self).location(),
            final(self).search_state() == old(self).search_state(),
    {
        self.buffer = Buffer::load(file_name, content);
    }

    pub fn is_file_loaded(&self) -> (r: bool)
        ensures
            r == self.file().is_some(),
    {
        self.buffer.is_file_loaded()
    }

    /// The text that saving writes.
    pub fn file_text(&self) -> (r: String)
        ensures
            r@ == saved_text(self.text()),
    {
        self.buffer.file_text()
    }

    /// Records a save to the document's own file (see `Buffer::save`).
    pub fn save(&mut self, written: bool)
        requires
            old(self).wf(),
        ensures
            final(self).wf(),
            final(self).text() == old(self).text(),
            final(self).file() == old(self).file(),
            final(self).modified() == (old(self).modified() && !written),
            final(self).location() == old(self).location(),
            final(self).search_state() == old(self).search_state(),
    {
        self.buffer.save(written);
    }

    /// Records a save to file `file_name` (see `Buffer::save_as`).
    pub fn save_as(&mut self, file_name: &str, written: bool)
        requires
            old(self).wf(),
        ensures
            final(self).wf(),
            final(self).text() == old(self).text(),
            written ==> final(self).file() == Some(file_name@) && !final(self).modified(),
            !written ==> final(self).file() == old(self).file() && final(self).modified()
                == old(self).modified(),
            final(self).location() == old(self).location(),
            final(self).search_state() == old(self).search_state(),
    {
        self.buffer.save_as(file_name, written);
    }

    pub fn set_needs_redraw(&mut self, value: bool)
        ensures
            final(self).redraw() == value,
            final(self).text() == old(self).text(),
            final(self).location() == old(self).location(),
    {
        self.needs_redraw = value;
    }

    pub fn get_needs_redraw(&self) -> (r: bool)
        ensures
            r == self.redraw(),
    {
        self.needs_redraw
    }

    /// `l` with its cluster index cut to the length of its line.
    fn snap_to_valid_grapheme(buffer: &Buffer, l: Location) -> (r: Location)
        requires
            buffer.wf(),
        ensures
            r == snap_grapheme(buffer.text(), l),
    {
        let n = buffer.grapheme_count(l.line_idx);
        Location {
            line_idx: l.line_idx,
            grapheme_idx: if l.grapheme_idx <= n {
                l.grapheme_idx
            } else {
                n
            },
        }
    }

    fn move_up(buffer: &Buffer, l: Location, step: usize) -> (r: Location)
        requires
            buffer.wf(),
        ensures
            r == moved_up(buffer.text(), l, step as int),
    {
        Self::snap_to_valid_grapheme(
            buffer,
            Location { line_idx: l.line_idx.saturating_sub(step), grapheme_idx: l.grapheme_idx },
        )
    }

    fn move_down(buffer: &Buffer, l: Location, step: usize) -> (r: Location)
        requires
            buffer.wf(),
        ensures
            r == moved_down(buffer.text(), l, step as int),
    {
        let m = Self::snap_to_valid_grapheme(
            buffer,
            Location { line_idx: l.line_idx.saturating_add(step), grapheme_idx: l.grapheme_idx },
        );
        let height = buffer.get_height();
        Location {
            line_idx: if m.line_idx <= height {
                m.line_idx
            } else {
                height
            },
            grapheme_idx: m.grapheme_idx,
        }
    }

    fn move_to_end_of_line(buffer: &Buffer, l: Location) -> (r: Location)
        requires
            buffer.wf(),
        ensures
            r == at_line_end(buffer.text(), l),
    {
        Location { line_idx: l.line_idx, grapheme_idx: buffer.grapheme_count(l.line_idx) }
    }

    fn move_left(buffer: &Buffer, l: Location) -> (r: Location)
        requires
            buffer.wf(),
        ensures
            r == moved_left(buffer.text(), l),
    {
        if l.grapheme_idx == 0 && l.line_idx > 0 {
            let up = Self::move_up(buffer, l, 1);
            Self::move_to_end_of_line(buffer, up)
        } else {
            Self::snap_to_valid_grapheme(
                buffer,
                Location { line_idx: l.line_idx, grapheme_idx: l.grapheme_idx.saturating_sub(1) },
            )
        }
    }

    fn move_right(buffer: &Buffer, l: Location) -> (r: Location)
        requires
            buffer.wf(),
        ensures
            r == moved_right(buffer.text(), l),
    {
        let length = buffer.grapheme_count(l.line_idx);
        let height = buffer.get_height();
        let g = l.grapheme_idx.saturating_add(1);
        if g > length {
            if l.line_idx >= height || l.line_idx < height - 1 {
                Self::move_down(buffer, Location { line_idx: l.line_idx, grapheme_idx: 0 }, 1)
            } else {
                Self::move_to_end_of_line(buffer, l)
            }
        } else {
            Self::snap_to_valid_grapheme(buffer, Location { line_idx: l.line_idx, grapheme_idx: g })
        }
    }

    /// Where movement `m` takes cursor `l` in a view of `height` rows.
    fn location_after(buffer: &Buffer, l: Location, m: &Move, height: usize) -> (r: Location)
        requires
            buffer.wf(),
        ensures
            r == location_after_move(buffer.text(), l, *m, height as int),
    {
        match m {
            Move::Up => Self::move_up(buffer, l, 1),
            Move::Down => Self::move_down(buffer, l, 1),
            Move::Left => Self::move_left(buffer, l),
            Move::Right => Self::move_right(buffer, l),
            Move::PageUp => Self::move_up(buffer, l, height.saturating_sub(1)),
            Move::PageDown => Self::move_down(buffer, l, height.saturating_sub(1)),
            Move::StartOfLine => Location { line_idx: l.line_idx, grapheme_idx: 0 },
            Move::EndOfLine => Self::move_to_end_of_line(buffer, l),
        }
    }

    /// Where the cursor is drawn on the page.
    fn text_location_to_position(&self) -> (r: Position)
        requires
            self.wf(),
        ensures
            r == self.caret(),
    {
        let row = self.text_location.line_idx;
        let col = self.buffer.width_until(row, self.text_location.grapheme_idx);
        Position { row, col }
    }

    fn scroll_axis(off: usize, to: usize, len: usize) -> (r: usize)
        ensures
            r == scroll_axis(off as int, to as int, len as int),
    {
        if to < off {
            to
        } else if to >= off.saturating_add(len) {
            to.saturating_sub(len).saturating_add(1)
        } else {
            off
        }
    }

    /// Scrolls so that the cursor shows.
    fn scroll_text_location_into_view(&mut self)
        requires
            old(self).wf(),
        ensures
            final(self).wf(),
            final(self).text() == old(self).text(),
            final(self).modified() == old(self).modified(),
            final(self).file() == old(self).file(),
            final(self).location() == old(self).location(),
            final(self).view_size() == old(self).view_size(),
            final(self).search_state() == old(self).search_state(),
            final(self).scroll() == scrolled_to(old(self).scroll(), old(self).caret(), old(self).view_size()),
            shows(final(self).scroll(), final(self).caret(), final(self).view_size()),
            final(self).scroll() != old(self).scroll() ==> final(self).redraw(),
            final(self).scroll() == old(self).scroll() ==> final(self).redraw() == old(self).redraw(),
    {
        let p = self.text_location_to_position();
        let row = Self::scroll_axis(self.scroll_offset.row, p.row, self.size.height);
        let col = Self::scroll_axis(self.scroll_offset.col, p.col, self.size.width);
        let changed = row != self.scroll_offset.row || col != self.scroll_offset.col;
        self.scroll_offset = Position { row, col };
        if changed {
            self.needs_redraw = true;
        }
        proof {
            lemma_scrolled_shows(old(self).scroll(), p, self.size);
        }
    }

    /// Moves the cursor and scrolls so that it shows.
    pub fn handle_move_command(&mut self, command: &Move)
        requires
            old(self).wf(),
        ensures
            final(self).wf(),
            final(self).text() == old(self).text(),
            final(self).modified() == old(self).modified(),
            final(self).file() == old(self).file(),
            final(self).view_size() == old(self).view_size(),
            final(self).search_state() == old(self).search_state(),
            final(self).location() == location_after_move(
                old(self).text(),
                old(self).location(),
                *command,
                old(self).view_size().height as int,
            ),
            final(self).scroll() == scrolled_to(
                old(self).scroll(),
                final(self).caret(),
                old(self).view_size(),
            ),
            shows(final(self).scroll(), final(self).caret(), final(self).view_size()),
    {
        self.text_location = Self::location_after(
            &self.buffer,
            self.text_location,
            command,
            self.size.height,
        );
        self.scroll_text_location_into_view();
    }

    /// Takes a new size and scrolls so that the cursor shows.
    pub fn resize(&mut self, size: Size)
        requires
            old(self).wf(),
        ensures
            final(self).wf(),
            final(self).modified() == old(self).modified(),
            final(self).file() == old(self).file(),
            final(self).text() == old(self).text(),
            final(self).location() == old(self).location(),
            final(self).view_size() == size,
            final(self).search_state() == old(self).search_state(),
            final(self).scroll() == scrolled_to(old(self).scroll(), old(self).caret(), size),
            shows(final(self).scroll(), final(self).caret(), size),
    {
        self.size = size;
        self.scroll_text_location_into_view();
    }

    /// The cursor's place on screen: its place on the page less the scroll
    /// offset.
    pub fn caret_position(&self) -> (r: Position)
        requires
            self.wf(),
        ensures
            r.row == sat_sub(self.caret().row as int, self.scroll().row as int),
            r.col == sat_sub(self.caret().col as int, self.scroll().col as int),
    {
        self.text_location_to_position().saturating_sub(&self.scroll_offset)
    }

    /// Applies an edit at the cursor; see `edit_outcome`.
    pub fn handle_edit_command(&mut self, command: &Edit)
        requires
            old(self).wf(),
        ensures
            final(self).wf(),
            final(self).modified() == (old(self).modified() || edit_marks(
                old(self).text(),
                old(self).location(),
                old(self).view_size(),
                *command,
            )),
            final(self).file() == old(self).file(),
            final(self).view_size() == old(self).view_size(),
            final(self).search_state() == old(self).search_state(),
            ({
                let out = edit_outcome(
                    old(self).text(),
                    old(self).location(),
                    old(self).scroll(),
                    old(self).view_size(),
                    *command,
                );
                &&& final(self).text() == out.0
                &&& final(self).location() == out.1
                &&& final(self).scroll() == out.2
            }),
    {
        match command {
            Edit::Insert(ch) => self.insert_char(*ch),
            Edit::InsertTab => self.insert_char('\t'),
            Edit::InsertNewline => self.insert_newline(),
            Edit::Delete => self.delete(),
            Edit::DeleteBackward => self.delete_backward(),
        }
    }

    fn insert_char(&mut self, ch: char)
        requires
            old(self).wf(),
        ensures
            final(self).wf(),
            final(self).modified() == (old(self).modified() || insert_applies(
                old(self).text(),
                old(self).location(),
            )),
            final(self).file() == old(self).file(),
            final(self).view_size() == old(self).view_size(),
            final(self).search_state() == old(self).search_state(),
            ({
                let out = insert_outcome(
                    old(self).text(),
                    old(self).location(),
                    old(self).scroll(),
                    old(self).view_size(),
                    ch,
                );
                &&& final(self).text() == out.0
                &&& final(self).location() == out.1
                &&& final(self).scroll() == out.2
            }),
    {
        let old_len = self.buffer.grapheme_count(self.text_location.line_idx);
        self.buffer.insert_char(ch, &self.text_location);
        let new_len = self.buffer.grapheme_count(self.text_location.line_idx);
        if new_len > old_len {
            self.handle_move_command(&Move::Right);
        }
        self.needs_redraw = true;
    }

    fn insert_newline(&mut self)
        requires
            old(self).wf(),
        ensures
            final(self).wf(),
            final(self).modified(),
            final(self).file() == old(self).file(),
            final(self).view_size() == old(self).view_size(),
            final(self).search_state() == old(self).search_state(),
            ({
                let out = edit_outcome(
                    old(self).text(),
                    old(self).location(),
                    old(self).scroll(),
                    old(self).view_size(),
                    Edit::InsertNewline,
                );
                &&& final(self).text() == out.0
                &&& final(self).location() == out.1
                &&& final(self).scroll() == out.2
            }),
    {
        let line = self.text_location.line_idx;
        let height = self.buffer.get_height();
        self.buffer.insert_newline(&self.text_location);
        let next = if line < height {
            line + 1
        } else {
            self.buffer.get_height()
        };
        self.text_location = Location { line_idx: next, grapheme_idx: 0 };
        self.scroll_text_location_into_view();
        self.needs_redraw = true;
    }

    fn delete(&mut self)
        requires
            old(self).wf(),
        ensures
            final(self).wf(),
            final(self).modified() == (old(self).modified() || delete_applies(
                old(self).text(),
                old(self).location(),
            )),
            final(self).file() == old(self).file(),
            final(self).view_size() == old(self).view_size(),
            final(self).search_state() == old(self).search_state(),
            final(self).text() == text_after_delete(old(self).text(), old(self).location()),
            final(self).location() == old(self).location(),
            final(self).scroll() == old(self).scroll(),
    {
        self.buffer.delete(&self.text_location);
        self.needs_redraw = true;
    }

    fn delete_backward(&mut self)
        requires
            old(self).wf(),
        ensures
            final(self).wf(),
            final(self).modified() == (old(self).modified() || edit_marks(
                old(self).text(),
                old(self).location(),
                old(self).view_size(),
                Edit::DeleteBackward,
            )),
            final(self).file() == old(self).file(),
            final(self).view_size() == old(self).view_size(),
            final(self).search_state() == old(self).search_state(),
            ({
                let out = edit_outcome(
                    old(self).text(),
                    old(self).location(),
                    old(self).scroll(),
                    old(self).view_size(),
                    Edit::DeleteBackward,
                );
                &&& final(self).text() == out.0
                &&& final(self).location() == out.1
                &&& final(self).scroll() == out.2
            }),
    {
        if self.text_location.line_idx == 0 && self.text_location.grapheme_idx == 0 {
            return;
        }
        self.handle_move_command(&Move::Left);
        self.delete();
    }

    /// Starts a search session at the cursor, with no query yet.
    pub fn enter_search(&mut self)
        requires
            old(self).wf(),
        ensures
            final(self).wf(),
            final(self).view_size() == old(self).view_size(),
            final(self).modified() == old(self).modified(),
            final(self).file() == old(self).file(),
            final(self).text() == old(self).text(),
            final(self).location() == old(self).location(),
            final(self).scroll() == old(self).scroll(),
            final(self).search_state() == Some((old(self).location(), None::<Seq<char>>)),
    {
        self.search_info = Some(SearchInfo { previous_location: self.text_location, query: None });
    }

    /// Ends the search session and puts the cursor back where the search
    /// began, scrolled into view.
    pub fn dismiss_search(&mut self)
        requires
            old(self).wf(),
        ensures
            final(self).wf(),
            final(self).modified() == old(self).modified(),
            final(self).file() == old(self).file(),
            final(self).text() == old(self).text(),
            final(self).view_size() == old(self).view_size(),
            final(self).search_state() == None::<(Location, Option<Seq<char>>)>,
            match old(self).search_state() {
                Some(st) => final(self).location() == st.0 && final(self).scroll() == scrolled_to(
                    old(self).scroll(),
                    final(self).caret(),
                    old(self).view_size(),
                ) && shows(final(self).scroll(), final(self).caret(), final(self).view_size()),
                None => final(self).location() == old(self).location() && final(self).scroll()
                    == old(self).scroll(),
            },
    {
        let previous = match &self.search_info {
            Some(search_info) => Some(search_info.previous_location),
            None => None,
        };
        if let Some(location) = previous {
            self.text_location = location;
            self.search_info = None;
            self.scroll_text_location_into_view();
        }
    }

    /// Ends the search session and keeps the cursor at the match.
    pub fn exit_search(&mut self)
        requires
            old(self).wf(),
        ensures
            final(self).wf(),
            final(self).view_size() == old(self).view_size(),
            final(self).modified() == old(self).modified(),
            final(self).file() == old(self).file(),
            final(self).text() == old(self).text(),
            final(self).location() == old(self).location(),
            final(self).scroll() == old(self).scroll(),
            final(self).search_state() == None::<(Location, Option<Seq<char>>)>,
    {
        self.search_info = None;
        self.needs_redraw = true;
    }

    /// Searches the current query from `from`, and moves the cursor to the
    /// match, if one is found.
    fn search_in_direction(&mut self, from: Location, forward: bool)
        requires
            old(self).wf(),
        ensures
            final(self).wf(),
            final(self).modified() == old(self).modified(),
            final(self).file() == old(self).file(),
            final(self).text() == old(self).text(),
            final(self).view_size() == old(self).view_size(),
            final(self).search_state() == old(self).search_state(),
            match found_match(old(self).text(), old(self).query(), from, forward) {
                Some(r) => final(self).location() == r && final(self).scroll() == scrolled_to(
                    old(self).scroll(),
                    final(self).caret(),
                    old(self).view_size(),
                ),
                None => final(self).location() == old(self).location() && final(self).scroll()
                    == old(self).scroll(),
            },
    {
        let found = match &self.search_info {
            Some(search_info) => match &search_info.query {
                Some(query) => {
                    if query.is_empty() {
                        None
                    } else {
                        let q = query.to_string();
                        if forward {
                            self.buffer.search_forward(q.as_str(), &from)
                        } else {
                            self.buffer.search_backward(q.as_str(), &from)
                        }
                    }
                },
                None => None,
            },
            None => None,
        };
        if let Some(location) = found {
            self.text_location = location;
            self.scroll_text_location_into_view();
        }
        self.needs_redraw = true;
    }

    /// Replaces the query of the search session with `query` and searches it
    /// forward from where the session began, so that each change of the
    /// query starts the search over. Without a session nothing changes.
    pub fn search(&mut self, query: &str)
        requires
            old(self).wf(),
            query@.len() <= MAX_LINE_LEN,
        ensures
            final(self).wf(),
            final(self).modified() == old(self).modified(),
            final(self).file() == old(self).file(),
            old(self).search_state().is_some() ==> final(self).query() == Some(query@),
            final(self).text() == old(self).text(),
            final(self).view_size() == old(self).view_size(),
            match old(self).search_state() {
                Some(st) => {
                    &&& final(self).search_state() == Some((st.0, Some(query@)))
                    &&& match found_match(old(self).text(), Some(query@), st.0, true) {
                        Some(r) => final(self).location() == r && final(self).scroll() == scrolled_to(
                            old(self).scroll(),
                            final(self).caret(),
                            old(self).view_size(),
                        ),
                        None => final(self).location() == old(self).location() && final(self).scroll()
                            == old(self).scroll(),
                    }
                },
                None => final(self).search_state() == old(self).search_state() && final(self).location()
                    == old(self).location() && final(self).scroll() == old(self).scroll(),
            },
    {
        let searching = self.search_info.is_some();
        if searching {
            let previous_location = match &self.search_info {
                Some(search_info) => search_info.previous_location,
                None => self.text_location,
            };
            self.search_info = Some(SearchInfo { previous_location, query: Some(Line::from(query)) });
            self.search_in_direction(previous_location, true);
        }
    }

    /// Searches the query again from past the current match: as many
    /// clusters to the right as the query has, one at least. Gives false,
    /// changing nothing, when there is no search session or its query is
    /// missing or empty.
    pub fn search_next(&mut self) -> (r: bool)
        requires
            old(self).wf(),
        ensures
            final(self).wf(),
            final(self).modified() == old(self).modified(),
            final(self).file() == old(self).file(),
            final(self).text() == old(self).text(),
            final(self).view_size() == old(self).view_size(),
            final(self).search_state() == old(self).search_state(),
            r == (old(self).query() matches Some(q) && q.len() > 0),
            !r ==> final(self).location() == old(self).location() && final(self).scroll() == old(self).scroll(),
            r ==> ({
                let q = old(self).query().unwrap();
                let l = old(self).location();
                let step = if count_in(q) > 1 { count_in(q) } else { 1 };
                let from = at(l.line_idx as int, sat_add(l.grapheme_idx as int, step));
                match found_match(old(self).text(), Some(q), from, true) {
                    Some(m) => final(self).location() == m && final(self).scroll() == scrolled_to(
                        old(self).scroll(),
                        final(self).caret(),
                        old(self).view_size(),
                    ),
                    None => final(self).location() == old(self).location() && final(self).scroll()
                        == old(self).scroll(),
                }
            }),
    {
        let step = match &self.search_info {
            Some(search_info) => match &search_info.query {
                Some(query) => if query.is_empty() {
                    0
                } else {
                    let n = query.grapheme_count();
                    if n > 1 {
                        n
                    } else {
                        1
                    }
                },
                None => 0,
            },
            None => 0,
        };
        if step == 0 {
            return false;
        }
        let from = Location {
            line_idx: self.text_location.line_idx,
            grapheme_idx: self.text_location.grapheme_idx.saturating_add(step),
        };
        self.search_in_direction(from, true);
        true
    }

    /// Searches the query backward from the cursor.
    pub fn search_backward(&mut self)
        requires
            old(self).wf(),
        ensures
            final(self).wf(),
            final(self).modified() == old(self).modified(),
            final(self).file() == old(self).file(),
            final(self).text() == old(self).text(),
            final(self).view_size() == old(self).view_size(),
            final(self).search_state() == old(self).search_state(),
            match found_match(old(self).text(), old(self).query(), old(self).location(), false) {
                Some(r) => final(self).location() == r && final(self).scroll() == scrolled_to(
                    old(self).scroll(),
                    final(self).caret(),
                    old(self).view_size(),
                ),
                None => final(self).location() == old(self).location() && final(self).scroll()
                    == old(self).scroll(),
            },
    {
        self.search_in_direction(self.text_location, false);
    }

    /// The document's status: its lines, the cursor's line, whether it
    /// changed, and its file name ("[No Name]" for none).
    pub fn get_status(&self) -> (r: DocumentStatus)
        requires
            self.wf(),
        ensures
            r.total_lines == self.text().len(),
            r.current_line_idx == self.location().line_idx,
            r.is_modified == self.modified(),
            r.filename@ == match self.file() {
                Some(f) => f,
                None => "[No Name]"@,
            },
    {
        let filename = match self.buffer.file_name() {
            Some(f) => f,
            None => "[No Name]".to_string(),
        };
        DocumentStatus {
            total_lines: self.buffer.get_height(),
            current_line_idx: self.text_location.line_idx,
            is_modified: self.buffer.is_modified(),
            filename,
        }
    }

    /// What row `row` of the view shows: the visible part of its line, with
    /// the matches of the search query tagged (the one at the cursor apart),
    /// or nothing below the last line.
    pub fn visible_row(&self, row: usize) -> (r: Option<AnnotatedString>)
        requires
            self.wf(),
        ensures
            ({
                let li = sat_add(self.scroll().row as int, row as int);
                let rs = self.scroll().col as int;
                let re = sat_add(rs, self.view_size().width as int);
                let q = self.query();
                let selected = if li == self.location().line_idx && q.is_some() {
                    Some(self.location().grapheme_idx as int)
                } else {
                    None
                };
                match r {
                    Some(a) => li < self.text().len() && a.wf() && a@.0 == pieces(
                        graphemes_of(self.text()[li]),
                        0,
                        count_in(self.text()[li]),
                        rs,
                        re,
                    ) && a@ == visible_in(
                        self.text()[li],
                        rs,
                        re,
                        match q {
                            Some(q) => q,
                            None => Seq::<char>::empty(),
                        },
                        selected,
                    ),
                    None => li >= self.text().len(),
                }
            }),
    {
        let line_idx = self.scroll_offset.row.saturating_add(row);
        match self.buffer.line(line_idx) {
            Some(line) => {
                let left = self.scroll_offset.col;
                let right = self.scroll_offset.col.saturating_add(self.size.width);
                let query = match &self.search_info {
                    Some(search_info) => match &search_info.query {
                        Some(q) => Some(q.to_string()),
                        None => None,
                    },
                    None => None,
                };
                let selected = if self.text_location.line_idx == line_idx && query.is_some() {
                    Some(self.text_location.grapheme_idx)
                } else {
                    None
                };
                let q = match &query {
                    Some(q) => Some(q.as_str()),
                    None => None,
                };
                Some(line.get_annotated_visible_substr(left..right, q, selected))
            },
            None => None,
        }
    }

    /// The cursor.
    pub fn text_location(&self) -> (r: Location)
        ensures
            r == self.location(),
    {
        self.text_location
    }

    /// The scroll offset: the page position at the view's top left.
    pub fn scroll_offset(&self) -> (r: Position)
        ensures
            r == self.scroll(),
    {
        self.scroll_offset
    }

    pub fn size(&self) -> (r: Size)
        ensures
            r == self.view_size(),
    {
        self.size
    }

    /// The document.
    pub fn buffer(&self) -> (r: &Buffer)
        ensures
            r.text() == self.text(),
            r.modified() == self.modified(),
            r.file() == self.file(),
    {
        &self.buffer
    }
}

} // verus!
