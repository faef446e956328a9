//! The document: an ordered list of lines, whether it changed since it was
//! last saved, and the file it belongs to.
use crate::line::{
    backward_match, count_in, cols_in, deleted_text, forward_match, inserted_text, offset_in,
    Line, MAX_LINE_LEN, segmented, lemma_line_forward_then_backward,
    lemma_segmented_count,
};
use crate::text::chars_of;
use vstd::prelude::*;

verus! {

broadcast use vstd::seq_lib::group_seq_properties;

/// A cursor position: a line and a cluster in it.
#[derive(Clone, Copy, Debug, PartialEq, Eq, Structural)]
pub struct Location {
    pub grapheme_idx: usize,
    pub line_idx: usize,
}

impl Default for Location {
    fn default() -> (r: Location)
        ensures
            r == (Location { grapheme_idx: 0, line_idx: 0 }),
    {
        Location { grapheme_idx: 0, line_idx: 0 }
    }
}

/// A line without its final carriage return, if it has one.
pub open spec fn without_cr(l: Seq<char>) -> Seq<char> {
    if l.len() > 0 && l.last() == '\r' {
        l.drop_last()
    } else {
        l
    }
}

/// The lines of `t` from offset `i` on, where `cur` holds what the current
/// line has gathered so far: a line ends at a line feed, which drops a
/// carriage return just before it, and the text after the last line feed is
/// a last line when it is not empty.
pub open spec fn lines_from(t: Seq<char>, i: int, cur: Seq<char>) -> Seq<Seq<char>>
    decreases t.len() - i,
{
    if i >= t.len() || i < 0 {
        if cur.len() == 0 {
            seq![]
        } else {
            seq![cur]
        }
    } else if t[i] == '\n' {
        seq![without_cr(cur)] + lines_from(t, i + 1, seq![])
    } else {
        lines_from(t, i + 1, cur.push(t[i]))
    }
}

/// The lines of a file's text.
pub open spec fn lines_of(t: Seq<char>) -> Seq<Seq<char>> {
    lines_from(t, 0, seq![])
}

/// The text a file gets for the lines `ls`: each line followed by a line
/// feed.
pub open spec fn saved_text(ls: Seq<Seq<char>>) -> Seq<char> {
    ls.map_values(|l: Seq<char>| l.push('\n')).flatten()
}

/// The location from a line index and a cluster index.
pub open spec fn loc(line_idx: int, grapheme_idx: int) -> Location {
    Location { grapheme_idx: grapheme_idx as usize, line_idx: line_idx as usize }
}

/// The first match of `q` in the lines `ls` from line `li` on: on the line
/// of `from` the search starts at its cluster, on later lines at their
/// start.
pub open spec fn search_lines_forward(
    ls: Seq<Seq<char>>,
    q: Seq<char>,
    from: Location,
    li: int,
) -> Option<Location>
    decreases ls.len() - li,
{
    if li >= ls.len() || li < 0 {
        None
    } else {
        let g = if li == from.line_idx {
            from.grapheme_idx as int
        } else {
            0
        };
        match forward_match(ls[li], q, g) {
            Some(x) => Some(loc(li, x)),
            None => search_lines_forward(ls, q, from, li + 1),
        }
    }
}

/// The last match of `q` in the lines `ls` from line `li` back: on the line
/// of `from` the match ends before its cluster, on earlier lines anywhere.
pub open spec fn search_lines_backward(
    ls: Seq<Seq<char>>,
    q: Seq<char>,
    from: Location,
    li: int,
) -> Option<Location>
    decreases li,
{
    if li < 0 || li >= ls.len() {
        None
    } else {
        let g = if li == from.line_idx {
            from.grapheme_idx as int
        } else {
            count_in(ls[li])
        };
        match backward_match(ls[li], q, g) {
            Some(x) => Some(loc(li, x)),
            None => if li == 0 {
                None
            } else {
                search_lines_backward(ls, q, from, li - 1)
            },
        }
    }
}

/// The lines of a buffer, searched forward from `from`.
pub open spec fn buffer_forward(ls: Seq<Seq<char>>, q: Seq<char>, from: Location) -> Option<
    Location,
> {
    search_lines_forward(ls, q, from, from.line_idx as int)
}

/// The lines of a buffer, searched backward from `from`; a location below
/// the last line searches from the end of the last line.
pub open spec fn buffer_backward(ls: Seq<Seq<char>>, q: Seq<char>, from: Location) -> Option<
    Location,
> {
    if from.line_idx < ls.len() {
        search_lines_backward(ls, q, from, from.line_idx as int)
    } else {
        search_lines_backward(ls, q, from, ls.len() - 1)
    }
}

/// Whether inserting a character at `at` changes the lines `ls`: not on a
/// line at the longest length.
pub open spec fn insert_applies(ls: Seq<Seq<char>>, at: Location) -> bool {
    at.line_idx >= ls.len() || ls[at.line_idx as int].len() < MAX_LINE_LEN
}

/// The lines after inserting `ch` at `at`: below the last line it starts a
/// new last line.
pub open spec fn text_after_insert(ls: Seq<Seq<char>>, ch: char, at: Location) -> Seq<Seq<char>> {
    let li = at.line_idx as int;
    if li >= ls.len() {
        ls.push(seq![ch])
    } else if ls[li].len() < MAX_LINE_LEN {
        ls.update(li, inserted_text(ls[li], ch, at.grapheme_idx as int))
    } else {
        ls
    }
}

/// `at` is at the end of a line with a line below.
pub open spec fn joins_lines(ls: Seq<Seq<char>>, at: Location) -> bool {
    at.line_idx + 1 < ls.len() && at.grapheme_idx == count_in(ls[at.line_idx as int])
}

/// Whether deleting at `at` changes the lines `ls`: not below the last
/// line, nor where two lines would together be longer than the longest line.
pub open spec fn delete_applies(ls: Seq<Seq<char>>, at: Location) -> bool {
    let li = at.line_idx as int;
    li < ls.len() && !(joins_lines(ls, at) && ls[li].len() + ls[li + 1].len() > MAX_LINE_LEN)
}

/// The lines after deleting at `at`: the cluster there, or, at the end of a
/// line with a line below, the line break between them.
pub open spec fn text_after_delete(ls: Seq<Seq<char>>, at: Location) -> Seq<Seq<char>> {
    let li = at.line_idx as int;
    if !delete_applies(ls, at) {
        ls
    } else if joins_lines(ls, at) {
        ls.update(li, ls[li] + ls[li + 1]).remove(li + 1)
    } else {
        ls.update(li, deleted_text(ls[li], at.grapheme_idx as int))
    }
}

proof fn lemma_lines_shift(p: Seq<char>, r: Seq<char>, i: int, cur: Seq<char>)
    requires
        0 <= i,
    ensures
        lines_from(p + r, p.len() + i, cur) == lines_from(r, i, cur),
    decreases r.len() - i,
{
    let t = p + r;
    if i < r.len() {
        assert(t[p.len() + i] == r[i]);
        if r[i] == '\n' {
            lemma_lines_shift(p, r, i + 1, seq![]);
        } else {
            lemma_lines_shift(p, r, i + 1, cur.push(r[i]));
        }
    }
}

proof fn lemma_lines_first(l: Seq<char>, rest: Seq<char>, j: int)
    requires
        0 <= j <= l.len(),
        forall|k: int| 0 <= k < l.len() ==> l[k] != '\n',
    ensures
        lines_from(l.push('\n') + rest, j, l.subrange(0, j)) == seq![without_cr(l)] + lines_from(
            rest,
            0,
            seq![],
        ),
    decreases l.len() - j,
{
    let t = l.push('\n') + rest;
    if j == l.len() {
        assert(t[j] == '\n');
        assert(l.subrange(0, j) =~= l);
        lemma_lines_shift(l.push('\n'), rest, 0, seq![]);
    } else {
        assert(t[j] == l[j]);
        assert(l.subrange(0, j).push(l[j]) =~= l.subrange(0, j + 1));
        lemma_lines_first(l, rest, j + 1);
    }
}

/// Loading the text that saving writes gives back the lines, for lines
/// without a line feed that do not end in a carriage return.
pub proof fn lemma_save_then_load(ls: Seq<Seq<char>>)
    requires
        forall|i: int, k: int| 0 <= i < ls.len() && 0 <= k < ls[i].len() ==> ls[i][k] != '\n',
        forall|i: int| 0 <= i < ls.len() ==> ls[i].len() == 0 || ls[i].last() != '\r',
    ensures
        lines_of(saved_text(ls)) == ls,
    decreases ls.len(),
{
    let f = |l: Seq<char>| l.push('\n');
    if ls.len() == 0 {
        assert(ls.map_values(f) =~= Seq::<Seq<char>>::empty());
        assert(saved_text(ls) =~= Seq::<char>::empty());
    } else {
        let rest = ls.drop_first();
        assert(ls.map_values(f).drop_first() =~= rest.map_values(f));
        assert(saved_text(ls) == ls[0].push('\n') + saved_text(rest));
        assert forall|i: int, k: int| 0 <= i < rest.len() && 0 <= k < rest[i].len() implies rest[i][k]
            != '\n' by {
            assert(rest[i] == ls[i + 1]);
        }
        assert forall|i: int| 0 <= i < rest.len() implies rest[i].len() == 0 || rest[i].last()
            != '\r' by {
            assert(rest[i] == ls[i + 1]);
        }
        lemma_save_then_load(rest);
        assert(ls[0].subrange(0, 0) =~= Seq::<char>::empty());
        lemma_lines_first(ls[0], saved_text(rest), 0);
        assert(without_cr(ls[0]) == ls[0]);
        assert(seq![ls[0]] + rest =~= ls);
    }
}

proof fn lemma_forward_hit(ls: Seq<Seq<char>>, q: Seq<char>, from: Location, li: int)
    requires
        0 <= li,
        ls.len() <= usize::MAX,
        forall|i: int| 0 <= i < ls.len() ==> #[trigger] segmented(ls[i]) && ls[i].len() <= MAX_LINE_LEN,
        search_lines_forward(ls, q, from, li) is Some,
    ensures
        ({
            let r = search_lines_forward(ls, q, from, li).unwrap();
            let g = if r.line_idx == from.line_idx {
                from.grapheme_idx as int
            } else {
                0
            };
            &&& li <= r.line_idx < ls.len()
            &&& forward_match(ls[r.line_idx as int], q, g) == Some(r.grapheme_idx as int)
        }),
    decreases ls.len() - li,
{
    let g = if li == from.line_idx {
        from.grapheme_idx as int
    } else {
        0
    };
    match forward_match(ls[li], q, g) {
        Some(x) => {
            lemma_segmented_count(ls[li]);
            let gs = crate::text::graphemes_of(ls[li]);
            assert(segmented(ls[li]));
            let p = crate::line::first_occurrence(ls[li], q, offset_in(ls[li], g)).unwrap();
            crate::line::lemma_cluster_bound(gs, p);
            assert(x == crate::line::cluster_at(gs, p));
            assert(x <= count_in(ls[li]));
            let r = search_lines_forward(ls, q, from, li).unwrap();
            assert(r == loc(li, x));
            assert(r.line_idx as int == li);
            assert(r.grapheme_idx as int == x);
        },
        None => {
            lemma_forward_hit(ls, q, from, li + 1);
        },
    }
}

/// Searching backward from just past a match that a forward search found,
/// past clusters that hold exactly the query's characters, finds that match
/// again.
pub proof fn lemma_forward_then_backward(
    ls: Seq<Seq<char>>,
    q: Seq<char>,
    from: Location,
    step: int,
)
    requires
        ls.len() <= usize::MAX,
        forall|i: int| 0 <= i < ls.len() ==> #[trigger] segmented(ls[i]) && ls[i].len() <= MAX_LINE_LEN,
        q.len() > 0,
        buffer_forward(ls, q, from) is Some,
        0 <= step,
        buffer_forward(ls, q, from).unwrap().grapheme_idx + step <= usize::MAX,
        ({
            let r = buffer_forward(ls, q, from).unwrap();
            offset_in(ls[r.line_idx as int], r.grapheme_idx + step) == offset_in(
                ls[r.line_idx as int],
                r.grapheme_idx as int,
            ) + q.len()
        }),
    ensures
        ({
            let r = buffer_forward(ls, q, from).unwrap();
            buffer_backward(ls, q, loc(r.line_idx as int, r.grapheme_idx + step)) == Some(r)
        }),
{
    let r = buffer_forward(ls, q, from).unwrap();
    lemma_forward_hit(ls, q, from, from.line_idx as int);
    let li = r.line_idx as int;
    let g = if r.line_idx == from.line_idx {
        from.grapheme_idx as int
    } else {
        0
    };
    lemma_line_forward_then_backward(ls[li], q, g, step);
    let from2 = loc(li, r.grapheme_idx + step);
    assert(from2.line_idx == r.line_idx);
    assert(backward_match(ls[li], q, r.grapheme_idx + step) == Some(r.grapheme_idx as int));
    assert(loc(li, r.grapheme_idx as int) == r);
}

/// The lines after breaking the line at `at` in two; below the last line an
/// empty last line is added.
pub open spec fn text_after_newline(ls: Seq<Seq<char>>, at: Location) -> Seq<Seq<char>> {
    let li = at.line_idx as int;
    if li < ls.len() {
        let o = offset_in(ls[li], at.grapheme_idx as int);
        ls.update(li, ls[li].subrange(0, o)).insert(li + 1, ls[li].subrange(o, ls[li].len() as int))
    } else {
        ls.push(Seq::<char>::empty())
    }
}

/// The document.
pub struct Buffer {
    lines: Vec<Line>,
    dirty: bool,
    file_name: Option<String>,
}

impl Buffer {
    /// The text of each line.
    pub closed spec fn text(&self) -> Seq<Seq<char>> {
        self.lines@.map_values(|l: Line| l@)
    }

    /// The content differs from what was last saved, or the file could not
    /// be read.
    pub closed spec fn modified(&self) -> bool {
        self.dirty
    }

    /// The file the buffer belongs to.
    pub closed spec fn file(&self) -> Option<Seq<char>> {
        match self.file_name {
            Some(f) => Some(f@),
            None => None,
        }
    }

    pub closed spec fn wf(&self) -> bool {
        forall|i: int| 0 <= i < self.lines@.len() ==> (#[trigger] self.lines@[i]).wf()
    }

    /// Every line of a well-formed buffer is cut into its clusters and is no
    /// longer than the longest line.
    pub proof fn lemma_lines_segmented(&self)
        requires
            self.wf(),
        ensures
            forall|i: int| 0 <= i < self.text().len() ==> segmented(#[trigger] self.text()[i]),
            forall|i: int| 0 <= i < self.text().len() ==> (#[trigger] self.text()[i]).len() <= MAX_LINE_LEN,
    {
        assert forall|i: int| 0 <= i < self.text().len() implies segmented(#[trigger] self.text()[i])
            && self.text()[i].len() <= MAX_LINE_LEN by {
            assert(self.text()[i] == self.lines@[i]@);
            assert(self.lines@[i].wf());
            self.lines@[i].lemma_wf_text();
        }
    }

    /// An empty buffer that belongs to no file.
    pub fn new() -> (r: Buffer)
        ensures
            r.wf(),
            r.text() == Seq::<Seq<char>>::empty(),
            !r.modified(),
            r.file() == None::<Seq<char>>,
    {
        let r = Buffer { lines: Vec::new(), dirty: false, file_name: None };
        assert(r.text() =~= Seq::<Seq<char>>::empty());
        r
    }

    /// The lines of a file's text.
    fn lines_from_text(text: &str) -> (r: Vec<Line>)
        requires
            text@.len() <= MAX_LINE_LEN,
        ensures
            r@.map_values(|l: Line| l@) == lines_of(text@),
            forall|i: int| 0 <= i < r@.len() ==> (#[trigger] r@[i]).wf(),
    {
        let t = chars_of(text);
        let mut lines: Vec<Line> = Vec::new();
        let mut cur: Vec<char> = Vec::new();
        let mut i: usize = 0;
        while i < t.len()
            invariant
                t@ == text@,
                t@.len() <= MAX_LINE_LEN,
                i <= t@.len(),
                cur@.len() <= i,
                lines_of(t@) == lines@.map_values(|l: Line| l@) + lines_from(t@, i as int, cur@),
                forall|k: int| 0 <= k < lines@.len() ==> (#[trigger] lines@[k]).wf(),
            decreases t@.len() - i,
        {
            let ghost before = lines@.map_values(|l: Line| l@);
            if t[i] == '\n' {
                let ghost cur0 = cur@;
                if cur.len() > 0 && cur[cur.len() - 1] == '\r' {
                    cur.pop();
                }
                assert(cur@ == without_cr(cur0)) by {
                    if cur0.len() > 0 && cur0.last() == '\r' {
                        assert(cur@ =~= cur0.drop_last());
                    }
                };
                let line = Line::from_chars(&cur);
                lines.push(line);
                cur = Vec::new();
                assert(lines@.map_values(|l: Line| l@) =~= before.push(line@));
            } else {
                cur.push(t[i]);
            }
            i = i + 1;
        }
        if cur.len() > 0 {
            let ghost before = lines@.map_values(|l: Line| l@);
            let line = Line::from_chars(&cur);
            lines.push(line);
            assert(lines@.map_values(|l: Line| l@) =~= before.push(line@));
        }
        assert(lines_of(t@) =~= lines@.map_values(|l: Line| l@));
        lines
    }

    /// A buffer holding the lines of `text`, unchanged, belonging to no file.
    pub fn from_text(text: &str) -> (r: Buffer)
        requires
            text@.len() <= MAX_LINE_LEN,
        ensures
            r.wf(),
            r.text() == lines_of(text@),
            !r.modified(),
            r.file() == None::<Seq<char>>,
    {
        Buffer { lines: Self::lines_from_text(text), dirty: false, file_name: None }
    }

    /// The buffer for file `file_name`, given what reading it gave: its text,
    /// or nothing when it could not be read, in which case the buffer holds
    /// one empty line and counts as changed.
    pub fn load(file_name: &str, content: Option<&str>) -> (r: Buffer)
        requires
            content matches Some(t) ==> t@.len() <= MAX_LINE_LEN,
        ensures
            r.wf(),
            r.file() == Some(file_name@),
            match content {
                Some(t) => r.text() == lines_of(t@) && !r.modified(),
                None => r.text() == seq![Seq::<char>::empty()] && r.modified(),
            },
    {
        match content {
            Some(t) => Buffer {
                lines: Self::lines_from_text(t),
                dirty: false,
                file_name: Some(file_name.to_string()),
            },
            None => {
                let mut lines: Vec<Line> = Vec::new();
                lines.push(Line::default());
                let r = Buffer { lines, dirty: true, file_name: Some(file_name.to_string()) };
                assert(r.text() =~= seq![Seq::<char>::empty()]);
                r
            },
        }
    }

    pub fn is_file_loaded(&self) -> (r: bool)
        ensures
            r == self.file().is_some(),
    {
        self.file_name.is_some()
    }

    pub fn is_empty(&self) -> (r: bool)
        ensures
            r == (self.text().len() == 0),
    {
        self.lines.len() == 0
    }

    pub fn get_height(&self) -> (r: usize)
        ensures
            r == self.text().len(),
    {
        self.lines.len()
    }

    pub fn is_modified(&self) -> (r: bool)
        ensures
            r == self.modified(),
    {
        self.dirty
    }

    /// The name of the file the buffer belongs to.
    pub fn file_name(&self) -> (r: Option<String>)
        ensures
            match r {
                Some(f) => self.file() == Some(f@),
                None => self.file() == None::<Seq<char>>,
            },
    {
        match &self.file_name {
            Some(f) => Some(f.clone()),
            None => None,
        }
    }

    /// The text that saving writes: every line followed by a line feed.
    pub fn file_text(&self) -> (r: String)
        ensures
            r@ == saved_text(self.text()),
    {
        let ghost ls = self.text();
        let mut r = String::new();
        let mut i: usize = 0;
        while i < self.lines.len()
            invariant
                ls == self.text(),
                i <= self.lines@.len(),
                r@ == saved_text(ls.subrange(0, i as int)),
            decreases self.lines@.len() - i,
        {
            let line = self.lines[i].to_string();
            r.append(line.as_str());
            r.push('\n');
            proof {
                let f = |l: Seq<char>| l.push('\n');
                assert(ls.subrange(0, i + 1).map_values(f) =~= ls.subrange(0, i as int).map_values(
                    f,
                ).push(f(ls[i as int])));
                ls.subrange(0, i as int).map_values(f).lemma_flatten_push(f(ls[i as int]));
            }
            i = i + 1;
        }
        assert(ls.subrange(0, ls.len() as int) =~= ls);
        r
    }

    /// Records a save to the buffer's own file: when the text was written,
    /// the buffer no longer counts as changed.
    pub fn save(&mut self, written: bool)
        requires
            old(self).wf(),
        ensures
            final(self).wf(),
            final(self).text() == old(self).text(),
            final(self).file() == old(self).file(),
            final(self).modified() == (old(self).modified() && !written),
    {
        if written {
            self.dirty = false;
        }
    }

    /// Records a save to file `file_name`: when the text was written, the
    /// buffer belongs to that file and no longer counts as changed; else
    /// nothing changes.
    pub fn save_as(&mut self, file_name: &str, written: bool)
        requires
            old(self).wf(),
        ensures
            final(self).wf(),
            final(self).text() == old(self).text(),
            written ==> final(self).file() == Some(file_name@) && !final(self).modified(),
            !written ==> final(self).file() == old(self).file() && final(self).modified()
                == old(self).modified(),
    {
        if written {
            self.file_name = Some(file_name.to_string());
            self.dirty = false;
        }
    }

    /// The number of clusters on line `line_idx`; none below the last line.
    pub fn grapheme_count(&self, line_idx: usize) -> (r: usize)
        requires
            self.wf(),
        ensures
            line_idx < self.text().len() ==> r == count_in(self.text()[line_idx as int]),
            line_idx >= self.text().len() ==> r == 0,
    {
        if line_idx < self.lines.len() {
            assert(self.lines@[line_idx as int].wf());
            self.lines[line_idx].grapheme_count()
        } else {
            0
        }
    }

    /// The columns that the first `grapheme_idx` clusters of line `line_idx`
    /// take; none below the last line.
    pub fn width_until(&self, line_idx: usize, grapheme_idx: usize) -> (r: usize)
        requires
            self.wf(),
        ensures
            line_idx < self.text().len() ==> r == cols_in(
                self.text()[line_idx as int],
                grapheme_idx as int,
            ),
            line_idx >= self.text().len() ==> r == 0,
    {
        if line_idx < self.lines.len() {
            assert(self.lines@[line_idx as int].wf());
            self.lines[line_idx].width_until(grapheme_idx)
        } else {
            0
        }
    }

    /// Line `line_idx`, if there is one.
    pub fn line(&self, line_idx: usize) -> (r: Option<&Line>)
        requires
            self.wf(),
        ensures
            line_idx < self.text().len() ==> r.is_some() && r.unwrap().wf() && r.unwrap()@
                == self.text()[line_idx as int],
            line_idx >= self.text().len() ==> r.is_none(),
    {
        if line_idx < self.lines.len() {
            assert(self.lines@[line_idx as int].wf());
            Some(&self.lines[line_idx])
        } else {
            None
        }
    }

    /// Inserts `ch` at `at`; below the last line it starts a new last line.
    /// A line at the longest length is left as it is.
    pub fn insert_char(&mut self, ch: char, at: &Location)
        requires
            old(self).wf(),
        ensures
            final(self).wf(),
            final(self).file() == old(self).file(),
            final(self).text() == text_after_insert(old(self).text(), ch, *at),
            final(self).modified() == (old(self).modified() || insert_applies(old(self).text(), *at)),
    {
        let ghost ls = self.text();
        if at.line_idx < self.lines.len() {
            assert(self.lines@[at.line_idx as int].wf());
            if self.lines[at.line_idx].len() < MAX_LINE_LEN {
                let mut line = self.lines.remove(at.line_idx);
                line.insert_char(ch, at.grapheme_idx);
                self.lines.insert(at.line_idx, line);
                self.dirty = true;
                assert(self.text() =~= ls.update(
                    at.line_idx as int,
                    inserted_text(ls[at.line_idx as int], ch, at.grapheme_idx as int),
                ));
            }
        } else {
            let mut cs: Vec<char> = Vec::new();
            cs.push(ch);
            let line = Line::from_chars(&cs);
            self.lines.push(line);
            self.dirty = true;
            assert(cs@ =~= seq![ch]);
            assert(self.text() =~= ls.push(seq![ch]));
        }
    }

    /// Deletes at `at`: the cluster there, or, at the end of a line with a
    /// line below, the line break (the line below joins it). Below the last
    /// line nothing changes; two lines longer together than the longest line
    /// stay apart.
    pub fn delete(&mut self, at: &Location)
        requires
            old(self).wf(),
        ensures
            final(self).wf(),
            final(self).file() == old(self).file(),
            final(self).text() == text_after_delete(old(self).text(), *at),
            final(self).modified() == (old(self).modified() || delete_applies(old(self).text(), *at)),
    {
        let ghost ls = self.text();
        let height = self.lines.len();
        if at.line_idx < height {
            assert(self.lines@[at.line_idx as int].wf());
            if at.line_idx + 1 < height && at.grapheme_idx == self.lines[at.line_idx].grapheme_count() {
                assert(self.lines@[at.line_idx + 1].wf());
                let n1 = self.lines[at.line_idx].len();
                let n2 = self.lines[at.line_idx + 1].len();
                if n1 <= MAX_LINE_LEN - n2 {
                    let next_line = self.lines.remove(at.line_idx + 1);
                    let mut line = self.lines.remove(at.line_idx);
                    line.append(&next_line);
                    self.lines.insert(at.line_idx, line);
                    self.dirty = true;
                    assert(self.text() =~= ls.update(
                        at.line_idx as int,
                        ls[at.line_idx as int] + ls[at.line_idx + 1],
                    ).remove(at.line_idx + 1));
                }
            } else {
                let mut line = self.lines.remove(at.line_idx);
                line.delete(at.grapheme_idx);
                self.lines.insert(at.line_idx, line);
                self.dirty = true;
                assert(self.text() =~= ls.update(
                    at.line_idx as int,
                    deleted_text(ls[at.line_idx as int], at.grapheme_idx as int),
                ));
            }
        }
    }

    /// Breaks the line at `at` in two; below the last line it adds an empty
    /// last line.
    pub fn insert_newline(&mut self, at: &Location)
        requires
            old(self).wf(),
        ensures
            final(self).wf(),
            final(self).file() == old(self).file(),
            final(self).modified(),
            final(self).text() == text_after_newline(old(self).text(), *at),
    {
        let ghost ls = self.text();
        if at.line_idx < self.lines.len() {
            assert(self.lines@[at.line_idx as int].wf());
            let mut line = self.lines.remove(at.line_idx);
            let new_line = line.split(at.grapheme_idx);
            self.lines.insert(at.line_idx, line);
            self.lines.insert(at.line_idx + 1, new_line);
            let ghost li = at.line_idx as int;
            let ghost o = offset_in(ls[li], at.grapheme_idx as int);
            assert(self.text() =~= ls.update(li, ls[li].subrange(0, o)).insert(
                li + 1,
                ls[li].subrange(o, ls[li].len() as int),
            ));
        } else {
            self.lines.push(Line::default());
            assert(self.text() =~= ls.push(Seq::<char>::empty()));
        }
        self.dirty = true;
    }

    /// The first match of `query` from `from` on: on the line of `from` from
    /// its cluster, on the lines below from their start.
    pub fn search_forward(&self, query: &str, from: &Location) -> (r: Option<Location>)
        requires
            self.wf(),
        ensures
            r == buffer_forward(self.text(), query@, *from),
    {
        let ghost ls = self.text();
        let mut line_idx = from.line_idx;
        while line_idx < self.lines.len()
            invariant
                self.wf(),
                ls == self.text(),
                from.line_idx <= line_idx,
                buffer_forward(ls, query@, *from) == search_lines_forward(
                    ls,
                    query@,
                    *from,
                    line_idx as int,
                ),
            decreases self.lines@.len() - line_idx,
        {
            let from_grapheme_idx = if line_idx == from.line_idx {
                from.grapheme_idx
            } else {
                0
            };
            assert(self.lines@[line_idx as int].wf());
            let found = self.lines[line_idx].search_forward(query, from_grapheme_idx);
            if let Some(grapheme_idx) = found {
                return Some(Location { grapheme_idx, line_idx });
            }
            line_idx = line_idx + 1;
        }
        None
    }

    /// The last match of `query` before `from`: on the line of `from` ending
    /// before its cluster, on the lines above anywhere.
    pub fn search_backward(&self, query: &str, from: &Location) -> (r: Option<Location>)
        requires
            self.wf(),
        ensures
            r == buffer_backward(self.text(), query@, *from),
    {
        let ghost ls = self.text();
        if self.lines.len() == 0 {
            return None;
        }
        let mut line_idx = if from.line_idx < self.lines.len() {
            from.line_idx
        } else {
            self.lines.len() - 1
        };
        loop
            invariant
                self.wf(),
                ls == self.text(),
                line_idx < ls.len(),
                buffer_backward(ls, query@, *from) == search_lines_backward(
                    ls,
                    query@,
                    *from,
                    line_idx as int,
                ),
            decreases line_idx,
        {
            assert(self.lines@[line_idx as int].wf());
            let from_grapheme_idx = if line_idx == from.line_idx {
                from.grapheme_idx
            } else {
                self.lines[line_idx].grapheme_count()
            };
            let found = self.lines[line_idx].search_backward(query, from_grapheme_idx);
            if let Some(grapheme_idx) = found {
                return Some(Location { grapheme_idx, line_idx });
            }
            if line_idx == 0 {
                return None;
            }
            line_idx = line_idx - 1;
        }
    }

    /// The first match of `query` from `from` on (the same as
    /// `search_forward`).
    pub fn search_from(&self, query: &str, from: &Location) -> (r: Option<Location>)
        requires
            self.wf(),
        ensures
            r == buffer_forward(self.text(), query@, *from),
    {
        self.search_forward(query, from)
    }

    /// The number of lines (the same as `get_height`).
    pub fn height(&self) -> (r: usize)
        ensures
            r == self.text().len(),
    {
        self.lines.len()
    }
}

} // verus!
