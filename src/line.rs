//! One line of text, cut into grapheme clusters, with the columns each
//! cluster takes on screen and the glyph that stands in for it where the
//! raw cluster cannot be drawn.
//!
//! Offsets into a line's text count characters (Unicode scalar values).
use crate::text::{
    chars_of, columns_of, control_char, display_width, graphemes_of, is_control_char,
    is_white_space, split_graphemes, string_of_chars, white_space_char,
};
use crate::annotated_string::{
    replaced, AnnotatedString, Annotation, AnnotationType,
};
use std::ops::Range;
use vstd::prelude::*;
use vstd::seq_lib::lemma_flatten_concat;

verus! {

broadcast use vstd::seq_lib::group_seq_properties;

/// The longest line, in characters: no string in memory is longer.
pub const MAX_LINE_LEN: usize = usize::MAX / 2;

/// The columns a cluster takes on screen.
#[derive(Clone, Copy, Debug, PartialEq, Eq, Structural)]
pub enum GraphemeWidth {
    Half,
    Full,
}

impl GraphemeWidth {
    pub open spec fn cols(self) -> nat {
        match self {
            GraphemeWidth::Half => 1,
            GraphemeWidth::Full => 2,
        }
    }

    pub fn columns(&self) -> (r: usize)
        ensures
            r == self.cols(),
    {
        match self {
            GraphemeWidth::Half => 1,
            GraphemeWidth::Full => 2,
        }
    }
}

/// One grapheme cluster of a line.
pub struct TextFragment {
    /// Offset of the cluster's first character in the line.
    pub start_idx: usize,
    pub grapheme: String,
    pub rendered_width: GraphemeWidth,
    /// The glyph drawn in place of the cluster, if any.
    pub replacement: Option<char>,
}

/// The glyph drawn in place of a cluster: a tab shows as a space, control
/// characters as a box, other blank clusters as an open box, and clusters
/// without width as a middle dot.
pub open spec fn replacement_of(g: Seq<char>) -> Option<char> {
    if g == seq![' '] {
        None
    } else if g == seq!['\t'] {
        Some(' ')
    } else if forall|i: int| 0 <= i < g.len() ==> is_control_char(#[trigger] g[i]) {
        Some('\u{25AF}')
    } else if display_width(g) > 0 && forall|i: int|
        0 <= i < g.len() ==> is_white_space(#[trigger] g[i]) {
        Some('\u{2423}')
    } else if display_width(g) == 0 {
        Some('\u{B7}')
    } else {
        None
    }
}

/// A replaced cluster takes one column; any other takes two columns when
/// its display width is two or more, else one.
pub open spec fn width_of(g: Seq<char>) -> GraphemeWidth {
    if replacement_of(g).is_some() || display_width(g) <= 1 {
        GraphemeWidth::Half
    } else {
        GraphemeWidth::Full
    }
}

/// The clusters cut the string without gap or overlap, none of them empty.
pub open spec fn segmented(s: Seq<char>) -> bool {
    &&& graphemes_of(s).flatten() == s
    &&& forall|i: int| 0 <= i < graphemes_of(s).len() ==> #[trigger] graphemes_of(s)[i].len() > 0
}

/// The number of characters in the first `n` clusters.
pub open spec fn chars_before(gs: Seq<Seq<char>>, n: int) -> int
    decreases n,
{
    if n <= 0 {
        0
    } else {
        chars_before(gs, n - 1) + gs[n - 1].len()
    }
}

/// The columns that the first `n` clusters take.
pub open spec fn cols_before(gs: Seq<Seq<char>>, n: int) -> int
    decreases n,
{
    if n <= 0 {
        0
    } else {
        cols_before(gs, n - 1) + width_of(gs[n - 1]).cols()
    }
}

/// What a fragment at index `i` holds for the clusters `gs`.
pub open spec fn fragment_of(f: TextFragment, gs: Seq<Seq<char>>, i: int) -> bool {
    &&& f.grapheme@ == gs[i]
    &&& f.start_idx == chars_before(gs, i)
    &&& f.rendered_width == width_of(gs[i])
    &&& f.replacement == replacement_of(gs[i])
}

/// The index of the first cluster, from `i` on, that starts at or after
/// character offset `p` (the number of clusters when there is none).
pub open spec fn cluster_from(gs: Seq<Seq<char>>, p: int, i: int) -> int
    decreases gs.len() - i,
{
    if i >= gs.len() || chars_before(gs, i) >= p {
        i
    } else {
        cluster_from(gs, p, i + 1)
    }
}

/// The index of the first cluster that starts at or after character offset
/// `p` (for an offset inside a cluster, the next cluster; the number of
/// clusters when none starts there).
pub open spec fn cluster_at(gs: Seq<Seq<char>>, p: int) -> int {
    cluster_from(gs, p, 0)
}

/// `q` occurs in `t` at offset `p`.
pub open spec fn occurs_at(t: Seq<char>, q: Seq<char>, p: int) -> bool {
    0 <= p && p + q.len() <= t.len() && t.subrange(p, p + q.len()) == q
}

pub proof fn lemma_chars_before(gs: Seq<Seq<char>>, n: int)
    requires
        0 <= n <= gs.len(),
    ensures
        chars_before(gs, n) == gs.subrange(0, n).flatten().len(),
    decreases n,
{
    if n > 0 {
        lemma_chars_before(gs, n - 1);
        assert(gs.subrange(0, n) =~= gs.subrange(0, n - 1).push(gs[n - 1]));
        gs.subrange(0, n - 1).lemma_flatten_push(gs[n - 1]);
    } else {
        assert(gs.subrange(0, n) =~= Seq::<Seq<char>>::empty());
    }
}

/// The clusters from `a` to `b` hold the characters between their offsets.
pub proof fn lemma_flatten_range(gs: Seq<Seq<char>>, a: int, b: int)
    requires
        0 <= a <= b <= gs.len(),
    ensures
        0 <= chars_before(gs, a) <= chars_before(gs, b) <= gs.flatten().len(),
        gs.subrange(a, b).flatten() =~= gs.flatten().subrange(
            chars_before(gs, a),
            chars_before(gs, b),
        ),
{
    lemma_chars_before(gs, a);
    lemma_chars_before(gs, b);
    let x = gs.subrange(0, a);
    let y = gs.subrange(a, b);
    let z = gs.subrange(b, gs.len() as int);
    assert(gs =~= x + y + z);
    assert(gs.subrange(0, b) =~= x + y);
    lemma_flatten_concat(x, y);
    lemma_flatten_concat(x + y, z);
}

pub proof fn lemma_chars_before_mono(gs: Seq<Seq<char>>, a: int, b: int)
    requires
        0 <= a <= b <= gs.len(),
        forall|i: int| 0 <= i < gs.len() ==> #[trigger] gs[i].len() > 0,
    ensures
        chars_before(gs, a) + (b - a) <= chars_before(gs, b),
    decreases b - a,
{
    if a < b {
        lemma_chars_before_mono(gs, a, b - 1);
    }
}

pub proof fn lemma_cols_before_bound(gs: Seq<Seq<char>>, a: int, b: int)
    requires
        0 <= a <= b <= gs.len(),
    ensures
        cols_before(gs, a) + (b - a) <= cols_before(gs, b) <= cols_before(gs, a) + 2 * (b - a),
    decreases b - a,
{
    if a < b {
        lemma_cols_before_bound(gs, a, b - 1);
    }
}

/// The string of one cluster and the character offset where it sits.
pub proof fn lemma_cluster_chars(gs: Seq<Seq<char>>, i: int)
    requires
        0 <= i < gs.len(),
    ensures
        chars_before(gs, i + 1) == chars_before(gs, i) + gs[i].len(),
        gs.flatten().subrange(chars_before(gs, i), chars_before(gs, i + 1)) == gs[i],
{
    lemma_flatten_range(gs, i, i + 1);
    assert(gs.subrange(i, i + 1) =~= seq![gs[i]]);
    gs.subrange(i, i + 1).lemma_flatten_one_element();
}

/// The first offset from `i` on where `q` occurs in `t`.
pub open spec fn first_occurrence(t: Seq<char>, q: Seq<char>, i: int) -> Option<int>
    decreases t.len() + 1 - i,
{
    if i < 0 || i + q.len() > t.len() {
        None
    } else if occurs_at(t, q, i) {
        Some(i)
    } else {
        first_occurrence(t, q, i + 1)
    }
}

/// The last offset where `q` occurs in `t` and ends at or before `end`.
pub open spec fn last_occurrence(t: Seq<char>, q: Seq<char>, end: int) -> Option<int>
    decreases end,
{
    if end - q.len() < 0 {
        None
    } else if occurs_at(t, q, end - q.len()) {
        Some(end - q.len())
    } else if end > 0 {
        last_occurrence(t, q, end - 1)
    } else {
        None
    }
}

/// Every offset from `i` on where `q` occurs in `t`, in increasing order.
pub open spec fn occurrences_from(t: Seq<char>, q: Seq<char>, i: int) -> Seq<int>
    decreases t.len() + 1 - i,
{
    if i < 0 || i + q.len() > t.len() {
        seq![]
    } else if occurs_at(t, q, i) {
        seq![i] + occurrences_from(t, q, i + 1)
    } else {
        occurrences_from(t, q, i + 1)
    }
}

pub open spec fn as_int(r: Option<usize>) -> Option<int> {
    match r {
        Some(x) => Some(x as int),
        None => None,
    }
}

/// Whether `q` occurs in `t` at offset `p`.
fn matches_at(t: &Vec<char>, q: &Vec<char>, p: usize) -> (r: bool)
    ensures
        r == occurs_at(t@, q@, p as int),
{
    if q.len() > t.len() || p > t.len() - q.len() {
        return false;
    }
    let mut k: usize = 0;
    while k < q.len()
        invariant
            p + q@.len() <= t@.len(),
            t@.len() <= usize::MAX,
            k <= q@.len(),
            forall|j: int| 0 <= j < k ==> t@[p + j] == q@[j],
        decreases q@.len() - k,
    {
        if t[p + k] != q[k] {
            assert(t@.subrange(p as int, p + q@.len())[k as int] != q@[k as int]);
            return false;
        }
        k = k + 1;
    }
    assert(t@.subrange(p as int, p + q@.len()) =~= q@);
    true
}

/// The first offset from `start` on where `q` occurs in `t`.
fn find_from(t: &Vec<char>, q: &Vec<char>, start: usize) -> (r: Option<usize>)
    ensures
        as_int(r) == first_occurrence(t@, q@, start as int),
{
    if q.len() > t.len() {
        return None;
    }
    let last = t.len() - q.len();
    if start > last {
        return None;
    }
    let mut i = start;
    while i <= last
        invariant
            last + q@.len() == t@.len(),
            start <= i,
            i <= last,
            first_occurrence(t@, q@, start as int) == first_occurrence(t@, q@, i as int),
        decreases last + 1 - i,
    {
        if matches_at(t, q, i) {
            return Some(i);
        }
        if i == last {
            assert(first_occurrence(t@, q@, i + 1) == None::<int>);
            return None;
        }
        i = i + 1;
    }
    None
}

/// The last offset where `q` occurs in `t` and ends at or before `end`.
fn find_last_before(t: &Vec<char>, q: &Vec<char>, end: usize) -> (r: Option<usize>)
    ensures
        as_int(r) == last_occurrence(t@, q@, end as int),
{
    if q.len() > end {
        return None;
    }
    let mut e = end;
    while e >= q.len()
        invariant
            e <= end,
            last_occurrence(t@, q@, end as int) == last_occurrence(t@, q@, e as int),
        decreases e,
    {
        if matches_at(t, q, e - q.len()) {
            return Some(e - q.len());
        }
        if e == 0 {
            return None;
        }
        e = e - 1;
    }
    None
}

/// The tags for the matches of `q` in text `t` with clusters `gs`; the match
/// that starts in the selected cluster is tagged apart.
pub open spec fn match_annotations(
    t: Seq<char>,
    gs: Seq<Seq<char>>,
    q: Seq<char>,
    selected: Option<int>,
) -> Seq<Annotation> {
    occurrences_from(t, q, 0).map_values(
        |p: int|
            Annotation {
                typ: if selected == Some(cluster_at(gs, p)) {
                    AnnotationType::SelectedMatch
                } else {
                    AnnotationType::Match
                },
                start_idx: p as usize,
                end_idx: (p + q.len()) as usize,
            },
    )
}

/// The glyph that stands for cut-off text.
pub open spec fn ellipsis() -> Seq<char> {
    seq!['\u{22EF}']
}

/// Cuts the text and tags `v` of a line of length `len` with clusters `gs`
/// down to the columns from `rs` up to `re`, working through the first `k`
/// clusters from right to left: clusters right of the range go, one cut by
/// its right edge becomes an ellipsis, the first cluster found left of the
/// range takes everything left of it away (leaving an ellipsis where it is
/// cut by the left edge), and a cluster inside shows its replacement glyph.
pub open spec fn trim_from(
    gs: Seq<Seq<char>>,
    len: int,
    v: (Seq<char>, Seq<Annotation>),
    k: int,
    rs: int,
    re: int,
) -> (Seq<char>, Seq<Annotation>)
    decreases k,
{
    if k <= 0 || k > gs.len() {
        v
    } else {
        let i = k - 1;
        let fs = cols_before(gs, i);
        let fe = cols_before(gs, k);
        let bs = chars_before(gs, i);
        let be = chars_before(gs, k);
        if fs > re {
            trim_from(gs, len, v, i, rs, re)
        } else if fs < re && fe > re {
            trim_from(gs, len, replaced(v, bs, len, ellipsis()), i, rs, re)
        } else if fs == re {
            trim_from(gs, len, replaced(v, bs, len, seq![]), i, rs, re)
        } else if fe <= rs {
            replaced(v, 0, be, seq![])
        } else if fs < rs && fe > rs {
            replaced(v, 0, be, ellipsis())
        } else {
            match replacement_of(gs[i]) {
                Some(c) => trim_from(gs, len, replaced(v, bs, be, seq![c]), i, rs, re),
                None => trim_from(gs, len, v, i, rs, re),
            }
        }
    }
}

proof fn lemma_occurrences_within(t: Seq<char>, q: Seq<char>, i: int)
    ensures
        forall|k: int|
            0 <= k < occurrences_from(t, q, i).len() ==> occurs_at(
                t,
                q,
                #[trigger] occurrences_from(t, q, i)[k],
            ),
    decreases t.len() + 1 - i,
{
    if !(i < 0 || i + q.len() > t.len()) {
        lemma_occurrences_within(t, q, i + 1);
        let o = occurrences_from(t, q, i);
        let rest = occurrences_from(t, q, i + 1);
        if occurs_at(t, q, i) {
            assert(o == seq![i] + rest);
            assert forall|k: int| 0 <= k < o.len() implies occurs_at(t, q, #[trigger] o[k]) by {
                if k > 0 {
                    assert(o[k] == rest[k - 1]);
                } else {
                    assert(o[0] == i);
                }
            }
        } else {
            assert(o == rest);
        }
    }
}

/// The character offset in `s` where cluster `at` starts; the end of the
/// text for an index past the last cluster.
pub open spec fn offset_in(s: Seq<char>, at: int) -> int {
    if at < graphemes_of(s).len() {
        chars_before(graphemes_of(s), at)
    } else {
        s.len() as int
    }
}

/// `s` with `c` inserted before cluster `at` (at the end for an index past
/// the last cluster).
pub open spec fn inserted_text(s: Seq<char>, c: char, at: int) -> Seq<char> {
    s.insert(offset_in(s, at), c)
}

/// `s` without cluster `at` (unchanged for an index past the last cluster).
pub open spec fn deleted_text(s: Seq<char>, at: int) -> Seq<char> {
    if at < graphemes_of(s).len() {
        s.subrange(0, offset_in(s, at)) + s.subrange(offset_in(s, at + 1), s.len() as int)
    } else {
        s
    }
}

/// The text and tags of line `s` shown on the columns from `rs` up to `re`,
/// with the matches of `query` tagged when it is not empty.
pub open spec fn visible_in(
    s: Seq<char>,
    rs: int,
    re: int,
    query: Seq<char>,
    selected: Option<int>,
) -> (Seq<char>, Seq<Annotation>) {
    let tags = if query.len() > 0 {
        match_annotations(s, graphemes_of(s), query, selected)
    } else {
        seq![]
    };
    trim_from(graphemes_of(s), s.len() as int, (s, tags), count_in(s), rs, re)
}

/// What cluster `i` of `gs` shows on the columns from `rs` up to `re`:
/// nothing right of the range, an ellipsis where the right edge cuts it,
/// nothing left of the range, an ellipsis where the left edge cuts it, and
/// inside the range its replacement glyph, or else itself.
pub open spec fn piece(gs: Seq<Seq<char>>, i: int, rs: int, re: int) -> Seq<char> {
    let fs = cols_before(gs, i);
    let fe = cols_before(gs, i + 1);
    if fs > re {
        seq![]
    } else if fs < re && fe > re {
        ellipsis()
    } else if fs == re {
        seq![]
    } else if fe <= rs {
        seq![]
    } else if fs < rs && fe > rs {
        ellipsis()
    } else {
        match replacement_of(gs[i]) {
            Some(c) => seq![c],
            None => gs[i],
        }
    }
}

/// What clusters `a` up to `b` show, left to right.
pub open spec fn pieces(gs: Seq<Seq<char>>, a: int, b: int, rs: int, re: int) -> Seq<char>
    decreases b - a,
{
    if a >= b {
        seq![]
    } else {
        piece(gs, a, rs, re) + pieces(gs, a + 1, b, rs, re)
    }
}

proof fn lemma_pieces_split(gs: Seq<Seq<char>>, a: int, b: int, c: int, rs: int, re: int)
    requires
        a <= b <= c,
    ensures
        pieces(gs, a, c, rs, re) == pieces(gs, a, b, rs, re) + pieces(gs, b, c, rs, re),
    decreases b - a,
{
    if a < b {
        lemma_pieces_split(gs, a + 1, b, c, rs, re);
        assert(pieces(gs, a, c, rs, re) =~= pieces(gs, a, b, rs, re) + pieces(gs, b, c, rs, re));
    } else {
        assert(pieces(gs, a, c, rs, re) =~= pieces(gs, a, b, rs, re) + pieces(gs, b, c, rs, re));
    }
}

/// Clusters that start right of the range show nothing.
proof fn lemma_pieces_right_empty(gs: Seq<Seq<char>>, a: int, b: int, rs: int, re: int)
    requires
        0 <= a <= b <= gs.len(),
        cols_before(gs, a) > re,
    ensures
        pieces(gs, a, b, rs, re) == Seq::<char>::empty(),
    decreases b - a,
{
    if a < b {
        lemma_cols_before_bound(gs, a, a + 1);
        lemma_pieces_right_empty(gs, a + 1, b, rs, re);
    }
}

/// Clusters that end before both edges of the range show nothing.
proof fn lemma_pieces_left_empty(gs: Seq<Seq<char>>, a: int, b: int, rs: int, re: int)
    requires
        0 <= a <= b <= gs.len(),
        cols_before(gs, b) <= rs,
        cols_before(gs, b) <= re,
    ensures
        pieces(gs, a, b, rs, re) == Seq::<char>::empty(),
    decreases b - a,
{
    if a < b {
        lemma_cols_before_bound(gs, a, a + 1);
        lemma_cols_before_bound(gs, a + 1, b);
        lemma_pieces_left_empty(gs, a + 1, b, rs, re);
    }
}

/// What is left of a line's text after its clusters from `k` on were worked
/// through: the clusters before `k` as they are, then the rest as it is
/// where cluster `k` starts right of the range, else what the rest shows.
spec fn trim_tail(s: Seq<char>, k: int, rs: int, re: int) -> Seq<char> {
    let gs = graphemes_of(s);
    let n = gs.len() as int;
    s.subrange(0, chars_before(gs, k)) + if cols_before(gs, k) > re {
        s.subrange(chars_before(gs, k), s.len() as int)
    } else {
        pieces(gs, k, n, rs, re)
    }
}

proof fn lemma_trim_text(
    s: Seq<char>,
    v: (Seq<char>, Seq<Annotation>),
    k: int,
    rs: int,
    re: int,
)
    requires
        segmented(s),
        0 <= re,
        0 <= k <= count_in(s),
        v.0 == trim_tail(s, k, rs, re),
    ensures
        trim_from(graphemes_of(s), s.len() as int, v, k, rs, re).0 == pieces(
            graphemes_of(s),
            0,
            count_in(s),
            rs,
            re,
        ),
    decreases k,
{
    let gs = graphemes_of(s);
    let n = count_in(s);
    let len = s.len() as int;
    lemma_segmented_count(s);
    lemma_flatten_range(gs, 0, n);
    assert(gs.subrange(0, n) =~= gs);
    if k == 0 {
        assert(s.subrange(0, 0) =~= Seq::<char>::empty());
        assert(v.0 =~= pieces(gs, 0, n, rs, re));
    } else {
        let i = k - 1;
        let fs = cols_before(gs, i);
        let fe = cols_before(gs, k);
        let bs = chars_before(gs, i);
        let be = chars_before(gs, k);
        lemma_cols_before_bound(gs, i, k);
        lemma_cluster_chars(gs, i);
        lemma_flatten_range(gs, i, n);
        lemma_flatten_range(gs, k, n);
        lemma_flatten_range(gs, 0, i);
        lemma_pieces_split(gs, i, k, n, rs, re);
        assert(pieces(gs, i, k, rs, re) =~= piece(gs, i, rs, re));
        assert(pieces(gs, k, k, rs, re) =~= Seq::<char>::empty());
        if fs > re {
            assert(v.0 =~= trim_tail(s, i, rs, re));
            lemma_trim_text(s, v, i, rs, re);
        } else if fs < re && fe > re {
            let w = crate::annotated_string::replaced(v, bs, len, ellipsis());
            lemma_pieces_right_empty(gs, k, n, rs, re);
            assert(w.0 =~= trim_tail(s, i, rs, re));
            lemma_trim_text(s, w, i, rs, re);
        } else if fs == re {
            let w = crate::annotated_string::replaced(v, bs, len, seq![]);
            lemma_pieces_right_empty(gs, k, n, rs, re);
            assert(w.0 =~= trim_tail(s, i, rs, re));
            lemma_trim_text(s, w, i, rs, re);
        } else if fe <= rs {
            lemma_pieces_left_empty(gs, 0, k, rs, re);
            lemma_pieces_split(gs, 0, k, n, rs, re);
            let w = crate::annotated_string::replaced(v, 0, be, seq![]);
            assert(w.0 =~= pieces(gs, 0, n, rs, re));
        } else if fs < rs && fe > rs {
            lemma_pieces_left_empty(gs, 0, i, rs, re);
            lemma_pieces_split(gs, 0, i, n, rs, re);
            let w = crate::annotated_string::replaced(v, 0, be, ellipsis());
            assert(w.0 =~= pieces(gs, 0, n, rs, re));
        } else {
            match replacement_of(gs[i]) {
                Some(c) => {
                    let w = crate::annotated_string::replaced(v, bs, be, seq![c]);
                    assert(w.0 =~= trim_tail(s, i, rs, re));
                    lemma_trim_text(s, w, i, rs, re);
                },
                None => {
                    assert(v.0 =~= trim_tail(s, i, rs, re));
                    lemma_trim_text(s, v, i, rs, re);
                },
            }
        }
    }
}

/// The text a line shows on the columns from `rs` up to `re` is what its
/// clusters show, left to right.
pub proof fn lemma_visible_text(
    s: Seq<char>,
    rs: int,
    re: int,
    query: Seq<char>,
    selected: Option<int>,
)
    requires
        segmented(s),
        0 <= re,
    ensures
        visible_in(s, rs, re, query, selected).0 == pieces(graphemes_of(s), 0, count_in(s), rs, re),
{
    let gs = graphemes_of(s);
    let n = count_in(s);
    lemma_segmented_count(s);
    let tags = if query.len() > 0 {
        match_annotations(s, gs, query, selected)
    } else {
        seq![]
    };
    assert(s.subrange(0, s.len() as int) =~= s);
    if cols_before(gs, n) <= re {
        assert(pieces(gs, n, n, rs, re) =~= Seq::<char>::empty());
    }
    assert(s =~= trim_tail(s, n, rs, re));
    lemma_trim_text(s, (s, tags), n, rs, re);
}

/// A tab cluster that lies inside the columns from `rs` up to `re` takes
/// one column and shows as one space.
pub proof fn lemma_tab_shows_space(gs: Seq<Seq<char>>, i: int, rs: int, re: int)
    requires
        0 <= i < gs.len(),
        gs[i] == seq!['\t'],
        rs <= cols_before(gs, i),
        cols_before(gs, i + 1) <= re,
    ensures
        width_of(gs[i]) == GraphemeWidth::Half,
        piece(gs, i, rs, re) == seq![' '],
{
    assert(seq!['\t'][0] != seq![' '][0]);
    assert(gs[i] != seq![' ']);
    assert(replacement_of(gs[i]) == Some(' '));
}

proof fn lemma_pieces_no_tab(gs: Seq<Seq<char>>, a: int, b: int, rs: int, re: int)
    requires
        0 <= a <= b <= gs.len(),
        forall|i: int, k: int|
            0 <= i < gs.len() && 0 <= k < gs[i].len() && #[trigger] gs[i][k] == '\t' ==> gs[i]
                == seq!['\t'],
    ensures
        forall|k: int|
            0 <= k < pieces(gs, a, b, rs, re).len() ==> #[trigger] pieces(gs, a, b, rs, re)[k]
                != '\t',
    decreases b - a,
{
    if a < b {
        lemma_pieces_no_tab(gs, a + 1, b, rs, re);
        let p = piece(gs, a, rs, re);
        let rest = pieces(gs, a + 1, b, rs, re);
        assert(seq!['\t'][0] != seq![' '][0]);
        if replacement_of(gs[a]) is None {
            assert forall|k: int| 0 <= k < gs[a].len() implies gs[a][k] != '\t' by {
                if gs[a][k] == '\t' {
                    assert(gs[a] == seq!['\t']);
                }
            }
        }
        assert forall|k: int| 0 <= k < p.len() implies p[k] != '\t' by {}
        assert forall|k: int| 0 <= k < (p + rest).len() implies #[trigger] (p + rest)[k] != '\t' by {
            if k >= p.len() {
                assert((p + rest)[k] == rest[k - p.len()]);
            }
        }
    }
}

/// Where every tab of line `s` is a cluster of its own, the text the line
/// shows on any columns holds no tab.
pub proof fn lemma_visible_text_has_no_tab(
    s: Seq<char>,
    rs: int,
    re: int,
    query: Seq<char>,
    selected: Option<int>,
)
    requires
        segmented(s),
        0 <= re,
        forall|i: int, k: int|
            0 <= i < graphemes_of(s).len() && 0 <= k < graphemes_of(s)[i].len()
                && #[trigger] graphemes_of(s)[i][k] == '\t' ==> graphemes_of(s)[i] == seq!['\t'],
    ensures
        forall|k: int|
            0 <= k < visible_in(s, rs, re, query, selected).0.len() ==> #[trigger] visible_in(
                s,
                rs,
                re,
                query,
                selected,
            ).0[k] != '\t',
{
    lemma_visible_text(s, rs, re, query, selected);
    lemma_pieces_no_tab(graphemes_of(s), 0, count_in(s), rs, re);
}

/// The number of clusters in `s`.
pub open spec fn count_in(s: Seq<char>) -> int {
    graphemes_of(s).len() as int
}

/// The columns that the first `n` clusters of `s` take (all of them for a
/// larger `n`).
pub open spec fn cols_in(s: Seq<char>, n: int) -> int {
    if n < count_in(s) {
        cols_before(graphemes_of(s), n)
    } else {
        cols_before(graphemes_of(s), count_in(s))
    }
}

/// Where the first match of `q` in `s`, from the start of cluster `from`
/// on, begins, as `cluster_at` gives it; none on an empty line or from past
/// the last cluster.
pub open spec fn forward_match(s: Seq<char>, q: Seq<char>, from: int) -> Option<int> {
    if count_in(s) == 0 || from >= count_in(s) {
        None
    } else {
        match first_occurrence(s, q, offset_in(s, from)) {
            Some(p) => Some(cluster_at(graphemes_of(s), p)),
            None => None,
        }
    }
}

/// Where the last match of `q` in `s` that ends before cluster `from`
/// begins, as `cluster_at` gives it; none on an empty line or from the first
/// cluster.
pub open spec fn backward_match(s: Seq<char>, q: Seq<char>, from: int) -> Option<int> {
    if count_in(s) == 0 || from == 0 {
        None
    } else {
        match last_occurrence(s, q, offset_in(s, from)) {
            Some(p) => Some(cluster_at(graphemes_of(s), p)),
            None => None,
        }
    }
}

proof fn lemma_first_occurrence(t: Seq<char>, q: Seq<char>, i: int)
    ensures
        first_occurrence(t, q, i) matches Some(p) ==> occurs_at(t, q, p) && i <= p,
    decreases t.len() + 1 - i,
{
    if !(i < 0 || i + q.len() > t.len()) && !occurs_at(t, q, i) {
        lemma_first_occurrence(t, q, i + 1);
    }
}

proof fn lemma_last_occurrence(t: Seq<char>, q: Seq<char>, e: int, p: int)
    requires
        occurs_at(t, q, p),
        p + q.len() <= e,
    ensures
        last_occurrence(t, q, e) matches Some(later) && p <= later && later + q.len() <= e && occurs_at(
            t,
            q,
            later,
        ),
    decreases e,
{
    if !occurs_at(t, q, e - q.len()) {
        lemma_last_occurrence(t, q, e - 1, p);
    }
}

proof fn lemma_cluster_from_props(gs: Seq<Seq<char>>, p: int, i: int)
    requires
        0 <= i <= gs.len(),
    ensures
        i <= cluster_from(gs, p, i) <= gs.len(),
        forall|j: int| i <= j < cluster_from(gs, p, i) ==> #[trigger] chars_before(gs, j) < p,
        cluster_from(gs, p, i) == gs.len() || chars_before(gs, cluster_from(gs, p, i)) >= p,
    decreases gs.len() - i,
{
    if !(i >= gs.len() || chars_before(gs, i) >= p) {
        lemma_cluster_from_props(gs, p, i + 1);
    }
}

proof fn lemma_cluster_from_is(gs: Seq<Seq<char>>, p: int, i: int, c: int)
    requires
        0 <= i <= c <= gs.len(),
        forall|j: int| i <= j < c ==> #[trigger] chars_before(gs, j) < p,
        c == gs.len() || chars_before(gs, c) >= p,
    ensures
        cluster_from(gs, p, i) == c,
    decreases c - i,
{
    if i < c {
        lemma_cluster_from_is(gs, p, i + 1, c);
    }
}

/// The cluster that `cluster_at` gives is one of the clusters, or the
/// position past the last.
pub proof fn lemma_cluster_bound(gs: Seq<Seq<char>>, p: int)
    ensures
        0 <= cluster_at(gs, p) <= gs.len(),
{
    lemma_cluster_from_props(gs, p, 0);
}

/// The clusters of a cut string number at most its characters, and their
/// characters make up the string.
pub proof fn lemma_segmented_count(s: Seq<char>)
    requires
        segmented(s),
    ensures
        count_in(s) <= s.len(),
        chars_before(graphemes_of(s), count_in(s)) == s.len(),
{
    let gs = graphemes_of(s);
    lemma_flatten_range(gs, 0, gs.len() as int);
    assert(gs.subrange(0, gs.len() as int) =~= gs);
    lemma_chars_before_mono(gs, 0, gs.len() as int);
}

/// On one line: searching backward from just past a match that a forward
/// search found, past clusters that hold exactly the query's characters,
/// finds that match again.
pub proof fn lemma_line_forward_then_backward(s: Seq<char>, q: Seq<char>, from: int, step: int)
    requires
        segmented(s),
        q.len() > 0,
        forward_match(s, q, from) is Some,
        0 <= step,
        offset_in(s, forward_match(s, q, from).unwrap() + step) == offset_in(
            s,
            forward_match(s, q, from).unwrap(),
        ) + q.len(),
    ensures
        backward_match(s, q, forward_match(s, q, from).unwrap() + step) == forward_match(
            s,
            q,
            from,
        ),
{
    let gs = graphemes_of(s);
    let c = forward_match(s, q, from).unwrap();
    let p = first_occurrence(s, q, offset_in(s, from)).unwrap();
    lemma_first_occurrence(s, q, offset_in(s, from));
    lemma_cluster_from_props(gs, p, 0);
    lemma_segmented_count(s);
    assert(c == cluster_at(gs, p));
    assert(p <= offset_in(s, c));
    assert(step != 0);
    let e = offset_in(s, c + step);
    lemma_last_occurrence(s, q, e, p);
    let later = last_occurrence(s, q, e).unwrap();
    assert(later <= offset_in(s, c));
    assert forall|j: int| 0 <= j < c implies #[trigger] chars_before(gs, j) < later by {
        assert(chars_before(gs, j) < p);
    }
    lemma_cluster_from_is(gs, later, 0, c);
}

/// Deleting cluster `i` right after inserting `c` before it gives back the
/// text, wherever the inserted character makes a cluster of its own at
/// index `i`.
pub proof fn lemma_insert_then_delete(s: Seq<char>, c: char, i: int)
    requires
        segmented(s),
        0 <= i <= graphemes_of(s).len(),
        segmented(inserted_text(s, c, i)),
        i < graphemes_of(inserted_text(s, c, i)).len(),
        graphemes_of(inserted_text(s, c, i))[i] == seq![c],
        chars_before(graphemes_of(inserted_text(s, c, i)), i) == offset_in(s, i),
    ensures
        deleted_text(inserted_text(s, c, i), i) == s,
{
    let gs = graphemes_of(s);
    let t = inserted_text(s, c, i);
    let ts = graphemes_of(t);
    let o = offset_in(s, i);
    lemma_flatten_range(gs, 0, gs.len() as int);
    assert(gs.subrange(0, gs.len() as int) =~= gs);
    if i < gs.len() {
        lemma_flatten_range(gs, i, gs.len() as int);
    }
    assert(0 <= o <= s.len());
    lemma_cluster_chars(ts, i);
    lemma_flatten_range(ts, 0, ts.len() as int);
    assert(ts.subrange(0, ts.len() as int) =~= ts);
    if i + 1 < ts.len() {
        assert(offset_in(t, i + 1) == o + 1);
    } else {
        assert(chars_before(ts, ts.len() as int) == t.len());
        assert(offset_in(t, i + 1) == o + 1);
    }
    assert(offset_in(t, i) == o);
    assert(deleted_text(t, i) =~= s);
}

/// The width of a line is the width of all its clusters, and the width of
/// the first `n` clusters grows with `n`.
pub proof fn lemma_width_until_monotonic(l: Line, a: int, b: int)
    requires
        0 <= a <= b,
    ensures
        l.cols_until(l.count()) == l.width_cols(),
        l.cols_until(a) <= l.cols_until(b),
{
    let n = l.count();
    let x = if a < n { a } else { n };
    let y = if b < n { b } else { n };
    lemma_cols_before_bound(l.graphemes(), x, y);
}

/// A line of text with its clusters.
pub struct Line {
    string: String,
    fragments: Vec<TextFragment>,
}

impl View for Line {
    type V = Seq<char>;

    closed spec fn view(&self) -> Seq<char> {
        self.string@
    }
}

impl Line {
    /// The clusters of the line's text.
    pub open spec fn graphemes(&self) -> Seq<Seq<char>> {
        graphemes_of(self@)
    }

    pub open spec fn count(&self) -> int {
        count_in(self@)
    }

    /// The character offset where cluster `at` starts; the end of the text
    /// for an index past the last cluster.
    pub open spec fn offset_of(&self, at: int) -> int {
        offset_in(self@, at)
    }

    /// The columns the whole line takes.
    pub open spec fn width_cols(&self) -> int {
        cols_before(self.graphemes(), self.count())
    }

    /// The columns that the first `n` clusters take.
    pub open spec fn cols_until(&self, n: int) -> int {
        cols_in(self@, n)
    }

    pub closed spec fn wf(&self) -> bool {
        &&& self@.len() <= MAX_LINE_LEN
        &&& segmented(self@)
        &&& self.fragments@.len() == self.graphemes().len()
        &&& forall|i: int|
            0 <= i < self.fragments@.len() ==> #[trigger] fragment_of(
                self.fragments@[i],
                self.graphemes(),
                i,
            )
    }

    /// A well-formed line is cut into its clusters and is no longer than the
    /// longest line.
    pub proof fn lemma_wf_text(&self)
        requires
            self.wf(),
        ensures
            segmented(self@),
            self@.len() <= MAX_LINE_LEN,
    {
    }

    proof fn lemma_wf_facts(&self)
        requires
            self.wf(),
        ensures
            segmented(self@),
            self@.len() <= MAX_LINE_LEN,
            self.count() <= self@.len(),
            chars_before(self.graphemes(), self.count()) == self@.len(),
            forall|i: int| 0 <= i <= self.count() ==> 0 <= #[trigger] chars_before(self.graphemes(), i) <= self@.len(),
            forall|i: int| 0 <= i <= self.count() ==> 0 <= #[trigger] cols_before(self.graphemes(), i) <= 2 * i,
    {
        let gs = self.graphemes();
        lemma_flatten_range(gs, 0, gs.len() as int);
        assert(gs.subrange(0, gs.len() as int) =~= gs);
        lemma_chars_before_mono(gs, 0, gs.len() as int);
        assert forall|i: int| 0 <= i <= self.count() implies 0 <= #[trigger] chars_before(gs, i) <= self@.len() by {
            lemma_flatten_range(gs, i, gs.len() as int);
        }
        assert forall|i: int| 0 <= i <= self.count() implies 0 <= #[trigger] cols_before(gs, i) <= 2 * i by {
            lemma_cols_before_bound(gs, 0, i);
        }
    }

    /// The fragments of a string, built from its clusters.
    fn str_to_fragments(s: &str) -> (r: Vec<TextFragment>)
        requires
            s@.len() <= MAX_LINE_LEN,
        ensures
            segmented(s@),
            r@.len() == graphemes_of(s@).len(),
            forall|i: int| 0 <= i < r@.len() ==> #[trigger] fragment_of(r@[i], graphemes_of(s@), i),
    {
        let graphemes = split_graphemes(s);
        let ghost gs = graphemes_of(s@);
        proof {
            assert(graphemes@.map_values(|g: String| g@) =~= gs);
            assert(segmented(s@));
            lemma_flatten_range(gs, 0, gs.len() as int);
            assert(gs.subrange(0, gs.len() as int) =~= gs);
        }
        let mut fragments: Vec<TextFragment> = Vec::new();
        let mut start: usize = 0;
        let mut i: usize = 0;
        while i < graphemes.len()
            invariant
                gs == graphemes_of(s@),
                segmented(s@),
                chars_before(gs, gs.len() as int) == s@.len(),
                s@.len() <= MAX_LINE_LEN,
                graphemes@.len() == gs.len(),
                forall|j: int| 0 <= j < graphemes@.len() ==> #[trigger] graphemes@[j]@ == gs[j],
                i <= graphemes@.len(),
                start == chars_before(gs, i as int),
                fragments@.len() == i,
                forall|j: int| 0 <= j < i ==> #[trigger] fragment_of(fragments@[j], gs, j),
            decreases graphemes@.len() - i,
        {
            let g = graphemes[i].as_str();
            let replacement = Self::get_replacement_character(g);
            let rendered_width = if replacement.is_some() {
                GraphemeWidth::Half
            } else if columns_of(g) <= 1 {
                GraphemeWidth::Half
            } else {
                GraphemeWidth::Full
            };
            let len = g.unicode_len();
            proof {
                lemma_flatten_range(gs, i as int, i as int + 1);
                lemma_flatten_range(gs, i as int + 1, gs.len() as int);
                lemma_cluster_chars(gs, i as int);
            }
            fragments.push(
                TextFragment {
                    start_idx: start,
                    grapheme: graphemes[i].clone(),
                    rendered_width,
                    replacement,
                },
            );
            start = start + len;
            i = i + 1;
        }
        fragments
    }

    /// The glyph drawn in place of cluster `g`, if any.
    fn get_replacement_character(g: &str) -> (r: Option<char>)
        ensures
            r == replacement_of(g@),
    {
        let width = columns_of(g);
        let cs = chars_of(g);
        let n = cs.len();
        if n == 1 && cs[0] == ' ' {
            assert(g@ =~= seq![' ']);
            return None;
        }
        if n == 1 && cs[0] == '\t' {
            assert(g@ =~= seq!['\t']);
            return Some(' ');
        }
        assert(g@ != seq![' ']);
        assert(g@ != seq!['\t']);
        let mut all_control = true;
        let mut all_space = true;
        let mut i: usize = 0;
        while i < n
            invariant
                n == g@.len(),
                cs@ == g@,
                i <= n,
                all_control == forall|j: int| 0 <= j < i ==> is_control_char(#[trigger] g@[j]),
                all_space == forall|j: int| 0 <= j < i ==> is_white_space(#[trigger] g@[j]),
            decreases n - i,
        {
            let c = cs[i];
            if !control_char(c) {
                all_control = false;
            }
            if !white_space_char(c) {
                all_space = false;
            }
            i = i + 1;
        }
        if all_control {
            Some('\u{25AF}')
        } else if width > 0 && all_space {
            Some('\u{2423}')
        } else if width == 0 {
            Some('\u{B7}')
        } else {
            None
        }
    }

    /// A line holding `line_str`, which has no line break.
    pub fn from(line_str: &str) -> (r: Line)
        requires
            line_str@.len() <= MAX_LINE_LEN,
        ensures
            r.wf(),
            r@ == line_str@,
    {
        let fragments = Self::str_to_fragments(line_str);
        Line { string: line_str.to_string(), fragments }
    }

    /// A line holding the characters `cs`.
    pub(crate) fn from_chars(cs: &Vec<char>) -> (r: Line)
        requires
            cs@.len() <= MAX_LINE_LEN,
        ensures
            r.wf(),
            r@ == cs@,
    {
        let s = string_of_chars(cs);
        Line::from(s.as_str())
    }

    /// The characters of the line.
    fn line_chars(&self) -> (r: Vec<char>)
        requires
            self.wf(),
        ensures
            r@ == self@,
    {
        let ghost gs = self.graphemes();
        let mut r: Vec<char> = Vec::new();
        let mut i: usize = 0;
        while i < self.fragments.len()
            invariant
                self.wf(),
                gs == self.graphemes(),
                i <= self.fragments@.len(),
                r@ == gs.subrange(0, i as int).flatten(),
            decreases self.fragments@.len() - i,
        {
            let mut g = chars_of(self.fragments[i].grapheme.as_str());
            proof {
                assert(fragment_of(self.fragments@[i as int], gs, i as int));
                assert(gs.subrange(0, i + 1) =~= gs.subrange(0, i as int).push(gs[i as int]));
                gs.subrange(0, i as int).lemma_flatten_push(gs[i as int]);
            }
            r.append(&mut g);
            i = i + 1;
        }
        assert(gs.subrange(0, gs.len() as int) =~= gs);
        r
    }

    /// The character offset where cluster `at` starts; the end of the text
    /// for an index past the last cluster.
    fn offset(&self, at: usize) -> (r: usize)
        requires
            self.wf(),
        ensures
            r == self.offset_of(at as int),
            r <= self@.len(),
    {
        proof {
            self.lemma_wf_facts();
        }
        if at < self.fragments.len() {
            assert(fragment_of(self.fragments@[at as int], self.graphemes(), at as int));
            self.fragments[at].start_idx
        } else {
            self.string.as_str().unicode_len()
        }
    }

    /// The number of characters in the line.
    pub fn len(&self) -> (r: usize)
        requires
            self.wf(),
        ensures
            r == self@.len(),
            r <= MAX_LINE_LEN,
    {
        self.string.as_str().unicode_len()
    }

    pub fn grapheme_count(&self) -> (r: usize)
        requires
            self.wf(),
        ensures
            r == self.count(),
    {
        self.fragments.len()
    }

    pub fn is_empty(&self) -> (r: bool)
        requires
            self.wf(),
        ensures
            r == (self@.len() == 0),
    {
        proof {
            self.lemma_wf_facts();
        }
        self.fragments.len() == 0
    }

    /// The line's text.
    pub fn to_string(&self) -> (r: String)
        ensures
            r@ == self@,
    {
        self.string.clone()
    }

    /// The columns that the first `grapheme_idx` clusters take (all of them
    /// for a larger index).
    pub fn width_until(&self, grapheme_idx: usize) -> (r: usize)
        requires
            self.wf(),
        ensures
            r == self.cols_until(grapheme_idx as int),
    {
        proof {
            self.lemma_wf_facts();
        }
        let ghost gs = self.graphemes();
        let n = if grapheme_idx < self.fragments.len() {
            grapheme_idx
        } else {
            self.fragments.len()
        };
        let mut sum: usize = 0;
        let mut i: usize = 0;
        while i < n
            invariant
                self.wf(),
                gs == self.graphemes(),
                n <= self.fragments@.len(),
                i <= n,
                sum == cols_before(gs, i as int),
                forall|k: int| 0 <= k <= self.count() ==> 0 <= #[trigger] cols_before(gs, k) <= 2 * k,
                self.count() <= MAX_LINE_LEN,
            decreases n - i,
        {
            assert(fragment_of(self.fragments@[i as int], gs, i as int));
            assert(cols_before(gs, i + 1) <= 2 * (i + 1));
            sum = sum + self.fragments[i].rendered_width.columns();
            i = i + 1;
        }
        sum
    }

    /// The columns the whole line takes.
    pub fn width(&self) -> (r: usize)
        requires
            self.wf(),
        ensures
            r == self.width_cols(),
    {
        self.width_until(self.grapheme_count())
    }

    /// Inserts `ch` before cluster `at`, or at the end for an index past the
    /// last cluster.
    pub fn insert_char(&mut self, ch: char, at: usize)
        requires
            old(self).wf(),
            old(self)@.len() < MAX_LINE_LEN,
        ensures
            final(self).wf(),
            final(self)@ == inserted_text(old(self)@, ch, at as int),
    {
        let mut cs = self.line_chars();
        let off = self.offset(at);
        cs.insert(off, ch);
        *self = Line::from_chars(&cs);
    }

    /// Removes cluster `at`; an index past the last cluster changes nothing.
    pub fn delete(&mut self, at: usize)
        requires
            old(self).wf(),
        ensures
            final(self).wf(),
            final(self)@ == deleted_text(old(self)@, at as int),
    {
        if at < self.fragments.len() {
            let mut cs = self.line_chars();
            let start = self.offset(at);
            let end = self.offset(at + 1);
            proof {
                self.lemma_wf_facts();
                lemma_chars_before_mono(self.graphemes(), at as int, at + 1);
            }
            let mut tail = cs.split_off(end);
            cs.truncate(start);
            cs.append(&mut tail);
            *self = Line::from_chars(&cs);
        }
    }

    /// Adds the text of `other` at the end.
    pub fn append(&mut self, other: &Line)
        requires
            old(self).wf(),
            old(self)@.len() + other@.len() <= MAX_LINE_LEN,
        ensures
            final(self).wf(),
            final(self)@ == old(self)@ + other@,
    {
        let mut s = self.string.clone();
        s.append(other.string.as_str());
        *self = Line::from(s.as_str());
    }

    /// Adds `ch` at the end.
    pub fn append_char(&mut self, ch: char)
        requires
            old(self).wf(),
            old(self)@.len() < MAX_LINE_LEN,
        ensures
            final(self).wf(),
            final(self)@ == old(self)@.push(ch),
    {
        let n = self.grapheme_count();
        self.insert_char(ch, n);
        assert(final(self)@ =~= old(self)@.push(ch));
    }

    /// Removes the last cluster, if any.
    pub fn delete_last(&mut self)
        requires
            old(self).wf(),
        ensures
            final(self).wf(),
            old(self).count() > 0 ==> final(self)@ == old(self)@.subrange(
                0,
                old(self).offset_of(old(self).count() - 1),
            ),
            old(self).count() == 0 ==> final(self)@ == old(self)@,
    {
        proof {
            self.lemma_wf_facts();
        }
        let n = self.grapheme_count();
        let last = if n > 0 {
            n - 1
        } else {
            0
        };
        self.delete(last);
        if n > 0 {
            assert(old(self)@.subrange(old(self).offset_of(n as int), old(self)@.len() as int) =~= Seq::<char>::empty());
            assert(final(self)@ =~= old(self)@.subrange(0, old(self).offset_of(n - 1)));
        }
    }

    /// Cuts the line where cluster `at` starts: the line keeps the text
    /// before, and the text from there on is returned as a new line.
    pub fn split(&mut self, at: usize) -> (r: Line)
        requires
            old(self).wf(),
        ensures
            final(self).wf(),
            r.wf(),
            final(self)@ == old(self)@.subrange(0, old(self).offset_of(at as int)),
            r@ == old(self)@.subrange(old(self).offset_of(at as int), old(self)@.len() as int),
    {
        let mut cs = self.line_chars();
        let off = self.offset(at);
        let tail = cs.split_off(off);
        *self = Line::from_chars(&cs);
        Line::from_chars(&tail)
    }

    /// The index of the first cluster that starts at or after character
    /// offset `p`.
    fn char_idx_to_grapheme_idx(&self, p: usize) -> (r: usize)
        requires
            self.wf(),
        ensures
            r == cluster_at(self.graphemes(), p as int),
            r <= self.count(),
    {
        let ghost gs = self.graphemes();
        let mut i: usize = 0;
        while i < self.fragments.len() && self.fragments[i].start_idx < p
            invariant
                self.wf(),
                gs == self.graphemes(),
                i <= self.fragments@.len(),
                cluster_at(gs, p as int) == cluster_from(gs, p as int, i as int),
            decreases self.fragments@.len() - i,
        {
            assert(fragment_of(self.fragments@[i as int], gs, i as int));
            i = i + 1;
        }
        if i < self.fragments.len() {
            assert(fragment_of(self.fragments@[i as int], gs, i as int));
        }
        i
    }

    /// Searches for `query` from the start of cluster `from_grapheme_idx` on,
    /// and gives the cluster where the first match starts.
    pub fn search_forward(&self, query: &str, from_grapheme_idx: usize) -> (r: Option<usize>)
        requires
            self.wf(),
        ensures
            as_int(r) == forward_match(self@, query@, from_grapheme_idx as int),
    {
        if self.fragments.len() == 0 || from_grapheme_idx >= self.fragments.len() {
            return None;
        }
        let t = self.line_chars();
        let q = chars_of(query);
        let start = self.offset(from_grapheme_idx);
        match find_from(&t, &q, start) {
            Some(p) => Some(self.char_idx_to_grapheme_idx(p)),
            None => None,
        }
    }

    /// Searches for the last match of `query` that ends before cluster
    /// `from_grapheme_idx`, and gives the cluster where it starts.
    pub fn search_backward(&self, query: &str, from_grapheme_idx: usize) -> (r: Option<usize>)
        requires
            self.wf(),
        ensures
            as_int(r) == backward_match(self@, query@, from_grapheme_idx as int),
    {
        if self.fragments.len() == 0 || from_grapheme_idx == 0 {
            return None;
        }
        let t = self.line_chars();
        let q = chars_of(query);
        let end = self.offset(from_grapheme_idx);
        match find_last_before(&t, &q, end) {
            Some(p) => Some(self.char_idx_to_grapheme_idx(p)),
            None => None,
        }
    }

    /// Every match of `query` in the line: its character offset and the
    /// index that `cluster_at` gives for it.
    fn find_all(&self, query: &Vec<char>) -> (r: Vec<(usize, usize)>)
        requires
            self.wf(),
            query@.len() > 0,
        ensures
            r@.len() == occurrences_from(self@, query@, 0).len(),
            forall|k: int|
                0 <= k < r@.len() ==> {
                    &&& (#[trigger] r@[k]).0 == occurrences_from(self@, query@, 0)[k]
                    &&& r@[k].1 == cluster_at(self.graphemes(), r@[k].0 as int)
                },
    {
        let t = self.line_chars();
        let mut r: Vec<(usize, usize)> = Vec::new();
        if query.len() > t.len() {
            return r;
        }
        let last = t.len() - query.len();
        let ghost all = occurrences_from(self@, query@, 0);
        let ghost mut seen: Seq<int> = seq![];
        let mut i: usize = 0;
        while i <= last
            invariant
                i <= last + 1,
                last < t@.len(),
                t@.len() <= usize::MAX,
                t@ == self@,
                self.wf(),
                last + query@.len() == t@.len(),
                all == occurrences_from(self@, query@, 0),
                all == seen + occurrences_from(self@, query@, i as int),
                r@.len() == seen.len(),
                forall|k: int|
                    0 <= k < r@.len() ==> {
                        &&& (#[trigger] r@[k]).0 == seen[k]
                        &&& r@[k].1 == cluster_at(self.graphemes(), r@[k].0 as int)
                    },
            decreases last + 1 - i,
        {
            if matches_at(&t, query, i) {
                let g = self.char_idx_to_grapheme_idx(i);
                r.push((i, g));
                proof {
                    assert(occurrences_from(self@, query@, i as int) == seq![i as int]
                        + occurrences_from(self@, query@, i + 1));
                    seen = seen.push(i as int);
                    assert(all =~= seen + occurrences_from(self@, query@, i + 1));
                }
            }
            i = i + 1;
        }
        assert(occurrences_from(self@, query@, i as int) == Seq::<int>::empty());
        assert(seen =~= all);
        r
    }

    pub open spec fn visible_annotated(
        &self,
        rs: int,
        re: int,
        query: Seq<char>,
        selected: Option<int>,
    ) -> (Seq<char>, Seq<Annotation>) {
        visible_in(self@, rs, re, query, selected)
    }

    /// The annotated text that shows on the columns of `range`: the matches
    /// of a nonempty `query` are tagged, the one starting in cluster
    /// `selected_match` apart from the others.
    pub fn get_annotated_visible_substr(
        &self,
        range: Range<usize>,
        query: Option<&str>,
        selected_match: Option<usize>,
    ) -> (r: AnnotatedString)
        requires
            self.wf(),
        ensures
            r.wf(),
            r@ == self.visible_annotated(
                range.start as int,
                range.end as int,
                match query {
                    Some(q) => q@,
                    None => Seq::<char>::empty(),
                },
                as_int(selected_match),
            ),
            r@.0 == pieces(self.graphemes(), 0, self.count(), range.start as int, range.end as int),
    {
        proof {
            self.lemma_wf_facts();
            lemma_visible_text(
                self@,
                range.start as int,
                range.end as int,
                match query {
                    Some(q) => q@,
                    None => Seq::<char>::empty(),
                },
                as_int(selected_match),
            );
        }
        let ghost gs = self.graphemes();
        let rs = range.start;
        let re = range.end;
        let t = self.line_chars();
        let len = t.len();
        let mut result = AnnotatedString::from_chars(t);
        let ghost qv = match query {
            Some(q) => q@,
            None => Seq::<char>::empty(),
        };
        let ghost tags = if qv.len() > 0 {
            match_annotations(self@, gs, qv, as_int(selected_match))
        } else {
            seq![]
        };
        if let Some(query) = query {
            let q = chars_of(query);
            if q.len() > 0 {
                let matches = self.find_all(&q);
                proof {
                    lemma_occurrences_within(self@, q@, 0);
                }
                let ghost all = match_annotations(self@, gs, q@, as_int(selected_match));
                let mut j: usize = 0;
                while j < matches.len()
                    invariant
                        self.wf(),
                        gs == self.graphemes(),
                        result.wf(),
                        result@.0 == self@,
                        all == match_annotations(self@, gs, q@, as_int(selected_match)),
                        matches@.len() == occurrences_from(self@, q@, 0).len(),
                        forall|k: int|
                            0 <= k < matches@.len() ==> {
                                &&& (#[trigger] matches@[k]).0 == occurrences_from(self@, q@, 0)[k]
                                &&& matches@[k].1 == cluster_at(gs, matches@[k].0 as int)
                            },
                        forall|k: int|
                            0 <= k < occurrences_from(self@, q@, 0).len() ==> occurs_at(
                                self@,
                                q@,
                                #[trigger] occurrences_from(self@, q@, 0)[k],
                            ),
                        j <= matches@.len(),
                        result@.1 == all.subrange(0, j as int),
                    decreases matches@.len() - j,
                {
                    let (p, g) = matches[j];
                    assert(occurs_at(self@, q@, occurrences_from(self@, q@, 0)[j as int]));
                    let typ = match selected_match {
                        Some(sel) => if sel == g {
                            AnnotationType::SelectedMatch
                        } else {
                            AnnotationType::Match
                        },
                        None => AnnotationType::Match,
                    };
                    result.add_annotation(typ, p, p + q.len());
                    assert(result@.1 =~= all.subrange(0, j + 1));
                    j = j + 1;
                }
                assert(result@.1 =~= all);
            }
        }
        assert(result@ == (self@, tags));
        assert(range.start == rs && range.end == re);
        let mut k = self.fragments.len();
        let mut fragment_start = self.width();
        while k > 0
            invariant
                self.wf(),
                gs == self.graphemes(),
                len == self@.len(),
                k <= self.fragments@.len(),
                fragment_start == cols_before(gs, k as int),
                result.wf(),
                trim_from(gs, len as int, (self@, tags), self.count(), rs as int, re as int)
                    == trim_from(gs, len as int, result@, k as int, rs as int, re as int),
                forall|i: int| 0 <= i <= self.count() ==> 0 <= #[trigger] chars_before(gs, i) <= self@.len(),
                chars_before(gs, self.count()) == self@.len(),
                self.count() == self.fragments@.len(),
                qv == match query {
                    Some(q) => q@,
                    None => Seq::<char>::empty(),
                },
                range.start == rs,
                range.end == re,
                self.visible_annotated(rs as int, re as int, qv, as_int(selected_match)).0
                    == pieces(gs, 0, self.count(), rs as int, re as int),
                self.visible_annotated(rs as int, re as int, qv, as_int(selected_match))
                    == trim_from(gs, len as int, (self@, tags), self.count(), rs as int, re as int),
            decreases k,
        {
            let i = k - 1;
            proof {
                lemma_cols_before_bound(gs, 0, i as int);
                reveal_strlit("");
                reveal_strlit("\u{22EF}");
                assert(""@ =~= Seq::<char>::empty());
                assert("\u{22EF}"@ =~= ellipsis());
                assert(cols_before(gs, k as int) == cols_before(gs, i as int) + width_of(
                    gs[i as int],
                ).cols());
                assert(fragment_of(self.fragments@[i as int], gs, i as int));
            }
            let fragment_end = fragment_start;
            fragment_start = fragment_start - self.fragments[i].rendered_width.columns();
            let bs = self.fragments[i].start_idx;
            let be = self.offset(k);
            let ghost before = result@;
            assert(be == chars_before(gs, k as int));
            assert(bs == chars_before(gs, i as int));
            if fragment_start > re {
            } else if fragment_start < re && fragment_end > re {
                result.replace(bs, len, "\u{22EF}");
            } else if fragment_start == re {
                result.replace(bs, len, "");
            } else if fragment_end <= rs {
                result.replace(0, be, "");
                assert(trim_from(gs, len as int, before, k as int, rs as int, re as int) == result@);
                return result;
            } else if fragment_start < rs && fragment_end > rs {
                result.replace(0, be, "\u{22EF}");
                assert(trim_from(gs, len as int, before, k as int, rs as int, re as int) == result@);
                return result;
            } else {
                if let Some(replacement) = self.fragments[i].replacement {
                    let mut glyph = String::new();
                    glyph.push(replacement);
                    result.replace(bs, be, glyph.as_str());
                }
            }
            k = i;
        }
        result
    }

    /// The text that shows on the columns of `range`.
    pub fn get_visible_graphemes(&self, range: Range<usize>) -> (r: String)
        requires
            self.wf(),
        ensures
            r@ == pieces(self.graphemes(), 0, self.count(), range.start as int, range.end as int),
    {
        self.get_annotated_visible_substr(range, None, None).to_string()
    }

    /// Searches for `query` from the start of cluster `from` on (the same as
    /// `search_forward`).
    pub fn search_from(&self, query: &str, from: usize) -> (r: Option<usize>)
        requires
            self.wf(),
        ensures
            as_int(r) == forward_match(self@, query@, from as int),
    {
        self.search_forward(query, from)
    }
}

impl Default for Line {
    fn default() -> (r: Line)
        ensures
            r.wf(),
            r@ == Seq::<char>::empty(),
    {
        let s = String::new();
        Line::from(s.as_str())
    }
}

} // verus!
