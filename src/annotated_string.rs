//! A string with tagged, half-open character ranges, whose tags follow the
//! text when a range of it is replaced.
use crate::line::chars_before;
use crate::text::{chars_of, string_of_chars};
use vstd::prelude::*;

verus! {

broadcast use vstd::seq_lib::group_seq_properties;

/// What a tagged range stands for.
#[derive(Clone, Copy, Debug, PartialEq, Eq, Structural)]
pub enum AnnotationType {
    Match,
    SelectedMatch,
    Digit,
}

/// A tag over the characters from `start_idx` up to, not including,
/// `end_idx`.
#[derive(Clone, Copy, Debug, PartialEq, Eq, Structural)]
pub struct Annotation {
    pub typ: AnnotationType,
    pub start_idx: usize,
    pub end_idx: usize,
}

/// Where offset `x` goes when the characters from `start` to `end` give way
/// to `n` others: offsets before the range stay, offsets after it move
/// with the end of the range, and offsets inside it stay where the new text
/// still reaches, else go to its end.
pub open spec fn moved_offset(x: int, start: int, end: int, n: int) -> int {
    if x <= start {
        x
    } else if x >= end {
        x - (end - start) + n
    } else if x <= start + n {
        x
    } else {
        start + n
    }
}

pub open spec fn moved_annotation(a: Annotation, start: int, end: int, n: int) -> Annotation {
    Annotation {
        typ: a.typ,
        start_idx: moved_offset(a.start_idx as int, start, end, n) as usize,
        end_idx: moved_offset(a.end_idx as int, start, end, n) as usize,
    }
}

pub open spec fn nonempty_annotation(a: Annotation) -> bool {
    a.start_idx < a.end_idx
}

/// The text and tags after the characters from `start` to `end` (cut at the
/// end of the text) are replaced by `new`: the tags are moved, and those
/// left empty are dropped. Nothing changes when `start` lies past the cut
/// end.
pub open spec fn replaced(
    v: (Seq<char>, Seq<Annotation>),
    start: int,
    end: int,
    new: Seq<char>,
) -> (Seq<char>, Seq<Annotation>) {
    let end = if end < v.0.len() {
        end
    } else {
        v.0.len() as int
    };
    if start > end {
        v
    } else {
        (
            v.0.subrange(0, start) + new + v.0.subrange(end, v.0.len() as int),
            v.1.map_values(|a: Annotation| moved_annotation(a, start, end, new.len() as int)).filter(
                |a: Annotation| nonempty_annotation(a),
            ),
        )
    }
}

/// Every tag lies within the text.
pub open spec fn annotations_within(v: (Seq<char>, Seq<Annotation>)) -> bool {
    forall|i: int|
        0 <= i < v.1.len() ==> (#[trigger] v.1[i]).start_idx <= v.1[i].end_idx <= v.0.len()
}

/// The tag that character `i` shows: that of the last of the first `k` tags
/// that covers it.
pub open spec fn tag_among(anns: Seq<Annotation>, k: int, i: int) -> Option<AnnotationType>
    decreases k,
{
    if k <= 0 || k > anns.len() {
        None
    } else if anns[k - 1].start_idx <= i < anns[k - 1].end_idx {
        Some(anns[k - 1].typ)
    } else {
        tag_among(anns, k - 1, i)
    }
}

pub open spec fn tag_at(anns: Seq<Annotation>, i: int) -> Option<AnnotationType> {
    tag_among(anns, anns.len() as int, i)
}

/// The parts cut the text in order, each nonempty, and every character of
/// a part shows the part's tag.
pub open spec fn parts_of(v: (Seq<char>, Seq<Annotation>), texts: Seq<Seq<char>>, tags: Seq<
    Option<AnnotationType>,
>) -> bool {
    &&& texts.len() == tags.len()
    &&& texts.flatten() == v.0
    &&& forall|k: int| 0 <= k < texts.len() ==> #[trigger] texts[k].len() > 0
    &&& forall|k: int, j: int| #[trigger] shows_tag(v.1, texts, tags, k, j)
}

/// Character `j` of part `k` shows the part's tag.
pub open spec fn shows_tag(
    anns: Seq<Annotation>,
    texts: Seq<Seq<char>>,
    tags: Seq<Option<AnnotationType>>,
    k: int,
    j: int,
) -> bool {
    0 <= k < texts.len() && 0 <= j < texts[k].len() ==> tag_at(anns, chars_before(texts, k) + j)
        == tags[k]
}

spec fn runs_of(texts: Seq<Vec<char>>) -> Seq<Seq<char>> {
    texts.map_values(|c: Vec<char>| c@)
}

/// Offsets of the first `k` parts stay when only later parts change.
proof fn lemma_chars_before_same(a: Seq<Seq<char>>, b: Seq<Seq<char>>, k: int)
    requires
        0 <= k <= a.len(),
        k <= b.len(),
        forall|m: int| 0 <= m < k ==> a[m] == b[m],
    ensures
        chars_before(a, k) == chars_before(b, k),
    decreases k,
{
    if k > 0 {
        lemma_chars_before_same(a, b, k - 1);
    }
}

/// A run of text that carries one tag, or none.
pub struct AnnotatedStringPart {
    pub string: String,
    pub typ: Option<AnnotationType>,
}

/// A string with tagged ranges of it.
pub struct AnnotatedString {
    text: Vec<char>,
    annotations: Vec<Annotation>,
}

impl View for AnnotatedString {
    type V = (Seq<char>, Seq<Annotation>);

    closed spec fn view(&self) -> (Seq<char>, Seq<Annotation>) {
        (self.text@, self.annotations@)
    }
}

impl AnnotatedString {
    pub open spec fn wf(&self) -> bool {
        annotations_within(self@)
    }

    /// The text `s`, with no tags.
    pub fn from(s: &str) -> (r: AnnotatedString)
        ensures
            r.wf(),
            r@ == (s@, Seq::<Annotation>::empty()),
    {
        AnnotatedString { text: chars_of(s), annotations: Vec::new() }
    }

    pub(crate) fn from_chars(cs: Vec<char>) -> (r: AnnotatedString)
        ensures
            r.wf(),
            r@ == (cs@, Seq::<Annotation>::empty()),
    {
        AnnotatedString { text: cs, annotations: Vec::new() }
    }

    /// Tags the characters from `start_idx` up to `end_idx`.
    pub fn add_annotation(&mut self, typ: AnnotationType, start_idx: usize, end_idx: usize)
        requires
            old(self).wf(),
            start_idx <= end_idx <= old(self)@.0.len(),
        ensures
            final(self).wf(),
            final(self)@ == (
                old(self)@.0,
                old(self)@.1.push(Annotation { typ, start_idx, end_idx }),
            ),
    {
        self.annotations.push(Annotation { typ, start_idx, end_idx });
    }

    /// The text, without tags.
    pub fn to_string(&self) -> (r: String)
        ensures
            r@ == self@.0,
    {
        string_of_chars(&self.text)
    }

    pub fn annotations(&self) -> (r: Vec<Annotation>)
        ensures
            r@ == self@.1,
    {
        self.annotations.clone()
    }

    /// Replaces the characters from `start_idx` to `end_idx` (cut at the end
    /// of the text) by `new_string`, and moves the tags along.
    pub fn replace(&mut self, start_idx: usize, end_idx: usize, new_string: &str)
        requires
            old(self).wf(),
        ensures
            final(self).wf(),
            final(self)@ == replaced(old(self)@, start_idx as int, end_idx as int, new_string@),
    {
        let len = self.text.len();
        let end = if end_idx < len {
            end_idx
        } else {
            len
        };
        if start_idx > end {
            return;
        }
        let ghost old_v = self@;
        let mut new_chars = chars_of(new_string);
        let n = new_chars.len();
        let mut tail = self.text.split_off(end);
        self.text.truncate(start_idx);
        self.text.append(&mut new_chars);
        self.text.append(&mut tail);
        let new_len = self.text.len();
        assert(self.text@ =~= replaced(old_v, start_idx as int, end_idx as int, new_string@).0);
        let ghost f = |a: Annotation| moved_annotation(a, start_idx as int, end as int, n as int);
        let ghost p = |a: Annotation| nonempty_annotation(a);
        let ghost mapped = old_v.1.map_values(f);
        let mut kept: Vec<Annotation> = Vec::new();
        let mut i: usize = 0;
        while i < self.annotations.len()
            invariant
                self.annotations@ == old_v.1,
                annotations_within(old_v),
                old_v.0.len() == len,
                new_len == len - (end - start_idx) + n,
                start_idx <= end <= len,
                mapped == old_v.1.map_values(f),
                f == (|a: Annotation| moved_annotation(a, start_idx as int, end as int, n as int)),
                p == (|a: Annotation| nonempty_annotation(a)),
                i <= self.annotations@.len(),
                kept@ == mapped.subrange(0, i as int).filter(p),
                forall|k: int|
                    0 <= k < kept@.len() ==> (#[trigger] kept@[k]).start_idx <= kept@[k].end_idx
                        <= new_len,
            decreases self.annotations@.len() - i,
        {
            let a = self.annotations[i];
            let s = Self::move_offset(a.start_idx, start_idx, end, n, len);
            let e = Self::move_offset(a.end_idx, start_idx, end, n, len);
            let moved = Annotation { typ: a.typ, start_idx: s, end_idx: e };
            proof {
                reveal(Seq::filter);
                assert(moved == f(old_v.1[i as int]));
                assert(mapped.subrange(0, i + 1).drop_last() =~= mapped.subrange(0, i as int));
                assert(mapped.subrange(0, i + 1).last() == moved);
            }
            if s < e {
                kept.push(moved);
            }
            i = i + 1;
        }
        assert(mapped.subrange(0, mapped.len() as int) =~= mapped);
        self.annotations = kept;
    }

    fn move_offset(x: usize, start: usize, end: usize, n: usize, len: usize) -> (r: usize)
        requires
            start <= end <= len,
            x <= len,
            len - (end - start) + n <= usize::MAX,
        ensures
            r == moved_offset(x as int, start as int, end as int, n as int),
            r <= len - (end - start) + n,
    {
        if x <= start {
            x
        } else if x >= end {
            x - (end - start) + n
        } else if x <= start + n {
            x
        } else {
            start + n
        }
    }

    /// The tag that character `i` shows.
    fn tag_of(&self, i: usize) -> (r: Option<AnnotationType>)
        ensures
            r == tag_at(self@.1, i as int),
    {
        let mut k = self.annotations.len();
        while k > 0
            invariant
                k <= self.annotations@.len(),
                tag_at(self@.1, i as int) == tag_among(self@.1, k as int, i as int),
            decreases k,
        {
            let a = self.annotations[k - 1];
            if a.start_idx <= i && i < a.end_idx {
                return Some(a.typ);
            }
            k = k - 1;
        }
        None
    }

    /// The text cut into runs that each show one tag, or none, in order.
    pub fn parts(&self) -> (r: Vec<AnnotatedStringPart>)
        ensures
            parts_of(
                self@,
                r@.map_values(|p: AnnotatedStringPart| p.string@),
                r@.map_values(|p: AnnotatedStringPart| p.typ),
            ),
    {
        let ghost t = self.text@;
        let mut texts: Vec<Vec<char>> = Vec::new();
        let mut tags: Vec<Option<AnnotationType>> = Vec::new();
        let mut i: usize = 0;
        while i < self.text.len()
            invariant
                t == self@.0,
                i <= t.len(),
                texts@.len() == tags@.len(),
                runs_of(texts@).flatten() == t.subrange(0, i as int),
                forall|k: int| 0 <= k < texts@.len() ==> #[trigger] texts@[k]@.len() > 0,
                forall|k: int, j: int|
                    #[trigger] shows_tag(
                        self@.1,
                        runs_of(texts@),
                        tags@,
                        k,
                        j,
                    ),
            decreases t.len() - i,
        {
            let tag = self.tag_of(i);
            let ghost before = runs_of(texts@);
            proof {
                crate::line::lemma_chars_before(before, before.len() as int);
                assert(before.subrange(0, before.len() as int) =~= before);
            }
            let n = texts.len();
            if n > 0 && tags[n - 1] == tag {
                let mut last = texts.pop().unwrap();
                last.push(self.text[i]);
                texts.push(last);
                proof {
                    let after = runs_of(texts@);
                    let front = before.drop_last();
                    assert(before =~= front.push(before.last()));
                    assert(after =~= front.push(before.last().push(t[i as int])));
                    front.lemma_flatten_push(before.last());
                    front.lemma_flatten_push(before.last().push(t[i as int]));
                    assert(after.flatten() =~= t.subrange(0, i + 1));
                    assert forall|k: int| 0 <= k < n - 1 implies chars_before(after, k)
                        == chars_before(before, k) by {
                        lemma_chars_before_same(before, after, k);
                    }
                    lemma_chars_before_same(before, after, n - 1);
                    assert forall|k: int, j: int|
                        #[trigger] shows_tag(self@.1, after, tags@, k, j) by {
                        assert(shows_tag(self@.1, before, tags@, k, j));
                        if k < 0 || k >= n || j < 0 || j >= after[k].len() {
                        } else if k < n - 1 {
                            assert(after[k] == before[k]);
                        } else if j < before[n - 1].len() {
                            assert(texts@[k]@[j] == before[n - 1][j]);
                        } else {
                            crate::line::lemma_chars_before(after, n - 1);
                            crate::line::lemma_chars_before(before, n - 1);
                            assert(before.subrange(0, n - 1) =~= front);
                            assert(after.subrange(0, n - 1) =~= front);
                            crate::line::lemma_chars_before(before, n as int);
                            assert(chars_before(before, n as int) == chars_before(before, n - 1)
                                + before[n - 1].len());
                        }
                    }
                }
            } else {
                let ghost old_tags = tags@;
                let mut run: Vec<char> = Vec::new();
                run.push(self.text[i]);
                texts.push(run);
                tags.push(tag);
                proof {
                    let after = runs_of(texts@);
                    assert(after =~= before.push(seq![t[i as int]]));
                    before.lemma_flatten_push(seq![t[i as int]]);
                    assert(after.flatten() =~= t.subrange(0, i + 1));
                    assert forall|k: int| 0 <= k <= n implies chars_before(after, k)
                        == chars_before(before, k) by {
                        lemma_chars_before_same(before, after, k);
                    }
                    assert forall|k: int, j: int|
                        #[trigger] shows_tag(self@.1, after, tags@, k, j) by {
                        assert(shows_tag(self@.1, before, old_tags, k, j));
                        if 0 <= k < n && 0 <= j < after[k].len() {
                            assert(after[k] == before[k]);
                        } else if k == n && j == 0 {
                            crate::line::lemma_chars_before(before, n as int);
                            assert(before.subrange(0, n as int) =~= before);
                        }
                    }
                }
            }
            i = i + 1;
        }
        assert(t.subrange(0, t.len() as int) =~= t);
        let mut r: Vec<AnnotatedStringPart> = Vec::new();
        let mut k: usize = 0;
        while k < texts.len()
            invariant
                k <= texts@.len(),
                texts@.len() == tags@.len(),
                r@.len() == k,
                forall|m: int|
                    0 <= m < k ==> (#[trigger] r@[m]).string@ == texts@[m]@ && r@[m].typ
                        == tags@[m],
            decreases texts@.len() - k,
        {
            r.push(AnnotatedStringPart { string: string_of_chars(&texts[k]), typ: tags[k] });
            k = k + 1;
        }
        assert(r@.map_values(|p: AnnotatedStringPart| p.string@) =~= texts@.map_values(
            |c: Vec<char>| c@,
        ));
        assert(r@.map_values(|p: AnnotatedStringPart| p.typ) =~= tags@);
        r
    }
}

} // verus!
