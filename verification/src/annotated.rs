//! A string paired with half-open, typed character ranges ("annotations"),
//! used to overlay search-match highlighting on a rendered line without
//! changing the text itself.
//!
//! Edits to the string re-index every annotation: positions after the
//! replaced range shift with the edit, positions inside it clamp to the
//! edit's boundaries, an annotation that closes at or before the edit is
//! left whole, and annotations that end up empty or out of range are
//! dropped — so an annotation lying entirely outside the edit keeps
//! selecting the same characters.
use vstd::prelude::*;

use crate::chars::{splice_chars, subrange_chars};
use crate::types::CharIdx;
use crate::unicode::{chars_to_string, str_to_chars};

verus! {

/// What an annotation marks: a search match, or the selected search match.
#[derive(Copy, Clone, Eq, PartialEq, Structural, Debug)]
pub enum AnnotationType {
    Match,
    SelectedMatch,
}

/// A typed half-open character range `[start, end)` over a string.
#[derive(Copy, Clone, Eq, PartialEq, Structural, Debug)]
pub struct Annotation {
    pub annotation_type: AnnotationType,
    pub start: CharIdx,
    pub end: CharIdx,
}

/// A string with its highlight annotations.
pub struct AnnotatedString {
    pub string: Vec<char>,
    pub annotations: Vec<Annotation>,
}

/// Re-indexes one position through a replacement of `[start, endc)` by
/// `new_len` characters: positions at or after `endc` shift by the length
/// difference, positions inside the range clamp to its boundaries, earlier
/// positions stay.
pub open spec fn adjusted_pos(p: int, start: int, endc: int, new_len: int) -> int {
    let replaced = endc - start;
    if p >= endc {
        p + new_len - replaced
    } else if p >= start {
        if new_len < replaced {
            if p + new_len - replaced >= start {
                p + new_len - replaced
            } else {
                start
            }
        } else {
            if p + new_len - replaced <= endc {
                p + new_len - replaced
            } else {
                endc
            }
        }
    } else {
        p
    }
}

/// Re-indexes an annotation's end through a replacement. An end at or
/// before the edit's start stays put — so an annotation that closes exactly
/// where an insertion happens never absorbs the inserted text, and keeps
/// selecting the characters it selected before.
pub open spec fn adjusted_end_pos(p: int, start: int, endc: int, new_len: int) -> int {
    if p <= start {
        p
    } else {
        adjusted_pos(p, start, endc, new_len)
    }
}

/// Re-indexes both ends of an annotation through a replacement. The start
/// follows the position rule; the end is additionally anchored when it sits
/// at the edit's start, so an annotation lying entirely before the edit is
/// left whole.
pub open spec fn adjusted_ann(a: Annotation, start: int, endc: int, new_len: int) -> Annotation {
    Annotation {
        annotation_type: a.annotation_type,
        start: adjusted_pos(a.start as int, start, endc, new_len) as usize,
        end: adjusted_end_pos(a.end as int, start, endc, new_len) as usize,
    }
}

/// An annotation survives an edit if its range is still non-empty and its
/// start still lies inside the text.
pub open spec fn ann_keep(a: Annotation, text_len: int) -> bool {
    a.start < a.end && a.start < text_len
}

/// The annotation list after an edit: every annotation re-indexed through
/// the replacement of `[start, endc)` by `new_len` characters, keeping only
/// those that still mark a non-empty in-range span of the `final_len`-long
/// result.
pub open spec fn adjusted_anns(
    anns: Seq<Annotation>,
    start: int,
    endc: int,
    new_len: int,
    final_len: int,
) -> Seq<Annotation>
    decreases anns.len(),
{
    if anns.len() == 0 {
        Seq::empty()
    } else {
        let rest = adjusted_anns(anns.drop_last(), start, endc, new_len, final_len);
        let a2 = adjusted_ann(anns.last(), start, endc, new_len);
        if ann_keep(a2, final_len) {
            rest.push(a2)
        } else {
            rest
        }
    }
}

impl AnnotatedString {
    /// The characters of the string.
    pub open spec fn text(self) -> Seq<char> {
        self.string@
    }

    /// The annotations, in the order they were added.
    pub open spec fn anns(self) -> Seq<Annotation> {
        self.annotations@
    }

    /// Every annotation is a non-empty range inside the text.
    pub open spec fn wf(self) -> bool {
        forall|i: int|
            0 <= i < self.anns().len() ==> (#[trigger] self.anns()[i]).start
                < self.anns()[i].end && self.anns()[i].end <= self.text().len()
    }

    /// An annotated string over `string`, with no annotations yet.
    pub fn from(string: &str) -> (r: AnnotatedString)
        ensures
            r.wf(),
            r.text() == string@,
            r.anns() == Seq::<Annotation>::empty(),
    {
        AnnotatedString { string: str_to_chars(string), annotations: Vec::new() }
    }

    /// An annotated string that takes ownership of the given characters.
    pub fn from_chars(string: Vec<char>) -> (r: AnnotatedString)
        ensures
            r.wf(),
            r.text() == string@,
            r.anns() == Seq::<Annotation>::empty(),
    {
        AnnotatedString { string, annotations: Vec::new() }
    }

    /// The plain text of the annotated string.
    pub fn to_string(&self) -> (r: String)
        ensures
            r@ == self.text(),
    {
        chars_to_string(&self.string)
    }

    /// Adds an annotation of the given type over `[start, end)`.
    pub fn add_annotation(
        &mut self,
        annotation_type: AnnotationType,
        start_idx: CharIdx,
        end_idx: CharIdx,
    )
        requires
            old(self).wf(),
            start_idx < end_idx,
            end_idx <= old(self).text().len(),
        ensures
            final(self).wf(),
            final(self).text() == old(self).text(),
            final(self).anns() == old(self).anns().push(
                Annotation { annotation_type, start: start_idx, end: end_idx },
            ),
    {
        self.annotations.push(Annotation { annotation_type, start: start_idx, end: end_idx });
    }

    /// Re-indexes one position through the edit, in executable form.
    fn adjust_pos_exec(p: usize, start: usize, endc: usize, new_len: usize, n: usize, final_len: usize) -> (r:
        usize)
        requires
            start <= endc <= n,
            p <= n,
            final_len == n - endc + start + new_len,
        ensures
            r == adjusted_pos(p as int, start as int, endc as int, new_len as int),
            r <= final_len,
    {
        let replaced = endc - start;
        if p >= endc {
            p - replaced + new_len
        } else if p >= start {
            if new_len < replaced {
                let diff = replaced - new_len;
                if p >= start + diff {
                    p - diff
                } else {
                    start
                }
            } else {
                let diff = new_len - replaced;
                if diff <= endc - p {
                    p + diff
                } else {
                    endc
                }
            }
        } else {
            p
        }
    }

    /// Replaces the characters of `[start_idx, end_idx)` (the end clamped to
    /// the text length) by `new_string`, and re-indexes every annotation by
    /// the shift/clamp rule — with ends anchored at the edit's start, so an
    /// annotation entirely outside the edit keeps its characters — dropping
    /// those that end up empty or outside the text. When `start_idx` lies
    /// past the text, nothing changes.
    pub fn replace(&mut self, start_idx: CharIdx, end_idx: CharIdx, new_string: &str)
        requires
            old(self).wf(),
            start_idx <= end_idx,
        ensures
            final(self).wf(),
            start_idx > old(self).text().len() ==> *final(self) == *old(self),
            start_idx <= old(self).text().len() ==> {
                let endc = if end_idx <= old(self).text().len() {
                    end_idx as int
                } else {
                    old(self).text().len() as int
                };
                &&& final(self).text() == old(self).text().take(start_idx as int) + new_string@
                    + old(self).text().skip(endc)
                &&& final(self).anns() == adjusted_anns(
                    old(self).anns(),
                    start_idx as int,
                    endc,
                    new_string@.len() as int,
                    final(self).text().len() as int,
                )
            },
    {
        let n = self.string.len();
        let endc = if end_idx < n {
            end_idx
        } else {
            n
        };
        if start_idx > endc {
            return ;
        }
        let newv = str_to_chars(new_string);
        let new_len = newv.len();
        self.string = splice_chars(&self.string, start_idx, endc, &newv);
        let final_len = self.string.len();
        let mut out: Vec<Annotation> = Vec::new();
        let mut i: usize = 0;
        while i < self.annotations.len()
            invariant
                i <= self.annotations@.len(),
                start_idx <= endc <= n,
                new_len == newv@.len(),
                final_len == n - endc + start_idx + new_len,
                forall|j: int|
                    0 <= j < self.annotations@.len() ==> (#[trigger] self.annotations@[j]).start
                        < self.annotations@[j].end && self.annotations@[j].end <= n,
                out@ == adjusted_anns(
                    self.annotations@.take(i as int),
                    start_idx as int,
                    endc as int,
                    new_len as int,
                    final_len as int,
                ),
                forall|j: int|
                    0 <= j < out@.len() ==> (#[trigger] out@[j]).start < out@[j].end
                        && out@[j].end <= final_len,
            decreases self.annotations@.len() - i,
        {
            let a = self.annotations[i];
            let s2 = Self::adjust_pos_exec(a.start, start_idx, endc, new_len, n, final_len);
            let e2 = if a.end <= start_idx {
                a.end
            } else {
                Self::adjust_pos_exec(a.end, start_idx, endc, new_len, n, final_len)
            };
            proof {
                assert(e2 <= final_len);
            }
            let a2 = Annotation { annotation_type: a.annotation_type, start: s2, end: e2 };
            proof {
                let pre = self.annotations@.take(i as int);
                let cur = self.annotations@.take(i as int + 1);
                assert(a2 == adjusted_ann(
                    cur.last(),
                    start_idx as int,
                    endc as int,
                    new_len as int,
                ));
                assert(cur.drop_last() =~= pre);
            }
            if s2 < e2 && s2 < final_len {
                out.push(a2);
            }
            i = i + 1;
        }
        proof {
            assert(self.annotations@.take(self.annotations@.len() as int) =~= self.annotations@);
        }
        self.annotations = out;
    }

    /// Removes the characters before `start_idx` (used when windowing a
    /// line for display).
    pub fn truncate_left_until(&mut self, start_idx: CharIdx)
        requires
            old(self).wf(),
        ensures
            final(self).wf(),
            final(self).text() == old(self).text().skip(
                if start_idx <= old(self).text().len() {
                    start_idx as int
                } else {
                    old(self).text().len() as int
                },
            ),
    {
        self.replace(0, start_idx, "");
        proof {
            reveal_strlit("");
            let endc = if start_idx <= old(self).text().len() {
                start_idx as int
            } else {
                old(self).text().len() as int
            };
            assert(old(self).text().take(0) + ""@ + old(self).text().skip(endc) =~= old(
                self,
            ).text().skip(endc));
        }
    }

    /// Removes the characters from `start_idx` on (used when windowing a
    /// line for display).
    pub fn truncate_right_from(&mut self, start_idx: CharIdx)
        requires
            old(self).wf(),
        ensures
            final(self).wf(),
            final(self).text() == old(self).text().take(
                if start_idx <= old(self).text().len() {
                    start_idx as int
                } else {
                    old(self).text().len() as int
                },
            ),
    {
        let n = self.string.len();
        let e = if start_idx > n {
            start_idx
        } else {
            n
        };
        self.replace(start_idx, e, "");
        proof {
            reveal_strlit("");
            if start_idx <= old(self).text().len() {
                assert(old(self).text().take(start_idx as int) + ""@ + old(self).text().skip(
                    old(self).text().len() as int,
                ) =~= old(self).text().take(start_idx as int));
            } else {
                assert(old(self).text().take(old(self).text().len() as int) =~= old(self).text());
            }
        }
    }
}

/// The annotation that governs position `p`: the last-added annotation whose
/// range contains `p`, if any.
pub open spec fn effective_at(anns: Seq<Annotation>, p: int) -> Option<AnnotationType>
    decreases anns.len(),
{
    if anns.len() == 0 {
        None
    } else if anns.last().start <= p < anns.last().end {
        Some(anns.last().annotation_type)
    } else {
        effective_at(anns.drop_last(), p)
    }
}

/// Where the run of positions governed by `kind` that reaches `p` ends: the
/// first position at or after `p` governed by something else, or the text
/// length.
pub open spec fn run_end_from(
    anns: Seq<Annotation>,
    text_len: int,
    kind: Option<AnnotationType>,
    p: int,
) -> int
    decreases text_len - p,
{
    if p < 0 || p >= text_len {
        text_len
    } else if effective_at(anns, p) != kind {
        p
    } else {
        run_end_from(anns, text_len, kind, p + 1)
    }
}

/// A run's end lies between its start and the text length.
pub proof fn lemma_run_end_bounds(
    anns: Seq<Annotation>,
    text_len: int,
    kind: Option<AnnotationType>,
    p: int,
)
    requires
        0 <= p <= text_len,
    ensures
        p <= run_end_from(anns, text_len, kind, p) <= text_len,
    decreases text_len - p,
{
    if p < text_len && effective_at(anns, p) == kind {
        lemma_run_end_bounds(anns, text_len, kind, p + 1);
    }
}

impl AnnotatedString {
    /// The annotation type in effect at position `p`: of all annotations
    /// whose range contains `p`, the one added last wins.
    pub fn effective_annotation_at(&self, p: CharIdx) -> (r: Option<AnnotationType>)
        ensures
            r == effective_at(self.anns(), p as int),
    {
        let mut i: usize = self.annotations.len();
        proof {
            assert(self.anns().take(self.anns().len() as int) =~= self.anns());
        }
        while i > 0
            invariant
                i <= self.anns().len(),
                effective_at(self.anns(), p as int) == effective_at(
                    self.anns().take(i as int),
                    p as int,
                ),
            decreases i,
        {
            i = i - 1;
            let a = self.annotations[i];
            proof {
                assert(self.anns().take(i as int + 1).last() == a);
                assert(self.anns().take(i as int + 1).drop_last() =~= self.anns().take(i as int));
            }
            if a.start <= p && p < a.end {
                return Some(a.annotation_type);
            }
        }
        None
    }
}

/// One maximal run of an annotated string: its characters and the
/// annotation type in effect over all of them.
pub struct AnnotatedStringPart {
    pub string: Vec<char>,
    pub annotation_type: Option<AnnotationType>,
}

/// Walks an annotated string from left to right, yielding maximal runs of
/// uniformly-annotated text: consecutive positions governed by the same
/// annotation state come out as one part.
pub struct AnnotatedStringIterator<'a> {
    pub annotated_string: &'a AnnotatedString,
    pub current_idx: CharIdx,
}

impl<'a> AnnotatedStringIterator<'a> {
    /// The next maximal uniformly-annotated run, or `None` once the text is
    /// exhausted. Runs cover the text in order, with no gaps or overlaps.
    pub fn next(&mut self) -> (r: Option<AnnotatedStringPart>)
        ensures
            old(self).current_idx >= old(self).annotated_string.text().len() ==> r is None
                && *final(self) == *old(self),
            old(self).current_idx < old(self).annotated_string.text().len() ==> {
                let a = *old(self).annotated_string;
                let kind = effective_at(a.anns(), old(self).current_idx as int);
                let e = run_end_from(
                    a.anns(),
                    a.text().len() as int,
                    kind,
                    old(self).current_idx as int + 1,
                );
                &&& final(self).annotated_string == old(self).annotated_string
                &&& final(self).current_idx == e
                &&& r matches Some(part) && part.annotation_type == kind && part.string@
                    == a.text().subrange(old(self).current_idx as int, e)
            },
    {
        let a = self.annotated_string;
        let n = a.string.len();
        if self.current_idx >= n {
            return None;
        }
        let start = self.current_idx;
        let kind = a.effective_annotation_at(start);
        let mut p = start + 1;
        loop
            invariant
                start < p <= n,
                n == a.text().len(),
                kind == effective_at(a.anns(), start as int),
                run_end_from(a.anns(), n as int, kind, p as int) == run_end_from(
                    a.anns(),
                    n as int,
                    kind,
                    start as int + 1,
                ),
            ensures
                start < p <= n,
                p as int == run_end_from(a.anns(), n as int, kind, start as int + 1),
            decreases n - p,
        {
            if p >= n {
                break ;
            }
            let cur = a.effective_annotation_at(p);
            let same = match (cur, kind) {
                (None, None) => true,
                (Some(x), Some(y)) => x == y,
                _ => false,
            };
            if !same {
                break ;
            }
            p = p + 1;
        }
        self.current_idx = p;
        Some(
            AnnotatedStringPart {
                string: subrange_chars(&a.string, start, p),
                annotation_type: kind,
            },
        )
    }
}

/// The concatenation of the texts of a sequence of parts.
pub open spec fn parts_chars(ps: Seq<AnnotatedStringPart>) -> Seq<char>
    decreases ps.len(),
{
    if ps.len() == 0 {
        Seq::empty()
    } else {
        parts_chars(ps.drop_last()) + ps.last().string@
    }
}

impl AnnotatedString {
    /// All maximal uniformly-annotated runs of the string, in order. Their
    /// texts concatenate back to the whole string: the runs cover it with
    /// no gaps and no overlaps.
    pub fn parts(&self) -> (r: Vec<AnnotatedStringPart>)
        ensures
            parts_chars(r@) == self.text(),
    {
        let n = self.string.len();
        let mut it = AnnotatedStringIterator { annotated_string: self, current_idx: 0 };
        let mut out: Vec<AnnotatedStringPart> = Vec::new();
        loop
            invariant
                it.annotated_string == self,
                it.current_idx <= n,
                n == self.text().len(),
                parts_chars(out@) == self.text().take(it.current_idx as int),
            ensures
                parts_chars(out@) == self.text(),
            decreases n - it.current_idx,
        {
            let ghost cur0 = it.current_idx;
            let ghost out0 = out@;
            if it.current_idx >= n {
                proof {
                    assert(self.text().take(n as int) =~= self.text());
                }
                break ;
            }
            proof {
                lemma_run_end_bounds(
                    self.anns(),
                    n as int,
                    effective_at(self.anns(), cur0 as int),
                    cur0 as int + 1,
                );
            }
            match it.next() {
                Some(part) => {
                    out.push(part);
                    proof {
                        assert(out@.drop_last() =~= out0);
                        assert(parts_chars(out@) == parts_chars(out0) + out@.last().string@);
                        assert(self.text().take(cur0 as int) + self.text().subrange(
                            cur0 as int,
                            it.current_idx as int,
                        ) =~= self.text().take(it.current_idx as int));
                    }
                },
                None => {
                    break ;
                },
            }
        }
        out
    }
}

/// Law: re-indexing an edit keeps every annotation that lies entirely
/// outside the replaced range selecting the same characters — one before
/// the edit is left whole (its end is anchored even when it touches the
/// edit's start), and one after shifts with the length difference. Together
/// with `replace`'s well-formedness clause — every surviving annotation is
/// a non-empty range inside the new text — this pins down what an edit does
/// to the overlay.
pub proof fn lemma_replace_keeps_outside_annotation(
    text: Seq<char>,
    a: Annotation,
    start: int,
    endc: int,
    new: Seq<char>,
)
    requires
        a.start < a.end <= text.len(),
        0 <= start <= endc <= text.len(),
        text.len() - (endc - start) + new.len() <= usize::MAX,
        a.end <= start || a.start >= endc,
    ensures
        ({
            let new_text = text.take(start) + new + text.skip(endc);
            let a2 = adjusted_ann(a, start, endc, new.len() as int);
            &&& a2.annotation_type == a.annotation_type
            &&& ann_keep(a2, new_text.len() as int)
            &&& a2.end <= new_text.len()
            &&& new_text.subrange(a2.start as int, a2.end as int) == text.subrange(
                a.start as int,
                a.end as int,
            )
        }),
{
    let new_text = text.take(start) + new + text.skip(endc);
    let a2 = adjusted_ann(a, start, endc, new.len() as int);
    let delta = new.len() - (endc - start);
    if a.start >= endc {
        assert(a2.start == a.start + delta);
        assert(a2.end == a.end + delta);
        assert forall|k: int| 0 <= k < a.end - a.start implies new_text[a2.start + k] == text[
            #[trigger] (a.start + k)
        ] by {
            assert(new_text[a2.start + k] == text.skip(endc)[a.start + delta + k - start
                - new.len()]);
        }
        assert(new_text.subrange(a2.start as int, a2.end as int) =~= text.subrange(
            a.start as int,
            a.end as int,
        ));
    } else {
        assert(a.end <= start);
        assert(a2.start == a.start);
        assert(a2.end == a.end);
        assert forall|k: int| 0 <= k < a.end - a.start implies new_text[#[trigger] (a.start + k)]
            == text[a.start + k] by {
            assert(new_text[a.start + k] == text.take(start)[a.start + k]);
        }
        assert(new_text.subrange(a2.start as int, a2.end as int) =~= text.subrange(
            a.start as int,
            a.end as int,
        ));
    }
}

} // verus!
