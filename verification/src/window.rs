//! Windowing a line to a column range for display.
//!
//! The visible part of a line is cut in column space: fragments entirely
//! outside the range are dropped, a fragment straddling either edge is
//! replaced by a single ellipsis mark, and fully visible fragments show
//! their display substitute if they have one. Search-query occurrences are
//! overlaid as annotations; the occurrence at the selected grapheme index is
//! tagged as the selected match.
use vstd::prelude::*;

use crate::annotated::{AnnotatedString, Annotation, AnnotationType};
use crate::line::{sat_cap, width_sum, Line, TextFragment};
use crate::types::{ColIdx, GraphemeIdx};
use crate::unicode::{graphemes_of, segment_graphemes, str_to_chars};

verus! {

/// What a fully visible fragment contributes to the window: its display
/// substitute if it has one, otherwise its cluster's characters.
pub open spec fn frag_out(f: TextFragment) -> Seq<char> {
    match f.replacement {
        Some(c) => seq![c],
        None => f.grapheme@,
    }
}

impl Line {
    /// The column at which cluster `g` starts, capped at the machine's
    /// integer range.
    pub open spec fn scol(self, g: int) -> nat {
        sat_cap(width_sum(self.frags(), g))
    }

    /// Cluster `g` is fully visible in the column range `[rs, re)`.
    pub open spec fn vis_at(self, rs: int, re: int, g: int) -> bool {
        &&& 0 <= g < self.gcount()
        &&& rs <= self.scol(g)
        &&& self.scol(g + 1) <= re
    }

    /// Some cluster straddles the left edge of the range: it begins before
    /// column `rs` and ends after it.
    pub open spec fn has_left_straddler(self, rs: int) -> bool {
        exists|g: int| 0 <= g < self.gcount() && (#[trigger] self.scol(g)) < rs < self.scol(g + 1)
    }

    /// Some cluster straddles the right edge of the range.
    pub open spec fn has_right_straddler(self, re: int) -> bool {
        exists|g: int| 0 <= g < self.gcount() && (#[trigger] self.scol(g)) < re < self.scol(g + 1)
    }

    /// The concatenated output of the fully visible clusters from `g` on.
    pub open spec fn win_mid(self, rs: int, re: int, g: int) -> Seq<char>
        decreases self.gcount() as int - g,
    {
        if g < 0 || g >= self.gcount() {
            Seq::empty()
        } else {
            (if self.vis_at(rs, re, g) {
                frag_out(self.frags()[g])
            } else {
                Seq::empty()
            }) + self.win_mid(rs, re, g + 1)
        }
    }

    /// The text of the line windowed to columns `[rs, re)`: an ellipsis for
    /// a cluster cut by the left edge, the fully visible clusters (with
    /// their display substitutes applied), and an ellipsis for a cluster cut
    /// by the right edge. An empty range shows nothing.
    pub open spec fn window_text(self, rs: int, re: int) -> Seq<char> {
        if rs >= re {
            Seq::empty()
        } else {
            (if self.has_left_straddler(rs) {
                seq!['\u{22EF}']
            } else {
                Seq::empty()
            }) + self.win_mid(rs, re, 0) + (if self.has_right_straddler(re) {
                seq!['\u{22EF}']
            } else {
                Seq::empty()
            })
        }
    }

    /// The first cluster index at or after `g` that starts at or after
    /// column `rs` (the cluster count when none does).
    pub open spec fn first_vis(self, rs: int, g: int) -> int
        decreases self.gcount() as int - g,
    {
        if g < 0 || g >= self.gcount() {
            self.gcount() as int
        } else if self.scol(g) >= rs {
            g
        } else {
            self.first_vis(rs, g + 1)
        }
    }

    /// The first cluster index at or after `g` that ends past column `re`
    /// (the cluster count when none does).
    pub open spec fn first_end_past(self, re: int, g: int) -> int
        decreases self.gcount() as int - g,
    {
        if g < 0 || g >= self.gcount() {
            self.gcount() as int
        } else if self.scol(g + 1) > re {
            g
        } else {
            self.first_end_past(re, g + 1)
        }
    }

    /// The position in the window's text where cluster `g`'s output starts:
    /// the left ellipsis, if any, plus the output of the visible clusters
    /// before `g`.
    pub open spec fn out_pos(self, rs: int, re: int, g: int) -> int
        decreases g,
    {
        if g <= 0 {
            if self.has_left_straddler(rs) {
                1
            } else {
                0
            }
        } else {
            self.out_pos(rs, re, g - 1) + (if self.vis_at(rs, re, g - 1) {
                frag_out(self.frags()[g - 1]).len() as int
            } else {
                0
            })
        }
    }
}

/// What one aligned match contributes to the window's annotations: the
/// match's clusters clipped to the visible range `[lo, hi)`, mapped to
/// window positions; nothing if no cluster of the match is visible. The
/// match at the selected grapheme index is tagged as the selected match.
/// This is a deliberate rule: highlights are computed in window space over
/// the fully visible clusters only, so a match cut by the window's edge is
/// highlighted exactly over what of it is shown and never over the edge
/// ellipsis that stands in for its cut cluster.
pub open spec fn window_ann(
    l: Line,
    rs: int,
    re: int,
    qg: int,
    sel: Option<GraphemeIdx>,
    g: int,
) -> Option<Annotation> {
    let lo = l.first_vis(rs, 0);
    let hi = l.first_end_past(re, 0);
    let a = if g >= lo {
        g
    } else {
        lo
    };
    let b = if g + qg <= hi {
        g + qg
    } else {
        hi
    };
    if a < b {
        Some(
            Annotation {
                annotation_type: if sel == Some(g as usize) {
                    AnnotationType::SelectedMatch
                } else {
                    AnnotationType::Match
                },
                start: l.out_pos(rs, re, a) as usize,
                end: l.out_pos(rs, re, b) as usize,
            },
        )
    } else {
        None
    }
}

/// The annotations of the window: one entry per aligned match of the query
/// that is at least partly visible, in match order.
pub open spec fn window_anns(
    l: Line,
    rs: int,
    re: int,
    qg: int,
    sel: Option<GraphemeIdx>,
    ms: Seq<(usize, usize)>,
) -> Seq<Annotation>
    decreases ms.len(),
{
    if ms.len() == 0 {
        Seq::empty()
    } else {
        let rest = window_anns(l, rs, re, qg, sel, ms.drop_last());
        match window_ann(l, rs, re, qg, sel, ms.last().1 as int) {
            Some(a) => rest.push(a),
            None => rest,
        }
    }
}

/// Columns never decrease along the fragment table.
proof fn lemma_scol_mono(l: Line, i: int, j: int)
    requires
        0 <= i <= j,
    ensures
        l.scol(i) <= l.scol(j),
    decreases j - i,
{
    if i < j {
        lemma_scol_mono(l, i, j - 1);
        assert(width_sum(l.frags(), j) == width_sum(l.frags(), j - 1) + l.frags()[j
            - 1].rendered_width.as_cols());
    }
}

/// Characterizes `first_vis`: everything before it starts left of `rs`, and
/// it starts at or right of `rs` when it is a cluster.
proof fn lemma_first_vis_props(l: Line, rs: int, g: int)
    requires
        0 <= g <= l.gcount(),
    ensures
        g <= l.first_vis(rs, g) <= l.gcount(),
        l.first_vis(rs, g) < l.gcount() ==> l.scol(l.first_vis(rs, g)) >= rs,
        forall|k: int| g <= k < l.first_vis(rs, g) ==> l.scol(k) < rs,
    decreases l.gcount() as int - g,
{
    if g < l.gcount() && l.scol(g) < rs {
        lemma_first_vis_props(l, rs, g + 1);
    }
}

/// Characterizes `first_end_past`: everything before it ends at or left of
/// `re`, and it ends past `re` when it is a cluster.
proof fn lemma_first_end_past_props(l: Line, re: int, g: int)
    requires
        0 <= g <= l.gcount(),
    ensures
        g <= l.first_end_past(re, g) <= l.gcount(),
        l.first_end_past(re, g) < l.gcount() ==> l.scol(l.first_end_past(re, g) + 1) > re,
        forall|k: int| g <= k < l.first_end_past(re, g) ==> (#[trigger] l.scol(k + 1)) <= re,
    decreases l.gcount() as int - g,
{
    if g < l.gcount() && l.scol(g + 1) <= re {
        lemma_first_end_past_props(l, re, g + 1);
    }
}

/// The fully visible clusters form exactly the interval from `first_vis` to
/// `first_end_past`.
proof fn lemma_vis_iff(l: Line, rs: int, re: int, g: int)
    ensures
        l.vis_at(rs, re, g) <==> (l.first_vis(rs, 0) <= g < l.first_end_past(re, 0) && 0 <= g
            < l.gcount()),
{
    lemma_first_vis_props(l, rs, 0);
    lemma_first_end_past_props(l, re, 0);
    let lo = l.first_vis(rs, 0);
    let hi = l.first_end_past(re, 0);
    if 0 <= g < l.gcount() {
        if lo <= g < hi {
            if lo < l.gcount() {
                lemma_scol_mono(l, lo, g);
            }
        }
        if l.vis_at(rs, re, g) {
            if g >= hi {
                assert(hi < l.gcount());
                lemma_scol_mono(l, hi + 1, g + 1);
            }
        }
    }
}

/// Window positions never decrease along the fragment table.
proof fn lemma_out_pos_mono(l: Line, rs: int, re: int, a: int, b: int)
    requires
        0 <= a <= b,
    ensures
        l.out_pos(rs, re, a) <= l.out_pos(rs, re, b),
    decreases b - a,
{
    if a < b {
        lemma_out_pos_mono(l, rs, re, a, b - 1);
    }
}

/// Across fully visible clusters, window positions strictly increase.
#[verifier::rlimit(50)]
proof fn lemma_out_pos_strict(l: Line, rs: int, re: int, a: int, b: int)
    requires
        l.wf(),
        0 <= a < b,
        forall|k: int| a <= k < b ==> l.vis_at(rs, re, k),
    ensures
        l.out_pos(rs, re, a) < l.out_pos(rs, re, b),
    decreases b - a,
{
    assert(l.vis_at(rs, re, b - 1));
    assert(frag_out(l.frags()[b - 1]).len() >= 1);
    if a < b - 1 {
        lemma_out_pos_strict(l, rs, re, a, b - 1);
    }
}

impl Line {
    /// Scans the fragment table once and reports, for the column range
    /// `[range_start, range_end)`: whether a cluster straddles the left
    /// edge, whether one straddles the right edge, and the first and
    /// one-past-last fully visible cluster indices.
    fn window_bounds(&self, range_start: ColIdx, range_end: ColIdx) -> (r: (bool, bool, usize, usize))
        ensures
            r.0 == self.has_left_straddler(range_start as int),
            r.1 == self.has_right_straddler(range_end as int),
            r.2 as int == self.first_vis(range_start as int, 0),
            r.3 as int == self.first_end_past(range_end as int, 0),
            r.2 <= self.gcount(),
            r.3 <= self.gcount(),
    {
        let ghost rs = range_start as int;
        let ghost re = range_end as int;
        let count = self.fragments.len();
        let mut col: usize = 0;
        let mut g: usize = 0;
        let mut ell_left = false;
        let mut ell_right = false;
        let mut lo: usize = count;
        let mut lo_found = false;
        let mut hi: usize = count;
        let mut hi_found = false;
        while g < count
            invariant
                count == self.gcount(),
                g <= count,
                col == self.scol(g as int),
                rs == range_start as int,
                re == range_end as int,
                ell_left == exists|k: int|
                    0 <= k < g && (#[trigger] self.scol(k)) < rs < self.scol(k + 1),
                ell_right == exists|k: int|
                    0 <= k < g && (#[trigger] self.scol(k)) < re < self.scol(k + 1),
                self.first_vis(rs, 0) == if lo_found {
                    lo as int
                } else {
                    self.first_vis(rs, g as int)
                },
                self.first_end_past(re, 0) == if hi_found {
                    hi as int
                } else {
                    self.first_end_past(re, g as int)
                },
                !lo_found ==> lo == count,
                !hi_found ==> hi == count,
                lo <= count,
                hi <= count,
            decreases count - g,
        {
            let w = self.fragments[g].rendered_width.cols();
            proof {
                assert(width_sum(self.frags(), g as int + 1) == width_sum(self.frags(), g as int)
                    + self.frags()[g as int].rendered_width.as_cols());
            }
            let next = if col > usize::MAX - w {
                usize::MAX
            } else {
                col + w
            };
            proof {
                assert(next == self.scol(g as int + 1));
            }
            if col < range_start && next > range_start {
                ell_left = true;
            }
            if col < range_end && next > range_end {
                ell_right = true;
            }
            if !lo_found && col >= range_start {
                lo = g;
                lo_found = true;
            }
            if !hi_found && next > range_end {
                hi = g;
                hi_found = true;
            }
            col = next;
            g = g + 1;
        }
        (ell_left, ell_right, lo, hi)
    }

    /// Builds the window's text for a non-empty column range, and records
    /// for every cluster where its output begins within that text.
    fn build_window_text(&self, range_start: ColIdx, range_end: ColIdx) -> (r: (Vec<char>, Vec<usize>))
        requires
            range_start < range_end,
        ensures
            r.0@ == self.window_text(range_start as int, range_end as int),
            r.1@.len() == self.gcount() + 1,
            forall|k: int|
                0 <= k <= self.gcount() ==> r.1@[k] == self.out_pos(
                    range_start as int,
                    range_end as int,
                    k,
                ),
            r.0@.len() >= self.out_pos(range_start as int, range_end as int, self.gcount() as int),
    {
        let ghost rs = range_start as int;
        let ghost re = range_end as int;
        let count = self.fragments.len();
        let bounds = self.window_bounds(range_start, range_end);
        let ell_left = bounds.0;
        let ell_right = bounds.1;
        let mut out: Vec<char> = Vec::new();
        if ell_left {
            out.push('\u{22EF}');
        }
        let mut offsets: Vec<usize> = Vec::new();
        let mut col: usize = 0;
        let mut g: usize = 0;
        let ghost leftpart = if self.has_left_straddler(rs) {
            seq!['\u{22EF}']
        } else {
            Seq::<char>::empty()
        };
        while g < count
            invariant
                count == self.gcount(),
                g <= count,
                col == self.scol(g as int),
                rs == range_start as int,
                re == range_end as int,
                rs < re,
                ell_left == self.has_left_straddler(rs),
                leftpart == (if self.has_left_straddler(rs) {
                    seq!['\u{22EF}']
                } else {
                    Seq::<char>::empty()
                }),
                offsets@.len() == g,
                forall|k: int| 0 <= k < g ==> offsets@[k] == self.out_pos(rs, re, k),
                out@.len() == self.out_pos(rs, re, g as int),
                out@ + self.win_mid(rs, re, g as int) == leftpart + self.win_mid(rs, re, 0),
            decreases count - g,
        {
            offsets.push(out.len());
            let w = self.fragments[g].rendered_width.cols();
            proof {
                assert(width_sum(self.frags(), g as int + 1) == width_sum(self.frags(), g as int)
                    + self.frags()[g as int].rendered_width.as_cols());
            }
            let next = if col > usize::MAX - w {
                usize::MAX
            } else {
                col + w
            };
            proof {
                assert(next == self.scol(g as int + 1));
            }
            let ghost out0 = out@;
            let ghost piece = if self.vis_at(rs, re, g as int) {
                frag_out(self.frags()[g as int])
            } else {
                Seq::<char>::empty()
            };
            if col >= range_start && next <= range_end {
                let f = &self.fragments[g];
                match f.replacement {
                    Some(c) => out.push(c),
                    None => crate::chars::push_all(&mut out, &f.grapheme),
                }
            }
            proof {
                assert(out@ =~= out0 + piece);
                assert(self.win_mid(rs, re, g as int) == piece + self.win_mid(rs, re, g as int + 1));
                assert((out0 + piece) + self.win_mid(rs, re, g as int + 1) =~= out0 + (piece
                    + self.win_mid(rs, re, g as int + 1)));
            }
            col = next;
            g = g + 1;
        }
        offsets.push(out.len());
        if ell_right {
            out.push('\u{22EF}');
        }
        proof {
            assert(self.win_mid(rs, re, count as int) == Seq::<char>::empty());
            assert(out@ =~= self.window_text(rs, re));
            lemma_out_pos_mono(*self, rs, re, 0, count as int);
        }
        (out, offsets)
    }

    /// The line windowed to the columns `[range_start, range_end)`, with the
    /// listed occurrences of `query` annotated as matches — the occurrence
    /// at grapheme index `selected_match` as the selected match — clipped to
    /// the visible clusters. Highlights live in window space: an occurrence
    /// cut by the window's edge is highlighted only over its visible
    /// clusters, never over an edge ellipsis.
    #[verifier::rlimit(100)]
    pub fn get_annotated_visible_substr(
        &self,
        range_start: ColIdx,
        range_end: ColIdx,
        query: Option<&str>,
        selected_match: Option<GraphemeIdx>,
    ) -> (r: AnnotatedString)
        requires
            self.wf(),
        ensures
            r.wf(),
            r.text() == self.window_text(range_start as int, range_end as int),
            r.anns() == (match query {
                Some(q) => {
                    if q@.len() > 0 && range_start < range_end {
                        window_anns(
                            *self,
                            range_start as int,
                            range_end as int,
                            graphemes_of(q@).len() as int,
                            selected_match,
                            self.match_list(q@, 0, self.text().len() as int),
                        )
                    } else {
                        Seq::<Annotation>::empty()
                    }
                },
                None => Seq::<Annotation>::empty(),
            }),
    {
        let ghost rs = range_start as int;
        let ghost re = range_end as int;
        if range_start >= range_end {
            return AnnotatedString::from_chars(Vec::new());
        }
        let count = self.fragments.len();
        let bounds = self.window_bounds(range_start, range_end);
        let lo = bounds.2;
        let hi = bounds.3;
        let built = self.build_window_text(range_start, range_end);
        let out = built.0;
        let offsets = built.1;
        let final_len = out.len();
        let mut ann_out: Vec<Annotation> = Vec::new();
        match query {
            Some(qs) => {
                if !qs.is_empty() {
                    let q = str_to_chars(qs);
                    let qgs = segment_graphemes(&q);
                    let qg = qgs.len();
                    proof {
                        if qg == 0 {
                            assert(graphemes_of(q@).flatten() == Seq::<char>::empty());
                            assert(q@.len() == 0);
                        }
                    }
                    let n = self.string.len();
                    let ms = self.find_all(&q, 0, n);
                    let ghost msv = ms@;
                    let mut i: usize = 0;
                    while i < ms.len()
                        invariant
                            self.wf(),
                            count == self.gcount(),
                            rs == range_start as int,
                            re == range_end as int,
                            rs < re,
                            qg >= 1,
                            qg as int == graphemes_of(qs@).len(),
                            msv == ms@,
                            msv == self.match_list(qs@, 0, self.text().len() as int),
                            i <= msv.len(),
                            lo as int == self.first_vis(rs, 0),
                            hi as int == self.first_end_past(re, 0),
                            lo <= count,
                            hi <= count,
                            offsets@.len() == count + 1,
                            forall|k: int|
                                0 <= k <= count ==> offsets@[k] == self.out_pos(rs, re, k),
                            final_len == out@.len(),
                            out@.len() >= self.out_pos(rs, re, count as int),
                            ann_out@ == window_anns(
                                *self,
                                rs,
                                re,
                                qg as int,
                                selected_match,
                                msv.take(i as int),
                            ),
                            forall|j: int|
                                0 <= j < ann_out@.len() ==> (#[trigger] ann_out@[j]).start
                                    < ann_out@[j].end && ann_out@[j].end <= final_len,
                        decreases msv.len() - i,
                    {
                        let m = ms[i];
                        let mg = m.1;
                        proof {
                            crate::search::lemma_match_list_elems(
                                *self,
                                qs@,
                                0,
                                self.text().len() as int,
                            );
                            assert(msv[i as int] == m);
                            assert(mg < count);
                        }
                        let a = if mg >= lo {
                            mg
                        } else {
                            lo
                        };
                        let b = if hi > mg && qg <= hi - mg {
                            mg + qg
                        } else {
                            hi
                        };
                        let ghost wa = window_ann(*self, rs, re, qg as int, selected_match, mg as int);
                        proof {
                            assert(b as int == if mg + qg <= hi {
                                mg + qg as int
                            } else {
                                hi as int
                            });
                        }
                        if a < b {
                            let st = offsets[a];
                            let en = offsets[b];
                            let is_sel = match selected_match {
                                Some(x) => x == mg,
                                None => false,
                            };
                            let t = if is_sel {
                                AnnotationType::SelectedMatch
                            } else {
                                AnnotationType::Match
                            };
                            proof {
                                assert forall|k: int| a <= k < b implies self.vis_at(
                                    rs,
                                    re,
                                    k,
                                ) by {
                                    lemma_vis_iff(*self, rs, re, k);
                                }
                                lemma_out_pos_strict(*self, rs, re, a as int, b as int);
                                lemma_out_pos_mono(*self, rs, re, b as int, count as int);
                                assert(st < en && en <= final_len);
                                assert(wa == Some(
                                    Annotation { annotation_type: t, start: st, end: en },
                                ));
                            }
                            ann_out.push(Annotation { annotation_type: t, start: st, end: en });
                        } else {
                            proof {
                                assert(wa is None);
                            }
                        }
                        proof {
                            assert(msv.take(i as int + 1).drop_last() =~= msv.take(i as int));
                            assert(msv.take(i as int + 1).last() == msv[i as int]);
                        }
                        i = i + 1;
                    }
                    proof {
                        assert(msv.take(msv.len() as int) =~= msv);
                    }
                }
            },
            None => {},
        }
        AnnotatedString { string: out, annotations: ann_out }
    }

    /// The plain text of the line windowed to the given column range, with
    /// display substitutes and edge ellipses applied.
    pub fn get_visible_graphemes(&self, range_start: ColIdx, range_end: ColIdx) -> (r: String)
        requires
            self.wf(),
        ensures
            r@ == self.window_text(range_start as int, range_end as int),
    {
        let a = self.get_annotated_visible_substr(range_start, range_end, None, None);
        a.to_string()
    }
}

} // verus!
