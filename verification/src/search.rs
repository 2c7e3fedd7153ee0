//! Substring search within a line: the leftmost non-overlapping occurrences
//! of the query, each kept only if it is grapheme-cluster-aligned — it must
//! start at a cluster boundary and end on one, so a match never selects part
//! of a user-perceived character. An occurrence consumes its span whether
//! aligned or not, exactly as a leftmost scan of the characters enumerates,
//! so overlapping occurrences are never listed together.
use vstd::prelude::*;

use crate::line::{
    joined_len, lemma_joined_len_mono, lemma_joined_len_strict_mono, Line,
};
use crate::types::{CharIdx, GraphemeIdx};
use crate::unicode::str_to_chars;

verus! {

/// The characters of `q` occur in `text` at offset `s`.
pub open spec fn match_at(text: Seq<char>, q: Seq<char>, s: int) -> bool {
    &&& 0 <= s
    &&& s + q.len() <= text.len()
    &&& text.subrange(s, s + q.len() as int) == q
}

impl Line {
    /// `s` is the start offset of one of the line's clusters, or the end of
    /// its text.
    pub open spec fn is_cluster_boundary(self, s: int) -> bool {
        exists|g: int| 0 <= g <= self.gcount() && self.start_of(g) == s
    }

    /// The cluster index whose start offset is `s` (under well-formedness
    /// the boundary's cluster is unique; meaningful only when `s` is a
    /// cluster boundary).
    pub open spec fn cluster_index_of(self, s: int) -> int {
        choose|g: int| 0 <= g <= self.gcount() && self.start_of(g) == s
    }

    /// The query occurs at offset `s` and both of the occurrence's ends lie
    /// on cluster boundaries.
    pub open spec fn aligned_at(self, q: Seq<char>, s: int) -> bool {
        &&& match_at(self.text(), q, s)
        &&& self.is_cluster_boundary(s)
        &&& self.is_cluster_boundary(s + q.len() as int)
    }

    /// The leftmost non-overlapping occurrences of `q`, scanning the
    /// characters from offset `s`, that end at or before `hi` — keeping the
    /// cluster-aligned ones, each paired with its cluster index. Every
    /// occurrence consumes its span, aligned or not, so the next one is
    /// looked for only past its end.
    pub open spec fn match_list(self, q: Seq<char>, s: int, hi: int) -> Seq<
        (CharIdx, GraphemeIdx),
    >
        decreases self.text().len() + 1 - s,
    {
        if q.len() <= 0 || s < 0 || s + q.len() > hi || s + q.len() > self.text().len() {
            Seq::empty()
        } else if match_at(self.text(), q, s) {
            let rest = self.match_list(q, s + q.len(), hi);
            if self.aligned_at(q, s) {
                seq![(s as usize, self.cluster_index_of(s) as usize)] + rest
            } else {
                rest
            }
        } else {
            self.match_list(q, s + 1, hi)
        }
    }

    /// Whether the characters of `query` occur at offset `s` of the text.
    fn text_matches_at(&self, query: &Vec<char>, s: CharIdx) -> (r: bool)
        ensures
            r == match_at(self.text(), query@, s as int),
    {
        let n = self.string.len();
        if s > n || query.len() > n - s {
            return false;
        }
        let mut j: usize = 0;
        while j < query.len()
            invariant
                s + query@.len() <= n,
                n == self.text().len(),
                j <= query@.len(),
                forall|k: int| 0 <= k < j ==> self.text()[s + k] == query@[k],
            decreases query@.len() - j,
        {
            if self.string[s + j] != query[j] {
                proof {
                    assert(self.text().subrange(s as int, s + query@.len() as int)[j as int]
                        == self.text()[s + j]);
                }
                return false;
            }
            j = j + 1;
        }
        proof {
            assert(self.text().subrange(s as int, s + query@.len() as int) =~= query@);
        }
        true
    }

    /// Whether `target` is a cluster boundary, decided by walking the
    /// fragment table from cluster `g` (whose start must not lie past
    /// `target`).
    #[verifier::rlimit(50)]
    fn is_boundary_at(&self, g: GraphemeIdx, target: CharIdx) -> (r: bool)
        requires
            self.wf(),
            g <= self.gcount(),
            self.start_of(g as int) <= target,
        ensures
            r == self.is_cluster_boundary(target as int),
    {
        let total = self.string.len();
        let mut h = g;
        let mut cur = self.grapheme_idx_to_char_idx(g);
        while h < self.fragments.len() && cur < target
            invariant
                self.wf(),
                total == self.text().len(),
                g <= h <= self.gcount(),
                cur == self.start_of(h as int),
                forall|k: int| g <= k < h ==> self.start_of(k) < target,
            decreases self.gcount() as int - h,
        {
            proof {
                lemma_joined_len_mono(self.clusters(), h as int + 1, self.frags().len() as int);
                assert(joined_len(self.clusters(), h as int + 1) == joined_len(
                    self.clusters(),
                    h as int,
                ) + self.clusters()[h as int].len());
            }
            cur = cur + self.fragments[h].grapheme.len();
            h = h + 1;
        }
        if cur == target {
            proof {
                assert(0 <= h as int <= self.gcount() && self.start_of(h as int) == target);
            }
            true
        } else {
            proof {
                lemma_no_boundary(*self, g as int, h as int, target as int);
            }
            false
        }
    }

    /// The cluster starting exactly at offset `target`, found by walking the
    /// fragment table from the line's start; `None` when `target` is no
    /// cluster boundary.
    #[verifier::rlimit(50)]
    fn boundary_cluster(&self, target: CharIdx) -> (r: Option<GraphemeIdx>)
        requires
            self.wf(),
        ensures
            r matches Some(g) ==> g <= self.gcount() && self.start_of(g as int) == target,
            r is None ==> !self.is_cluster_boundary(target as int),
    {
        let total = self.string.len();
        let mut h: usize = 0;
        let mut cur: usize = 0;
        proof {
            assert(joined_len(self.clusters(), 0) == 0);
        }
        while h < self.fragments.len() && cur < target
            invariant
                self.wf(),
                total == self.text().len(),
                h <= self.gcount(),
                cur == self.start_of(h as int),
                forall|k: int| 0 <= k < h ==> self.start_of(k) < target,
            decreases self.gcount() as int - h,
        {
            proof {
                lemma_joined_len_mono(self.clusters(), h as int + 1, self.frags().len() as int);
                assert(joined_len(self.clusters(), h as int + 1) == joined_len(
                    self.clusters(),
                    h as int,
                ) + self.clusters()[h as int].len());
            }
            cur = cur + self.fragments[h].grapheme.len();
            h = h + 1;
        }
        if cur == target {
            Some(h)
        } else {
            proof {
                lemma_no_boundary(*self, 0, h as int, target as int);
            }
            None
        }
    }

    /// The leftmost non-overlapping occurrences of `query` found by a scan
    /// from offset `lo` that end at or before `hi`, keeping the
    /// cluster-aligned ones in order, each paired with its cluster index.
    /// A rejected unaligned occurrence still consumes its span, exactly as
    /// the leftmost scan enumerates.
    #[verifier::rlimit(100)]
    pub fn find_all(&self, query: &Vec<char>, lo: CharIdx, hi: CharIdx) -> (r: Vec<
        (CharIdx, GraphemeIdx),
    >)
        requires
            self.wf(),
            query@.len() > 0,
        ensures
            r@ == self.match_list(query@, lo as int, hi as int),
    {
        let n = self.string.len();
        let qlen = query.len();
        let mut out: Vec<(CharIdx, GraphemeIdx)> = Vec::new();
        let mut s = lo;
        while qlen <= hi && s <= hi - qlen && qlen <= n && s <= n - qlen
            invariant
                self.wf(),
                query@.len() == qlen,
                qlen >= 1,
                n == self.text().len(),
                out@ + self.match_list(query@, s as int, hi as int) == self.match_list(
                    query@,
                    lo as int,
                    hi as int,
                ),
            decreases n - s,
        {
            let ghost out0 = out@;
            if self.text_matches_at(query, s) {
                match self.boundary_cluster(s) {
                    Some(g) => {
                        if self.is_boundary_at(g, s + qlen) {
                            proof {
                                assert(self.aligned_at(query@, s as int));
                                lemma_cluster_index(*self, g as int, s as int);
                                assert(out0.push((s, g)) =~= out0 + seq![(s, g)]);
                                assert((out0 + seq![(s, g)]) + self.match_list(
                                    query@,
                                    s + qlen,
                                    hi as int,
                                ) =~= out0 + (seq![(s, g)] + self.match_list(
                                    query@,
                                    s + qlen,
                                    hi as int,
                                )));
                            }
                            out.push((s, g));
                        } else {
                            proof {
                                assert(!self.aligned_at(query@, s as int));
                            }
                        }
                    },
                    None => {
                        proof {
                            assert(!self.aligned_at(query@, s as int));
                        }
                    },
                }
                s = s + qlen;
            } else {
                s = s + 1;
            }
        }
        proof {
            assert(self.match_list(query@, s as int, hi as int) == Seq::<
                (CharIdx, GraphemeIdx),
            >::empty());
            assert(out@ + Seq::<(CharIdx, GraphemeIdx)>::empty() =~= out@);
        }
        out
    }

    /// The first listed match of `query` at or after cluster
    /// `from_grapheme_idx`, scanning towards the end of the line.
    pub fn search_forward(&self, query: &str, from_grapheme_idx: GraphemeIdx) -> (r: Option<
        GraphemeIdx,
    >)
        requires
            self.wf(),
            from_grapheme_idx <= self.gcount(),
        ensures
            query@.len() == 0 ==> r is None,
            query@.len() > 0 ==> ({
                let ml = self.match_list(
                    query@,
                    self.start_of(from_grapheme_idx as int) as int,
                    self.text().len() as int,
                );
                if ml.len() > 0 {
                    r == Some(ml[0].1)
                } else {
                    r is None
                }
            }),
    {
        if query.is_empty() {
            return None;
        }
        let q = str_to_chars(query);
        let s0 = self.grapheme_idx_to_char_idx(from_grapheme_idx);
        let ms = self.find_all(&q, s0, self.string.len());
        if ms.len() > 0 {
            let m = ms[0];
            Some(m.1)
        } else {
            None
        }
    }

    /// The last listed match of `query` that ends at or before the start of
    /// cluster `from_grapheme_idx`, scanning from the start of the line.
    pub fn search_backward(&self, query: &str, from_grapheme_idx: GraphemeIdx) -> (r: Option<
        GraphemeIdx,
    >)
        requires
            self.wf(),
            from_grapheme_idx <= self.gcount(),
        ensures
            query@.len() == 0 ==> r is None,
            from_grapheme_idx == 0 ==> r is None,
            query@.len() > 0 && from_grapheme_idx > 0 ==> ({
                let ml = self.match_list(
                    query@,
                    0,
                    self.start_of(from_grapheme_idx as int) as int,
                );
                if ml.len() > 0 {
                    r == Some(ml[ml.len() - 1].1)
                } else {
                    r is None
                }
            }),
    {
        if query.is_empty() || from_grapheme_idx == 0 {
            return None;
        }
        let q = str_to_chars(query);
        let end = self.grapheme_idx_to_char_idx(from_grapheme_idx);
        let ms = self.find_all(&q, 0, end);
        if ms.len() > 0 {
            let m = ms[ms.len() - 1];
            Some(m.1)
        } else {
            None
        }
    }
}

/// When a walk of the fragment table from cluster `g` to cluster `h` stays
/// below `target` and then jumps past it (or runs out of clusters short of
/// it), `target` is no cluster boundary.
proof fn lemma_no_boundary(l: Line, g: int, h: int, target: int)
    requires
        0 <= g <= h <= l.gcount(),
        l.start_of(g) <= target,
        forall|k: int| g <= k < h ==> l.start_of(k) < target,
        l.start_of(h) != target,
        h == l.gcount() || l.start_of(h) >= target,
    ensures
        !l.is_cluster_boundary(target),
{
    assert forall|k: int| 0 <= k <= l.gcount() implies l.start_of(k) != target by {
        if l.start_of(h) > target {
            if k >= h {
                lemma_joined_len_mono(l.clusters(), h, k);
            } else if k < g {
                assert(g < h);
                assert(l.start_of(g) < target);
                lemma_joined_len_mono(l.clusters(), k, g);
            }
        } else {
            assert(h == l.gcount() && l.start_of(h) < target);
            lemma_joined_len_mono(l.clusters(), k, h);
        }
    }
}

/// Cluster boundaries are unique: two cluster indices with the same start
/// offset are the same index.
pub proof fn lemma_boundary_unique(l: Line, g1: int, g2: int)
    requires
        l.wf(),
        0 <= g1 <= l.gcount(),
        0 <= g2 <= l.gcount(),
        l.start_of(g1) == l.start_of(g2),
    ensures
        g1 == g2,
{
    if g1 < g2 {
        lemma_joined_len_strict_mono(l.clusters(), g1, g2);
    } else if g2 < g1 {
        lemma_joined_len_strict_mono(l.clusters(), g2, g1);
    }
}

/// On a well-formed line, `cluster_index_of` names the boundary's cluster:
/// it is the one index whose start offset is `s`.
pub proof fn lemma_cluster_index(l: Line, g: int, s: int)
    requires
        l.wf(),
        0 <= g <= l.gcount(),
        l.start_of(g) == s,
    ensures
        l.cluster_index_of(s) == g,
{
    assert(l.is_cluster_boundary(s));
    let g2 = l.cluster_index_of(s);
    assert(0 <= g2 <= l.gcount() && l.start_of(g2) == s);
    lemma_boundary_unique(l, g, g2);
}

/// Every entry of a match list is an aligned occurrence inside the scanned
/// range, paired with its cluster index, and that cluster lies strictly
/// inside the line.
pub proof fn lemma_match_list_elems(l: Line, q: Seq<char>, s: int, hi: int)
    requires
        l.wf(),
    ensures
        forall|i: int|
            0 <= i < l.match_list(q, s, hi).len() ==> {
                let e = #[trigger] l.match_list(q, s, hi)[i];
                &&& l.aligned_at(q, e.0 as int)
                &&& e.1 < l.gcount()
                &&& l.start_of(e.1 as int) == e.0
                &&& s <= e.0
                &&& e.0 + q.len() <= hi
                &&& e.0 + q.len() <= l.text().len()
            },
    decreases l.text().len() + 1 - s,
{
    let ml = l.match_list(q, s, hi);
    if q.len() <= 0 || s < 0 || s + q.len() > hi || s + q.len() > l.text().len() {
    } else if match_at(l.text(), q, s) {
        lemma_match_list_elems(l, q, s + q.len() as int, hi);
        let rest = l.match_list(q, s + q.len() as int, hi);
        if l.aligned_at(q, s) {
            let g = l.cluster_index_of(s);
            assert(0 <= g <= l.gcount() && l.start_of(g) == s);
            assert(g < l.gcount()) by {
                if g == l.gcount() {
                    assert(l.start_of(g) == l.text().len());
                }
            }
            let e0 = (s as usize, g as usize);
            assert(ml == seq![e0] + rest);
            assert forall|i: int| 0 <= i < ml.len() implies {
                let e = #[trigger] ml[i];
                &&& l.aligned_at(q, e.0 as int)
                &&& e.1 < l.gcount()
                &&& l.start_of(e.1 as int) == e.0
                &&& s <= e.0
                &&& e.0 + q.len() <= hi
                &&& e.0 + q.len() <= l.text().len()
            } by {
                if i == 0 {
                    assert(ml[0] == e0);
                } else {
                    assert(ml[i] == rest[i - 1]);
                }
            }
        } else {
            assert(ml == rest);
            assert forall|i: int| 0 <= i < ml.len() implies {
                let e = #[trigger] ml[i];
                &&& l.aligned_at(q, e.0 as int)
                &&& e.1 < l.gcount()
                &&& l.start_of(e.1 as int) == e.0
                &&& s <= e.0
                &&& e.0 + q.len() <= hi
                &&& e.0 + q.len() <= l.text().len()
            } by {
                assert(ml[i] == rest[i]);
            }
        }
    } else {
        lemma_match_list_elems(l, q, s + 1, hi);
        let rest = l.match_list(q, s + 1, hi);
        assert(ml == rest);
        assert forall|i: int| 0 <= i < ml.len() implies {
            let e = #[trigger] ml[i];
            &&& l.aligned_at(q, e.0 as int)
            &&& e.1 < l.gcount()
            &&& l.start_of(e.1 as int) == e.0
            &&& s <= e.0
            &&& e.0 + q.len() <= hi
            &&& e.0 + q.len() <= l.text().len()
        } by {
            assert(ml[i] == rest[i]);
        }
    }
}

/// When the scan meets no occurrence before `m` and an aligned one at `m`,
/// the list starts with exactly that occurrence: the scan's completeness on
/// an occurrence nothing earlier overlaps.
pub proof fn lemma_match_list_first(l: Line, q: Seq<char>, s0: int, hi: int, m: int)
    requires
        l.wf(),
        q.len() >= 1,
        0 <= s0 <= m,
        m + q.len() <= hi,
        m + q.len() <= l.text().len(),
        l.aligned_at(q, m),
        forall|s: int| s0 <= s < m ==> !match_at(l.text(), q, s),
    ensures
        l.match_list(q, s0, hi) == seq![
            (m as usize, l.cluster_index_of(m) as usize),
        ] + l.match_list(q, m + q.len(), hi),
    decreases m - s0,
{
    if s0 < m {
        assert(!match_at(l.text(), q, s0));
        lemma_match_list_first(l, q, s0 + 1, hi, m);
    }
}

} // verus!
