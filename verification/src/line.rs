//! A single line of text, decomposed into grapheme clusters.
//!
//! A `Line` owns its characters together with a derived fragment table: one
//! `TextFragment` per grapheme cluster, carrying the cluster's characters,
//! its starting character index, its rendered width, and an optional
//! single-character display substitute. The fragments partition the text
//! contiguously and in order; they are rebuilt from scratch after every
//! mutation.
use vstd::prelude::*;

use crate::chars::{push_all, splice_chars};
use crate::types::{CharIdx, ColIdx, GraphemeIdx};
use crate::unicode::{
    char_is_control, char_is_whitespace, chars_to_string, display_width_of, grapheme_display_width,
    graphemes_of, is_unicode_control, is_unicode_whitespace, segment_graphemes, str_to_chars,
};

verus! {

/// How many terminal columns a rendered grapheme cluster occupies.
#[derive(Copy, Clone, PartialEq, Eq, Structural, Debug)]
pub enum GraphemeWidth {
    Half,
    Full,
}

impl GraphemeWidth {
    /// The number of columns this width stands for.
    pub open spec fn as_cols(self) -> nat {
        match self {
            GraphemeWidth::Half => 1,
            GraphemeWidth::Full => 2,
        }
    }

    pub fn cols(self) -> (r: usize)
        ensures
            r == self.as_cols(),
    {
        match self {
            GraphemeWidth::Half => 1,
            GraphemeWidth::Full => 2,
        }
    }
}

/// One grapheme cluster of a line: its characters, where it starts within
/// the line, its rendered width, and an optional display substitute.
pub struct TextFragment {
    pub grapheme: Vec<char>,
    pub rendered_width: GraphemeWidth,
    pub replacement: Option<char>,
    pub start: CharIdx,
}

/// The combined character length of the first `i` cluster of `gs`.
pub open spec fn joined_len(gs: Seq<Seq<char>>, i: int) -> nat
    decreases i,
{
    if i <= 0 {
        0
    } else {
        joined_len(gs, i - 1) + gs[i - 1].len()
    }
}

/// `joined_len` grows by exactly the dropped head's length.
proof fn lemma_joined_len_drop_first(gs: Seq<Seq<char>>, i: int)
    requires
        0 <= i < gs.len(),
    ensures
        joined_len(gs, i + 1) == gs[0].len() + joined_len(gs.drop_first(), i),
    decreases i,
{
    if i == 0 {
        assert(joined_len(gs, 0) == 0);
        assert(joined_len(gs.drop_first(), 0) == 0);
        assert(joined_len(gs, 1) == joined_len(gs, 0) + gs[0].len());
    } else {
        lemma_joined_len_drop_first(gs, i - 1);
        assert(gs.drop_first()[i - 1] == gs[i]);
        assert(joined_len(gs, i + 1) == joined_len(gs, i) + gs[i].len());
        assert(joined_len(gs.drop_first(), i) == joined_len(gs.drop_first(), i - 1)
            + gs.drop_first()[i - 1].len());
    }
}

/// `joined_len` is monotone in the cluster index.
pub proof fn lemma_joined_len_mono(gs: Seq<Seq<char>>, i: int, j: int)
    requires
        0 <= i <= j,
    ensures
        joined_len(gs, i) <= joined_len(gs, j),
    decreases j - i,
{
    if i < j {
        lemma_joined_len_mono(gs, i, j - 1);
    }
}

/// With non-empty clusters, `joined_len` is strictly monotone.
pub proof fn lemma_joined_len_strict_mono(gs: Seq<Seq<char>>, i: int, j: int)
    requires
        0 <= i < j,
        forall|k: int| 0 <= k < gs.len() ==> (#[trigger] gs[k]).len() > 0,
        j <= gs.len(),
    ensures
        joined_len(gs, i) < joined_len(gs, j),
    decreases j - i,
{
    if i < j - 1 {
        lemma_joined_len_strict_mono(gs, i, j - 1);
    }
}

/// A sequence of clusters whose concatenation is `s` covers `s` exactly:
/// its joined length is `s.len()` and cluster `i` is the subrange of `s`
/// between the joined lengths at `i` and `i + 1`.
pub proof fn lemma_flatten_parts(gs: Seq<Seq<char>>, s: Seq<char>)
    requires
        gs.flatten() == s,
    ensures
        joined_len(gs, gs.len() as int) == s.len(),
        forall|i: int|
            0 <= i < gs.len() ==> gs[i] == s.subrange(
                joined_len(gs, i) as int,
                joined_len(gs, i + 1) as int,
            ),
    decreases gs.len(),
{
    if gs.len() == 0 {
        assert(gs.flatten() == Seq::<char>::empty());
    } else {
        let rest = gs.drop_first();
        let rs = rest.flatten();
        assert(s == gs[0] + rs);
        lemma_flatten_parts(rest, rs);
        lemma_joined_len_drop_first(gs, rest.len() as int);
        assert(joined_len(gs, gs.len() as int) == s.len());
        assert forall|i: int| 0 <= i < gs.len() implies gs[i] == s.subrange(
            joined_len(gs, i) as int,
            joined_len(gs, i + 1) as int,
        ) by {
            if i == 0 {
                assert(gs[0] =~= s.subrange(0, gs[0].len() as int));
            } else {
                lemma_joined_len_drop_first(gs, i - 1);
                lemma_joined_len_drop_first(gs, i);
                assert(rest[i - 1] == rs.subrange(
                    joined_len(rest, i - 1) as int,
                    joined_len(rest, i) as int,
                ));
                lemma_joined_len_mono(rest, i, rest.len() as int);
                assert(gs[i] =~= s.subrange(
                    joined_len(gs, i) as int,
                    joined_len(gs, i + 1) as int,
                ));
            }
        }
    }
}

/// What glyph, if any, stands in for the cluster `g` when it is displayed:
/// a horizontal tab shows as a space, a lone control character as a
/// placeholder box, other visible blank clusters as an open-box blank
/// mark, and any other zero-width cluster as a dot.
pub open spec fn replacement_of(g: Seq<char>) -> Option<char> {
    if g == seq![' '] {
        None
    } else if g == seq!['\t'] {
        Some(' ')
    } else if g.len() == 1 && is_unicode_control(g[0]) {
        Some('\u{25AF}')
    } else if display_width_of(g) > 0 && (forall|i: int|
        0 <= i < g.len() ==> is_unicode_whitespace(g[i])) {
        Some('\u{2423}')
    } else if display_width_of(g) == 0 {
        Some('.')
    } else {
        None
    }
}

/// The rendered width of the cluster `g`: substituted clusters and those of
/// display width zero or one take a single column, anything wider takes two.
pub open spec fn width_class_of(g: Seq<char>) -> GraphemeWidth {
    if replacement_of(g) is Some {
        GraphemeWidth::Half
    } else if display_width_of(g) <= 1 {
        GraphemeWidth::Half
    } else {
        GraphemeWidth::Full
    }
}

/// Fragment `f` faithfully describes cluster `i` of the cluster sequence
/// `gs`: it carries the cluster's characters, its start offset, and the
/// display substitute and width class those characters call for.
pub open spec fn frag_ok(f: TextFragment, gs: Seq<Seq<char>>, i: int) -> bool {
    &&& f.grapheme@ == gs[i]
    &&& f.start == joined_len(gs, i)
    &&& f.replacement == replacement_of(f.grapheme@)
    &&& f.rendered_width == width_class_of(f.grapheme@)
}

/// The fragment table `fs` is the faithful decomposition of `text`: one
/// fragment per grapheme cluster, in order, contiguous, each carrying its
/// start offset, width class and display substitute.
pub open spec fn frags_wf(fs: Seq<TextFragment>, text: Seq<char>) -> bool {
    let gs = graphemes_of(text);
    &&& fs.len() == gs.len()
    &&& fs.len() <= usize::MAX
    &&& text.len() <= usize::MAX
    &&& joined_len(gs, gs.len() as int) == text.len()
    &&& forall|i: int| 0 <= i < gs.len() ==> (#[trigger] gs[i]).len() > 0
    &&& forall|i: int|
        0 <= i < gs.len() ==> (#[trigger] gs[i]) == text.subrange(
            joined_len(gs, i) as int,
            joined_len(gs, i + 1) as int,
        )
    &&& forall|i: int| 0 <= i < fs.len() ==> frag_ok(#[trigger] fs[i], gs, i)
}

/// The text contains no line break: a line holds one row of the document,
/// and the break characters live between lines, never inside one.
pub open spec fn no_breaks(s: Seq<char>) -> bool {
    forall|i: int| 0 <= i < s.len() ==> s[i] != '\n'
}

/// A line of text: the characters themselves plus the derived fragment
/// table. A well-formed line holds no line-break character.
pub struct Line {
    pub string: Vec<char>,
    pub fragments: Vec<TextFragment>,
}

impl Line {
    /// The characters of the line.
    pub open spec fn text(self) -> Seq<char> {
        self.string@
    }

    /// The fragment table.
    pub open spec fn frags(self) -> Seq<TextFragment> {
        self.fragments@
    }

    /// The grapheme clusters of the line's text, as sequences of characters.
    pub open spec fn clusters(self) -> Seq<Seq<char>> {
        graphemes_of(self.text())
    }

    /// The number of grapheme clusters.
    pub open spec fn gcount(self) -> nat {
        self.frags().len()
    }

    /// The character offset at which cluster `i` starts (the line length,
    /// for `i == gcount()`).
    pub open spec fn start_of(self, i: int) -> nat {
        joined_len(self.clusters(), i)
    }

    /// The fragment table matches the text, and the text holds no line
    /// break.
    pub open spec fn wf(self) -> bool {
        &&& frags_wf(self.frags(), self.text())
        &&& no_breaks(self.text())
    }

    /// Builds the fragment table for `chars` by segmenting it into grapheme
    /// clusters and classifying each cluster's width and display substitute.
    fn str_to_fragments(chars: &Vec<char>) -> (r: Vec<TextFragment>)
        ensures
            frags_wf(r@, chars@),
    {
        let total = chars.len();
        let gs = segment_graphemes(chars);
        proof {
            lemma_flatten_parts(gs.deep_view(), chars@);
        }
        let ghost gsv = gs.deep_view();
        let mut frags: Vec<TextFragment> = Vec::new();
        let mut start: usize = 0;
        let mut gi: usize = 0;
        while gi < gs.len()
            invariant
                gsv == gs.deep_view(),
                gsv == graphemes_of(chars@),
                total == chars@.len(),
                joined_len(gsv, gsv.len() as int) == total,
                forall|i: int| 0 <= i < gsv.len() ==> (#[trigger] gsv[i]).len() > 0,
                gi <= gs@.len(),
                gsv.len() == gs@.len(),
                start == joined_len(gsv, gi as int),
                frags@.len() == gi,
                forall|i: int| 0 <= i < frags@.len() ==> frag_ok(#[trigger] frags@[i], gsv, i),
            decreases gs@.len() - gi,
        {
            let g: &Vec<char> = &gs[gi];
            proof {
                assert(g@ == gsv[gi as int]);
                lemma_joined_len_mono(gsv, gi as int + 1, gsv.len() as int);
                assert(joined_len(gsv, gi as int + 1) == start + g@.len());
            }
            let replacement = Self::replacement_for(g);
            let rendered_width = if replacement.is_some() {
                GraphemeWidth::Half
            } else {
                let w = grapheme_display_width(g);
                if w <= 1 {
                    GraphemeWidth::Half
                } else {
                    GraphemeWidth::Full
                }
            };
            let cluster: Vec<char> = g.clone();
            proof {
                assert(cluster@ == gsv[gi as int]);
            }
            frags.push(TextFragment { grapheme: cluster, rendered_width, replacement, start });
            start = start + g.len();
            gi = gi + 1;
        }
        frags
    }

    /// Computes the display substitute for the cluster `g`.
    fn replacement_for(g: &Vec<char>) -> (r: Option<char>)
        ensures
            r == replacement_of(g@),
    {
        if g.len() == 1 && g[0] == ' ' {
            proof {
                assert(g@ =~= seq![' ']);
            }
            None
        } else if g.len() == 1 && g[0] == '\t' {
            proof {
                assert(g@ =~= seq!['\t']);
                assert(g@ != seq![' ']);
            }
            Some(' ')
        } else {
            proof {
                assert(g@ != seq![' '] && g@ != seq!['\t']) by {
                    if g@ == seq![' '] {
                        assert(g@.len() == 1 && g@[0] == ' ');
                    }
                    if g@ == seq!['\t'] {
                        assert(g@.len() == 1 && g@[0] == '\t');
                    }
                }
            }
            if g.len() == 1 && char_is_control(g[0]) {
                return Some('\u{25AF}');
            }
            let w = grapheme_display_width(g);
            if w > 0 && Self::all_whitespace(g) {
                Some('\u{2423}')
            } else if w == 0 {
                Some('.')
            } else {
                None
            }
        }
    }

    /// Whether every character of `g` is Unicode whitespace (what
    /// trimming the cluster to emptiness means).
    fn all_whitespace(g: &Vec<char>) -> (r: bool)
        ensures
            r == forall|i: int| 0 <= i < g@.len() ==> is_unicode_whitespace(g@[i]),
    {
        let mut i: usize = 0;
        while i < g.len()
            invariant
                i <= g@.len(),
                forall|j: int| 0 <= j < i ==> is_unicode_whitespace(g@[j]),
            decreases g@.len() - i,
        {
            if !char_is_whitespace(g[i]) {
                return false;
            }
            i = i + 1;
        }
        true
    }

    /// Builds a line from a string slice, which must hold no line break.
    pub fn from(line_str: &str) -> (r: Line)
        requires
            no_breaks(line_str@),
        ensures
            r.wf(),
            r.text() == line_str@,
    {
        let string = str_to_chars(line_str);
        let fragments = Self::str_to_fragments(&string);
        Line { string, fragments }
    }

    /// Builds a line that takes ownership of the given characters, which
    /// must hold no line break.
    pub fn from_chars(string: Vec<char>) -> (r: Line)
        requires
            no_breaks(string@),
        ensures
            r.wf(),
            r.text() == string@,
    {
        let fragments = Self::str_to_fragments(&string);
        Line { string, fragments }
    }

    /// Rebuilds the fragment table after the text changed.
    fn rebuild_fragments(&mut self)
        ensures
            frags_wf(final(self).frags(), final(self).text()),
            final(self).text() == old(self).text(),
    {
        self.fragments = Self::str_to_fragments(&self.string);
    }

    /// The number of grapheme clusters in the line.
    pub fn grapheme_count(&self) -> (r: GraphemeIdx)
        ensures
            r == self.gcount(),
    {
        self.fragments.len()
    }

    /// The line's characters, as a `String`.
    pub fn to_string(&self) -> (r: String)
        ensures
            r@ == self.text(),
    {
        chars_to_string(&self.string)
    }

    /// The character offset of cluster `g` in the fragment table (the text
    /// length for `g == gcount()`).
    pub fn grapheme_idx_to_char_idx(&self, g: GraphemeIdx) -> (r: CharIdx)
        requires
            self.wf(),
            g <= self.gcount(),
        ensures
            r == self.start_of(g as int),
    {
        if g < self.fragments.len() {
            self.fragments[g].start
        } else {
            self.string.len()
        }
    }

    /// Where an edit aimed at cluster `at` lands in the text: the cluster's
    /// start offset, or the end of the text when `at` is past the clusters.
    pub open spec fn clip_start(self, at: int) -> nat {
        if at < self.gcount() {
            self.start_of(at)
        } else {
            self.text().len()
        }
    }

    /// The visible width of the whole line, in columns, capped at the
    /// machine's integer range.
    pub open spec fn visible_width(self) -> nat {
        sat_cap(width_sum(self.frags(), self.gcount() as int))
    }

    /// Sum of the rendered widths of the fragments before `k` (of all of
    /// them, when `k` is past the clusters).
    pub open spec fn width_upto(self, k: int) -> nat {
        if k < self.gcount() {
            width_sum(self.frags(), k)
        } else {
            width_sum(self.frags(), self.gcount() as int)
        }
    }

    /// The total width of the clusters before `grapheme_index`, in columns,
    /// capped at the machine's integer range.
    pub fn width_until(&self, grapheme_index: GraphemeIdx) -> (r: ColIdx)
        ensures
            r == sat_cap(self.width_upto(grapheme_index as int)),
    {
        let m = if grapheme_index < self.fragments.len() {
            grapheme_index
        } else {
            self.fragments.len()
        };
        let mut sum: usize = 0;
        let mut i: usize = 0;
        while i < m
            invariant
                i <= m <= self.frags().len(),
                sum == sat_cap(width_sum(self.frags(), i as int)),
            decreases m - i,
        {
            let c = self.fragments[i].rendered_width.cols();
            proof {
                assert(width_sum(self.frags(), i as int + 1) == width_sum(self.frags(), i as int)
                    + self.frags()[i as int].rendered_width.as_cols());
            }
            sum = if sum > usize::MAX - c {
                usize::MAX
            } else {
                sum + c
            };
            i = i + 1;
        }
        sum
    }

    /// The visible width of the whole line.
    pub fn width(&self) -> (r: ColIdx)
        ensures
            r == self.visible_width(),
    {
        let c = self.grapheme_count();
        self.width_until(c)
    }

    /// Inserts a character in front of cluster `at` (at the end of the line
    /// when `at` is past the clusters). A line break cannot be inserted: a
    /// break makes a new line, through the document's own line-break edit.
    pub fn insert_char(&mut self, character: char, at: GraphemeIdx)
        requires
            old(self).wf(),
            character != '\n',
        ensures
            final(self).wf(),
            final(self).text() == old(self).text().insert(
                old(self).clip_start(at as int) as int,
                character,
            ),
    {
        if at < self.fragments.len() {
            let idx = self.fragments[at].start;
            proof {
                lemma_joined_len_mono(self.clusters(), at as int, self.frags().len() as int);
            }
            self.string.insert(idx, character);
        } else {
            self.string.push(character);
            proof {
                assert(self.string@ =~= old(self).text().insert(
                    old(self).text().len() as int,
                    character,
                ));
            }
        }
        proof {
            assert(no_breaks(self.string@)) by {
                let p = old(self).clip_start(at as int) as int;
                assert forall|i: int| 0 <= i < self.string@.len() implies self.string@[i]
                    != '\n' by {
                    assert(self.string@ == old(self).text().insert(p, character));
                    if i < p {
                        assert(self.string@[i] == old(self).text()[i]);
                    } else if i == p {
                        assert(self.string@[i] == character);
                    } else {
                        assert(self.string@[i] == old(self).text()[i - 1]);
                    }
                }
            }
        }
        self.rebuild_fragments();
    }

    /// Appends a character at the end of the line (never a line break).
    pub fn append_char(&mut self, character: char)
        requires
            old(self).wf(),
            character != '\n',
        ensures
            final(self).wf(),
            final(self).text() == old(self).text().push(character),
    {
        let c = self.grapheme_count();
        self.insert_char(character, c);
        proof {
            assert(old(self).text().insert(old(self).text().len() as int, character) =~= old(
                self,
            ).text().push(character));
        }
    }

    /// Removes cluster `at` from the line; does nothing when `at` is out of
    /// range.
    pub fn delete(&mut self, at: GraphemeIdx)
        requires
            old(self).wf(),
        ensures
            final(self).wf(),
            at < old(self).gcount() ==> final(self).text() == old(self).text().take(
                old(self).start_of(at as int) as int,
            ) + old(self).text().skip(old(self).start_of(at as int + 1) as int),
            at >= old(self).gcount() ==> *final(self) == *old(self),
    {
        if at < self.fragments.len() {
            let start = self.fragments[at].start;
            let glen = self.fragments[at].grapheme.len();
            let n = self.string.len();
            proof {
                lemma_joined_len_mono(self.clusters(), at as int + 1, self.frags().len() as int);
                assert(joined_len(self.clusters(), at as int + 1) == joined_len(
                    self.clusters(),
                    at as int,
                ) + self.clusters()[at as int].len());
                assert(start + glen <= n);
            }
            let end = start + glen;
            let empty: Vec<char> = Vec::new();
            self.string = splice_chars(&self.string, start, end, &empty);
            proof {
                assert(self.string@ =~= old(self).text().take(old(self).start_of(at as int) as int)
                    + old(self).text().skip(old(self).start_of(at as int + 1) as int));
                assert forall|i: int| 0 <= i < self.string@.len() implies self.string@[i]
                    != '\n' by {
                    let p = old(self).start_of(at as int) as int;
                    if i < p {
                        assert(self.string@[i] == old(self).text()[i]);
                    } else {
                        assert(self.string@[i] == old(self).text()[i + old(self).start_of(
                            at as int + 1,
                        ) - p]);
                    }
                }
            }
            self.rebuild_fragments();
        }
    }

    /// Removes the last cluster of the line; does nothing on an empty line.
    pub fn delete_last(&mut self)
        requires
            old(self).wf(),
        ensures
            final(self).wf(),
            old(self).gcount() > 0 ==> final(self).text() == old(self).text().take(
                old(self).start_of(old(self).gcount() - 1) as int,
            ),
            old(self).gcount() == 0 ==> *final(self) == *old(self),
    {
        let c = self.grapheme_count();
        let at = if c > 0 {
            c - 1
        } else {
            0
        };
        self.delete(at);
        proof {
            if old(self).gcount() > 0 {
                assert(old(self).text().skip(old(self).start_of(old(self).gcount() as int) as int)
                    =~= Seq::<char>::empty());
                assert(old(self).text().take(old(self).start_of(old(self).gcount() - 1) as int)
                    + Seq::<char>::empty() =~= old(self).text().take(
                    old(self).start_of(old(self).gcount() - 1) as int,
                ));
            }
        }
    }

    /// Appends the text of `other` (a well-formed line) to this line.
    pub fn append(&mut self, other: &Line)
        requires
            old(self).wf(),
            other.wf(),
        ensures
            final(self).wf(),
            final(self).text() == old(self).text() + other.text(),
    {
        push_all(&mut self.string, &other.string);
        proof {
            assert forall|i: int| 0 <= i < self.string@.len() implies self.string@[i] != '\n' by {
                if i < old(self).text().len() {
                    assert(self.string@[i] == old(self).text()[i]);
                } else {
                    assert(self.string@[i] == other.text()[i - old(self).text().len()]);
                }
            }
        }
        self.rebuild_fragments();
    }

    /// Cuts the line at cluster `at`: this line keeps the clusters before
    /// `at`, and the returned line holds the rest. Splitting at or past the
    /// cluster count leaves the line whole and returns an empty tail.
    pub fn split(&mut self, at: GraphemeIdx) -> (r: Line)
        requires
            old(self).wf(),
        ensures
            final(self).wf(),
            r.wf(),
            final(self).text() == old(self).text().take(old(self).clip_start(at as int) as int),
            r.text() == old(self).text().skip(old(self).clip_start(at as int) as int),
    {
        if at < self.fragments.len() {
            let start = self.fragments[at].start;
            proof {
                lemma_joined_len_mono(self.clusters(), at as int, self.frags().len() as int);
            }
            let tail = self.string.split_off(start);
            proof {
                assert forall|i: int| 0 <= i < self.string@.len() implies self.string@[i]
                    != '\n' by {
                    assert(self.string@[i] == old(self).text()[i]);
                }
                assert forall|i: int| 0 <= i < tail@.len() implies tail@[i] != '\n' by {
                    assert(tail@[i] == old(self).text()[i + start]);
                }
            }
            self.rebuild_fragments();
            Line::from_chars(tail)
        } else {
            proof {
                assert(old(self).text().take(old(self).text().len() as int) =~= old(self).text());
                assert(old(self).text().skip(old(self).text().len() as int) =~= Seq::<
                    char,
                >::empty());
            }
            Line::from_chars(Vec::new())
        }
    }
}

impl Default for Line {
    /// The empty line.
    fn default() -> (r: Line)
        ensures
            r.wf(),
            r.text() == Seq::<char>::empty(),
    {
        Line::from_chars(Vec::new())
    }
}

/// The number of columns the fragments before `k` occupy.
pub open spec fn width_sum(fs: Seq<TextFragment>, k: int) -> nat
    decreases k,
{
    if k <= 0 {
        0
    } else {
        width_sum(fs, k - 1) + fs[k - 1].rendered_width.as_cols()
    }
}

/// Caps a mathematical count at the machine's integer range.
pub open spec fn sat_cap(n: nat) -> nat {
    if n > usize::MAX as nat {
        usize::MAX as nat
    } else {
        n
    }
}

/// Law: the visible width of a well-formed line is exactly the sum of the
/// rendered widths of its fragments.
pub proof fn lemma_width_round_trip(l: Line)
    requires
        l.wf(),
    ensures
        l.visible_width() == sat_cap(width_sum(l.frags(), l.gcount() as int)),
        l.width_upto(l.gcount() as int) == width_sum(l.frags(), l.gcount() as int),
{
}

/// Law: splitting a text at a boundary and appending the tail back
/// reconstructs the original text. This is the shape `split` and `append`
/// give a line's text, so splitting a line and appending the returned tail
/// restores the text the line held before.
pub proof fn lemma_split_append_inverse(t: Seq<char>, p: int)
    requires
        0 <= p <= t.len(),
    ensures
        t.take(p) + t.skip(p) == t,
{
    assert(t.take(p) + t.skip(p) =~= t);
}

} // verus!
