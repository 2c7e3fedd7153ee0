//! The document: an ordered sequence of lines, the identity of the file
//! they came from, and a dirty flag that turns on with any structural edit
//! and off only when a save is confirmed.
//!
//! The buffer owns all structural text edits (character insert and delete,
//! line split and merge) and whole-document bidirectional search. Reading
//! and writing files is the caller's business: loading takes the file's
//! contents as text, and saving hands the serialized text back.
use vstd::prelude::*;

use crate::chars::push_all;
use crate::fileinfo::FileInfo;
use crate::line::Line;
use crate::types::{CharIdx, GraphemeIdx, LineIdx, Location};
use crate::unicode::str_to_chars;

verus! {

/// The position of the first line break in `s` at or after `i`, if any.
pub open spec fn find_nl(s: Seq<char>, i: int) -> Option<int>
    decreases s.len() - i,
{
    if i < 0 || i >= s.len() {
        None
    } else if s[i] == '\n' {
        Some(i)
    } else {
        find_nl(s, i + 1)
    }
}

/// A line as stored from a raw split: with a carriage return before the
/// line break removed.
pub open spec fn strip_cr(l: Seq<char>) -> Seq<char> {
    if l.len() > 0 && l.last() == '\r' {
        l.drop_last()
    } else {
        l
    }
}

/// The lines of `s`: split at each line break (a carriage return directly
/// before one is dropped), with no trailing empty line for a final line
/// break.
pub open spec fn split_lines(s: Seq<char>) -> Seq<Seq<char>>
    decreases s.len(),
    via split_lines_decreases
{
    if s.len() == 0 {
        Seq::empty()
    } else {
        match find_nl(s, 0) {
            Some(i) => seq![strip_cr(s.take(i))] + split_lines(s.skip(i + 1)),
            None => seq![s],
        }
    }
}

#[via_fn]
proof fn split_lines_decreases(s: Seq<char>) {
    if s.len() > 0 {
        lemma_find_nl_some(s, 0);
    }
}

/// A first line break lies between where the search started and the end of
/// the text.
proof fn lemma_find_nl_some(s: Seq<char>, i: int)
    requires
        0 <= i,
    ensures
        find_nl(s, i) matches Some(j) ==> i <= j < s.len() && s[j] == '\n',
    decreases s.len() - i,
{
    if 0 <= i < s.len() && s[i] != '\n' {
        lemma_find_nl_some(s, i + 1);
    }
}

/// The serialized form of a document's lines: each line followed by a line
/// break.
pub open spec fn joined_text(ls: Seq<Seq<char>>) -> Seq<char>
    decreases ls.len(),
{
    if ls.len() == 0 {
        Seq::empty()
    } else {
        joined_text(ls.drop_last()) + ls.last() + seq!['\n']
    }
}

/// The line texts after inserting `character` at `at`: a new one-character
/// line when `at` sits one past the last line, otherwise the character
/// spliced into the addressed line at the addressed cluster's offset.
pub open spec fn insert_char_result(b: Buffer, character: char, at: Location) -> Seq<Seq<char>> {
    let li = at.line_index as int;
    if li == b.height_spec() {
        b.line_texts().push(seq![character])
    } else {
        b.line_texts().update(
            li,
            b.line_texts()[li].insert(
                b.lines@[li].clip_start(at.grapheme_index as int) as int,
                character,
            ),
        )
    }
}

/// The line texts after deleting at `at`: within a line the addressed
/// cluster disappears; at or past a line's end the following line is merged
/// into it; anywhere else nothing changes.
pub open spec fn delete_result(b: Buffer, at: Location) -> Seq<Seq<char>> {
    let li = at.line_index as int;
    let gi = at.grapheme_index as int;
    let ts = b.line_texts();
    if li < ts.len() && gi >= b.lines@[li].gcount() && li + 1 < ts.len() {
        ts.update(li, ts[li] + ts[li + 1]).remove(li + 1)
    } else if li < ts.len() && gi < b.lines@[li].gcount() {
        ts.update(
            li,
            ts[li].take(b.lines@[li].start_of(gi) as int) + ts[li].skip(
                b.lines@[li].start_of(gi + 1) as int,
            ),
        )
    } else {
        ts
    }
}

/// Whether deleting at `at` changes the document.
pub open spec fn delete_changes(b: Buffer, at: Location) -> bool {
    let li = at.line_index as int;
    let gi = at.grapheme_index as int;
    li < b.height_spec() && (gi < b.lines@[li].gcount() || li + 1 < b.height_spec())
}

/// The line texts after breaking the line at `at`: one past the last line a
/// new empty line appears; otherwise the addressed line is cut at the
/// addressed cluster and the tail becomes the next line.
pub open spec fn insert_newline_result(b: Buffer, at: Location) -> Seq<Seq<char>> {
    let li = at.line_index as int;
    let ts = b.line_texts();
    if li == b.height_spec() {
        ts.push(Seq::<char>::empty())
    } else {
        let p = b.lines@[li].clip_start(at.grapheme_index as int) as int;
        ts.update(li, ts[li].take(p)).insert(li + 1, ts[li].skip(p))
    }
}

/// A document held in memory.
pub struct Buffer {
    pub lines: Vec<Line>,
    pub file_info: FileInfo,
    pub dirty: bool,
}

impl Buffer {
    /// Every line's fragment table matches its text.
    pub open spec fn wf(self) -> bool {
        forall|i: int| 0 <= i < self.lines@.len() ==> (#[trigger] self.lines@[i]).wf()
    }

    /// The texts of the lines, in order.
    pub open spec fn line_texts(self) -> Seq<Seq<char>> {
        self.lines@.map_values(|l: Line| l.text())
    }

    /// The number of lines.
    pub open spec fn height_spec(self) -> nat {
        self.lines@.len()
    }

    /// An empty, unsaved document.
    pub fn new() -> (r: Buffer)
        ensures
            r.wf(),
            r.lines@.len() == 0,
            r.file_info.path is None,
            r.dirty == false,
    {
        Buffer { lines: Vec::new(), file_info: FileInfo::none(), dirty: false }
    }

    /// A document holding the given text, split into lines, belonging to
    /// the named file. The caller reads the file; this builds the document.
    pub fn load(contents: &str, file_name: &str) -> (r: Buffer)
        ensures
            r.wf(),
            r.line_texts() == split_lines(contents@),
            r.file_info.path matches Some(p) && p@ == file_name@,
            r.dirty == false,
    {
        let chars = str_to_chars(contents);
        let n = chars.len();
        let mut lines: Vec<Line> = Vec::new();
        let mut cur: Vec<char> = Vec::new();
        let mut i: usize = 0;
        proof {
            assert(cur@ + chars@.skip(0) =~= chars@);
            assert(lines@.map_values(|l: Line| l.text()) + split_lines(chars@) =~= split_lines(
                chars@,
            ));
        }
        while i < n
            invariant
                n == chars@.len(),
                i <= n,
                forall|k: int| 0 <= k < cur@.len() ==> cur@[k] != '\n',
                forall|k: int| 0 <= k < lines@.len() ==> (#[trigger] lines@[k]).wf(),
                split_lines(chars@) == lines@.map_values(|l: Line| l.text()) + split_lines(
                    cur@ + chars@.skip(i as int),
                ),
            decreases n - i,
        {
            let c = chars[i];
            let ghost pre_lines = lines@;
            let ghost pre_cur = cur@;
            if c == '\n' {
                proof {
                    lemma_split_lines_break(pre_cur, chars@.skip(i as int + 1));
                    assert(pre_cur + chars@.skip(i as int) =~= (pre_cur + seq!['\n']) + chars@.skip(
                        i as int + 1,
                    ));
                }
                if cur.len() > 0 && cur[cur.len() - 1] == '\r' {
                    cur.pop();
                }
                proof {
                    assert(cur@ == strip_cr(pre_cur));
                }
                let line = Line::from_chars(cur);
                lines.push(line);
                cur = Vec::new();
                proof {
                    assert(lines@.map_values(|l: Line| l.text()) =~= pre_lines.map_values(
                        |l: Line| l.text(),
                    ).push(strip_cr(pre_cur)));
                    assert(pre_lines.map_values(|l: Line| l.text()).push(strip_cr(pre_cur))
                        + split_lines(chars@.skip(i as int + 1)) =~= pre_lines.map_values(
                        |l: Line| l.text(),
                    ) + (seq![strip_cr(pre_cur)] + split_lines(chars@.skip(i as int + 1))));
                    assert(cur@ + chars@.skip(i as int + 1) =~= chars@.skip(i as int + 1));
                }
            } else {
                cur.push(c);
                proof {
                    assert(cur@ + chars@.skip(i as int + 1) =~= pre_cur + chars@.skip(i as int));
                }
            }
            i = i + 1;
        }
        proof {
            assert(chars@.skip(n as int) =~= Seq::<char>::empty());
            assert(cur@ + chars@.skip(n as int) =~= cur@);
        }
        if cur.len() > 0 {
            proof {
                lemma_split_lines_no_break(cur@);
            }
            let ghost pre_lines = lines@;
            let line = Line::from_chars(cur);
            lines.push(line);
            proof {
                assert(lines@.map_values(|l: Line| l.text()) =~= pre_lines.map_values(
                    |l: Line| l.text(),
                ).push(line.text()));
                assert(pre_lines.map_values(|l: Line| l.text()).push(line.text())
                    =~= pre_lines.map_values(|l: Line| l.text()) + seq![line.text()]);
            }
        } else {
            proof {
                assert(split_lines(cur@) == Seq::<Seq<char>>::empty());
                assert(lines@.map_values(|l: Line| l.text()) + Seq::<Seq<char>>::empty()
                    =~= lines@.map_values(|l: Line| l.text()));
            }
        }
        Buffer { lines, file_info: FileInfo::from(file_name), dirty: false }
    }

    /// The document serialized for saving: every line followed by a line
    /// break.
    pub fn save_content(&self) -> (r: Vec<char>)
        ensures
            r@ == joined_text(self.line_texts()),
    {
        let mut out: Vec<char> = Vec::new();
        let mut i: usize = 0;
        while i < self.lines.len()
            invariant
                i <= self.lines@.len(),
                out@ == joined_text(self.line_texts().take(i as int)),
            decreases self.lines@.len() - i,
        {
            let ghost pre = out@;
            push_all(&mut out, &self.lines[i].string);
            out.push('\n');
            proof {
                let ts = self.line_texts();
                assert(ts.take(i as int + 1).drop_last() =~= ts.take(i as int));
                assert(ts.take(i as int + 1).last() == ts[i as int]);
                assert(out@ =~= joined_text(ts.take(i as int)) + ts[i as int] + seq!['\n']);
            }
            i = i + 1;
        }
        proof {
            assert(self.line_texts().take(self.lines@.len() as int) =~= self.line_texts());
        }
        out
    }

    /// Marks the document as saved: called when a save has succeeded, with
    /// the identity it was saved under.
    pub fn confirm_saved(&mut self, file_info: FileInfo)
        ensures
            final(self).lines == old(self).lines,
            final(self).file_info == file_info,
            final(self).dirty == false,
    {
        self.file_info = file_info;
        self.dirty = false;
    }

    /// Whether the document has no lines at all.
    pub fn is_empty(&self) -> (r: bool)
        ensures
            r == (self.lines@.len() == 0),
    {
        self.lines.is_empty()
    }

    /// Whether the document belongs to a file.
    pub fn is_file_loaded(&self) -> (r: bool)
        ensures
            r == (self.file_info.path is Some),
    {
        self.file_info.has_path()
    }

    /// The number of lines.
    pub fn height(&self) -> (r: LineIdx)
        ensures
            r == self.height_spec(),
    {
        self.lines.len()
    }

    /// The grapheme count of line `li`.
    pub fn line_grapheme_count(&self, li: LineIdx) -> (r: GraphemeIdx)
        requires
            li < self.height_spec(),
        ensures
            r == self.lines@[li as int].gcount(),
    {
        self.lines[li].grapheme_count()
    }

    /// Inserts a character (never a line break) at the given location: a
    /// new one-character line when the location sits one past the last
    /// line, otherwise in place within the addressed line. The document
    /// becomes dirty.
    #[verifier::rlimit(50)]
    pub fn insert_char(&mut self, character: char, at: Location)
        requires
            old(self).wf(),
            at.line_index <= old(self).height_spec(),
            character != '\n',
        ensures
            final(self).wf(),
            final(self).dirty,
            final(self).file_info == old(self).file_info,
            final(self).line_texts() == insert_char_result(*old(self), character, at),
    {
        if at.line_index == self.lines.len() {
            let mut v: Vec<char> = Vec::new();
            v.push(character);
            proof {
                assert(forall|i: int| 0 <= i < v@.len() ==> v@[i] != '\n');
            }
            let line = Line::from_chars(v);
            self.lines.push(line);
            proof {
                assert(self.line_texts() =~= old(self).line_texts().push(seq![character]));
            }
        } else {
            let li = at.line_index;
            let mut line = self.lines.remove(li);
            line.insert_char(character, at.grapheme_index);
            self.lines.insert(li, line);
            proof {
                assert(self.line_texts() =~= old(self).line_texts().update(
                    li as int,
                    old(self).line_texts()[li as int].insert(
                        old(self).lines@[li as int].clip_start(at.grapheme_index as int) as int,
                        character,
                    ),
                ));
            }
        }
        self.dirty = true;
    }

    /// Deletes at the given location: within a line it removes the
    /// addressed grapheme cluster; at or past the end of a line it merges
    /// the following line into it, when there is one. The document becomes
    /// dirty exactly when something changed.
    #[verifier::rlimit(100)]
    pub fn delete(&mut self, at: Location)
        requires
            old(self).wf(),
        ensures
            final(self).wf(),
            final(self).file_info == old(self).file_info,
            final(self).line_texts() == delete_result(*old(self), at),
            final(self).dirty == (old(self).dirty || delete_changes(*old(self), at)),
    {
        let height = self.lines.len();
        if at.line_index >= height {
            return ;
        }
        let li = at.line_index;
        let count = self.lines[li].grapheme_count();
        if at.grapheme_index >= count && li + 1 < height {
            let next_line = self.lines.remove(li + 1);
            let mut line = self.lines.remove(li);
            line.append(&next_line);
            self.lines.insert(li, line);
            proof {
                let ts = old(self).line_texts();
                assert(self.line_texts() =~= ts.update(li as int, ts[li as int] + ts[li as int
                    + 1]).remove(li as int + 1));
            }
            self.dirty = true;
        } else if at.grapheme_index < count {
            let mut line = self.lines.remove(li);
            line.delete(at.grapheme_index);
            self.lines.insert(li, line);
            proof {
                let ts = old(self).line_texts();
                assert(self.line_texts() =~= ts.update(
                    li as int,
                    ts[li as int].take(old(self).lines@[li as int].start_of(
                        at.grapheme_index as int,
                    ) as int) + ts[li as int].skip(old(self).lines@[li as int].start_of(
                        at.grapheme_index as int + 1,
                    ) as int),
                ));
            }
            self.dirty = true;
        }
    }

    /// Splits the addressed line at the given grapheme index, inserting the
    /// tail as a new line right after it; one past the last line, it
    /// appends a new empty line. The document becomes dirty.
    #[verifier::rlimit(50)]
    pub fn insert_newline(&mut self, at: Location)
        requires
            old(self).wf(),
            at.line_index <= old(self).height_spec(),
        ensures
            final(self).wf(),
            final(self).dirty,
            final(self).file_info == old(self).file_info,
            final(self).line_texts() == insert_newline_result(*old(self), at),
    {
        if at.line_index == self.lines.len() {
            let line = Line::from_chars(Vec::new());
            self.lines.push(line);
            proof {
                assert(self.line_texts() =~= old(self).line_texts().push(Seq::<char>::empty()));
            }
        } else {
            let li = at.line_index;
            let mut line = self.lines.remove(li);
            let tail = line.split(at.grapheme_index);
            self.lines.insert(li, line);
            self.lines.insert(li + 1, tail);
            proof {
                let ts = old(self).line_texts();
                let p = old(self).lines@[li as int].clip_start(at.grapheme_index as int) as int;
                assert(self.line_texts() =~= ts.update(li as int, ts[li as int].take(p)).insert(
                    li as int + 1,
                    ts[li as int].skip(p),
                ));
            }
        }
        self.dirty = true;
    }
}

impl Buffer {
    /// The line after `li` in cyclic order.
    pub open spec fn next_line(self, li: int) -> int {
        if li + 1 >= self.height_spec() {
            0
        } else {
            li + 1
        }
    }

    /// The line before `li` in cyclic order.
    pub open spec fn prev_line(self, li: int) -> int {
        if li <= 0 {
            self.height_spec() as int - 1
        } else {
            li - 1
        }
    }

    /// The first aligned match of `q` in line `li` at or after cluster
    /// `from_g`, as a cluster index.
    pub open spec fn line_first_match(self, q: Seq<char>, li: int, from_g: int) -> Option<int> {
        let l = self.lines@[li];
        let ml = l.match_list(q, l.start_of(from_g) as int, l.text().len() as int);
        if ml.len() > 0 {
            Some(ml[0].1 as int)
        } else {
            None
        }
    }

    /// The last aligned match of `q` in line `li` that ends at or before
    /// the start of cluster `end_g`.
    pub open spec fn line_last_match(self, q: Seq<char>, li: int, end_g: int) -> Option<int> {
        let l = self.lines@[li];
        let ml = l.match_list(q, 0, l.start_of(end_g) as int);
        if ml.len() > 0 {
            Some(ml[ml.len() - 1].1 as int)
        } else {
            None
        }
    }

    /// A cyclic scan downward over whole lines: visit `steps` lines from
    /// `li` on, each from its start, and stop at the first that holds a
    /// match.
    pub open spec fn scan_forward(self, q: Seq<char>, li: int, steps: int) -> Option<Location>
        decreases steps,
    {
        if steps <= 0 {
            None
        } else {
            match self.line_first_match(q, li, 0) {
                Some(g) => Some(Location { grapheme_index: g as usize, line_index: li as usize }),
                None => self.scan_forward(q, self.next_line(li), steps - 1),
            }
        }
    }

    /// A cyclic scan upward over whole lines: visit `steps` lines from `li`
    /// on, each from its end, and stop at the first that holds a match.
    pub open spec fn scan_backward(self, q: Seq<char>, li: int, steps: int) -> Option<Location>
        decreases steps,
    {
        if steps <= 0 {
            None
        } else {
            match self.line_last_match(q, li, self.lines@[li].gcount() as int) {
                Some(g) => Some(Location { grapheme_index: g as usize, line_index: li as usize }),
                None => self.scan_backward(q, self.prev_line(li), steps - 1),
            }
        }
    }

    /// What forward search returns: the first match in the starting line at
    /// or after the starting cluster, or else the first match of a full
    /// cyclic scan of the following lines — which ends by revisiting the
    /// starting line from its beginning, so no line goes unsearched.
    pub open spec fn search_forward_spec(self, q: Seq<char>, from: Location) -> Option<Location> {
        if q.len() == 0 || self.height_spec() == 0 {
            None
        } else {
            match self.line_first_match(q, from.line_index as int, from.grapheme_index as int) {
                Some(g) => Some(
                    Location { grapheme_index: g as usize, line_index: from.line_index },
                ),
                None => self.scan_forward(
                    q,
                    self.next_line(from.line_index as int),
                    self.height_spec() as int,
                ),
            }
        }
    }

    /// What backward search returns: the last match in the starting line
    /// ending at or before the starting cluster, or else the first match of
    /// a full cyclic scan of the preceding lines, each searched from its
    /// end.
    pub open spec fn search_backward_spec(self, q: Seq<char>, from: Location) -> Option<Location> {
        if q.len() == 0 || self.height_spec() == 0 {
            None
        } else {
            let first = if from.grapheme_index == 0 {
                None
            } else {
                self.line_last_match(q, from.line_index as int, from.grapheme_index as int)
            };
            match first {
                Some(g) => Some(
                    Location { grapheme_index: g as usize, line_index: from.line_index },
                ),
                None => self.scan_backward(
                    q,
                    self.prev_line(from.line_index as int),
                    self.height_spec() as int,
                ),
            }
        }
    }

    /// Searches the document downward from `from`, cyclically: the rest of
    /// the starting line, the following lines, and the starting line once
    /// more from its beginning. An empty query finds nothing.
    pub fn search_forward(&self, query: &str, from: Location) -> (r: Option<Location>)
        requires
            self.wf(),
            self.height_spec() > 0 ==> from.line_index < self.height_spec()
                && from.grapheme_index <= self.lines@[from.line_index as int].gcount(),
        ensures
            r == self.search_forward_spec(query@, from),
    {
        if query.is_empty() || self.lines.is_empty() {
            return None;
        }
        let height = self.lines.len();
        match self.lines[from.line_index].search_forward(query, from.grapheme_index) {
            Some(g) => {
                return Some(Location { grapheme_index: g, line_index: from.line_index });
            },
            None => {},
        }
        let start_li = if from.line_index + 1 >= height {
            0
        } else {
            from.line_index + 1
        };
        let mut li = start_li;
        let mut k: usize = 0;
        while k < height
            invariant
                self.wf(),
                query@.len() > 0,
                height == self.height_spec(),
                height > 0,
                k <= height,
                li < height,
                from.line_index < height,
                start_li as int == self.next_line(from.line_index as int),
                self.line_first_match(
                    query@,
                    from.line_index as int,
                    from.grapheme_index as int,
                ) is None,
                self.scan_forward(query@, start_li as int, height as int) == self.scan_forward(
                    query@,
                    li as int,
                    (height - k) as int,
                ),
            decreases height - k,
        {
            let ghost steps = (height - k) as int;
            match self.lines[li].search_forward(query, 0) {
                Some(g) => {
                    proof {
                        assert(self.line_first_match(query@, li as int, 0) == Some(g as int));
                        assert(self.scan_forward(query@, li as int, steps) == Some(
                            Location { grapheme_index: g, line_index: li },
                        ));
                    }
                    return Some(Location { grapheme_index: g, line_index: li });
                },
                None => {},
            }
            proof {
                assert(self.line_first_match(query@, li as int, 0) is None);
                assert(self.scan_forward(query@, li as int, steps) == self.scan_forward(
                    query@,
                    self.next_line(li as int),
                    steps - 1,
                ));
            }
            li = if li + 1 >= height {
                0
            } else {
                li + 1
            };
            k = k + 1;
        }
        None
    }

    /// Searches the document upward from `from`, cyclically: the start of
    /// the starting line, the preceding lines from their ends, and the
    /// starting line once more from its end. An empty query finds nothing.
    pub fn search_backward(&self, query: &str, from: Location) -> (r: Option<Location>)
        requires
            self.wf(),
            self.height_spec() > 0 ==> from.line_index < self.height_spec()
                && from.grapheme_index <= self.lines@[from.line_index as int].gcount(),
        ensures
            r == self.search_backward_spec(query@, from),
    {
        if query.is_empty() || self.lines.is_empty() {
            return None;
        }
        let height = self.lines.len();
        match self.lines[from.line_index].search_backward(query, from.grapheme_index) {
            Some(g) => {
                return Some(Location { grapheme_index: g, line_index: from.line_index });
            },
            None => {},
        }
        let start_li = if from.line_index == 0 {
            height - 1
        } else {
            from.line_index - 1
        };
        let mut li = start_li;
        let mut k: usize = 0;
        while k < height
            invariant
                self.wf(),
                query@.len() > 0,
                height == self.height_spec(),
                height > 0,
                k <= height,
                li < height,
                from.line_index < height,
                start_li as int == self.prev_line(from.line_index as int),
                from.grapheme_index == 0 || self.line_last_match(
                    query@,
                    from.line_index as int,
                    from.grapheme_index as int,
                ) is None,
                self.scan_backward(query@, start_li as int, height as int) == self.scan_backward(
                    query@,
                    li as int,
                    (height - k) as int,
                ),
            decreases height - k,
        {
            let ghost steps = (height - k) as int;
            let c = self.lines[li].grapheme_count();
            match self.lines[li].search_backward(query, c) {
                Some(g) => {
                    proof {
                        assert(self.line_last_match(query@, li as int, c as int) == Some(g as int));
                        assert(self.scan_backward(query@, li as int, steps) == Some(
                            Location { grapheme_index: g, line_index: li },
                        ));
                    }
                    return Some(Location { grapheme_index: g, line_index: li });
                },
                None => {},
            }
            proof {
                let l = self.lines@[li as int];
                if c == 0 {
                    assert(l.start_of(0) == 0);
                    assert(l.match_list(query@, 0, l.start_of(0) as int) == Seq::<
                        (crate::types::CharIdx, GraphemeIdx),
                    >::empty());
                }
                assert(self.line_last_match(query@, li as int, c as int) is None);
                assert(self.scan_backward(query@, li as int, steps) == self.scan_backward(
                    query@,
                    self.prev_line(li as int),
                    steps - 1,
                ));
            }
            li = if li == 0 {
                height - 1
            } else {
                li - 1
            };
            k = k + 1;
        }
        None
    }
}

/// A forward scan only ever reports a real cluster of a real line.
#[verifier::rlimit(50)]
proof fn lemma_scan_forward_valid(b: Buffer, q: Seq<char>, li: int, steps: int)
    requires
        b.wf(),
        b.height_spec() <= usize::MAX,
        0 <= li < b.height_spec(),
    ensures
        b.scan_forward(q, li, steps) matches Some(loc) ==> loc.line_index < b.height_spec()
            && loc.grapheme_index < b.lines@[loc.line_index as int].gcount(),
    decreases steps,
{
    if steps > 0 {
        let l = b.lines@[li];
        crate::search::lemma_match_list_elems(l, q, l.start_of(0) as int, l.text().len() as int);
        if b.line_first_match(q, li, 0) is Some {
        } else {
            lemma_scan_forward_valid(b, q, b.next_line(li), steps - 1);
        }
    }
}

/// A backward scan only ever reports a real cluster of a real line.
#[verifier::rlimit(50)]
proof fn lemma_scan_backward_valid(b: Buffer, q: Seq<char>, li: int, steps: int)
    requires
        b.wf(),
        b.height_spec() <= usize::MAX,
        0 <= li < b.height_spec(),
    ensures
        b.scan_backward(q, li, steps) matches Some(loc) ==> loc.line_index < b.height_spec()
            && loc.grapheme_index < b.lines@[loc.line_index as int].gcount(),
    decreases steps,
{
    if steps > 0 {
        let l = b.lines@[li];
        crate::search::lemma_match_list_elems(l, q, 0, l.start_of(l.gcount() as int) as int);
        if b.line_last_match(q, li, l.gcount() as int) is Some {
        } else {
            lemma_scan_backward_valid(b, q, b.prev_line(li), steps - 1);
        }
    }
}

/// Whatever a document search returns is a real cluster of a real line.
#[verifier::rlimit(50)]
pub proof fn lemma_search_spec_valid(b: Buffer, q: Seq<char>, from: Location)
    requires
        b.wf(),
        b.height_spec() <= usize::MAX,
        b.height_spec() > 0 ==> from.line_index < b.height_spec(),
    ensures
        b.search_forward_spec(q, from) matches Some(loc) ==> loc.line_index < b.height_spec()
            && loc.grapheme_index < b.lines@[loc.line_index as int].gcount(),
        b.search_backward_spec(q, from) matches Some(loc) ==> loc.line_index < b.height_spec()
            && loc.grapheme_index < b.lines@[loc.line_index as int].gcount(),
{
    if q.len() > 0 && b.height_spec() > 0 {
        let l = b.lines@[from.line_index as int];
        crate::search::lemma_match_list_elems(
            l,
            q,
            l.start_of(from.grapheme_index as int) as int,
            l.text().len() as int,
        );
        crate::search::lemma_match_list_elems(l, q, 0, l.start_of(from.grapheme_index as int) as int);
        lemma_scan_forward_valid(b, q, b.next_line(from.line_index as int), b.height_spec() as int);
        lemma_scan_backward_valid(
            b,
            q,
            b.prev_line(from.line_index as int),
            b.height_spec() as int,
        );
    }
}

/// A full cyclic scan reaches every line: starting anywhere, with at least
/// as many steps as the document has lines, the scan returns a match
/// whenever some line's whole-line enumeration lists one.
pub proof fn lemma_scan_forward_finds(b: Buffer, q: Seq<char>, li: int, steps: int, target: int)
    requires
        b.wf(),
        q.len() > 0,
        0 <= li < b.height_spec(),
        0 <= target < b.height_spec(),
        b.lines@[target].match_list(
            q,
            b.lines@[target].start_of(0) as int,
            b.lines@[target].text().len() as int,
        ).len() > 0,
        steps > if target >= li {
            target - li
        } else {
            target + b.height_spec() - li
        },
    ensures
        b.scan_forward(q, li, steps) is Some,
    decreases steps,
{
    if b.line_first_match(q, li, 0) is Some {
    } else {
        assert(li != target);
        lemma_scan_forward_finds(b, q, b.next_line(li), steps - 1, target);
    }
}

/// Law: forward search covers the whole document. If any line's whole-line
/// enumeration lists a match of a non-empty query, a search starting at any
/// valid location returns a match within one full cyclic pass.
#[verifier::rlimit(100)]
pub proof fn lemma_search_forward_coverage(b: Buffer, q: Seq<char>, from: Location, target: int)
    requires
        b.wf(),
        q.len() > 0,
        b.height_spec() > 0,
        from.line_index < b.height_spec(),
        0 <= target < b.height_spec(),
        b.lines@[target].match_list(
            q,
            b.lines@[target].start_of(0) as int,
            b.lines@[target].text().len() as int,
        ).len() > 0,
    ensures
        b.search_forward_spec(q, from) is Some,
{
    if b.line_first_match(q, from.line_index as int, from.grapheme_index as int) is Some {
    } else {
        let li = b.next_line(from.line_index as int);
        let h = b.height_spec() as int;
        lemma_scan_forward_finds(b, q, li, h, target);
    }
}

/// Law: with exactly one occurrence of the query on every line — line `li`
/// holding it at offset `pos[li]`, the start of cluster `occ[li]` — a
/// forward search that starts past the current line's occurrence finds the
/// next line's occurrence, in cyclic order. Stepping from occurrence to
/// occurrence therefore visits every occurrence exactly once before coming
/// back to the first.
#[verifier::rlimit(100)]
pub proof fn lemma_search_next_reaches_next_line(
    b: Buffer,
    q: Seq<char>,
    pos: Seq<CharIdx>,
    occ: Seq<GraphemeIdx>,
    from: Location,
)
    requires
        b.wf(),
        q.len() >= 1,
        b.height_spec() >= 1,
        b.height_spec() <= usize::MAX,
        pos.len() == b.height_spec(),
        occ.len() == b.height_spec(),
        forall|li: int, s: int|
            0 <= li < b.height_spec() ==> (#[trigger] crate::search::match_at(
                b.lines@[li].text(),
                q,
                s,
            ) <==> s == pos[li]),
        forall|li: int|
            0 <= li < b.height_spec() ==> b.lines@[li].aligned_at(q, #[trigger] pos[li] as int),
        forall|li: int|
            0 <= li < b.height_spec() ==> (#[trigger] occ[li]) <= b.lines@[li].gcount()
                && b.lines@[li].start_of(occ[li] as int) == pos[li],
        from.line_index < b.height_spec(),
        from.grapheme_index <= b.lines@[from.line_index as int].gcount(),
        b.lines@[from.line_index as int].start_of(from.grapheme_index as int) > pos[from.line_index as int],
    ensures
        b.search_forward_spec(q, from) == Some(
            Location {
                grapheme_index: occ[b.next_line(from.line_index as int)],
                line_index: b.next_line(from.line_index as int) as usize,
            },
        ),
{
    let li = from.line_index as int;
    let l = b.lines@[li];
    let lo = l.start_of(from.grapheme_index as int) as int;
    crate::search::lemma_match_list_elems(l, q, lo, l.text().len() as int);
    assert(l.match_list(q, lo, l.text().len() as int).len() == 0) by {
        if l.match_list(q, lo, l.text().len() as int).len() > 0 {
            let e = l.match_list(q, lo, l.text().len() as int)[0];
            assert(crate::search::match_at(l.text(), q, e.0 as int));
            assert(e.0 == pos[li]);
            assert(lo <= e.0);
        }
    }
    assert(b.line_first_match(q, li, from.grapheme_index as int) is None);
    let nli = b.next_line(li);
    let nl = b.lines@[nli];
    assert(nl.start_of(0) == 0);
    assert(pos[nli] + q.len() <= nl.text().len()) by {
        assert(crate::search::match_at(nl.text(), q, pos[nli] as int));
    }
    crate::search::lemma_match_list_first(
        nl,
        q,
        0,
        nl.text().len() as int,
        pos[nli] as int,
    );
    crate::search::lemma_cluster_index(nl, occ[nli] as int, pos[nli] as int);
    let ml = nl.match_list(q, nl.start_of(0) as int, nl.text().len() as int);
    assert(ml[0] == (pos[nli], occ[nli]));
    assert(b.line_first_match(q, nli, 0) == Some(occ[nli] as int));
    assert(b.scan_forward(q, nli, b.height_spec() as int) == Some(
        Location { grapheme_index: occ[nli], line_index: nli as usize },
    ));
}

/// Splitting text that begins with a clean line (no break in it) followed
/// by a break yields that line, then the split of the rest.
proof fn lemma_split_lines_break(cur: Seq<char>, rest: Seq<char>)
    requires
        forall|k: int| 0 <= k < cur.len() ==> cur[k] != '\n',
    ensures
        split_lines((cur + seq!['\n']) + rest) == seq![strip_cr(cur)] + split_lines(rest),
{
    let s = (cur + seq!['\n']) + rest;
    lemma_find_nl_clean_prefix(s, cur.len() as int, 0);
    assert(find_nl(s, 0) == Some(cur.len() as int));
    assert(s.take(cur.len() as int) =~= cur);
    assert(s.skip(cur.len() as int + 1) =~= rest);
}

/// Text without any line break splits into itself as its only line.
proof fn lemma_split_lines_no_break(cur: Seq<char>)
    requires
        cur.len() > 0,
        forall|k: int| 0 <= k < cur.len() ==> cur[k] != '\n',
    ensures
        split_lines(cur) == seq![cur],
{
    lemma_find_nl_none(cur, 0);
}

/// In text whose first `nl` characters are break-free and whose character
/// at `nl` is a break, the first break at or after `i <= nl` is at `nl`.
proof fn lemma_find_nl_clean_prefix(s: Seq<char>, nl: int, i: int)
    requires
        0 <= i <= nl < s.len(),
        s[nl] == '\n',
        forall|k: int| 0 <= k < nl ==> s[k] != '\n',
    ensures
        find_nl(s, i) == Some(nl),
    decreases nl - i,
{
    if i < nl {
        lemma_find_nl_clean_prefix(s, nl, i + 1);
    }
}

/// Break-free text has no first break.
proof fn lemma_find_nl_none(s: Seq<char>, i: int)
    requires
        0 <= i,
        forall|k: int| 0 <= k < s.len() ==> s[k] != '\n',
    ensures
        find_nl(s, i) is None,
    decreases s.len() - i,
{
    if i < s.len() {
        lemma_find_nl_none(s, i + 1);
    }
}

} // verus!
