//! The viewport/cursor controller: owns the document, a cursor location, a
//! visible window size and a scroll offset, and the search-mode state.
//!
//! After every cursor move the scroll offset is adjusted, axis by axis, so
//! the cursor's rendered position falls inside the visible window. Search
//! mode snapshots the cursor and scroll state on entry and restores them
//! exactly on dismissal.
use vstd::prelude::*;
use vstd::view::View as ViewTrait;

use crate::annotated::AnnotatedString;
use crate::buffer::{
    delete_changes, delete_result, insert_char_result, insert_newline_result, Buffer,
};
use crate::command::{Edit, Move};
use crate::documentstatus::DocumentStatus;
use crate::line::{sat_cap, Line};
use crate::types::{ColIdx, GraphemeIdx, Location, Position, RowIdx, Size};

verus! {

/// What search mode remembers: where the cursor and the scroll offset stood
/// when search began (to restore them on dismissal), and the query typed so
/// far.
pub struct SearchInfo {
    pub prev_location: Location,
    pub prev_scroll_offset: Position,
    pub query: Option<Line>,
}

/// The scroll offset of one axis after bringing position `to` into a window
/// of `size` cells that currently starts at `off`: align the window's start
/// to `to` when `to` lies before it, scroll the minimum amount when `to`
/// lies at or past its end, and stay put otherwise.
pub open spec fn scrolled_offset(off: nat, to: nat, size: nat) -> nat {
    if to < off {
        to
    } else if to >= sat_cap(off + size) {
        sat_cap((if to >= size {
            (to - size) as nat
        } else {
            0
        }) + 1)
    } else {
        off
    }
}

/// Whether bringing `to` into view moves the offset.
pub open spec fn scroll_changes(off: nat, to: nat, size: nat) -> bool {
    to < off || to >= sat_cap(off + size)
}

/// Law (viewport containment): bringing a position into view really places
/// it inside the window, whenever the window has any extent at all.
pub proof fn lemma_scrolled_offset_contains(off: nat, to: nat, size: nat)
    requires
        size >= 1,
        off <= usize::MAX,
        to <= usize::MAX,
    ensures
        scrolled_offset(off, to, size) <= to,
        to < scrolled_offset(off, to, size) + size,
{
}

/// The viewport: the document, the cursor, the window, the scroll offset,
/// and the search-mode state.
pub struct View {
    pub buffer: Buffer,
    pub needs_redraw: bool,
    pub size: Size,
    pub text_location: Location,
    pub scroll_offset: Position,
    pub search_info: Option<SearchInfo>,
}

/// The cluster count of line `li` of `b`, zero past the last line.
pub open spec fn line_gcount(b: Buffer, li: int) -> nat {
    if 0 <= li < b.height_spec() {
        b.lines@[li].gcount()
    } else {
        0
    }
}

/// The given location, re-validated against the document's current shape:
/// the cluster index clamped to the addressed line, then the line index
/// clamped to the document height.
pub open spec fn revalidated_loc(b: Buffer, loc: Location) -> Location {
    let gc = line_gcount(b, loc.line_index as int);
    let gi = if loc.grapheme_index <= gc {
        loc.grapheme_index as nat
    } else {
        gc
    };
    let li = if loc.line_index <= b.height_spec() {
        loc.line_index as nat
    } else {
        b.height_spec()
    };
    Location { grapheme_index: gi as usize, line_index: li as usize }
}

/// The location a vertical move of `loc` to line `li2` lands on: the line
/// clamped to the document height, the cluster clamped to the destination
/// line.
pub open spec fn vertical_dest(b: Buffer, li2: nat, gi: nat) -> Location {
    let lic = if li2 <= b.height_spec() {
        li2
    } else {
        b.height_spec()
    };
    let gc = line_gcount(b, lic as int);
    Location {
        grapheme_index: (if gi <= gc {
            gi
        } else {
            gc
        }) as usize,
        line_index: lic as usize,
    }
}

/// Where a move command sends the cursor of a window of size `size` over
/// document `b` from `loc`: vertical moves clamp the cluster index to the
/// destination line and the line index to the document height; horizontal
/// moves that overflow a line boundary roll onto the adjacent line.
pub open spec fn move_dest(b: Buffer, size: Size, loc: Location, command: Move) -> Location {
    let li = loc.line_index as nat;
    let gi = loc.grapheme_index as nat;
    let page = (if size.height >= 1 {
        (size.height - 1) as nat
    } else {
        0
    });
    match command {
        Move::Up => vertical_dest(b, (if li >= 1 {
            (li - 1) as nat
        } else {
            0
        }), gi),
        Move::Down => vertical_dest(b, sat_cap((li + 1) as nat), gi),
        Move::PageUp => vertical_dest(b, (if li >= page {
            (li - page) as nat
        } else {
            0
        }), gi),
        Move::PageDown => vertical_dest(b, sat_cap((li + page) as nat), gi),
        Move::StartOfLine => Location { grapheme_index: 0, line_index: li as usize },
        Move::EndOfLine => Location {
            grapheme_index: line_gcount(b, li as int) as usize,
            line_index: li as usize,
        },
        Move::Right => {
            if gi < line_gcount(b, li as int) {
                Location { grapheme_index: (gi + 1) as usize, line_index: li as usize }
            } else {
                vertical_dest(b, sat_cap((li + 1) as nat), 0)
            }
        },
        Move::Left => {
            if gi >= 1 {
                Location { grapheme_index: (gi - 1) as usize, line_index: li as usize }
            } else if li >= 1 {
                Location {
                    grapheme_index: line_gcount(b, li - 1) as usize,
                    line_index: (li - 1) as usize,
                }
            } else {
                loc
            }
        },
    }
}

/// What one edit command, applied at the cursor of `pre`, leaves behind in
/// `post`: the exact new line texts, the dirty flag, and where the cursor
/// lands (re-validated against the new document; after an insertion that
/// grew the line or a line break it also steps right).
pub open spec fn edit_applied(pre: View, post: View, command: Edit) -> bool {
    &&& post.size == pre.size
    &&& post.search_info == pre.search_info
    &&& post.buffer.file_info == pre.buffer.file_info
    &&& match command {
        Edit::Insert(c) => {
            &&& post.buffer.line_texts() == insert_char_result(pre.buffer, c, pre.text_location)
            &&& post.buffer.dirty
            &&& post.needs_redraw
            &&& post.text_location == (if line_gcount(
                post.buffer,
                pre.text_location.line_index as int,
            ) > line_gcount(pre.buffer, pre.text_location.line_index as int) {
                move_dest(
                    post.buffer,
                    pre.size,
                    revalidated_loc(post.buffer, pre.text_location),
                    Move::Right,
                )
            } else {
                revalidated_loc(post.buffer, pre.text_location)
            })
        },
        Edit::Delete => {
            &&& post.buffer.line_texts() == delete_result(pre.buffer, pre.text_location)
            &&& post.buffer.dirty == (pre.buffer.dirty || delete_changes(
                pre.buffer,
                pre.text_location,
            ))
            &&& post.needs_redraw
            &&& post.scroll_offset == pre.scroll_offset
            &&& post.text_location == revalidated_loc(post.buffer, pre.text_location)
        },
        Edit::DeleteBackward => {
            if pre.text_location.line_index == 0 && pre.text_location.grapheme_index == 0 {
                post == pre
            } else {
                let dest = move_dest(pre.buffer, pre.size, pre.text_location, Move::Left);
                &&& post.buffer.line_texts() == delete_result(pre.buffer, dest)
                &&& post.buffer.dirty == (pre.buffer.dirty || delete_changes(pre.buffer, dest))
                &&& post.needs_redraw
                &&& post.text_location == revalidated_loc(post.buffer, dest)
            }
        },
        Edit::InsertNewline => {
            &&& post.buffer.line_texts() == insert_newline_result(pre.buffer, pre.text_location)
            &&& post.buffer.dirty
            &&& post.needs_redraw
            &&& post.text_location == move_dest(
                post.buffer,
                pre.size,
                revalidated_loc(post.buffer, pre.text_location),
                Move::Right,
            )
        },
    }
}

impl View {
    /// The cluster count of line `li`, zero past the last line.
    pub open spec fn line_gcount_at(self, li: int) -> nat {
        line_gcount(self.buffer, li)
    }

    /// The location addresses an existing line (or one past the last) and a
    /// cluster within it (or one past the last).
    pub open spec fn loc_valid(self, loc: Location) -> bool {
        &&& loc.line_index <= self.buffer.height_spec()
        &&& loc.grapheme_index <= self.line_gcount_at(loc.line_index as int)
    }

    /// The document's lines are well formed, the cursor is valid against
    /// the document's current shape, and so are the search snapshot and its
    /// query.
    pub open spec fn wf(self) -> bool {
        &&& self.buffer.wf()
        &&& self.loc_valid(self.text_location)
        &&& match self.search_info {
            Some(si) => match si.query {
                Some(q) => q.wf(),
                None => true,
            },
            None => true,
        }
    }

    /// The row the cursor renders on: its line index.
    pub open spec fn caret_row(self) -> nat {
        self.text_location.line_index as nat
    }

    /// The column the cursor renders at: the total width of the clusters
    /// before it on its line.
    pub open spec fn caret_col(self) -> nat {
        if self.text_location.line_index < self.buffer.height_spec() {
            sat_cap(
                self.buffer.lines@[self.text_location.line_index as int].width_upto(
                    self.text_location.grapheme_index as int,
                ),
            )
        } else {
            0
        }
    }

    /// Everything but the scroll offset and the redraw flag is the same.
    pub open spec fn same_but_scroll(self, other: View) -> bool {
        &&& self.buffer == other.buffer
        &&& self.size == other.size
        &&& self.text_location == other.text_location
        &&& self.search_info == other.search_info
    }

    /// Where a move command sends the cursor.
    pub open spec fn move_destination(self, command: Move) -> Location {
        move_dest(self.buffer, self.size, self.text_location, command)
    }

    /// The location a vertical move to line `li2` lands on.
    pub open spec fn vertical_destination(self, li2: nat) -> Location {
        vertical_dest(self.buffer, li2, self.text_location.grapheme_index as nat)
    }

    /// An empty view over an empty document.
    pub fn new(size: Size) -> (r: View)
        ensures
            r.wf(),
            r.size == size,
            r.buffer.height_spec() == 0,
            r.text_location == (Location { grapheme_index: 0, line_index: 0 }),
            r.scroll_offset == (Position { col: 0, row: 0 }),
            r.search_info is None,
            r.needs_redraw,
    {
        View {
            buffer: Buffer::new(),
            needs_redraw: true,
            size,
            text_location: Location { grapheme_index: 0, line_index: 0 },
            scroll_offset: Position { col: 0, row: 0 },
            search_info: None,
        }
    }

    /// Replaces the document with one loaded from the given text, as the
    /// named file; the cursor and scroll offset reset to the origin.
    pub fn load(&mut self, contents: &str, file_name: &str)
        ensures
            final(self).wf(),
            final(self).buffer.line_texts() == crate::buffer::split_lines(contents@),
            final(self).buffer.file_info.path matches Some(p) && p@ == file_name@,
            final(self).buffer.dirty == false,
            final(self).text_location == (Location { grapheme_index: 0, line_index: 0 }),
            final(self).scroll_offset == (Position { col: 0, row: 0 }),
            final(self).search_info is None,
            final(self).needs_redraw,
            final(self).size == old(self).size,
    {
        self.buffer = Buffer::load(contents, file_name);
        self.text_location = Location { grapheme_index: 0, line_index: 0 };
        self.scroll_offset = Position { col: 0, row: 0 };
        self.search_info = None;
        self.needs_redraw = true;
    }

    /// Whether the document belongs to a file.
    pub fn is_file_loaded(&self) -> (r: bool)
        ensures
            r == (self.buffer.file_info.path is Some),
    {
        self.buffer.is_file_loaded()
    }

    /// The status-bar snapshot of the document.
    pub fn get_status(&self) -> (r: DocumentStatus)
        ensures
            r.total_lines == self.buffer.height_spec(),
            r.current_line_index == self.text_location.line_index,
            r.is_modified == self.buffer.dirty,
            r.file_name@ == self.buffer.file_info.display_name(),
    {
        DocumentStatus {
            total_lines: self.buffer.height(),
            current_line_index: self.text_location.line_index,
            is_modified: self.buffer.dirty,
            file_name: self.buffer.file_info.display_name_chars(),
        }
    }

    /// Marks the view as needing (or not needing) a repaint.
    pub fn set_needs_redraw(&mut self, value: bool)
        ensures
            final(self).needs_redraw == value,
            final(self).same_but_scroll(*old(self)),
            final(self).scroll_offset == old(self).scroll_offset,
    {
        self.needs_redraw = value;
    }

    /// Whether the view needs a repaint.
    pub fn needs_redraw(&self) -> (r: bool)
        ensures
            r == self.needs_redraw,
    {
        self.needs_redraw
    }

    /// The cursor's rendered position in document space: its line as the
    /// row, the width of the clusters before it as the column.
    pub fn text_location_to_position(&self) -> (r: Position)
        ensures
            r.row == self.caret_row(),
            r.col == self.caret_col(),
    {
        let row = self.text_location.line_index;
        let col = if row < self.buffer.lines.len() {
            self.buffer.lines[row].width_until(self.text_location.grapheme_index)
        } else {
            0
        };
        Position { col, row }
    }

    /// The cursor's position in viewport space: its rendered position less
    /// the scroll offset, floored at the window's corner.
    pub fn caret_position(&self) -> (r: Position)
        ensures
            r.row == if self.caret_row() >= self.scroll_offset.row {
                self.caret_row() - self.scroll_offset.row
            } else {
                0
            },
            r.col == if self.caret_col() >= self.scroll_offset.col {
                self.caret_col() - self.scroll_offset.col
            } else {
                0
            },
    {
        self.text_location_to_position().saturating_sub(self.scroll_offset)
    }

    /// Scrolls vertically the least amount that brings row `to` inside the
    /// window; flags a repaint when the offset moved.
    fn scroll_vertically(&mut self, to: RowIdx)
        ensures
            final(self).same_but_scroll(*old(self)),
            final(self).scroll_offset.col == old(self).scroll_offset.col,
            final(self).scroll_offset.row == scrolled_offset(
                old(self).scroll_offset.row as nat,
                to as nat,
                old(self).size.height as nat,
            ),
            final(self).needs_redraw == (old(self).needs_redraw || scroll_changes(
                old(self).scroll_offset.row as nat,
                to as nat,
                old(self).size.height as nat,
            )),
    {
        let height = self.size.height;
        let off = self.scroll_offset.row;
        let upper = if off > usize::MAX - height {
            usize::MAX
        } else {
            off + height
        };
        if to < off {
            self.scroll_offset.row = to;
            self.needs_redraw = true;
        } else if to >= upper {
            let base = if to >= height {
                to - height
            } else {
                0
            };
            self.scroll_offset.row = if base == usize::MAX {
                usize::MAX
            } else {
                base + 1
            };
            self.needs_redraw = true;
        }
    }

    /// Scrolls horizontally the least amount that brings column `to` inside
    /// the window; flags a repaint when the offset moved.
    fn scroll_horizontally(&mut self, to: ColIdx)
        ensures
            final(self).same_but_scroll(*old(self)),
            final(self).scroll_offset.row == old(self).scroll_offset.row,
            final(self).scroll_offset.col == scrolled_offset(
                old(self).scroll_offset.col as nat,
                to as nat,
                old(self).size.width as nat,
            ),
            final(self).needs_redraw == (old(self).needs_redraw || scroll_changes(
                old(self).scroll_offset.col as nat,
                to as nat,
                old(self).size.width as nat,
            )),
    {
        let width = self.size.width;
        let off = self.scroll_offset.col;
        let upper = if off > usize::MAX - width {
            usize::MAX
        } else {
            off + width
        };
        if to < off {
            self.scroll_offset.col = to;
            self.needs_redraw = true;
        } else if to >= upper {
            let base = if to >= width {
                to - width
            } else {
                0
            };
            self.scroll_offset.col = if base == usize::MAX {
                usize::MAX
            } else {
                base + 1
            };
            self.needs_redraw = true;
        }
    }

    /// Adjusts both scroll axes so the cursor's rendered position lies
    /// inside the visible window (whenever the window has any extent).
    fn scroll_text_location_into_view(&mut self)
        ensures
            final(self).same_but_scroll(*old(self)),
            final(self).scroll_offset.row == scrolled_offset(
                old(self).scroll_offset.row as nat,
                old(self).caret_row(),
                old(self).size.height as nat,
            ),
            final(self).scroll_offset.col == scrolled_offset(
                old(self).scroll_offset.col as nat,
                old(self).caret_col(),
                old(self).size.width as nat,
            ),
            old(self).size.height >= 1 ==> final(self).scroll_offset.row <= old(self).caret_row()
                < final(self).scroll_offset.row + old(self).size.height,
            old(self).size.width >= 1 ==> final(self).scroll_offset.col <= old(self).caret_col()
                < final(self).scroll_offset.col + old(self).size.width,
    {
        let pos = self.text_location_to_position();
        self.scroll_vertically(pos.row);
        self.scroll_horizontally(pos.col);
        proof {
            if self.size.height >= 1 {
                lemma_scrolled_offset_contains(
                    old(self).scroll_offset.row as nat,
                    old(self).caret_row(),
                    old(self).size.height as nat,
                );
            }
            if self.size.width >= 1 {
                lemma_scrolled_offset_contains(
                    old(self).scroll_offset.col as nat,
                    old(self).caret_col(),
                    old(self).size.width as nat,
                );
            }
        }
    }

    /// Centers the viewport on the cursor: each scroll offset becomes the
    /// cursor's rendered position less half the window (rounded up), floored
    /// at zero.
    fn center_text_location(&mut self)
        ensures
            final(self).same_but_scroll(*old(self)),
            final(self).needs_redraw,
            final(self).scroll_offset.row == ({
                let mid = (old(self).size.height / 2 + old(self).size.height % 2) as nat;
                if old(self).caret_row() >= mid {
                    old(self).caret_row() - mid
                } else {
                    0
                }
            }),
            final(self).scroll_offset.col == ({
                let mid = (old(self).size.width / 2 + old(self).size.width % 2) as nat;
                if old(self).caret_col() >= mid {
                    old(self).caret_col() - mid
                } else {
                    0
                }
            }),
    {
        let pos = self.text_location_to_position();
        let vmid = self.size.height / 2 + self.size.height % 2;
        let hmid = self.size.width / 2 + self.size.width % 2;
        self.scroll_offset.row = if pos.row >= vmid {
            pos.row - vmid
        } else {
            0
        };
        self.scroll_offset.col = if pos.col >= hmid {
            pos.col - hmid
        } else {
            0
        };
        self.needs_redraw = true;
    }

    /// Clamps the cursor's cluster index to its line.
    fn snap_to_valid_grapheme(&mut self)
        requires
            old(self).buffer.wf(),
        ensures
            final(self).buffer == old(self).buffer,
            final(self).size == old(self).size,
            final(self).search_info == old(self).search_info,
            final(self).scroll_offset == old(self).scroll_offset,
            final(self).needs_redraw == old(self).needs_redraw,
            final(self).text_location.line_index == old(self).text_location.line_index,
            final(self).text_location.grapheme_index == ({
                let gc = old(self).line_gcount_at(old(self).text_location.line_index as int);
                if old(self).text_location.grapheme_index <= gc {
                    old(self).text_location.grapheme_index as nat
                } else {
                    gc
                }
            }),
    {
        let li = self.text_location.line_index;
        if li < self.buffer.lines.len() {
            let c = self.buffer.lines[li].grapheme_count();
            if self.text_location.grapheme_index > c {
                self.text_location.grapheme_index = c;
            }
        } else {
            self.text_location.grapheme_index = 0;
        }
    }

    /// Clamps the cursor's line index to the document height.
    fn snap_to_valid_line(&mut self)
        ensures
            final(self).buffer == old(self).buffer,
            final(self).size == old(self).size,
            final(self).search_info == old(self).search_info,
            final(self).scroll_offset == old(self).scroll_offset,
            final(self).needs_redraw == old(self).needs_redraw,
            final(self).text_location.grapheme_index == old(self).text_location.grapheme_index,
            final(self).text_location.line_index == ({
                let h = old(self).buffer.height_spec();
                if old(self).text_location.line_index <= h {
                    old(self).text_location.line_index as nat
                } else {
                    h
                }
            }),
    {
        let h = self.buffer.lines.len();
        if self.text_location.line_index > h {
            self.text_location.line_index = h;
        }
    }

    /// Moves the cursor up `step` lines, clamping the cluster index to the
    /// destination line.
    fn move_up(&mut self, step: usize)
        requires
            old(self).buffer.wf(),
            old(self).text_location.line_index <= old(self).buffer.height_spec(),
        ensures
            final(self).buffer == old(self).buffer,
            final(self).size == old(self).size,
            final(self).search_info == old(self).search_info,
            final(self).scroll_offset == old(self).scroll_offset,
            final(self).needs_redraw == old(self).needs_redraw,
            final(self).text_location == old(self).vertical_destination(
                (if old(self).text_location.line_index >= step {
                    (old(self).text_location.line_index - step) as nat
                } else {
                    0
                }),
            ),
    {
        let li = self.text_location.line_index;
        self.text_location.line_index = if li >= step {
            li - step
        } else {
            0
        };
        self.snap_to_valid_grapheme();
    }

    /// Moves the cursor down `step` lines, clamping the line index to the
    /// document height and the cluster index to the destination line.
    fn move_down(&mut self, step: usize)
        requires
            old(self).buffer.wf(),
        ensures
            final(self).buffer == old(self).buffer,
            final(self).size == old(self).size,
            final(self).search_info == old(self).search_info,
            final(self).scroll_offset == old(self).scroll_offset,
            final(self).needs_redraw == old(self).needs_redraw,
            final(self).text_location == old(self).vertical_destination(
                sat_cap((old(self).text_location.line_index + step) as nat),
            ),
    {
        let li = self.text_location.line_index;
        self.text_location.line_index = if li > usize::MAX - step {
            usize::MAX
        } else {
            li + step
        };
        self.snap_to_valid_grapheme();
        self.snap_to_valid_line();
    }

    /// Moves the cursor to the start of its line.
    fn move_to_start_of_line(&mut self)
        ensures
            final(self).buffer == old(self).buffer,
            final(self).size == old(self).size,
            final(self).search_info == old(self).search_info,
            final(self).scroll_offset == old(self).scroll_offset,
            final(self).needs_redraw == old(self).needs_redraw,
            final(self).text_location.line_index == old(self).text_location.line_index,
            final(self).text_location.grapheme_index == 0,
    {
        self.text_location.grapheme_index = 0;
    }

    /// Moves the cursor past the last cluster of its line.
    fn move_to_end_of_line(&mut self)
        requires
            old(self).buffer.wf(),
        ensures
            final(self).buffer == old(self).buffer,
            final(self).size == old(self).size,
            final(self).search_info == old(self).search_info,
            final(self).scroll_offset == old(self).scroll_offset,
            final(self).needs_redraw == old(self).needs_redraw,
            final(self).text_location.line_index == old(self).text_location.line_index,
            final(self).text_location.grapheme_index == old(self).line_gcount_at(
                old(self).text_location.line_index as int,
            ),
    {
        let li = self.text_location.line_index;
        self.text_location.grapheme_index = if li < self.buffer.lines.len() {
            self.buffer.lines[li].grapheme_count()
        } else {
            0
        };
    }

    /// Moves the cursor one cluster right, rolling onto the start of the
    /// next line past the end of a line.
    fn move_right(&mut self)
        requires
            old(self).buffer.wf(),
        ensures
            final(self).buffer == old(self).buffer,
            final(self).size == old(self).size,
            final(self).search_info == old(self).search_info,
            final(self).scroll_offset == old(self).scroll_offset,
            final(self).needs_redraw == old(self).needs_redraw,
            final(self).text_location == old(self).move_destination(Move::Right),
    {
        let li = self.text_location.line_index;
        let gi = self.text_location.grapheme_index;
        let gc = if li < self.buffer.lines.len() {
            self.buffer.lines[li].grapheme_count()
        } else {
            0
        };
        if gi < gc {
            self.text_location.grapheme_index = gi + 1;
        } else {
            self.move_to_start_of_line();
            self.move_down(1);
        }
    }

    /// Moves the cursor one cluster left, rolling onto the end of the
    /// previous line at the start of a line.
    fn move_left(&mut self)
        requires
            old(self).buffer.wf(),
            old(self).text_location.line_index <= old(self).buffer.height_spec(),
        ensures
            final(self).buffer == old(self).buffer,
            final(self).size == old(self).size,
            final(self).search_info == old(self).search_info,
            final(self).scroll_offset == old(self).scroll_offset,
            final(self).needs_redraw == old(self).needs_redraw,
            final(self).text_location == old(self).move_destination(Move::Left),
    {
        let gi = self.text_location.grapheme_index;
        if gi > 0 {
            self.text_location.grapheme_index = gi - 1;
        } else if self.text_location.line_index > 0 {
            self.move_up(1);
            self.move_to_end_of_line();
            proof {
                assert(self.text_location == old(self).move_destination(Move::Left));
            }
        }
    }

    /// Applies a move command to the cursor and scrolls it into view. The
    /// cursor stays valid, and — whenever the window has any extent — its
    /// rendered position ends up inside the visible window.
    pub fn handle_move_command(&mut self, command: Move)
        requires
            old(self).wf(),
        ensures
            final(self).wf(),
            final(self).buffer == old(self).buffer,
            final(self).size == old(self).size,
            final(self).search_info == old(self).search_info,
            final(self).text_location == old(self).move_destination(command),
            final(self).scroll_offset.row == scrolled_offset(
                old(self).scroll_offset.row as nat,
                final(self).caret_row(),
                old(self).size.height as nat,
            ),
            final(self).scroll_offset.col == scrolled_offset(
                old(self).scroll_offset.col as nat,
                final(self).caret_col(),
                old(self).size.width as nat,
            ),
            final(self).size.height >= 1 ==> final(self).scroll_offset.row
                <= final(self).caret_row() < final(self).scroll_offset.row + final(self).size.height,
            final(self).size.width >= 1 ==> final(self).scroll_offset.col
                <= final(self).caret_col() < final(self).scroll_offset.col + final(self).size.width,
    {
        let height = self.size.height;
        match command {
            Move::Up => self.move_up(1),
            Move::Down => self.move_down(1),
            Move::Left => self.move_left(),
            Move::Right => self.move_right(),
            Move::PageUp => self.move_up(
                if height >= 1 {
                    height - 1
                } else {
                    0
                },
            ),
            Move::PageDown => self.move_down(
                if height >= 1 {
                    height - 1
                } else {
                    0
                },
            ),
            Move::StartOfLine => self.move_to_start_of_line(),
            Move::EndOfLine => self.move_to_end_of_line(),
        }
        self.scroll_text_location_into_view();
    }

    /// Re-validates the cursor against the document's current shape.
    fn revalidate_location(&mut self)
        requires
            old(self).buffer.wf(),
        ensures
            final(self).buffer == old(self).buffer,
            final(self).size == old(self).size,
            final(self).search_info == old(self).search_info,
            final(self).scroll_offset == old(self).scroll_offset,
            final(self).needs_redraw == old(self).needs_redraw,
            final(self).text_location == revalidated_loc(
                old(self).buffer,
                old(self).text_location,
            ),
            final(self).loc_valid(final(self).text_location),
    {
        self.snap_to_valid_grapheme();
        self.snap_to_valid_line();
    }

    /// Inserts a character (never a line break) at the cursor; the cursor
    /// then steps right whenever the line's cluster count grew.
    fn insert_char(&mut self, character: char)
        requires
            old(self).wf(),
            character != '\n',
        ensures
            final(self).wf(),
            final(self).size == old(self).size,
            final(self).search_info == old(self).search_info,
            final(self).needs_redraw,
            final(self).buffer.line_texts() == insert_char_result(
                old(self).buffer,
                character,
                old(self).text_location,
            ),
            final(self).buffer.dirty,
            final(self).buffer.file_info == old(self).buffer.file_info,
            final(self).text_location == (if line_gcount(
                final(self).buffer,
                old(self).text_location.line_index as int,
            ) > line_gcount(old(self).buffer, old(self).text_location.line_index as int) {
                move_dest(
                    final(self).buffer,
                    old(self).size,
                    revalidated_loc(final(self).buffer, old(self).text_location),
                    Move::Right,
                )
            } else {
                revalidated_loc(final(self).buffer, old(self).text_location)
            }),
    {
        let li = self.text_location.line_index;
        let old_len = if li < self.buffer.lines.len() {
            self.buffer.lines[li].grapheme_count()
        } else {
            0
        };
        self.buffer.insert_char(character, self.text_location);
        let new_len = if li < self.buffer.lines.len() {
            self.buffer.lines[li].grapheme_count()
        } else {
            0
        };
        self.revalidate_location();
        if new_len > old_len {
            self.handle_move_command(Move::Right);
        }
        self.needs_redraw = true;
    }

    /// Deletes at the cursor (removing a cluster, or merging the next line
    /// at the end of a line), then re-validates the cursor.
    fn delete(&mut self)
        requires
            old(self).wf(),
        ensures
            final(self).wf(),
            final(self).size == old(self).size,
            final(self).search_info == old(self).search_info,
            final(self).scroll_offset == old(self).scroll_offset,
            final(self).needs_redraw,
            final(self).buffer.line_texts() == delete_result(
                old(self).buffer,
                old(self).text_location,
            ),
            final(self).buffer.dirty == (old(self).buffer.dirty || delete_changes(
                old(self).buffer,
                old(self).text_location,
            )),
            final(self).buffer.file_info == old(self).buffer.file_info,
            final(self).text_location == revalidated_loc(
                final(self).buffer,
                old(self).text_location,
            ),
    {
        self.buffer.delete(self.text_location);
        self.revalidate_location();
        self.needs_redraw = true;
    }

    /// Deletes the cluster before the cursor: a move left, then a delete.
    /// At the very start of the document nothing happens.
    fn delete_backward(&mut self)
        requires
            old(self).wf(),
        ensures
            final(self).wf(),
            final(self).size == old(self).size,
            final(self).search_info == old(self).search_info,
            old(self).text_location.line_index == 0 && old(self).text_location.grapheme_index == 0
                ==> *final(self) == *old(self),
            final(self).buffer.file_info == old(self).buffer.file_info,
            !(old(self).text_location.line_index == 0 && old(self).text_location.grapheme_index
                == 0) ==> ({
                let dest = old(self).move_destination(Move::Left);
                &&& final(self).buffer.line_texts() == delete_result(old(self).buffer, dest)
                &&& final(self).buffer.dirty == (old(self).buffer.dirty || delete_changes(
                    old(self).buffer,
                    dest,
                ))
                &&& final(self).text_location == revalidated_loc(final(self).buffer, dest)
                &&& final(self).needs_redraw
            }),
    {
        if self.text_location.line_index != 0 || self.text_location.grapheme_index != 0 {
            self.handle_move_command(Move::Left);
            self.delete();
        }
    }

    /// Breaks the line at the cursor; the cursor then steps right, onto the
    /// start of the new line.
    fn insert_newline(&mut self)
        requires
            old(self).wf(),
        ensures
            final(self).wf(),
            final(self).size == old(self).size,
            final(self).search_info == old(self).search_info,
            final(self).needs_redraw,
            final(self).buffer.line_texts() == insert_newline_result(
                old(self).buffer,
                old(self).text_location,
            ),
            final(self).buffer.dirty,
            final(self).buffer.file_info == old(self).buffer.file_info,
            final(self).text_location == move_dest(
                final(self).buffer,
                old(self).size,
                revalidated_loc(final(self).buffer, old(self).text_location),
                Move::Right,
            ),
    {
        self.buffer.insert_newline(self.text_location);
        self.revalidate_location();
        self.handle_move_command(Move::Right);
        self.needs_redraw = true;
    }

    /// Applies an edit command at the cursor. An inserted character is
    /// never a line break: breaking a line goes through the line-break
    /// command itself.
    #[verifier::rlimit(50)]
    pub fn handle_edit_command(&mut self, command: Edit)
        requires
            old(self).wf(),
            command matches Edit::Insert(c) ==> c != '\n',
        ensures
            final(self).wf(),
            edit_applied(*old(self), *final(self), command),
    {
        match command {
            Edit::Insert(character) => self.insert_char(character),
            Edit::Delete => self.delete(),
            Edit::DeleteBackward => self.delete_backward(),
            Edit::InsertNewline => self.insert_newline(),
        }
    }

    /// Enters search mode, remembering the cursor and scroll offset for a
    /// later dismissal.
    pub fn enter_search(&mut self)
        requires
            old(self).wf(),
        ensures
            final(self).wf(),
            final(self).buffer == old(self).buffer,
            final(self).size == old(self).size,
            final(self).text_location == old(self).text_location,
            final(self).scroll_offset == old(self).scroll_offset,
            final(self).needs_redraw == old(self).needs_redraw,
            final(self).search_info matches Some(si) && si.prev_location == old(self).text_location && si.prev_scroll_offset == old(self).scroll_offset && si.query
                is None,
    {
        self.search_info = Some(
            SearchInfo {
                prev_location: self.text_location,
                prev_scroll_offset: self.scroll_offset,
                query: None,
            },
        );
    }

    /// Leaves search mode, keeping the cursor where it stands.
    pub fn exit_search(&mut self)
        requires
            old(self).wf(),
        ensures
            final(self).wf(),
            final(self).buffer == old(self).buffer,
            final(self).size == old(self).size,
            final(self).text_location == old(self).text_location,
            final(self).scroll_offset == old(self).scroll_offset,
            final(self).search_info is None,
            final(self).needs_redraw,
    {
        self.search_info = None;
        self.needs_redraw = true;
    }

    /// Cancels search mode: restores the cursor and scroll offset captured
    /// at entry (re-validated against the document), scrolls the cursor
    /// into view, and leaves search mode.
    pub fn dismiss_search(&mut self)
        requires
            old(self).wf(),
        ensures
            final(self).wf(),
            final(self).buffer == old(self).buffer,
            final(self).size == old(self).size,
            final(self).search_info is None,
            final(self).needs_redraw,
            old(self).search_info matches Some(si) ==> ({
                &&& final(self).text_location == revalidated_loc(old(self).buffer, si.prev_location)
                &&& final(self).scroll_offset.row == scrolled_offset(
                    si.prev_scroll_offset.row as nat,
                    final(self).caret_row(),
                    old(self).size.height as nat,
                )
                &&& final(self).scroll_offset.col == scrolled_offset(
                    si.prev_scroll_offset.col as nat,
                    final(self).caret_col(),
                    old(self).size.width as nat,
                )
            }),
            old(self).search_info is None ==> final(self).text_location == old(self).text_location && final(self).scroll_offset == old(self).scroll_offset,
    {
        let restore = match &self.search_info {
            Some(si) => Some((si.prev_location, si.prev_scroll_offset)),
            None => None,
        };
        match restore {
            Some(pair) => {
                self.text_location = pair.0;
                self.scroll_offset = pair.1;
                self.revalidate_location();
                self.scroll_text_location_into_view();
            },
            None => {},
        }
        self.exit_search();
    }
}

/// Which way a search proceeds through the document.
#[derive(Copy, Clone, PartialEq, Eq, Structural, Debug)]
enum SearchDirection {
    Forward,
    Backward,
}

/// The scroll offsets that center the cursor of `v` in its window: each
/// offset is the cursor's rendered position less half the window size
/// (rounded up), floored at zero.
pub open spec fn centered_scroll(v: View) -> Position {
    let vmid = (v.size.height / 2 + v.size.height % 2) as nat;
    let hmid = (v.size.width / 2 + v.size.width % 2) as nat;
    Position {
        row: (if v.caret_row() >= vmid {
            (v.caret_row() - vmid) as nat
        } else {
            0
        }) as usize,
        col: (if v.caret_col() >= hmid {
            (v.caret_col() - hmid) as nat
        } else {
            0
        }) as usize,
    }
}

/// A search start, clamped to the document: the line to the last line, the
/// cluster to that line's cluster count.
pub open spec fn clamp_search_from(b: Buffer, loc: Location) -> Location {
    if b.height_spec() == 0 {
        loc
    } else {
        let li = if loc.line_index < b.height_spec() {
            loc.line_index as nat
        } else {
            (b.height_spec() - 1) as nat
        };
        let gc = line_gcount(b, li as int);
        Location {
            grapheme_index: (if loc.grapheme_index <= gc {
                loc.grapheme_index as nat
            } else {
                gc
            }) as usize,
            line_index: li as usize,
        }
    }
}

/// The query held by the search state, as characters, when there is one.
pub open spec fn active_query(v: View) -> Option<Seq<char>> {
    match v.search_info {
        Some(si) => match si.query {
            Some(q) => Some(q.text()),
            None => None,
        },
        None => None,
    }
}

/// Where a search from `from` moves the cursor of `v`: to the found
/// location, if the active query is non-empty and occurs in the document in
/// the given direction's cyclic order; nowhere otherwise.
pub open spec fn search_outcome(v: View, from: Location, forward: bool) -> Option<Location> {
    match active_query(v) {
        Some(q) => {
            if q.len() == 0 {
                None
            } else {
                let f = clamp_search_from(v.buffer, from);
                if forward {
                    v.buffer.search_forward_spec(q, f)
                } else {
                    v.buffer.search_backward_spec(q, f)
                }
            }
        },
        None => None,
    }
}

impl View {
    /// Searches from `from` in the given direction; on a hit the cursor
    /// moves there and the viewport centers on it.
    fn search_in_direction(&mut self, from: Location, direction: SearchDirection)
        requires
            old(self).wf(),
        ensures
            final(self).wf(),
            final(self).buffer == old(self).buffer,
            final(self).size == old(self).size,
            final(self).search_info == old(self).search_info,
            final(self).needs_redraw,
            ({
                let r = search_outcome(*old(self), from, direction == SearchDirection::Forward);
                match r {
                    Some(loc) => final(self).text_location == loc && final(self).scroll_offset
                        == centered_scroll(*final(self)),
                    None => final(self).text_location == old(self).text_location && final(self).scroll_offset == old(self).scroll_offset,
                }
            }),
    {
        let mut has_q = false;
        let mut qs: String = String::new();
        match &self.search_info {
            Some(si) => match &si.query {
                Some(l) => {
                    if l.string.len() > 0 {
                        has_q = true;
                        qs = l.to_string();
                    }
                },
                None => {},
            },
            None => {},
        }
        if !has_q {
            self.needs_redraw = true;
            return ;
        }
        let height = self.buffer.lines.len();
        let f = if height == 0 {
            from
        } else {
            let li = if from.line_index < height {
                from.line_index
            } else {
                height - 1
            };
            let gc = self.buffer.lines[li].grapheme_count();
            let gi = if from.grapheme_index <= gc {
                from.grapheme_index
            } else {
                gc
            };
            Location { grapheme_index: gi, line_index: li }
        };
        let found = match direction {
            SearchDirection::Forward => self.buffer.search_forward(qs.as_str(), f),
            SearchDirection::Backward => self.buffer.search_backward(qs.as_str(), f),
        };
        proof {
            crate::buffer::lemma_search_spec_valid(
                self.buffer,
                qs@,
                clamp_search_from(self.buffer, from),
            );
        }
        match found {
            Some(loc) => {
                self.text_location = loc;
                self.center_text_location();
            },
            None => {},
        }
        self.needs_redraw = true;
    }

    /// Stores the typed query and re-runs the forward search from the
    /// position the cursor held when search mode was entered, so that each
    /// edit of the query finds its first occurrence from the same place.
    /// Without an active search state the view only notes that it needs a
    /// repaint. A query never holds a line break: the document is searched
    /// line by line.
    pub fn search(&mut self, query: &str)
        requires
            old(self).wf(),
            crate::line::no_breaks(query@),
        ensures
            final(self).wf(),
            final(self).buffer == old(self).buffer,
            final(self).size == old(self).size,
            final(self).needs_redraw,
            old(self).search_info is None ==> final(self).search_info is None && final(self).text_location == old(self).text_location && final(self).scroll_offset == old(self).scroll_offset,
            old(self).search_info matches Some(si) ==> ({
                &&& final(self).search_info matches Some(si2) && (si2.prev_location
                    == si.prev_location && si2.prev_scroll_offset == si.prev_scroll_offset && (
                si2.query matches Some(q) && q.text() == query@))
                &&& match search_outcome(*final(self), si.prev_location, true) {
                    Some(loc) => final(self).text_location == loc && final(self).scroll_offset
                        == centered_scroll(*final(self)),
                    None => final(self).text_location == old(self).text_location && final(self).scroll_offset == old(self).scroll_offset,
                }
            }),
    {
        let has_search = match &self.search_info {
            Some(_) => true,
            None => false,
        };
        if has_search {
            let prev_location = match &self.search_info {
                Some(si) => si.prev_location,
                None => Location { grapheme_index: 0, line_index: 0 },
            };
            let prev_scroll_offset = match &self.search_info {
                Some(si) => si.prev_scroll_offset,
                None => Position { col: 0, row: 0 },
            };
            self.search_info = Some(
                SearchInfo { prev_location, prev_scroll_offset, query: Some(Line::from(query)) },
            );
            let from = prev_location;
            self.search_in_direction(from, SearchDirection::Forward);
        } else {
            let from = self.text_location;
            self.search_in_direction(from, SearchDirection::Forward);
        }
    }

    /// Moves to the next occurrence: searches forward from the current
    /// match, stepping over as many clusters as the query holds so the same
    /// occurrence is not found again.
    pub fn search_next(&mut self)
        requires
            old(self).wf(),
        ensures
            final(self).wf(),
            final(self).buffer == old(self).buffer,
            final(self).size == old(self).size,
            final(self).search_info == old(self).search_info,
            final(self).needs_redraw,
            ({
                let qc = match active_query(*old(self)) {
                    Some(q) => graphemes_of_len_spec(*old(self)),
                    None => 1,
                };
                let from = Location {
                    grapheme_index: sat_cap(
                        (old(self).text_location.grapheme_index + qc) as nat,
                    ) as usize,
                    line_index: old(self).text_location.line_index,
                };
                match search_outcome(*old(self), from, true) {
                    Some(loc) => final(self).text_location == loc && final(self).scroll_offset
                        == centered_scroll(*final(self)),
                    None => final(self).text_location == old(self).text_location && final(self).scroll_offset == old(self).scroll_offset,
                }
            }),
    {
        let step = match &self.search_info {
            Some(si) => match &si.query {
                Some(q) => {
                    let c = q.grapheme_count();
                    if c > 0 {
                        c
                    } else {
                        1
                    }
                },
                None => 1,
            },
            None => 1,
        };
        let gi = self.text_location.grapheme_index;
        let gi2 = if gi > usize::MAX - step {
            usize::MAX
        } else {
            gi + step
        };
        let from = Location { grapheme_index: gi2, line_index: self.text_location.line_index };
        self.search_in_direction(from, SearchDirection::Forward);
    }

    /// Moves to the previous occurrence: searches backward from the cursor.
    pub fn search_prev(&mut self)
        requires
            old(self).wf(),
        ensures
            final(self).wf(),
            final(self).buffer == old(self).buffer,
            final(self).size == old(self).size,
            final(self).search_info == old(self).search_info,
            final(self).needs_redraw,
            match search_outcome(*old(self), old(self).text_location, false) {
                Some(loc) => final(self).text_location == loc && final(self).scroll_offset
                    == centered_scroll(*final(self)),
                None => final(self).text_location == old(self).text_location && final(self).scroll_offset == old(self).scroll_offset,
            },
    {
        let from = self.text_location;
        self.search_in_direction(from, SearchDirection::Backward);
    }

    /// Resizes the visible window and keeps the cursor inside it.
    pub fn set_size(&mut self, size: Size)
        requires
            old(self).wf(),
        ensures
            final(self).wf(),
            final(self).buffer == old(self).buffer,
            final(self).size == size,
            final(self).text_location == old(self).text_location,
            final(self).search_info == old(self).search_info,
            final(self).scroll_offset.row == scrolled_offset(
                old(self).scroll_offset.row as nat,
                final(self).caret_row(),
                size.height as nat,
            ),
            final(self).scroll_offset.col == scrolled_offset(
                old(self).scroll_offset.col as nat,
                final(self).caret_col(),
                size.width as nat,
            ),
            size.height >= 1 ==> final(self).scroll_offset.row <= final(self).caret_row() < final(self).scroll_offset.row + size.height,
            size.width >= 1 ==> final(self).scroll_offset.col <= final(self).caret_col() < final(self).scroll_offset.col + size.width,
    {
        self.size = size;
        self.scroll_text_location_into_view();
    }

    /// Resizes the visible window, keeps the cursor inside it, and flags a
    /// repaint.
    pub fn resize(&mut self, size: Size)
        requires
            old(self).wf(),
        ensures
            final(self).wf(),
            final(self).buffer == old(self).buffer,
            final(self).size == size,
            final(self).text_location == old(self).text_location,
            final(self).search_info == old(self).search_info,
            final(self).needs_redraw,
            final(self).scroll_offset.row == scrolled_offset(
                old(self).scroll_offset.row as nat,
                final(self).caret_row(),
                size.height as nat,
            ),
            final(self).scroll_offset.col == scrolled_offset(
                old(self).scroll_offset.col as nat,
                final(self).caret_col(),
                size.width as nat,
            ),
            size.height >= 1 ==> final(self).scroll_offset.row <= final(self).caret_row() < final(self).scroll_offset.row + size.height,
            size.width >= 1 ==> final(self).scroll_offset.col <= final(self).caret_col() < final(self).scroll_offset.col + size.width,
    {
        self.set_size(size);
        self.needs_redraw = true;
    }
}

/// What one visible row of the viewport shows: a windowed document line, a
/// centered placeholder on an empty document, or a row-continuation mark.
pub enum RowContent {
    Text(AnnotatedString),
    Placeholder(Vec<char>),
    Tilde,
}

/// The name banner shown on an empty document.
pub open spec fn welcome_message() -> Seq<char> {
    seq!['e', 'd', 'i', 't', 'c', 'o', 'r', 'e', ' ', 'e', 'd', 'i', 't', 'o', 'r']
}

/// The placeholder row for a window `width` cells wide: a tilde, then the
/// name banner centered in the remaining width; the tilde alone when the
/// banner does not fit, and nothing at width zero.
pub open spec fn welcome_text(width: nat) -> Seq<char> {
    if width == 0 {
        Seq::empty()
    } else {
        let rem = (width - 1) as nat;
        let msg = welcome_message();
        if rem < msg.len() {
            seq!['~']
        } else {
            let pad = (rem - msg.len()) as nat;
            let left = pad / 2;
            seq!['~'] + crate::chars::spaces(left) + msg + crate::chars::spaces(
                (pad - left) as nat,
            )
        }
    }
}

impl View {
    /// The placeholder row, built for the given width.
    pub fn build_welcome_message(width: usize) -> (r: Vec<char>)
        ensures
            r@ == welcome_text(width as nat),
    {
        let mut out: Vec<char> = Vec::new();
        if width == 0 {
            return out;
        }
        let rem = width - 1;
        out.push('~');
        if rem < 15 {
            proof {
                assert(out@ =~= seq!['~']);
            }
            return out;
        }
        let pad = rem - 15;
        let left = pad / 2;
        crate::chars::push_spaces(&mut out, left);
        let mut msg: Vec<char> = Vec::new();
        msg.push('e');
        msg.push('d');
        msg.push('i');
        msg.push('t');
        msg.push('c');
        msg.push('o');
        msg.push('r');
        msg.push('e');
        msg.push(' ');
        msg.push('e');
        msg.push('d');
        msg.push('i');
        msg.push('t');
        msg.push('o');
        msg.push('r');
        proof {
            assert(msg@ =~= welcome_message());
        }
        crate::chars::push_all(&mut out, &msg);
        crate::chars::push_spaces(&mut out, pad - left);
        proof {
            assert(out@ =~= welcome_text(width as nat));
        }
        out
    }

    /// What view-relative row `vrow` shows: the document line scrolled to
    /// that row, windowed to the visible columns and annotated with the
    /// active query's occurrences (the cursor's own line carries the
    /// selected match); the centered placeholder near one third of the
    /// window height when the document is empty; a tilde otherwise.
    pub fn render_row(&self, vrow: RowIdx) -> (r: RowContent)
        requires
            self.wf(),
        ensures
            ({
                let li = sat_cap((vrow + self.scroll_offset.row) as nat);
                let left = self.scroll_offset.col as int;
                let right = sat_cap((self.scroll_offset.col + self.size.width) as nat) as int;
                let top_third = (self.size.height / 3 + (if self.size.height % 3 == 0 {
                    0int
                } else {
                    1int
                })) as nat;
                if li < self.buffer.height_spec() {
                    &&& r matches RowContent::Text(a)
                    &&& a.wf()
                    &&& a.text() == self.buffer.lines@[li as int].window_text(left, right)
                    &&& match active_query(*self) {
                        Some(q) => a.anns() == if q.len() > 0 && left < right {
                            crate::window::window_anns(
                            self.buffer.lines@[li as int],
                            left,
                            right,
                            crate::unicode::graphemes_of(q).len() as int,
                            (if self.text_location.line_index == li {
                                Some(self.text_location.grapheme_index)
                            } else {
                                None
                            }),
                            self.buffer.lines@[li as int].match_list(
                                q,
                                0,
                                self.buffer.lines@[li as int].text().len() as int,
                            ),
                        )
                        } else {
                            Seq::<crate::annotated::Annotation>::empty()
                        },
                        None => a.anns() == Seq::<crate::annotated::Annotation>::empty(),
                    }
                } else if self.buffer.height_spec() == 0 && vrow == top_third {
                    r matches RowContent::Placeholder(w) && w@ == welcome_text(
                        self.size.width as nat,
                    )
                } else {
                    r is Tilde
                }
            }),
    {
        let li = if vrow > usize::MAX - self.scroll_offset.row {
            usize::MAX
        } else {
            vrow + self.scroll_offset.row
        };
        let top_third = self.size.height / 3 + (if self.size.height % 3 == 0 {
            0
        } else {
            1
        });
        if li < self.buffer.lines.len() {
            let left = self.scroll_offset.col;
            let right = if left > usize::MAX - self.size.width {
                usize::MAX
            } else {
                left + self.size.width
            };
            let mut has_q = false;
            let mut qs: String = String::new();
            match &self.search_info {
                Some(si) => match &si.query {
                    Some(l) => {
                        has_q = true;
                        qs = l.to_string();
                    },
                    None => {},
                },
                None => {},
            }
            let selected = if self.text_location.line_index == li && has_q {
                Some(self.text_location.grapheme_index)
            } else {
                None
            };
            let query: Option<&str> = if has_q {
                Some(qs.as_str())
            } else {
                None
            };
            let a = self.buffer.lines[li].get_annotated_visible_substr(
                left,
                right,
                query,
                selected,
            );
            RowContent::Text(a)
        } else if self.buffer.lines.is_empty() && vrow == top_third {
            RowContent::Placeholder(Self::build_welcome_message(self.size.width))
        } else {
            RowContent::Tilde
        }
    }
}

/// The cluster count of the active query of `v` (meaningful only when a
/// query is present).
pub open spec fn graphemes_of_len_spec(v: View) -> nat {
    match v.search_info {
        Some(si) => match si.query {
            Some(q) => if q.gcount() > 0 {
                q.gcount()
            } else {
                1
            },
            None => 1,
        },
        None => 1,
    }
}

} // verus!