//! The status bar: one row showing the file name, line count, modified
//! marker, and cursor position, rendered right-aligned into the window
//! width.
use vstd::prelude::*;

use crate::chars::{dec_digits, num_to_chars, push_all, push_spaces, spaces};
use crate::documentstatus::{lines_suffix, modified_marker, DocumentStatus};
use crate::types::{RowIdx, Size};
use crate::unicode::chars_to_string;

verus! {

/// The left part of the status row: `"<name> - <n> lines <modified?>"`.
pub open spec fn status_beginning(status: DocumentStatus) -> Seq<char> {
    status.file_name@ + seq![' ', '-', ' '] + dec_digits(status.total_lines as nat)
        + lines_suffix() + seq![' '] + (if status.is_modified {
        modified_marker()
    } else {
        Seq::<char>::empty()
    })
}

/// The right part of the status row: `"<line>/<total>"`, the line shown
/// starting from one.
pub open spec fn status_position(status: DocumentStatus) -> Seq<char> {
    dec_digits(
        if status.current_line_index < usize::MAX {
            (status.current_line_index + 1) as nat
        } else {
            usize::MAX as nat
        },
    ) + seq!['/'] + dec_digits(status.total_lines as nat)
}

/// The whole status row for a window `width` cells wide: the left part,
/// then the position indicator right-aligned in the remaining space; empty
/// when it would not fit.
pub open spec fn status_text(status: DocumentStatus, width: nat) -> Seq<char> {
    let beginning = status_beginning(status);
    let pos = status_position(status);
    let rem = if width >= beginning.len() {
        (width - beginning.len()) as nat
    } else {
        0
    };
    let row = beginning + (if pos.len() <= rem {
        spaces((rem - pos.len()) as nat)
    } else {
        Seq::<char>::empty()
    }) + pos;
    if row.len() <= width {
        row
    } else {
        Seq::<char>::empty()
    }
}

/// The status bar: the snapshot it shows, whether it needs a repaint, and
/// where it sits.
pub struct StatusBar {
    pub current_status: DocumentStatus,
    pub needs_redraw: bool,
    pub margin_bottom: usize,
    pub width: usize,
    pub position_y: RowIdx,
    pub is_visible: bool,
}

impl StatusBar {
    /// A status bar `margin_bottom` rows above the window's bottom edge,
    /// sized for `size`.
    pub fn new(margin_bottom: usize, size: Size) -> (r: StatusBar)
        ensures
            r.margin_bottom == margin_bottom,
            r.needs_redraw,
            r.width == size.width,
            r.is_visible == (size.height >= margin_bottom + 2),
    {
        let mut status_bar = StatusBar {
            current_status: DocumentStatus::new(),
            needs_redraw: true,
            margin_bottom,
            width: size.width,
            position_y: 0,
            is_visible: false,
        };
        status_bar.resize(size);
        status_bar
    }

    /// Adopts a new window size: the bar sits one row above the bottom
    /// margin, and is visible only when that row exists.
    pub fn resize(&mut self, size: Size)
        ensures
            final(self).current_status == old(self).current_status,
            final(self).margin_bottom == old(self).margin_bottom,
            final(self).needs_redraw,
            final(self).width == size.width,
            final(self).is_visible == (size.height >= old(self).margin_bottom + 2),
            final(self).is_visible ==> final(self).position_y == size.height - old(self).margin_bottom - 2,
    {
        self.width = size.width;
        let mut position_y: usize = 0;
        let mut is_visible = false;
        if size.height >= self.margin_bottom && size.height - self.margin_bottom >= 2 {
            position_y = size.height - self.margin_bottom - 1 - 1;
            is_visible = true;
        }
        self.position_y = position_y;
        self.is_visible = is_visible;
        self.needs_redraw = true;
    }

    /// Adopts a new snapshot; the bar needs a repaint only when the
    /// snapshot shows something different.
    pub fn update_status(&mut self, new_status: DocumentStatus)
        ensures
            final(self).width == old(self).width,
            final(self).margin_bottom == old(self).margin_bottom,
            final(self).position_y == old(self).position_y,
            final(self).is_visible == old(self).is_visible,
            !old(self).current_status.same_as(new_status) ==> final(self).current_status
                == new_status && final(self).needs_redraw,
            old(self).current_status.same_as(new_status) ==> final(self).current_status == old(self).current_status && final(self).needs_redraw == old(self).needs_redraw,
    {
        if !new_status.shows_same(&self.current_status) {
            self.current_status = new_status;
            self.needs_redraw = true;
        }
    }

    /// The row the bar would draw now: its position and text, when it is
    /// visible and needs a repaint (the repaint need is then consumed).
    pub fn render(&mut self) -> (r: Option<(RowIdx, String)>)
        ensures
            final(self).current_status == old(self).current_status,
            final(self).width == old(self).width,
            final(self).margin_bottom == old(self).margin_bottom,
            final(self).position_y == old(self).position_y,
            final(self).is_visible == old(self).is_visible,
            !(old(self).needs_redraw && old(self).is_visible) ==> r is None && final(self).needs_redraw == old(self).needs_redraw,
            old(self).needs_redraw && old(self).is_visible ==> !final(self).needs_redraw && (
            r matches Some(p) && p.0 == old(self).position_y && p.1@ == status_text(
                old(self).current_status,
                old(self).width as nat,
            )),
    {
        if !self.needs_redraw || !self.is_visible {
            return None;
        }
        self.needs_redraw = false;
        let mut row: Vec<char> = Vec::new();
        push_all(&mut row, &self.current_status.file_name);
        row.push(' ');
        row.push('-');
        row.push(' ');
        proof {
            assert(row@ =~= self.current_status.file_name@ + seq![' ', '-', ' ']);
        }
        let counts = num_to_chars(self.current_status.total_lines);
        push_all(&mut row, &counts);
        row.push(' ');
        row.push('l');
        row.push('i');
        row.push('n');
        row.push('e');
        row.push('s');
        row.push(' ');
        proof {
            assert(row@ =~= self.current_status.file_name@ + seq![' ', '-', ' '] + dec_digits(
                self.current_status.total_lines as nat,
            ) + lines_suffix() + seq![' ']);
        }
        if self.current_status.is_modified {
            row.push('(');
            row.push('m');
            row.push('o');
            row.push('d');
            row.push('i');
            row.push('f');
            row.push('i');
            row.push('e');
            row.push('d');
            row.push(')');
            proof {
                assert(row@ =~= status_beginning(self.current_status));
            }
        } else {
            proof {
                assert(row@ =~= status_beginning(self.current_status));
            }
        }
        let shown = if self.current_status.current_line_index < usize::MAX {
            self.current_status.current_line_index + 1
        } else {
            usize::MAX
        };
        let mut pos = num_to_chars(shown);
        pos.push('/');
        let totals = num_to_chars(self.current_status.total_lines);
        push_all(&mut pos, &totals);
        proof {
            assert(pos@ =~= status_position(self.current_status));
        }
        let rem = if self.width >= row.len() {
            self.width - row.len()
        } else {
            0
        };
        if pos.len() <= rem {
            push_spaces(&mut row, rem - pos.len());
        } else {
            proof {
                assert(row@ + Seq::<char>::empty() =~= row@);
            }
        }
        push_all(&mut row, &pos);
        let text = if row.len() <= self.width {
            chars_to_string(&row)
        } else {
            let empty: Vec<char> = Vec::new();
            chars_to_string(&empty)
        };
        Some((self.position_y, text))
    }

    /// Marks the bar as needing (or not needing) a repaint.
    pub fn set_needs_redraw(&mut self, value: bool)
        ensures
            final(self).needs_redraw == value,
            final(self).current_status == old(self).current_status,
            final(self).width == old(self).width,
            final(self).margin_bottom == old(self).margin_bottom,
            final(self).position_y == old(self).position_y,
            final(self).is_visible == old(self).is_visible,
    {
        self.needs_redraw = value;
    }

    /// Whether the bar needs a repaint.
    pub fn needs_redraw(&self) -> (r: bool)
        ensures
            r == self.needs_redraw,
    {
        self.needs_redraw
    }
}

} // verus!