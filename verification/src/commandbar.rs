//! The command bar: a one-row prompt where the user types a file name or a
//! search query. Only character insertion and backspace edit the value.
use vstd::prelude::*;

use crate::chars::push_all;
use crate::command::Edit;
use crate::line::Line;
use crate::types::{ColIdx, Size};
use crate::unicode::{chars_to_string, str_to_chars};

verus! {

/// The typed value after one edit command: insertion appends a character,
/// backspace removes the last cluster, anything else leaves it unchanged.
pub open spec fn edited_value(l: Line, command: Edit) -> Seq<char> {
    match command {
        Edit::Insert(c) => l.text().push(c),
        Edit::DeleteBackward => if l.gcount() > 0 {
            l.text().take(l.start_of(l.gcount() - 1) as int)
        } else {
            l.text()
        },
        Edit::Delete | Edit::InsertNewline => l.text(),
    }
}

/// The command bar's state: the prompt shown before the typed value.
pub struct CommandBar {
    pub prompt: Vec<char>,
    pub value: Line,
    pub needs_redraw: bool,
    pub size: Size,
}

impl CommandBar {
    /// The value's line is well formed.
    pub open spec fn wf(self) -> bool {
        self.value.wf()
    }

    /// An empty command bar.
    pub fn new(size: Size) -> (r: CommandBar)
        ensures
            r.wf(),
            r.prompt@ == Seq::<char>::empty(),
            r.value.text() == Seq::<char>::empty(),
            r.size == size,
            r.needs_redraw == false,
    {
        CommandBar { prompt: Vec::new(), value: Line::default(), needs_redraw: false, size }
    }

    /// Applies an edit to the typed value: insertion appends a character
    /// (never a line break), backspace removes the last cluster, anything
    /// else does nothing.
    pub fn handle_edit_command(&mut self, command: Edit)
        requires
            old(self).wf(),
            command matches Edit::Insert(c) ==> c != '\n',
        ensures
            final(self).wf(),
            final(self).prompt@ == old(self).prompt@,
            final(self).size == old(self).size,
            final(self).needs_redraw,
            final(self).value.text() == edited_value(old(self).value, command),
    {
        match command {
            Edit::Insert(character) => self.value.append_char(character),
            Edit::Delete | Edit::InsertNewline => {},
            Edit::DeleteBackward => self.value.delete_last(),
        }
        self.needs_redraw = true;
    }

    /// The column the caret sits at: past the prompt and the typed value,
    /// capped at the window's right edge.
    pub fn caret_position_col(&self) -> (r: ColIdx)
        ensures
            r == if self.prompt@.len() + self.value.gcount() <= self.size.width {
                self.prompt@.len() + self.value.gcount()
            } else {
                self.size.width as nat
            },
    {
        let c = self.value.grapheme_count();
        let total = if self.prompt.len() > usize::MAX - c {
            usize::MAX
        } else {
            self.prompt.len() + c
        };
        if total <= self.size.width {
            total
        } else {
            self.size.width
        }
    }

    /// The typed value, as a string.
    pub fn value(&self) -> (r: String)
        ensures
            r@ == self.value.text(),
    {
        self.value.to_string()
    }

    /// Sets the prompt shown before the value.
    pub fn set_prompt(&mut self, prompt: &str)
        ensures
            final(self).wf() == old(self).wf(),
            final(self).prompt@ == prompt@,
            final(self).value == old(self).value,
            final(self).size == old(self).size,
            final(self).needs_redraw,
    {
        self.prompt = str_to_chars(prompt);
        self.needs_redraw = true;
    }

    /// Clears the typed value.
    pub fn clear_value(&mut self)
        ensures
            final(self).wf(),
            final(self).prompt@ == old(self).prompt@,
            final(self).value.text() == Seq::<char>::empty(),
            final(self).size == old(self).size,
            final(self).needs_redraw,
    {
        self.value = Line::default();
        self.needs_redraw = true;
    }

    /// Adopts a new window size.
    pub fn set_size(&mut self, size: Size)
        ensures
            final(self).wf() == old(self).wf(),
            final(self).prompt@ == old(self).prompt@,
            final(self).value == old(self).value,
            final(self).size == size,
            final(self).needs_redraw == old(self).needs_redraw,
    {
        self.size = size;
    }

    /// Adopts a new window size and flags a repaint.
    pub fn resize(&mut self, size: Size)
        ensures
            final(self).wf() == old(self).wf(),
            final(self).prompt@ == old(self).prompt@,
            final(self).value == old(self).value,
            final(self).size == size,
            final(self).needs_redraw,
    {
        self.set_size(size);
        self.needs_redraw = true;
    }

    /// Marks the bar as needing (or not needing) a repaint.
    pub fn set_needs_redraw(&mut self, value: bool)
        ensures
            final(self).wf() == old(self).wf(),
            final(self).prompt@ == old(self).prompt@,
            final(self).value == old(self).value,
            final(self).size == old(self).size,
            final(self).needs_redraw == value,
    {
        self.needs_redraw = value;
    }

    /// Whether the bar needs a repaint.
    pub fn needs_redraw(&self) -> (r: bool)
        ensures
            r == self.needs_redraw,
    {
        self.needs_redraw
    }

    /// The row the bar would draw now: the prompt, then the right end of
    /// the typed value windowed to the remaining width; an empty row when
    /// even that does not fit. Consumes the repaint need.
    pub fn render(&mut self) -> (r: Option<String>)
        requires
            old(self).wf(),
        ensures
            final(self).wf(),
            final(self).prompt@ == old(self).prompt@,
            final(self).value == old(self).value,
            final(self).size == old(self).size,
            !old(self).needs_redraw ==> r is None && final(self).needs_redraw == old(self).needs_redraw,
            old(self).needs_redraw ==> !final(self).needs_redraw && (r matches Some(text) && ({
                let area = (if old(self).size.width >= old(self).prompt@.len() {
                    old(self).size.width - old(self).prompt@.len()
                } else {
                    0
                }) as nat;
                let value_end = old(self).value.visible_width();
                let value_start = if value_end >= area {
                    (value_end - area) as nat
                } else {
                    0
                };
                let message = old(self).prompt@ + old(self).value.window_text(
                    value_start as int,
                    value_end as int,
                );
                text@ == if message.len() <= old(self).size.width {
                    message
                } else {
                    Seq::<char>::empty()
                }
            })),
    {
        if !self.needs_redraw {
            return None;
        }
        self.needs_redraw = false;
        let area = if self.size.width >= self.prompt.len() {
            self.size.width - self.prompt.len()
        } else {
            0
        };
        let value_end = self.value.width();
        let value_start = if value_end >= area {
            value_end - area
        } else {
            0
        };
        let visible = self.value.get_visible_graphemes(value_start, value_end);
        let mut row: Vec<char> = Vec::new();
        push_all(&mut row, &self.prompt);
        let vis_chars = str_to_chars(visible.as_str());
        push_all(&mut row, &vis_chars);
        let text = if row.len() <= self.size.width {
            chars_to_string(&row)
        } else {
            let empty: Vec<char> = Vec::new();
            chars_to_string(&empty)
        };
        Some(text)
    }
}

} // verus!