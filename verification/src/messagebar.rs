//! The message bar: one row of transient status text. Whether the current
//! message has expired is the caller's knowledge (it owns the clock); the
//! bar only remembers whether it has already cleared an expired message.
use vstd::prelude::*;

use crate::chars::push_all;
use crate::unicode::{chars_to_string, str_to_chars};

verus! {

/// A message shown to the user.
pub struct Message {
    pub text: Vec<char>,
}

/// The message bar's state.
pub struct MessageBar {
    pub current_message: Message,
    pub needs_redraw: bool,
    pub cleared_after_expiry: bool,
}

impl MessageBar {
    /// An empty message bar.
    pub fn new() -> (r: MessageBar)
        ensures
            r.current_message.text@ == Seq::<char>::empty(),
            r.needs_redraw == false,
            r.cleared_after_expiry == false,
    {
        MessageBar {
            current_message: Message { text: Vec::new() },
            needs_redraw: false,
            cleared_after_expiry: false,
        }
    }

    /// Replaces the current message and flags a repaint.
    pub fn update_message(&mut self, new_message: &str)
        ensures
            final(self).current_message.text@ == new_message@,
            final(self).needs_redraw,
            final(self).cleared_after_expiry == false,
    {
        self.current_message = Message { text: str_to_chars(new_message) };
        self.cleared_after_expiry = false;
        self.needs_redraw = true;
    }

    /// Whether the bar needs a repaint: either it was flagged, or its
    /// message has expired and has not been cleared from the screen yet.
    pub fn needs_redraw_now(&self, expired: bool) -> (r: bool)
        ensures
            r == ((!self.cleared_after_expiry && expired) || self.needs_redraw),
    {
        (!self.cleared_after_expiry && expired) || self.needs_redraw
    }

    /// The row the bar would draw now, given whether the message has
    /// expired: the message text, or — once, after expiry — an empty row to
    /// clear it. `None` when no repaint is due.
    pub fn render(&mut self, expired: bool) -> (r: Option<String>)
        ensures
            final(self).current_message.text@ == old(self).current_message.text@,
            !((!old(self).cleared_after_expiry && expired) || old(self).needs_redraw) ==> r is None
                && *final(self) == *old(self),
            ((!old(self).cleared_after_expiry && expired) || old(self).needs_redraw) ==> !final(self).needs_redraw && (r matches Some(text) && text@ == (if expired {
                Seq::<char>::empty()
            } else {
                old(self).current_message.text@
            })) && final(self).cleared_after_expiry == (old(self).cleared_after_expiry || expired),
    {
        if !((!self.cleared_after_expiry && expired) || self.needs_redraw) {
            return None;
        }
        if expired {
            self.cleared_after_expiry = true;
        }
        self.needs_redraw = false;
        let text = if expired {
            let empty: Vec<char> = Vec::new();
            chars_to_string(&empty)
        } else {
            chars_to_string(&self.current_message.text)
        };
        Some(text)
    }
}

} // verus!