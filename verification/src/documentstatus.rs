//! A snapshot of the document's state for the status bar: line count,
//! cursor line, modified flag, and displayed file name.
use vstd::prelude::*;

use crate::chars::{dec_digits, num_to_chars, push_all};
use crate::types::LineIdx;
use crate::unicode::chars_to_string;

verus! {

/// What the status bar shows about the document.
pub struct DocumentStatus {
    pub total_lines: usize,
    pub current_line_index: LineIdx,
    pub is_modified: bool,
    pub file_name: Vec<char>,
}

/// The text `" lines"`, the suffix of the line-count indicator.
pub open spec fn lines_suffix() -> Seq<char> {
    seq![' ', 'l', 'i', 'n', 'e', 's']
}

/// The text `"(modified)"`, shown while the document has unsaved changes.
pub open spec fn modified_marker() -> Seq<char> {
    seq!['(', 'm', 'o', 'd', 'i', 'f', 'i', 'e', 'd', ')']
}

impl DocumentStatus {
    /// Two snapshots show the same thing.
    pub open spec fn same_as(self, other: DocumentStatus) -> bool {
        &&& self.total_lines == other.total_lines
        &&& self.current_line_index == other.current_line_index
        &&& self.is_modified == other.is_modified
        &&& self.file_name@ == other.file_name@
    }

    /// A snapshot of an empty, unmodified, unnamed document.
    pub fn new() -> (r: DocumentStatus)
        ensures
            r.total_lines == 0,
            r.current_line_index == 0,
            r.is_modified == false,
            r.file_name@ == Seq::<char>::empty(),
    {
        DocumentStatus {
            total_lines: 0,
            current_line_index: 0,
            is_modified: false,
            file_name: Vec::new(),
        }
    }

    /// Compares two snapshots for display purposes.
    pub fn shows_same(&self, other: &DocumentStatus) -> (r: bool)
        ensures
            r == self.same_as(*other),
    {
        if self.total_lines != other.total_lines || self.current_line_index
            != other.current_line_index || self.is_modified != other.is_modified {
            return false;
        }
        if self.file_name.len() != other.file_name.len() {
            return false;
        }
        let mut i: usize = 0;
        while i < self.file_name.len()
            invariant
                i <= self.file_name@.len(),
                self.file_name@.len() == other.file_name@.len(),
                forall|k: int| 0 <= k < i ==> self.file_name@[k] == other.file_name@[k],
            decreases self.file_name@.len() - i,
        {
            if self.file_name[i] != other.file_name[i] {
                return false;
            }
            i = i + 1;
        }
        proof {
            assert(self.file_name@ =~= other.file_name@);
        }
        true
    }

    /// `"(modified)"` while the document is dirty, empty otherwise.
    pub fn modified_indicator_to_string(&self) -> (r: String)
        ensures
            self.is_modified ==> r@ == modified_marker(),
            !self.is_modified ==> r@ == Seq::<char>::empty(),
    {
        let mut v: Vec<char> = Vec::new();
        if self.is_modified {
            v.push('(');
            v.push('m');
            v.push('o');
            v.push('d');
            v.push('i');
            v.push('f');
            v.push('i');
            v.push('e');
            v.push('d');
            v.push(')');
            proof {
                assert(v@ =~= modified_marker());
            }
        }
        chars_to_string(&v)
    }

    /// The line count, written as `"<n> lines"`.
    pub fn line_count_to_string(&self) -> (r: String)
        ensures
            r@ == dec_digits(self.total_lines as nat) + lines_suffix(),
    {
        let mut v = num_to_chars(self.total_lines);
        v.push(' ');
        v.push('l');
        v.push('i');
        v.push('n');
        v.push('e');
        v.push('s');
        proof {
            assert(v@ =~= dec_digits(self.total_lines as nat) + lines_suffix());
        }
        chars_to_string(&v)
    }

    /// The cursor's position, written as `"<line>/<total>"`, with the line
    /// shown starting from one.
    pub fn position_indicator_to_string(&self) -> (r: String)
        ensures
            r@ == dec_digits(
                if self.current_line_index < usize::MAX {
                    (self.current_line_index + 1) as nat
                } else {
                    usize::MAX as nat
                },
            ) + seq!['/'] + dec_digits(self.total_lines as nat),
    {
        let shown = if self.current_line_index < usize::MAX {
            self.current_line_index + 1
        } else {
            usize::MAX
        };
        let mut v = num_to_chars(shown);
        v.push('/');
        let t = num_to_chars(self.total_lines);
        push_all(&mut v, &t);
        proof {
            assert(dec_digits(shown as nat).push('/') =~= dec_digits(shown as nat) + seq!['/']);
        }
        chars_to_string(&v)
    }
}

} // verus!