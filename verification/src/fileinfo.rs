//! The identity of the file a document belongs to, if it has one.
use vstd::prelude::*;

use crate::chars::subrange_chars;
use crate::unicode::{chars_to_string, str_to_chars};

verus! {

/// The characters of `p` after its last path separator (`p` itself when it
/// has none; empty when it ends in a separator).
pub open spec fn suffix_after_slash(p: Seq<char>) -> Seq<char>
    decreases p.len(),
{
    if p.len() == 0 {
        p
    } else if p.last() == '/' {
        Seq::empty()
    } else {
        suffix_after_slash(p.drop_last()).push(p.last())
    }
}

/// The name a file identity displays when it has no path.
pub open spec fn no_name_text() -> Seq<char> {
    seq!['[', 'N', 'o', ' ', 'N', 'a', 'm', 'e', ']']
}

/// A file identity: a path, or none for an unsaved document.
pub struct FileInfo {
    pub path: Option<Vec<char>>,
}

impl FileInfo {
    /// The displayed name: the path's last component, or a placeholder when
    /// there is no path.
    pub open spec fn display_name(self) -> Seq<char> {
        match self.path {
            Some(p) => suffix_after_slash(p@),
            None => no_name_text(),
        }
    }

    /// An identity with no path.
    pub fn none() -> (r: FileInfo)
        ensures
            r.path is None,
    {
        FileInfo { path: None }
    }

    /// The identity of the file named `file_name`.
    pub fn from(file_name: &str) -> (r: FileInfo)
        ensures
            r.path matches Some(p) && p@ == file_name@,
    {
        FileInfo { path: Some(str_to_chars(file_name)) }
    }

    /// The path, as a string, when there is one.
    pub fn get_path(&self) -> (r: Option<String>)
        ensures
            r is Some <==> self.path is Some,
            r matches Some(p) ==> self.path matches Some(q) && p@ == q@,
    {
        match &self.path {
            Some(v) => Some(chars_to_string(v)),
            None => None,
        }
    }

    /// The path, as characters, when there is one.
    pub fn get_path_chars(&self) -> (r: Option<Vec<char>>)
        ensures
            r is Some <==> self.path is Some,
            r matches Some(p) ==> self.path matches Some(q) && p@ == q@,
    {
        match &self.path {
            Some(v) => {
                let c = v.clone();
                proof {
                    assert(c@ =~= v@);
                }
                Some(c)
            },
            None => None,
        }
    }

    /// Whether the identity names a file.
    pub fn has_path(&self) -> (r: bool)
        ensures
            r == (self.path is Some),
    {
        match &self.path {
            Some(_) => true,
            None => false,
        }
    }

    /// The displayed name, as characters.
    pub fn display_name_chars(&self) -> (r: Vec<char>)
        ensures
            r@ == self.display_name(),
    {
        match &self.path {
            Some(p) => {
                let n = p.len();
                let mut j: usize = n;
                while j > 0 && p[j - 1] != '/'
                    invariant
                        j <= n,
                        n == p@.len(),
                        forall|k: int| j <= k < n ==> p@[k] != '/',
                    decreases j,
                {
                    j = j - 1;
                }
                proof {
                    lemma_suffix_after_slash(p@, j as int);
                }
                subrange_chars(p, j, n)
            },
            None => {
                let mut v: Vec<char> = Vec::new();
                v.push('[');
                v.push('N');
                v.push('o');
                v.push(' ');
                v.push('N');
                v.push('a');
                v.push('m');
                v.push('e');
                v.push(']');
                proof {
                    assert(v@ =~= no_name_text());
                }
                v
            },
        }
    }
}

/// When no separator occurs at or after position `j`, and `j` is zero or
/// preceded by a separator, the displayed suffix is exactly the characters
/// from `j` on.
proof fn lemma_suffix_after_slash(p: Seq<char>, j: int)
    requires
        0 <= j <= p.len(),
        forall|k: int| j <= k < p.len() ==> p[k] != '/',
        j > 0 ==> p[j - 1] == '/',
    ensures
        suffix_after_slash(p) == p.skip(j),
    decreases p.len(),
{
    if p.len() == 0 {
        assert(suffix_after_slash(p) =~= p.skip(j));
    } else if j == p.len() {
        if j > 0 {
            assert(p.last() == '/');
            assert(suffix_after_slash(p) =~= p.skip(j));
        } else {
            assert(p.len() == 0);
        }
    } else {
        assert(p.last() != '/');
        lemma_suffix_after_slash(p.drop_last(), j);
        assert(suffix_after_slash(p) =~= p.skip(j));
    }
}

} // verus!
