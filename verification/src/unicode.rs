//! The boundary to the Unicode facilities the library relies on:
//! grapheme-cluster segmentation, display widths, and conversions between
//! `String` and `Vec<char>`.
//!
//! Text is carried through the library as `Vec<char>`, so every index is an
//! index of a Unicode scalar value. Segmentation and width classification are
//! functions of the characters alone; their results are given names
//! (`graphemes_of`, `display_width_of`) that the contracts of the rest of the
//! library build on.
use vstd::prelude::*;

use unicode_segmentation::UnicodeSegmentation;
use unicode_width::UnicodeWidthStr;
use vstd::std_specs::iter::IteratorSpec;

verus! {

/// The sequence of extended grapheme clusters of `s`, in order, as
/// unicode-segmentation splits it. The clusters are non-empty and
/// concatenate back to `s` (see `segment_graphemes`).
pub uninterp spec fn graphemes_of(s: Seq<char>) -> Seq<Seq<char>>;

/// The display width, in terminal columns, that unicode-width assigns to
/// the string made of the characters `s`.
pub uninterp spec fn display_width_of(s: Seq<char>) -> nat;

/// Relies on unicode_segmentation::UnicodeSegmentation::graphemes with
/// extended clusters: it splits a string into its grapheme clusters, in
/// order; the clusters are non-empty substrings that together cover the
/// whole string.
#[verifier::external_body]
pub fn segment_graphemes(s: &Vec<char>) -> (r: Vec<Vec<char>>)
    ensures
        r.deep_view() == graphemes_of(s@),
        r.deep_view().flatten() == s@,
        forall|i: int| 0 <= i < r.deep_view().len() ==> r.deep_view()[i].len() > 0,
{
    let text: String = s.iter().collect();
    text.graphemes(true).map(|g| g.chars().collect()).collect()
}

/// Relies on unicode_width::UnicodeWidthStr::width: the displayed width of a
/// string in columns, a function of its characters alone.
#[verifier::external_body]
pub fn grapheme_display_width(g: &Vec<char>) -> (r: usize)
    ensures
        r == display_width_of(g@),
{
    let text: String = g.iter().collect();
    text.as_str().width()
}

/// Relies on String's FromIterator over char: collecting characters yields
/// the string of exactly those characters.
#[verifier::external_body]
pub fn chars_to_string(v: &Vec<char>) -> (r: String)
    ensures
        r@ == v@,
{
    v.iter().copied().collect()
}

/// Collects the characters of a string slice into a vector, one `char` at a
/// time.
pub fn str_to_chars(s: &str) -> (r: Vec<char>)
    ensures
        r@ == s@,
{
    broadcast use vstd::string::axiom_spec_iter;
    broadcast use vstd::string::next_postcondition;

    let mut it = s.chars();
    let mut out: Vec<char> = Vec::new();
    loop
        invariant
            it.obeys_prophetic_iter_laws(),
            it.decrease() is Some,
            out@ + it.remaining() == s@,
        ensures
            out@ == s@,
        decreases it.decrease()->0,
    {
        match it.next() {
            Some(c) => {
                out.push(c);
            },
            None => {
                break ;
            },
        }
    }
    out
}

/// Whether `c` has the Unicode White_Space property, the set of characters
/// that str::trim removes (char::is_whitespace documents this list).
pub open spec fn is_unicode_whitespace(c: char) -> bool {
    ||| c == ' '
    ||| ('\u{09}' <= c && c <= '\u{0D}')
    ||| c == '\u{85}'
    ||| c == '\u{A0}'
    ||| c == '\u{1680}'
    ||| ('\u{2000}' <= c && c <= '\u{200A}')
    ||| c == '\u{2028}'
    ||| c == '\u{2029}'
    ||| c == '\u{202F}'
    ||| c == '\u{205F}'
    ||| c == '\u{3000}'
}

/// Whether `c` is a control character: the C0 block, delete, or the C1
/// block (the set char::is_control documents).
pub open spec fn is_unicode_control(c: char) -> bool {
    ||| c <= '\u{1F}'
    ||| ('\u{7F}' <= c && c <= '\u{9F}')
}

pub fn char_is_whitespace(c: char) -> (r: bool)
    ensures
        r == is_unicode_whitespace(c),
{
    c == ' ' || ('\u{09}' <= c && c <= '\u{0D}') || c == '\u{85}' || c == '\u{A0}' || c
        == '\u{1680}' || ('\u{2000}' <= c && c <= '\u{200A}') || c == '\u{2028}' || c == '\u{2029}'
        || c == '\u{202F}' || c == '\u{205F}' || c == '\u{3000}'
}

pub fn char_is_control(c: char) -> (r: bool)
    ensures
        r == is_unicode_control(c),
{
    c <= '\u{1F}' || ('\u{7F}' <= c && c <= '\u{9F}')
}

} // verus!
