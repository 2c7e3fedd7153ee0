//! Tests for the document: loading, serializing, edits, and cyclic search.
use editcore::buffer::Buffer;
use editcore::types::Location;

fn loc(line: usize, grapheme: usize) -> Location {
    Location { grapheme_index: grapheme, line_index: line }
}

fn line_strings(b: &Buffer) -> Vec<String> {
    b.lines.iter().map(|l| l.to_string()).collect()
}

#[test]
fn load_splits_lines() {
    let b = Buffer::load("ab\ncde", "t.txt");
    assert_eq!(line_strings(&b), vec!["ab", "cde"]);
    assert!(!b.dirty);
    assert!(b.is_file_loaded());
}

#[test]
fn load_drops_trailing_line_break() {
    let b = Buffer::load("ab\n", "t.txt");
    assert_eq!(line_strings(&b), vec!["ab"]);
}

#[test]
fn load_handles_carriage_returns() {
    let b = Buffer::load("a\r\nb", "t.txt");
    assert_eq!(line_strings(&b), vec!["a", "b"]);
}

#[test]
fn load_empty_gives_no_lines() {
    let b = Buffer::load("", "t.txt");
    assert_eq!(b.height(), 0);
    assert!(b.is_empty());
}

#[test]
fn save_content_joins_with_line_breaks() {
    let b = Buffer::load("ab\ncde", "t.txt");
    let text: String = b.save_content().iter().collect();
    assert_eq!(text, "ab\ncde\n");
}

#[test]
fn insert_char_marks_dirty() {
    let mut b = Buffer::load("ab", "t.txt");
    b.insert_char('x', loc(0, 1));
    assert_eq!(line_strings(&b), vec!["axb"]);
    assert!(b.dirty);
}

#[test]
fn insert_char_past_last_line_appends() {
    let mut b = Buffer::load("ab", "t.txt");
    b.insert_char('x', loc(1, 0));
    assert_eq!(line_strings(&b), vec!["ab", "x"]);
}

#[test]
fn delete_within_line_removes_cluster() {
    let mut b = Buffer::load("abc", "t.txt");
    b.delete(loc(0, 1));
    assert_eq!(line_strings(&b), vec!["ac"]);
}

#[test]
fn delete_at_line_end_merges_next_line() {
    let mut b = Buffer::load("a\nb\ncde", "t.txt");
    b.delete(loc(0, 1));
    assert_eq!(line_strings(&b), vec!["ab", "cde"]);
}

#[test]
fn delete_beyond_document_changes_nothing() {
    let mut b = Buffer::load("ab", "t.txt");
    b.delete(loc(5, 0));
    assert_eq!(line_strings(&b), vec!["ab"]);
    assert!(!b.dirty);
}

#[test]
fn insert_newline_splits_line() {
    let mut b = Buffer::load("ab\ncde", "t.txt");
    b.insert_newline(loc(0, 1));
    assert_eq!(line_strings(&b), vec!["a", "b", "cde"]);
}

#[test]
fn split_then_merge_restores_lines() {
    let mut b = Buffer::load("ab\ncde", "t.txt");
    b.insert_newline(loc(0, 1));
    assert_eq!(line_strings(&b), vec!["a", "b", "cde"]);
    b.delete(loc(0, 1));
    assert_eq!(line_strings(&b), vec!["ab", "cde"]);
}

#[test]
fn confirm_saved_clears_dirty() {
    let mut b = Buffer::load("ab", "t.txt");
    b.insert_char('x', loc(0, 0));
    assert!(b.dirty);
    let fi = b.file_info.get_path_chars();
    b.confirm_saved(editcore::fileinfo::FileInfo { path: fi });
    assert!(!b.dirty);
}

#[test]
fn search_forward_scans_cyclically() {
    let b = Buffer::load("ab\ncde", "t.txt");
    assert_eq!(b.search_forward("cd", loc(0, 0)), Some(loc(1, 0)));
    // Starting past the only occurrence wraps around and reaches it again.
    assert_eq!(b.search_forward("ab", loc(1, 0)), Some(loc(0, 0)));
    assert_eq!(b.search_forward("", loc(0, 0)), None);
    assert_eq!(b.search_forward("zz", loc(0, 0)), None);
}

#[test]
fn search_backward_scans_cyclically() {
    let b = Buffer::load("ab\ncde", "t.txt");
    assert_eq!(b.search_backward("cd", loc(0, 0)), Some(loc(1, 0)));
    assert_eq!(b.search_backward("ab", loc(1, 1)), Some(loc(0, 0)));
    assert_eq!(b.search_backward("", loc(1, 1)), None);
}

#[test]
fn search_visits_every_occurrence_once_before_repeating() {
    // One marker per line: stepping the start past each match visits all
    // of them exactly once, then wraps to the first again.
    let b = Buffer::load("xy\nxy\nxy", "t.txt");
    let first = b.search_forward("xy", loc(0, 0)).unwrap();
    assert_eq!(first, loc(0, 0));
    let second = b.search_forward("xy", loc(first.line_index, first.grapheme_index + 2)).unwrap();
    assert_eq!(second, loc(1, 0));
    let third = b.search_forward("xy", loc(second.line_index, second.grapheme_index + 2)).unwrap();
    assert_eq!(third, loc(2, 0));
    let again = b.search_forward("xy", loc(third.line_index, third.grapheme_index + 2)).unwrap();
    assert_eq!(again, first);
}

#[test]
fn search_finds_marker_from_any_start() {
    let b = Buffer::load("a\nb\nmark\nc", "t.txt");
    for start in 0..4 {
        let hit = b.search_forward("mark", loc(start, 0));
        assert_eq!(hit, Some(loc(2, 0)));
    }
}
