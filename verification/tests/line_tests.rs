//! Tests for lines: segmentation, widths, edits, splitting, and search.
use editcore::annotated::AnnotationType;
use editcore::line::{GraphemeWidth, Line};

#[test]
fn from_counts_ascii_graphemes() {
    let l = Line::from("ab");
    assert_eq!(l.grapheme_count(), 2);
    assert_eq!(l.to_string(), "ab");
}

#[test]
fn combining_mark_is_one_grapheme() {
    // 'e' followed by a combining acute accent is one user-perceived character.
    let l = Line::from("e\u{301}x");
    assert_eq!(l.grapheme_count(), 2);
}

#[test]
fn wide_characters_take_two_columns() {
    let l = Line::from("\u{4f60}\u{597d}");
    assert_eq!(l.grapheme_count(), 2);
    assert_eq!(l.width(), 4);
    assert_eq!(l.width_until(1), 2);
}

#[test]
fn width_round_trip_is_fragment_sum() {
    for s in ["", "ab", "\u{4f60}\u{597d}c", "a\tb", "e\u{301}"] {
        let l = Line::from(s);
        let mut total: usize = 0;
        for f in &l.fragments {
            total += f.rendered_width.cols();
        }
        assert_eq!(total, l.width());
    }
}

#[test]
fn tab_shows_as_space_with_width_one() {
    let l = Line::from("a\tb");
    assert_eq!(l.width(), 3);
    assert_eq!(l.fragments[1].replacement, Some(' '));
    assert!(matches!(l.fragments[1].rendered_width, GraphemeWidth::Half));
}

#[test]
fn zero_width_character_shows_as_dot() {
    let l = Line::from("\u{200B}");
    assert_eq!(l.grapheme_count(), 1);
    assert_eq!(l.fragments[0].replacement, Some('.'));
    assert_eq!(l.width(), 1);
}

#[test]
fn control_character_shows_as_placeholder_box() {
    let l = Line::from("\u{07}");
    assert_eq!(l.fragments[0].replacement, Some('\u{25AF}'));
}

#[test]
fn wide_blank_shows_as_open_box() {
    // The ideographic space is visible whitespace.
    let l = Line::from("\u{3000}");
    assert_eq!(l.fragments[0].replacement, Some('\u{2423}'));
    assert_eq!(l.width(), 1);
}

#[test]
fn insert_char_splices_at_grapheme() {
    let mut l = Line::from("ad");
    l.insert_char('b', 1);
    assert_eq!(l.to_string(), "abd");
    l.insert_char('c', 3);
    assert_eq!(l.to_string(), "abdc");
}

#[test]
fn append_char_and_delete_last() {
    let mut l = Line::from("a");
    l.append_char('b');
    assert_eq!(l.to_string(), "ab");
    l.delete_last();
    assert_eq!(l.to_string(), "a");
}

#[test]
fn delete_removes_whole_cluster() {
    let mut l = Line::from("ae\u{301}b");
    l.delete(1);
    assert_eq!(l.to_string(), "ab");
    l.delete(5);
    assert_eq!(l.to_string(), "ab");
}

#[test]
fn split_and_append_reconstruct_line() {
    for (s, k) in [("abc", 1), ("a\u{4f60}b", 2), ("xy", 0), ("xy", 2)] {
        let mut l = Line::from(s);
        let tail = l.split(k);
        l.append(&tail);
        assert_eq!(l.to_string(), s);
    }
}

#[test]
fn split_at_count_yields_empty_tail() {
    let mut l = Line::from("ab");
    let tail = l.split(2);
    assert_eq!(l.to_string(), "ab");
    assert_eq!(tail.to_string(), "");
    assert_eq!(tail.grapheme_count(), 0);
}

#[test]
fn search_forward_finds_first_match() {
    let l = Line::from("abcabc");
    assert_eq!(l.search_forward("bc", 0), Some(1));
    assert_eq!(l.search_forward("bc", 2), Some(4));
    assert_eq!(l.search_forward("zz", 0), None);
    assert_eq!(l.search_forward("", 0), None);
}

#[test]
fn search_backward_finds_last_match_before() {
    let l = Line::from("abcabc");
    assert_eq!(l.search_backward("bc", 6), Some(4));
    assert_eq!(l.search_backward("bc", 4), Some(1));
    assert_eq!(l.search_backward("bc", 0), None);
}

#[test]
fn overlapping_occurrences_are_listed_non_overlapping() {
    // The scan is leftmost non-overlapping: the occurrence at the start
    // consumes its span, so the one overlapping it is not listed.
    let l = Line::from("aaa");
    assert_eq!(l.search_forward("aa", 0), Some(0));
    assert_eq!(l.search_forward("aa", 1), Some(1));
    assert_eq!(l.search_backward("aa", 3), Some(0));
    let a = l.get_annotated_visible_substr(0, 10, Some("aa"), None);
    assert_eq!(a.annotations.len(), 1);
    assert_eq!(a.annotations[0].start, 0);
    assert_eq!(a.annotations[0].end, 2);
}

#[test]
fn search_rejects_match_inside_cluster() {
    // "e" alone matches the first character of the cluster "e combining
    // acute", but the match would cut the cluster in half.
    let l = Line::from("e\u{301}");
    assert_eq!(l.search_forward("e", 0), None);
    assert_eq!(l.search_forward("e\u{301}", 0), Some(0));
}

#[test]
fn visible_window_keeps_whole_clusters() {
    let l = Line::from("\u{4f60}\u{597d}");
    assert_eq!(l.get_visible_graphemes(0, 2), "\u{4f60}");
    assert_eq!(l.get_visible_graphemes(0, 4), "\u{4f60}\u{597d}");
    // A window cutting both wide characters shows only edge ellipses.
    assert_eq!(l.get_visible_graphemes(1, 3), "\u{22EF}\u{22EF}");
    assert_eq!(l.get_visible_graphemes(4, 9), "");
    assert_eq!(l.get_visible_graphemes(3, 3), "");
}

#[test]
fn visible_window_applies_substitutes() {
    let l = Line::from("a\tb");
    assert_eq!(l.get_visible_graphemes(0, 10), "a b");
}

#[test]
fn annotated_window_tags_matches() {
    let l = Line::from("cdecd");
    let a = l.get_annotated_visible_substr(0, 10, Some("cd"), None);
    assert_eq!(a.to_string(), "cdecd");
    assert_eq!(a.annotations.len(), 2);
    assert_eq!(a.annotations[0].start, 0);
    assert_eq!(a.annotations[0].end, 2);
    assert!(matches!(a.annotations[0].annotation_type, AnnotationType::Match));
    assert_eq!(a.annotations[1].start, 3);
    assert_eq!(a.annotations[1].end, 5);
}

#[test]
fn annotated_window_tags_selected_match() {
    let l = Line::from("cdecd");
    let a = l.get_annotated_visible_substr(0, 10, Some("cd"), Some(3));
    assert!(matches!(a.annotations[0].annotation_type, AnnotationType::Match));
    assert!(matches!(a.annotations[1].annotation_type, AnnotationType::SelectedMatch));
}

#[test]
fn annotated_window_without_query_has_no_annotations() {
    let l = Line::from("cde");
    let a = l.get_annotated_visible_substr(0, 10, None, None);
    assert_eq!(a.annotations.len(), 0);
    let b = l.get_annotated_visible_substr(0, 10, Some(""), None);
    assert_eq!(b.annotations.len(), 0);
}
