//! Tests for annotated strings: edits re-index annotations, and iteration
//! yields maximal uniformly-annotated runs.
use editcore::annotated::{AnnotatedString, AnnotatedStringIterator, AnnotationType};

#[test]
fn replace_shifts_later_annotation() {
    let mut a = AnnotatedString::from("hello world");
    a.add_annotation(AnnotationType::Match, 6, 11);
    a.replace(0, 6, "");
    assert_eq!(a.to_string(), "world");
    assert_eq!(a.annotations.len(), 1);
    assert_eq!(a.annotations[0].start, 0);
    assert_eq!(a.annotations[0].end, 5);
}

#[test]
fn replace_keeps_earlier_annotation() {
    let mut a = AnnotatedString::from("hello world");
    a.add_annotation(AnnotationType::Match, 0, 5);
    a.replace(6, 11, "there");
    assert_eq!(a.to_string(), "hello there");
    assert_eq!(a.annotations[0].start, 0);
    assert_eq!(a.annotations[0].end, 5);
}

#[test]
fn replace_drops_emptied_annotation() {
    let mut a = AnnotatedString::from("abcdef");
    a.add_annotation(AnnotationType::Match, 2, 4);
    a.replace(1, 5, "");
    assert_eq!(a.to_string(), "af");
    assert_eq!(a.annotations.len(), 0);
}

#[test]
fn replace_clamps_annotation_inside_edit() {
    let mut a = AnnotatedString::from("abcdef");
    a.add_annotation(AnnotationType::Match, 1, 5);
    a.replace(2, 4, "");
    // The annotation shrinks with the removed span but stays non-empty.
    assert_eq!(a.to_string(), "abef");
    assert_eq!(a.annotations.len(), 1);
    assert!(a.annotations[0].start < a.annotations[0].end);
    assert!(a.annotations[0].end <= 4);
}

#[test]
fn insertion_at_annotation_end_leaves_it_unchanged() {
    let mut a = AnnotatedString::from("ab");
    a.add_annotation(AnnotationType::Match, 0, 2);
    a.replace(2, 2, "xy");
    assert_eq!(a.to_string(), "abxy");
    assert_eq!(a.annotations.len(), 1);
    assert_eq!(a.annotations[0].start, 0);
    assert_eq!(a.annotations[0].end, 2);
}

#[test]
fn growing_edit_after_annotation_leaves_it_unchanged() {
    let mut a = AnnotatedString::from("abcd");
    a.add_annotation(AnnotationType::Match, 0, 2);
    a.replace(2, 4, "XYZ");
    assert_eq!(a.to_string(), "abXYZ");
    assert_eq!(a.annotations[0].start, 0);
    assert_eq!(a.annotations[0].end, 2);
}

#[test]
fn replace_with_growth_shifts_by_delta() {
    let mut a = AnnotatedString::from("ab");
    a.add_annotation(AnnotationType::Match, 1, 2);
    a.replace(0, 1, "xyz");
    assert_eq!(a.to_string(), "xyzb");
    assert_eq!(a.annotations[0].start, 3);
    assert_eq!(a.annotations[0].end, 4);
}

#[test]
fn replace_past_end_does_nothing() {
    let mut a = AnnotatedString::from("ab");
    a.replace(5, 9, "x");
    assert_eq!(a.to_string(), "ab");
}

#[test]
fn replace_end_clamps_to_length() {
    let mut a = AnnotatedString::from("abcd");
    a.replace(2, 99, "Z");
    assert_eq!(a.to_string(), "abZ");
}

#[test]
fn truncate_wrappers_window_the_text() {
    let mut a = AnnotatedString::from("abcdef");
    a.truncate_left_until(2);
    assert_eq!(a.to_string(), "cdef");
    a.truncate_right_from(2);
    assert_eq!(a.to_string(), "cd");
}

#[test]
fn iteration_covers_text_in_maximal_runs() {
    let mut a = AnnotatedString::from("abc");
    a.add_annotation(AnnotationType::Match, 1, 2);
    let parts = a.parts();
    assert_eq!(parts.len(), 3);
    let texts: Vec<String> = parts.iter().map(|p| p.string.iter().collect()).collect();
    assert_eq!(texts, vec!["a", "b", "c"]);
    assert_eq!(parts[0].annotation_type, None);
    assert_eq!(parts[1].annotation_type, Some(AnnotationType::Match));
    assert_eq!(parts[2].annotation_type, None);
}

#[test]
fn last_added_annotation_wins() {
    let mut a = AnnotatedString::from("abc");
    a.add_annotation(AnnotationType::Match, 0, 3);
    a.add_annotation(AnnotationType::SelectedMatch, 1, 2);
    let parts = a.parts();
    let texts: Vec<String> = parts.iter().map(|p| p.string.iter().collect()).collect();
    assert_eq!(texts, vec!["a", "b", "c"]);
    assert_eq!(parts[0].annotation_type, Some(AnnotationType::Match));
    assert_eq!(parts[1].annotation_type, Some(AnnotationType::SelectedMatch));
    assert_eq!(parts[2].annotation_type, Some(AnnotationType::Match));
}

#[test]
fn adjacent_equal_annotations_merge_into_one_run() {
    let mut a = AnnotatedString::from("abcd");
    a.add_annotation(AnnotationType::Match, 0, 2);
    a.add_annotation(AnnotationType::Match, 2, 4);
    let parts = a.parts();
    assert_eq!(parts.len(), 1);
    let text: String = parts[0].string.iter().collect();
    assert_eq!(text, "abcd");
    assert_eq!(parts[0].annotation_type, Some(AnnotationType::Match));
}

#[test]
fn iterator_yields_runs_in_order() {
    let mut a = AnnotatedString::from("ab");
    a.add_annotation(AnnotationType::Match, 0, 1);
    let mut it = AnnotatedStringIterator { annotated_string: &a, current_idx: 0 };
    let first = it.next().unwrap();
    let text: String = first.string.iter().collect();
    assert_eq!(text, "a");
    let second = it.next().unwrap();
    let text2: String = second.string.iter().collect();
    assert_eq!(text2, "b");
    assert!(it.next().is_none());
}
