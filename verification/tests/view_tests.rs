//! Tests for the viewport/cursor controller: movement, scrolling, editing,
//! search mode, and the rows it yields for rendering.
use editcore::annotated::AnnotationType;
use editcore::command::{Edit, Move};
use editcore::types::{Location, Size};
use editcore::view::{RowContent, View};

fn loc(line: usize, grapheme: usize) -> Location {
    Location { grapheme_index: grapheme, line_index: line }
}

fn view_over(text: &str, height: usize, width: usize) -> View {
    let mut v = View::new(Size { height, width });
    v.load(text, "t.txt");
    v
}

fn caret_in_window(v: &View) -> bool {
    let pos_row = v.text_location.line_index;
    let pos = v.text_location_to_position();
    let row_ok = v.size.height == 0 || (v.scroll_offset.row <= pos_row && pos_row
        < v.scroll_offset.row + v.size.height);
    let col_ok = v.size.width == 0 || (v.scroll_offset.col <= pos.col && pos.col
        < v.scroll_offset.col + v.size.width);
    row_ok && col_ok
}

#[test]
fn right_at_line_end_rolls_to_next_line() {
    let mut v = view_over("ab\ncde", 10, 10);
    v.text_location = loc(0, 2);
    v.handle_move_command(Move::Right);
    assert_eq!(v.text_location, loc(1, 0));
}

#[test]
fn left_at_line_start_rolls_to_previous_line_end() {
    let mut v = view_over("ab\ncde", 10, 10);
    v.text_location = loc(1, 0);
    v.handle_move_command(Move::Left);
    assert_eq!(v.text_location, loc(0, 2));
}

#[test]
fn vertical_move_snaps_to_valid_grapheme() {
    let mut v = view_over("abcdef\nx", 10, 10);
    v.text_location = loc(0, 5);
    v.handle_move_command(Move::Down);
    assert_eq!(v.text_location, loc(1, 1));
}

#[test]
fn home_and_end_move_within_line() {
    let mut v = view_over("abc", 10, 10);
    v.handle_move_command(Move::EndOfLine);
    assert_eq!(v.text_location, loc(0, 3));
    v.handle_move_command(Move::StartOfLine);
    assert_eq!(v.text_location, loc(0, 0));
}

#[test]
fn viewport_contains_cursor_after_any_moves_and_resizes() {
    let mut v = view_over("abcdefghij\nklm\nnopqrstuv\nw\nx\ny\nz", 3, 4);
    let commands = [
        Move::Down,
        Move::Down,
        Move::EndOfLine,
        Move::Down,
        Move::PageDown,
        Move::Right,
        Move::Up,
        Move::EndOfLine,
        Move::PageUp,
        Move::Left,
    ];
    for c in commands {
        v.handle_move_command(c);
        assert!(caret_in_window(&v));
    }
    v.resize(Size { height: 2, width: 2 });
    assert!(caret_in_window(&v));
    for c in commands {
        v.handle_move_command(c);
        assert!(caret_in_window(&v));
    }
}

#[test]
fn insert_moves_cursor_right() {
    let mut v = view_over("ab", 10, 10);
    v.text_location = loc(0, 1);
    v.handle_edit_command(Edit::Insert('x'));
    assert_eq!(v.buffer.lines[0].to_string(), "axb");
    assert_eq!(v.text_location, loc(0, 2));
}

#[test]
fn newline_then_backward_delete_restores_lines() {
    let mut v = view_over("ab\ncde", 10, 10);
    v.text_location = loc(0, 1);
    v.handle_edit_command(Edit::InsertNewline);
    let texts: Vec<String> = v.buffer.lines.iter().map(|l| l.to_string()).collect();
    assert_eq!(texts, vec!["a", "b", "cde"]);
    assert_eq!(v.text_location, loc(1, 0));
    v.handle_edit_command(Edit::DeleteBackward);
    let texts2: Vec<String> = v.buffer.lines.iter().map(|l| l.to_string()).collect();
    assert_eq!(texts2, vec!["ab", "cde"]);
}

#[test]
fn delete_merges_lines_at_end_of_line() {
    let mut v = view_over("ab\ncde", 10, 10);
    v.text_location = loc(0, 2);
    v.handle_edit_command(Edit::Delete);
    let texts: Vec<String> = v.buffer.lines.iter().map(|l| l.to_string()).collect();
    assert_eq!(texts, vec!["abcde"]);
}

#[test]
fn search_moves_to_match_and_search_next_wraps_to_single_occurrence() {
    let mut v = view_over("ab\ncde", 10, 10);
    v.enter_search();
    v.search("cd");
    assert_eq!(v.text_location, loc(1, 0));
    // There is a single occurrence: stepping past it wraps around the
    // document and reaches the same match again, so the cursor stays.
    v.search_next();
    assert_eq!(v.text_location, loc(1, 0));
}

#[test]
fn query_edits_rerun_search_from_the_snapshot() {
    let mut v = view_over("ca cb", 10, 10);
    v.enter_search();
    v.search("cb");
    assert_eq!(v.text_location, loc(0, 3));
    // Shrinking the query re-runs the search from the position held when
    // search began, not from the match the longer query reached.
    v.search("c");
    assert_eq!(v.text_location, loc(0, 0));
}

#[test]
fn repeated_search_next_visits_each_occurrence_once() {
    let mut v = view_over("xy\nxy\nxy", 10, 10);
    v.enter_search();
    v.search("xy");
    assert_eq!(v.text_location, loc(0, 0));
    v.search_next();
    assert_eq!(v.text_location, loc(1, 0));
    v.search_next();
    assert_eq!(v.text_location, loc(2, 0));
    v.search_next();
    assert_eq!(v.text_location, loc(0, 0));
}

#[test]
fn search_prev_steps_backward() {
    let mut v = view_over("xy\nxy", 10, 10);
    v.enter_search();
    v.search("xy");
    v.search_next();
    assert_eq!(v.text_location, loc(1, 0));
    v.search_prev();
    assert_eq!(v.text_location, loc(0, 0));
}

#[test]
fn dismiss_search_restores_cursor_and_scroll() {
    let mut v = view_over("ab\nx\nx\nx\nx\nx\ncd", 3, 4);
    v.handle_move_command(Move::Down);
    let here = v.text_location;
    let scroll = v.scroll_offset;
    v.enter_search();
    v.search("cd");
    assert_eq!(v.text_location, loc(6, 0));
    v.dismiss_search();
    assert_eq!(v.text_location, here);
    assert_eq!(v.scroll_offset, scroll);
    assert!(v.search_info.is_none());
}

#[test]
fn exit_search_keeps_cursor() {
    let mut v = view_over("ab\ncd", 10, 10);
    v.enter_search();
    v.search("cd");
    v.exit_search();
    assert_eq!(v.text_location, loc(1, 0));
    assert!(v.search_info.is_none());
}

#[test]
fn render_rows_show_text_placeholder_and_tilde() {
    let v = view_over("ab", 10, 20);
    match v.render_row(0) {
        RowContent::Text(a) => assert_eq!(a.to_string(), "ab"),
        _ => panic!("expected a text row"),
    }
    assert!(matches!(v.render_row(5), RowContent::Tilde));

    let empty = View::new(Size { height: 9, width: 40 });
    match empty.render_row(3) {
        RowContent::Placeholder(w) => {
            let text: String = w.iter().collect();
            assert!(text.starts_with('~'));
            assert!(text.contains("editcore editor"));
        },
        _ => panic!("expected the placeholder row"),
    }
    assert!(matches!(empty.render_row(0), RowContent::Tilde));
}

#[test]
fn render_row_windows_to_scrolled_columns() {
    let mut v = view_over("abcdefghij", 3, 4);
    v.handle_move_command(Move::EndOfLine);
    // The cursor sits at column 10; the window shows its last 4 columns.
    match v.render_row(0) {
        RowContent::Text(a) => assert_eq!(a.to_string(), "hij"),
        _ => panic!("expected a text row"),
    }
}

#[test]
fn render_row_tags_selected_match_on_cursor_line() {
    let mut v = view_over("cd\ncd", 10, 10);
    v.enter_search();
    v.search("cd");
    assert_eq!(v.text_location, loc(0, 0));
    match v.render_row(0) {
        RowContent::Text(a) => {
            assert_eq!(a.annotations.len(), 1);
            assert!(matches!(a.annotations[0].annotation_type, AnnotationType::SelectedMatch));
        },
        _ => panic!("expected a text row"),
    }
    match v.render_row(1) {
        RowContent::Text(a) => {
            assert_eq!(a.annotations.len(), 1);
            assert!(matches!(a.annotations[0].annotation_type, AnnotationType::Match));
        },
        _ => panic!("expected a text row"),
    }
}

#[test]
fn caret_position_is_scroll_adjusted() {
    let mut v = view_over("abcdefghij", 3, 4);
    v.handle_move_command(Move::EndOfLine);
    let p = v.caret_position();
    assert!(p.col < 4);
    assert_eq!(p.row, 0);
}

#[test]
fn get_status_reports_document_state() {
    let mut v = view_over("ab\ncd", 10, 10);
    let s = v.get_status();
    assert_eq!(s.total_lines, 2);
    assert_eq!(s.current_line_index, 0);
    assert!(!s.is_modified);
    let name: String = s.file_name.iter().collect();
    assert_eq!(name, "t.txt");
    v.handle_edit_command(Edit::Insert('x'));
    assert!(v.get_status().is_modified);
}
