//! Tests for the editor's command dispatch: quitting, prompts, saving, and
//! the bars.
use editcore::command::{Command, Edit, Move, System};
use editcore::commandbar::CommandBar;
use editcore::documentstatus::DocumentStatus;
use editcore::editor::{Editor, PromptType};
use editcore::messagebar::MessageBar;
use editcore::statusbar::StatusBar;
use editcore::types::{Location, Size};

fn editor_with(text: &str) -> Editor {
    let mut e = Editor::new(Size { height: 10, width: 40 });
    e.view.load(text, "t.txt");
    e
}

#[test]
fn quit_on_clean_document_exits_at_once() {
    let mut e = editor_with("ab");
    e.process_command(Command::System(System::Quit));
    assert!(e.should_quit());
}

#[test]
fn quit_on_dirty_document_needs_three_presses() {
    let mut e = editor_with("ab");
    e.process_command(Command::Edit(Edit::Insert('x')));
    e.process_command(Command::System(System::Quit));
    assert!(!e.should_quit());
    e.process_command(Command::System(System::Quit));
    assert!(!e.should_quit());
    e.process_command(Command::System(System::Quit));
    assert!(e.should_quit());
}

#[test]
fn other_command_resets_quit_count() {
    let mut e = editor_with("ab");
    e.process_command(Command::Edit(Edit::Insert('x')));
    e.process_command(Command::System(System::Quit));
    e.process_command(Command::Move(Move::Right));
    assert_eq!(e.quit_times, 0);
    e.process_command(Command::System(System::Quit));
    assert!(!e.should_quit());
}

#[test]
fn save_with_file_yields_request_at_once() {
    let mut e = editor_with("ab\ncd");
    let r = e.process_command(Command::System(System::Save));
    let req = r.expect("a named document saves without a prompt");
    assert_eq!(req.file_name, None);
    assert_eq!(req.content, "ab\ncd\n");
    e.report_save_outcome(None, true);
    assert!(!e.view.buffer.dirty);
}

#[test]
fn save_without_file_prompts_for_a_name() {
    let mut e = Editor::new(Size { height: 10, width: 40 });
    e.process_command(Command::Edit(Edit::Insert('h')));
    e.process_command(Command::Edit(Edit::Insert('i')));
    let r = e.process_command(Command::System(System::Save));
    assert!(r.is_none());
    assert_eq!(e.prompt_type, PromptType::Save);
    for c in "out.txt".chars() {
        e.process_command(Command::Edit(Edit::Insert(c)));
    }
    let r2 = e.process_command(Command::Edit(Edit::InsertNewline));
    let req = r2.expect("confirming the prompt yields the save request");
    assert_eq!(req.file_name.as_deref(), Some("out.txt"));
    assert_eq!(req.content, "hi\n");
    assert_eq!(e.prompt_type, PromptType::NoPrompt);
    e.report_save_outcome(Some("out.txt"), true);
    assert!(!e.view.buffer.dirty);
    assert!(e.view.is_file_loaded());
}

#[test]
fn failed_save_keeps_document_dirty() {
    let mut e = editor_with("ab");
    e.process_command(Command::Edit(Edit::Insert('x')));
    let _ = e.process_command(Command::System(System::Save));
    e.report_save_outcome(None, false);
    assert!(e.view.buffer.dirty);
}

#[test]
fn dismissing_save_prompt_aborts() {
    let mut e = Editor::new(Size { height: 10, width: 40 });
    e.process_command(Command::Edit(Edit::Insert('x')));
    e.process_command(Command::System(System::Save));
    let r = e.process_command(Command::System(System::Dismiss));
    assert!(r.is_none());
    assert_eq!(e.prompt_type, PromptType::NoPrompt);
    assert!(e.view.buffer.dirty);
}

#[test]
fn search_prompt_drives_the_view() {
    let mut e = editor_with("ab\ncde");
    e.process_command(Command::System(System::Search));
    assert_eq!(e.prompt_type, PromptType::Search);
    e.process_command(Command::Edit(Edit::Insert('c')));
    e.process_command(Command::Edit(Edit::Insert('d')));
    assert_eq!(e.view.text_location, Location { grapheme_index: 0, line_index: 1 });
    e.process_command(Command::Edit(Edit::InsertNewline));
    assert_eq!(e.prompt_type, PromptType::NoPrompt);
    assert_eq!(e.view.text_location, Location { grapheme_index: 0, line_index: 1 });
}

#[test]
fn shrinking_the_query_searches_from_the_snapshot_again() {
    let mut e = editor_with("ca cb");
    e.process_command(Command::System(System::Search));
    e.process_command(Command::Edit(Edit::Insert('c')));
    e.process_command(Command::Edit(Edit::Insert('b')));
    assert_eq!(e.view.text_location, Location { grapheme_index: 3, line_index: 0 });
    e.process_command(Command::Edit(Edit::DeleteBackward));
    assert_eq!(e.view.text_location, Location { grapheme_index: 0, line_index: 0 });
}

#[test]
fn dismissing_search_restores_position() {
    let mut e = editor_with("ab\ncde");
    let before = e.view.text_location;
    e.process_command(Command::System(System::Search));
    e.process_command(Command::Edit(Edit::Insert('c')));
    assert_ne!(e.view.text_location, before);
    e.process_command(Command::System(System::Dismiss));
    assert_eq!(e.view.text_location, before);
    assert_eq!(e.prompt_type, PromptType::NoPrompt);
}

#[test]
fn resize_reaches_the_view() {
    let mut e = editor_with("ab");
    e.process_command(Command::System(System::Resize(Size { height: 6, width: 20 })));
    assert_eq!(e.terminal_size, Size { height: 6, width: 20 });
    assert_eq!(e.view.size, Size { height: 4, width: 20 });
}

#[test]
fn refresh_status_reports_title_changes() {
    let mut e = editor_with("ab");
    let t = e.refresh_status();
    assert_eq!(t.as_deref(), Some("t.txt - editcore"));
    let t2 = e.refresh_status();
    assert!(t2.is_none());
}

#[test]
fn document_status_indicators() {
    let s = DocumentStatus {
        total_lines: 2,
        current_line_index: 0,
        is_modified: true,
        file_name: "t.txt".chars().collect(),
    };
    assert_eq!(s.line_count_to_string(), "2 lines");
    assert_eq!(s.position_indicator_to_string(), "1/2");
    assert_eq!(s.modified_indicator_to_string(), "(modified)");
    let clean = DocumentStatus { is_modified: false, ..s };
    assert_eq!(clean.modified_indicator_to_string(), "");
}

#[test]
fn status_bar_renders_aligned_row() {
    let mut bar = StatusBar::new(1, Size { height: 10, width: 30 });
    bar.update_status(DocumentStatus {
        total_lines: 2,
        current_line_index: 0,
        is_modified: false,
        file_name: "t.txt".chars().collect(),
    });
    let (row, text) = bar.render().expect("a fresh status bar needs a repaint");
    assert_eq!(row, 7);
    assert_eq!(text.chars().count(), 30);
    assert!(text.starts_with("t.txt - 2 lines "));
    assert!(text.ends_with("1/2"));
    assert!(bar.render().is_none());
}

#[test]
fn status_bar_skips_unchanged_status() {
    let mut bar = StatusBar::new(1, Size { height: 10, width: 30 });
    let s = DocumentStatus {
        total_lines: 1,
        current_line_index: 0,
        is_modified: false,
        file_name: "a".chars().collect(),
    };
    let s2 = DocumentStatus {
        total_lines: 1,
        current_line_index: 0,
        is_modified: false,
        file_name: "a".chars().collect(),
    };
    bar.update_status(s);
    let _ = bar.render();
    bar.update_status(s2);
    assert!(bar.render().is_none());
}

#[test]
fn message_bar_clears_once_after_expiry() {
    let mut bar = MessageBar::new();
    bar.update_message("hello");
    assert_eq!(bar.render(false).as_deref(), Some("hello"));
    assert!(bar.render(false).is_none());
    assert_eq!(bar.render(true).as_deref(), Some(""));
    assert!(bar.render(true).is_none());
}

#[test]
fn command_bar_edits_and_reports_value() {
    let mut bar = CommandBar::new(Size { height: 1, width: 20 });
    bar.set_prompt("Save as: ");
    bar.handle_edit_command(Edit::Insert('a'));
    bar.handle_edit_command(Edit::Insert('b'));
    bar.handle_edit_command(Edit::DeleteBackward);
    assert_eq!(bar.value(), "a");
    assert_eq!(bar.caret_position_col(), 10);
    let row = bar.render().expect("an edited bar needs a repaint");
    assert_eq!(row, "Save as: a");
    bar.clear_value();
    assert_eq!(bar.value(), "");
}
