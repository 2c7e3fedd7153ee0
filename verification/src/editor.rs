//! The editor: a view over a document, the three bars beneath it, and the
//! command dispatch that ties them together.
//!
//! All file input and output stays with the caller: loading takes the
//! file's text, and a save command yields a `SaveRequest` naming what to
//! write where; the caller reports the outcome back through
//! `report_save_outcome`.
use vstd::prelude::*;
use vstd::view::View as ViewTrait;

use crate::buffer::joined_text;
use crate::chars::push_all;
use crate::command::{Command, Edit, Move, System};
use crate::commandbar::{edited_value, CommandBar};
use crate::fileinfo::FileInfo;
use crate::line::sat_cap;
use crate::messagebar::MessageBar;
use crate::statusbar::StatusBar;
use crate::types::{Location, Size};
use crate::unicode::{chars_to_string, str_to_chars};
use crate::view::{
    centered_scroll, edit_applied, graphemes_of_len_spec, move_dest, revalidated_loc,
    scrolled_offset, search_outcome, View,
};

verus! {

/// How many times quit must be pressed to discard unsaved changes.
pub const QUIT_TIMES: u8 = 3;

/// The suffix of the window title, after the file's name.
pub open spec fn title_suffix() -> Seq<char> {
    seq![' ', '-', ' ', 'e', 'd', 'i', 't', 'c', 'o', 'r', 'e']
}

/// Which prompt, if any, the bottom row currently shows.
#[derive(Copy, Clone, PartialEq, Eq, Structural, Debug)]
pub enum PromptType {
    Search,
    Save,
    NoPrompt,
}

impl PromptType {
    /// Whether no prompt is active.
    pub fn is_none(&self) -> (r: bool)
        ensures
            r == (*self == PromptType::NoPrompt),
    {
        *self == PromptType::NoPrompt
    }
}

/// A pending write the caller must perform: the file to write and the full
/// text to write into it.
pub struct SaveRequest {
    pub file_name: Option<String>,
    pub content: String,
}

/// The editor's state.
pub struct Editor {
    pub should_quit: bool,
    pub view: View,
    pub status_bar: StatusBar,
    pub message_bar: MessageBar,
    pub command_bar: CommandBar,
    pub prompt_type: PromptType,
    pub terminal_size: Size,
    pub title: Vec<char>,
    pub quit_times: u8,
}

impl Editor {
    /// The view and the command bar are well formed, and the quit counter
    /// stays under its threshold.
    pub open spec fn wf(self) -> bool {
        &&& self.view.wf()
        &&& self.command_bar.wf()
        &&& self.quit_times < QUIT_TIMES
    }

    /// An editor for a terminal of the given size: the view keeps all rows
    /// but the two bottom ones, which belong to the status and message
    /// bars.
    pub fn new(terminal_size: Size) -> (r: Editor)
        ensures
            r.wf(),
            r.should_quit == false,
            r.prompt_type == PromptType::NoPrompt,
            r.terminal_size == terminal_size,
            r.quit_times == 0,
            r.view.buffer.height_spec() == 0,
    {
        let bar_size = Size { height: 1, width: terminal_size.width };
        let view_size = Size {
            height: if terminal_size.height >= 2 {
                terminal_size.height - 2
            } else {
                0
            },
            width: terminal_size.width,
        };
        Editor {
            should_quit: false,
            view: View::new(view_size),
            status_bar: StatusBar::new(1, terminal_size),
            message_bar: MessageBar::new(),
            command_bar: CommandBar::new(bar_size),
            prompt_type: PromptType::NoPrompt,
            terminal_size,
            title: Vec::new(),
            quit_times: 0,
        }
    }

    /// Whether the editor wants to exit.
    pub fn should_quit(&self) -> (r: bool)
        ensures
            r == self.should_quit,
    {
        self.should_quit
    }

    /// Whether a prompt is active.
    pub fn in_prompt(&self) -> (r: bool)
        ensures
            r == (self.prompt_type != PromptType::NoPrompt),
    {
        !self.prompt_type.is_none()
    }

    /// Shows a message in the message bar.
    pub fn update_message(&mut self, new_message: &str)
        requires
            old(self).wf(),
        ensures
            final(self).wf(),
            final(self).message_bar.current_message.text@ == new_message@,
            final(self).view == old(self).view,
            final(self).command_bar == old(self).command_bar,
            final(self).prompt_type == old(self).prompt_type,
            final(self).should_quit == old(self).should_quit,
            final(self).quit_times == old(self).quit_times,
    {
        self.message_bar.update_message(new_message);
    }

    /// Refreshes the status bar from the document and recomputes the window
    /// title; returns the new title when it changed.
    #[verifier::rlimit(50)]
    pub fn refresh_status(&mut self) -> (r: Option<String>)
        requires
            old(self).wf(),
        ensures
            final(self).wf(),
            final(self).view == old(self).view,
            final(self).prompt_type == old(self).prompt_type,
            final(self).should_quit == old(self).should_quit,
            final(self).quit_times == old(self).quit_times,
            final(self).title@ == old(self).view.buffer.file_info.display_name()
                + title_suffix(),
            r is Some <==> final(self).title@ != old(self).title@,
            r matches Some(t) ==> t@ == final(self).title@,
    {
        let status = self.view.get_status();
        let mut title = self.view.buffer.file_info.display_name_chars();
        title.push(' ');
        title.push('-');
        title.push(' ');
        title.push('e');
        title.push('d');
        title.push('i');
        title.push('t');
        title.push('c');
        title.push('o');
        title.push('r');
        title.push('e');
        proof {
            assert(title@ =~= old(self).view.buffer.file_info.display_name() + title_suffix());
        }
        self.status_bar.update_status(status);
        let changed = !crate::chars::chars_equal(&title, &self.title);
        if changed {
            let text = chars_to_string(&title);
            self.title = title;
            Some(text)
        } else {
            proof {
                assert(self.title@ == title@);
            }
            None
        }
    }

    /// Adopts a new terminal size: the view keeps every row above the two
    /// bottom ones, and each bar spans one row.
    pub fn handle_resize_command(&mut self, size: Size)
        requires
            old(self).wf(),
        ensures
            final(self).wf(),
            final(self).terminal_size == size,
            final(self).should_quit == old(self).should_quit,
            final(self).prompt_type == old(self).prompt_type,
            final(self).quit_times == old(self).quit_times,
            final(self).view.size == (Size {
                height: (if size.height >= 2 {
                    (size.height - 2) as nat
                } else {
                    0
                }) as usize,
                width: size.width,
            }),
            final(self).view.buffer == old(self).view.buffer,
            final(self).view.text_location == old(self).view.text_location,
    {
        self.terminal_size = size;
        let view_size = Size {
            height: if size.height >= 2 {
                size.height - 2
            } else {
                0
            },
            width: size.width,
        };
        self.view.resize(view_size);
        let bar_size = Size { height: 1, width: size.width };
        self.message_bar.needs_redraw = true;
        self.status_bar.resize(size);
        self.command_bar.resize(bar_size);
    }

    /// Counts a quit press: the editor exits at once when the document has
    /// no unsaved changes, or on the last allowed press; otherwise it warns
    /// and counts.
    pub fn handle_quit_command(&mut self)
        requires
            old(self).wf(),
        ensures
            final(self).wf(),
            final(self).view == old(self).view,
            final(self).prompt_type == old(self).prompt_type,
            final(self).should_quit == (old(self).should_quit || !old(self).view.buffer.dirty
                || old(self).quit_times + 1 == QUIT_TIMES),
            !old(self).view.buffer.dirty || old(self).quit_times + 1 == QUIT_TIMES ==> final(self).quit_times == old(self).quit_times,
            old(self).view.buffer.dirty && old(self).quit_times + 1 < QUIT_TIMES ==> final(self).quit_times == old(self).quit_times + 1,
    {
        let modified = self.view.buffer.dirty;
        if !modified || self.quit_times + 1 == QUIT_TIMES {
            self.should_quit = true;
        } else {
            let remaining = QUIT_TIMES - self.quit_times - 1;
            let mut msg: Vec<char> = str_to_chars(
                "WARNING! File has unsaved changes. Press Ctrl-Q ",
            );
            let digits = crate::chars::num_to_chars(remaining as usize);
            push_all(&mut msg, &digits);
            let tail = str_to_chars(" more times to quit.");
            push_all(&mut msg, &tail);
            let text = chars_to_string(&msg);
            self.message_bar.update_message(text.as_str());
            self.quit_times = self.quit_times + 1;
        }
    }

    /// Resets the quit counter after any other command, clearing the
    /// warning if one was up.
    pub fn reset_quit_times(&mut self)
        requires
            old(self).wf(),
        ensures
            final(self).wf(),
            final(self).view == old(self).view,
            final(self).prompt_type == old(self).prompt_type,
            final(self).should_quit == old(self).should_quit,
            final(self).quit_times == 0,
            old(self).quit_times > 0 ==> final(self).message_bar.current_message.text@ == Seq::<
                char,
            >::empty(),
    {
        if self.quit_times > 0 {
            self.quit_times = 0;
            self.message_bar.update_message("");
            proof {
                reveal_strlit("");
            }
        }
    }

    /// Prepares the write a save entails: the document's serialized text,
    /// aimed at the given name or at the current file.
    pub fn save(&mut self, file_name: Option<String>) -> (r: SaveRequest)
        requires
            old(self).wf(),
        ensures
            final(self).wf(),
            *final(self) == *old(self),
            r.content@ == crate::buffer::joined_text(old(self).view.buffer.line_texts()),
            r.file_name == file_name,
    {
        let content_chars = self.view.buffer.save_content();
        let content = chars_to_string(&content_chars);
        SaveRequest { file_name, content }
    }

    /// Takes the outcome of a write the caller performed: on success the
    /// document adopts the name it was saved under and becomes clean; either
    /// way the message bar reports what happened.
    pub fn report_save_outcome(&mut self, file_name: Option<&str>, ok: bool)
        requires
            old(self).wf(),
        ensures
            final(self).wf(),
            final(self).prompt_type == old(self).prompt_type,
            final(self).should_quit == old(self).should_quit,
            final(self).view.buffer.line_texts() == old(self).view.buffer.line_texts(),
            ok ==> !final(self).view.buffer.dirty,
            ok ==> match file_name {
                Some(n) => final(self).view.buffer.file_info.path matches Some(p) && p@ == n@,
                None => ({
                    &&& final(self).view.buffer.file_info.path is Some <==> old(self).view.buffer.file_info.path is Some
                    &&& (final(self).view.buffer.file_info.path matches Some(p) ==> old(self).view.buffer.file_info.path matches Some(q) && p@ == q@)
                }),
            },
            !ok ==> final(self).view.buffer.dirty == old(self).view.buffer.dirty
                && final(self).view.buffer.file_info == old(self).view.buffer.file_info,
    {
        if ok {
            let fi = match file_name {
                Some(name) => FileInfo::from(name),
                None => FileInfo { path: self.view.buffer.file_info.get_path_chars() },
            };
            self.view.buffer.confirm_saved(fi);
            self.message_bar.update_message("File saved successfully.");
        } else {
            self.message_bar.update_message("Error writing file!");
        }
    }

    /// Opens a prompt (or closes every prompt) and prepares the bottom row
    /// for it.
    pub fn set_prompt(&mut self, prompt_type: PromptType)
        requires
            old(self).wf(),
        ensures
            final(self).wf(),
            final(self).prompt_type == prompt_type,
            final(self).should_quit == old(self).should_quit,
            final(self).quit_times == old(self).quit_times,
            final(self).command_bar.value.text() == Seq::<char>::empty(),
            prompt_type == PromptType::Search ==> ({
                &&& final(self).view.search_info matches Some(si) && (si.prev_location == old(self).view.text_location && si.prev_scroll_offset == old(self).view.scroll_offset
                    && si.query is None)
                &&& final(self).view.buffer == old(self).view.buffer
                &&& final(self).view.size == old(self).view.size
                &&& final(self).view.text_location == old(self).view.text_location
                &&& final(self).view.scroll_offset == old(self).view.scroll_offset
            }),
            prompt_type == PromptType::Save ==> final(self).view == old(self).view,
            prompt_type == PromptType::NoPrompt ==> final(self).view == old(self).view,
    {
        match prompt_type {
            PromptType::NoPrompt => self.message_bar.needs_redraw = true,
            PromptType::Save => self.command_bar.set_prompt("Save as: "),
            PromptType::Search => {
                self.view.enter_search();
                self.command_bar.set_prompt("Search (Esc to cancel, Arrows to navigate): ");
            },
        }
        self.command_bar.clear_value();
        self.prompt_type = prompt_type;
    }

    /// Starts a save: straight to a request when the document already has a
    /// file, else through the save prompt.
    pub fn handle_save_command(&mut self) -> (r: Option<SaveRequest>)
        requires
            old(self).wf(),
        ensures
            final(self).wf(),
            final(self).should_quit == old(self).should_quit,
            final(self).quit_times == old(self).quit_times,
            final(self).view == old(self).view,
            old(self).view.buffer.file_info.path is Some ==> (r matches Some(req)
                && req.file_name is None && req.content@ == crate::buffer::joined_text(
                old(self).view.buffer.line_texts(),
            ) && final(self).prompt_type == old(self).prompt_type),
            old(self).view.buffer.file_info.path is None ==> r is None && final(self).prompt_type
                == PromptType::Save && final(self).command_bar.value.text() == Seq::<
                char,
            >::empty(),
    {
        if self.view.is_file_loaded() {
            Some(self.save(None))
        } else {
            self.set_prompt(PromptType::Save);
            None
        }
    }

    /// Handles a command while no prompt is up: quit counts toward exiting,
    /// search and save open their prompts, edits and moves go to the view.
    #[verifier::rlimit(100)]
    pub fn process_command_no_prompt(&mut self, command: Command) -> (r: Option<SaveRequest>)
        requires
            old(self).wf(),
            command matches Command::Edit(Edit::Insert(c)) ==> c != '\n',
        ensures
            final(self).wf(),
            no_prompt_step(*old(self), *final(self), command, r),
    {
        if command == Command::System(System::Quit) {
            self.handle_quit_command();
            return None;
        }
        self.reset_quit_times();
        match command {
            Command::System(System::Quit) => None,
            Command::System(System::Resize(_)) => None,
            Command::System(System::Dismiss) => None,
            Command::System(System::Search) => {
                self.set_prompt(PromptType::Search);
                None
            },
            Command::System(System::Save) => self.handle_save_command(),
            Command::Edit(edit_command) => {
                self.view.handle_edit_command(edit_command);
                None
            },
            Command::Move(move_command) => {
                self.view.handle_move_command(move_command);
                None
            },
        }
    }

    /// Handles a command while the save prompt is up: typing edits the file
    /// name, confirming yields the save request, dismissing aborts.
    pub fn process_command_during_save(&mut self, command: Command) -> (r: Option<SaveRequest>)
        requires
            old(self).wf(),
            command matches Command::Edit(Edit::Insert(c)) ==> c != '\n',
        ensures
            final(self).wf(),
            final(self).should_quit == old(self).should_quit,
            final(self).quit_times == old(self).quit_times,
            save_prompt_step(*old(self), *final(self), command, r),
    {
        match command {
            Command::System(System::Dismiss) => {
                self.set_prompt(PromptType::NoPrompt);
                self.update_message("Save aborted.");
                None
            },
            Command::Edit(Edit::InsertNewline) => {
                let file_name = self.command_bar.value();
                let req = self.save(Some(file_name));
                self.set_prompt(PromptType::NoPrompt);
                Some(req)
            },
            Command::Edit(edit_command) => {
                self.command_bar.handle_edit_command(edit_command);
                None
            },
            Command::System(_) => None,
            Command::Move(_) => None,
        }
    }

    /// Handles a command while the search prompt is up: typing re-runs the
    /// search, arrows step between matches, confirming keeps the position,
    /// dismissing restores the position held before the search.
    #[verifier::rlimit(100)]
    pub fn process_command_during_search(&mut self, command: Command)
        requires
            old(self).wf(),
            command matches Command::Edit(Edit::Insert(c)) ==> c != '\n',
        ensures
            final(self).wf(),
            final(self).should_quit == old(self).should_quit,
            final(self).quit_times == old(self).quit_times,
            search_prompt_step(*old(self), *final(self), command),
    {
        match command {
            Command::System(System::Dismiss) => {
                self.set_prompt(PromptType::NoPrompt);
                self.view.dismiss_search();
            },
            Command::Edit(Edit::InsertNewline) => {
                self.set_prompt(PromptType::NoPrompt);
                self.view.exit_search();
            },
            Command::Edit(edit_command) => {
                self.command_bar.handle_edit_command(edit_command);
                let query = self.command_bar.value();
                self.view.search(query.as_str());
            },
            Command::Move(Move::Right) | Command::Move(Move::Down) => self.view.search_next(),
            Command::Move(Move::Up) | Command::Move(Move::Left) => self.view.search_prev(),
            Command::System(_) => {},
            Command::Move(_) => {},
        }
    }

    /// Dispatches one command: resizes apply always; otherwise the active
    /// prompt decides who handles it.
    #[verifier::rlimit(100)]
    pub fn process_command(&mut self, command: Command) -> (r: Option<SaveRequest>)
        requires
            old(self).wf(),
            command matches Command::Edit(Edit::Insert(c)) ==> c != '\n',
        ensures
            final(self).wf(),
            command matches Command::System(System::Resize(size)) ==> final(self).terminal_size
                == size && r is None,
            !(command matches Command::System(System::Resize(_))) ==> match old(self).prompt_type {
                PromptType::Search => search_prompt_step(*old(self), *final(self), command) && r
                    is None,
                PromptType::Save => save_prompt_step(*old(self), *final(self), command, r),
                PromptType::NoPrompt => no_prompt_step(*old(self), *final(self), command, r),
            },
    {
        match command {
            Command::System(System::Resize(size)) => {
                self.handle_resize_command(size);
                None
            },
            _ => {
                match self.prompt_type {
                    PromptType::Search => {
                        self.process_command_during_search(command);
                        None
                    },
                    PromptType::Save => self.process_command_during_save(command),
                    PromptType::NoPrompt => self.process_command_no_prompt(command),
                }
            },
        }
    }
}

/// Shorthand for the cursor destination of a move applied to a view.
pub open spec fn move_dest_of(v: View, m: crate::command::Move) -> crate::types::Location {
    crate::view::move_dest(v.buffer, v.size, v.text_location, m)
}

/// What one command does while the search prompt is up: dismissal restores
/// the pre-search position and closes the prompt; confirming keeps the
/// position and closes it; any other edit rewrites the typed query by the
/// command bar's edit rule, stores it, and re-runs the forward search from
/// the pre-search position; the arrows step to the next or previous match;
/// everything else is ignored.
pub open spec fn search_prompt_step(pre: Editor, post: Editor, command: Command) -> bool {
    match command {
        Command::System(System::Dismiss) => {
            &&& post.prompt_type == PromptType::NoPrompt
            &&& post.view.search_info is None
            &&& post.view.buffer == pre.view.buffer
            &&& post.command_bar.value.text() == Seq::<char>::empty()
            &&& (pre.view.search_info matches Some(si) ==> post.view.text_location
                == revalidated_loc(pre.view.buffer, si.prev_location))
        },
        Command::Edit(Edit::InsertNewline) => {
            &&& post.prompt_type == PromptType::NoPrompt
            &&& post.view.search_info is None
            &&& post.view.buffer == pre.view.buffer
            &&& post.view.text_location == pre.view.text_location
            &&& post.command_bar.value.text() == Seq::<char>::empty()
        },
        Command::Edit(e) => {
            let q = edited_value(pre.command_bar.value, e);
            &&& post.prompt_type == pre.prompt_type
            &&& post.command_bar.value.text() == q
            &&& post.command_bar.prompt@ == pre.command_bar.prompt@
            &&& post.view.buffer == pre.view.buffer
            &&& post.view.size == pre.view.size
            &&& post.view.needs_redraw
            &&& (pre.view.search_info matches Some(si) ==> ({
                &&& post.view.search_info matches Some(si2) && (si2.prev_location
                    == si.prev_location && si2.prev_scroll_offset == si.prev_scroll_offset && (
                si2.query matches Some(ql) && ql.text() == q))
                &&& match search_outcome(post.view, si.prev_location, true) {
                    Some(loc) => post.view.text_location == loc && post.view.scroll_offset
                        == centered_scroll(post.view),
                    None => post.view.text_location == pre.view.text_location
                        && post.view.scroll_offset == pre.view.scroll_offset,
                }
            }))
            &&& (pre.view.search_info is None ==> post.view.search_info is None
                && post.view.text_location == pre.view.text_location)
        },
        Command::Move(Move::Right) | Command::Move(Move::Down) => {
            let qc = graphemes_of_len_spec(pre.view);
            let from = Location {
                grapheme_index: sat_cap(
                    (pre.view.text_location.grapheme_index + qc) as nat,
                ) as usize,
                line_index: pre.view.text_location.line_index,
            };
            &&& post.prompt_type == pre.prompt_type
            &&& post.command_bar == pre.command_bar
            &&& post.view.buffer == pre.view.buffer
            &&& post.view.size == pre.view.size
            &&& post.view.search_info == pre.view.search_info
            &&& match search_outcome(pre.view, from, true) {
                Some(loc) => post.view.text_location == loc && post.view.scroll_offset
                    == centered_scroll(post.view),
                None => post.view.text_location == pre.view.text_location
                    && post.view.scroll_offset == pre.view.scroll_offset,
            }
        },
        Command::Move(Move::Up) | Command::Move(Move::Left) => {
            &&& post.prompt_type == pre.prompt_type
            &&& post.command_bar == pre.command_bar
            &&& post.view.buffer == pre.view.buffer
            &&& post.view.size == pre.view.size
            &&& post.view.search_info == pre.view.search_info
            &&& match search_outcome(pre.view, pre.view.text_location, false) {
                Some(loc) => post.view.text_location == loc && post.view.scroll_offset
                    == centered_scroll(post.view),
                None => post.view.text_location == pre.view.text_location
                    && post.view.scroll_offset == pre.view.scroll_offset,
            }
        },
        _ => post == pre,
    }
}

/// What one command does while the save prompt is up: dismissal aborts and
/// closes the prompt; confirming yields the save request carrying the typed
/// name and the serialized document; any other edit rewrites the typed name
/// by the command bar's edit rule; everything else is ignored.
pub open spec fn save_prompt_step(
    pre: Editor,
    post: Editor,
    command: Command,
    r: Option<SaveRequest>,
) -> bool {
    match command {
        Command::System(System::Dismiss) => {
            &&& post.prompt_type == PromptType::NoPrompt
            &&& post.view == pre.view
            &&& post.command_bar.value.text() == Seq::<char>::empty()
            &&& r is None
        },
        Command::Edit(Edit::InsertNewline) => {
            &&& post.prompt_type == PromptType::NoPrompt
            &&& post.view == pre.view
            &&& post.command_bar.value.text() == Seq::<char>::empty()
            &&& r matches Some(req) && (req.file_name matches Some(name) && name@
                == pre.command_bar.value.text()) && req.content@ == joined_text(
                pre.view.buffer.line_texts(),
            )
        },
        Command::Edit(e) => {
            &&& post.prompt_type == pre.prompt_type
            &&& post.view == pre.view
            &&& post.command_bar.value.text() == edited_value(pre.command_bar.value, e)
            &&& post.command_bar.prompt@ == pre.command_bar.prompt@
            &&& r is None
        },
        _ => post == pre && r is None,
    }
}

/// What one command does while no prompt is up: quit counts toward exiting;
/// any other command first resets the quit counter; search and save open
/// their prompts (save on a named document yields the request at once);
/// edits and moves go to the view; the rest is ignored.
pub open spec fn no_prompt_step(
    pre: Editor,
    post: Editor,
    command: Command,
    r: Option<SaveRequest>,
) -> bool {
    match command {
        Command::System(System::Quit) => {
            &&& post.view == pre.view
            &&& post.prompt_type == pre.prompt_type
            &&& post.should_quit == (pre.should_quit || !pre.view.buffer.dirty || pre.quit_times
                + 1 == QUIT_TIMES)
            &&& (!pre.view.buffer.dirty || pre.quit_times + 1 == QUIT_TIMES ==> post.quit_times
                == pre.quit_times)
            &&& (pre.view.buffer.dirty && pre.quit_times + 1 < QUIT_TIMES ==> post.quit_times
                == pre.quit_times + 1)
            &&& r is None
        },
        Command::System(System::Search) => {
            &&& post.should_quit == pre.should_quit
            &&& post.quit_times == 0
            &&& post.prompt_type == PromptType::Search
            &&& post.view.search_info matches Some(si) && (si.prev_location
                == pre.view.text_location && si.prev_scroll_offset == pre.view.scroll_offset
                && si.query is None)
            &&& post.view.buffer == pre.view.buffer
            &&& post.view.text_location == pre.view.text_location
            &&& post.view.scroll_offset == pre.view.scroll_offset
            &&& post.command_bar.value.text() == Seq::<char>::empty()
            &&& r is None
        },
        Command::System(System::Save) => {
            &&& post.should_quit == pre.should_quit
            &&& post.quit_times == 0
            &&& (pre.view.buffer.file_info.path is Some ==> (r matches Some(req)
                && req.file_name is None && req.content@ == joined_text(
                pre.view.buffer.line_texts(),
            )) && post.prompt_type == pre.prompt_type && post.view == pre.view)
            &&& (pre.view.buffer.file_info.path is None ==> r is None && post.prompt_type
                == PromptType::Save && post.view == pre.view && post.command_bar.value.text()
                == Seq::<char>::empty())
        },
        Command::Edit(e) => {
            &&& post.should_quit == pre.should_quit
            &&& post.quit_times == 0
            &&& post.prompt_type == pre.prompt_type
            &&& edit_applied(pre.view, post.view, e)
            &&& r is None
        },
        Command::Move(m) => {
            &&& post.should_quit == pre.should_quit
            &&& post.quit_times == 0
            &&& post.prompt_type == pre.prompt_type
            &&& post.view.buffer == pre.view.buffer
            &&& post.view.size == pre.view.size
            &&& post.view.search_info == pre.view.search_info
            &&& post.view.text_location == move_dest_of(pre.view, m)
            &&& post.view.scroll_offset.row == scrolled_offset(
                pre.view.scroll_offset.row as nat,
                post.view.caret_row(),
                pre.view.size.height as nat,
            )
            &&& post.view.scroll_offset.col == scrolled_offset(
                pre.view.scroll_offset.col as nat,
                post.view.caret_col(),
                pre.view.size.width as nat,
            )
            &&& r is None
        },
        Command::System(System::Dismiss) | Command::System(System::Resize(_)) => {
            &&& post.should_quit == pre.should_quit
            &&& post.quit_times == 0
            &&& post.prompt_type == pre.prompt_type
            &&& post.view == pre.view
            &&& r is None
        },
    }
}

} // verus!