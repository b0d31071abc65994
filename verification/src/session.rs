//! The session: what the browser shows and holds, and how a key changes it.
//!
//! A key never reaches the disk from here. [`App::on_key`] changes the state
//! and names the [`Effect`] that the caller has to carry out; what came of it
//! is handed back through [`App::navigated`], [`App::refresh`],
//! [`App::trigger_deep_search`] and [`App::report_error`].

use crate::config::{key_description, key_event_to_string, menu_order, rebind, Action, Config, ACTION_COUNT};
use crate::entry::{clone_entries, hit, is_hit, views, EntryView, FileEntry};
use crate::keys::{KeyCode, KeyModifiers};
use crate::manager::{DeepSearch, DirectoryScan, FileSystemManager};
use crate::paths::{file_name_of, path_file_name, path_join, path_parent};
use crate::text::{
    clone_text, clone_texts, contains_text, lemma_filter_keeps_distinct, lemma_filter_keeps_members,
    lowercase, pairs, str_eq, text_of, texts, to_lowercase,
};
use vstd::prelude::*;
use vstd::string::*;

verus! {

/// What a prompt asks for.
#[derive(Clone, Copy, Debug, PartialEq, Eq, Structural)]
pub enum PromptType {
    /// The name of a folder to create.
    NewFolder,
    /// Whether to delete the selection.
    DeleteConfirmation,
}

/// What a paste does with the paths on the clipboard.
#[derive(Clone, Copy, Debug, PartialEq, Eq, Structural)]
pub enum ClipboardMode {
    Copy,
    Cut,
}

/// The paths taken by a copy or a cut, until they are pasted.
#[derive(Debug, PartialEq, Eq)]
pub struct Clipboard {
    pub paths: Vec<String>,
    pub mode: ClipboardMode,
}

/// What a [`Clipboard`] holds, as text.
pub struct ClipboardView {
    pub paths: Seq<Seq<char>>,
    pub mode: ClipboardMode,
}

impl View for Clipboard {
    type V = ClipboardView;

    open spec fn view(&self) -> ClipboardView {
        ClipboardView { paths: texts(self.paths@), mode: self.mode }
    }
}

/// The state of the input state machine.
#[derive(Clone, Copy, Debug, PartialEq, Eq, Structural)]
pub enum InputMode {
    Normal,
    /// The description of the entry under the cursor is being edited.
    Editing,
    /// A search query is being typed.
    Search,
    /// The list of key bindings is shown.
    Config,
    /// The next key is bound to the action.
    Remapping(Action),
    Prompt(PromptType),
    Help,
}

/// Scroll position and highlighted row of the list on screen.
#[derive(Clone, Copy, Debug, PartialEq, Eq)]
pub struct ListState {
    /// Index of the first row that is visible.
    pub offset: usize,
    pub selected: Option<usize>,
}

/// The whole of an [`App`] as text and numbers.
pub struct AppView {
    pub current_dir: Seq<char>,
    pub all_entries: Seq<EntryView>,
    pub filtered_entries: Seq<EntryView>,
    pub selected_index: int,
    pub input_mode: InputMode,
    pub edit_buffer: Seq<char>,
    pub search_query: Seq<char>,
    pub bindings: Seq<Seq<char>>,
    pub config_index: int,
    pub error_message: Option<Seq<char>>,
    pub is_searching: bool,
    pub selected_paths: Seq<Seq<char>>,
    pub clipboard: Option<ClipboardView>,
    pub prompt_buffer: Seq<char>,
    pub confirm_delete: bool,
    pub list_offset: int,
    pub list_selected: Option<int>,
    pub list_height: int,
}

/// The index nearest to `index` that is valid for a list of `len` rows; 0
/// for an empty list.
pub open spec fn clamp_index(index: int, len: int) -> int {
    if len <= 0 || index < 0 {
        0
    } else if index >= len {
        len - 1
    } else {
        index
    }
}

/// The test of the live filter on one entry.
pub open spec fn entry_test(folded_query: Seq<char>) -> spec_fn(EntryView) -> bool {
    |e: EntryView| is_hit(e.name, e.description, folded_query)
}

/// The entries that the live filter shows: all of them for an empty query,
/// else those whose name or description holds the query in any case of
/// letters.
pub open spec fn visible(all: Seq<EntryView>, query: Seq<char>) -> Seq<EntryView> {
    if query.len() == 0 {
        all
    } else {
        all.filter(entry_test(lowercase(query)))
    }
}

impl AppView {
    /// The cursor is on a row of the list, or at 0 if the list is empty.
    pub open spec fn cursor_valid(self) -> bool {
        self.selected_index == clamp_index(self.selected_index, self.filtered_entries.len() as int)
    }

    /// The entry under the cursor, if there is one.
    pub open spec fn current(self) -> Option<EntryView> {
        if 0 <= self.selected_index < self.filtered_entries.len() {
            Some(self.filtered_entries[self.selected_index])
        } else {
            None
        }
    }

    /// The cursor moved to `index`, as far as the list goes.
    pub open spec fn with_cursor(self, index: int) -> AppView {
        AppView { selected_index: clamp_index(index, self.filtered_entries.len() as int), ..self }
    }

    /// The highlighted row of the list made to follow the cursor.
    pub open spec fn synced(self) -> AppView {
        AppView { list_selected: Some(self.selected_index), ..self }
    }

    /// The live filter applied: the shown entries are computed anew from all
    /// entries and the query, and the cursor is kept on a row.
    pub open spec fn filtered(self) -> AppView {
        let shown = visible(self.all_entries, self.search_query);
        AppView { filtered_entries: shown, ..self }.with_cursor(self.selected_index).synced()
    }

    /// A new listing taken in and the live filter applied to it.
    pub open spec fn refreshed(self, listing: Seq<EntryView>) -> AppView {
        AppView { all_entries: listing, ..self }.filtered()
    }
}

/// With an empty query the filter shows exactly all entries.
pub proof fn lemma_empty_query_shows_all(pre: AppView)
    requires
        pre.search_query.len() == 0,
    ensures
        pre.filtered().filtered_entries == pre.all_entries,
{
}

/// With a query that no entry matches the filter shows nothing and the
/// cursor goes to 0.
pub proof fn lemma_unmatched_query_shows_nothing(pre: AppView)
    requires
        pre.search_query.len() > 0,
        forall|i: int|
            0 <= i < pre.all_entries.len() ==> !is_hit(
                (#[trigger] pre.all_entries[i]).name,
                pre.all_entries[i].description,
                lowercase(pre.search_query),
            ),
    ensures
        pre.filtered().filtered_entries == Seq::<EntryView>::empty(),
        pre.filtered().selected_index == 0,
{
    let test = entry_test(lowercase(pre.search_query));
    let shown = pre.all_entries.filter(test);
    if shown.len() > 0 {
        lemma_filter_keeps_members(pre.all_entries, test, 0);
    }
    assert(shown =~= Seq::<EntryView>::empty());
}

/// What the caller has to do after a key or a report. Errors of the work on
/// disk go back through [`App::report_error`]; after `Paste`, `Delete`,
/// `CreateDir` and `SetDescription` the caller reads the directory again, as
/// for `Refresh`.
#[derive(Debug, PartialEq, Eq)]
pub enum Effect {
    /// Nothing to do.
    Nothing,
    /// Resolve `target` on disk and report with [`App::navigated`].
    Navigate { target: String },
    /// Hand the file to the program that opens it.
    Open { path: String },
    /// Read the current directory and report with [`App::refresh`].
    Refresh,
    /// Copy or move each source to its destination.
    Paste { mode: ClipboardMode, transfers: Vec<(String, String)> },
    /// Delete each path with all that is under it.
    Delete { paths: Vec<String> },
    /// Create the directory with all its missing parents.
    CreateDir { path: String },
    /// Store `text` as the description of `path`.
    SetDescription { path: String, text: String },
    /// Write the key bindings to their file.
    SaveConfig,
    /// Walk the tree under `root` for `query` and report with
    /// [`App::trigger_deep_search`].
    DeepSearch { root: String, query: String },
}

/// What an [`Effect`] holds, as text.
pub enum EffectView {
    Nothing,
    Navigate { target: Seq<char> },
    Open { path: Seq<char> },
    Refresh,
    Paste { mode: ClipboardMode, transfers: Seq<(Seq<char>, Seq<char>)> },
    Delete { paths: Seq<Seq<char>> },
    CreateDir { path: Seq<char> },
    SetDescription { path: Seq<char>, text: Seq<char> },
    SaveConfig,
    DeepSearch { root: Seq<char>, query: Seq<char> },
}

impl View for Effect {
    type V = EffectView;

    open spec fn view(&self) -> EffectView {
        match self {
            Effect::Nothing => EffectView::Nothing,
            Effect::Navigate { target } => EffectView::Navigate { target: target@ },
            Effect::Open { path } => EffectView::Open { path: path@ },
            Effect::Refresh => EffectView::Refresh,
            Effect::Paste { mode, transfers } => EffectView::Paste {
                mode: *mode,
                transfers: pairs(transfers@),
            },
            Effect::Delete { paths } => EffectView::Delete { paths: texts(paths@) },
            Effect::CreateDir { path } => EffectView::CreateDir { path: path@ },
            Effect::SetDescription { path, text } => EffectView::SetDescription {
                path: path@,
                text: text@,
            },
            Effect::SaveConfig => EffectView::SaveConfig,
            Effect::DeepSearch { root, query } => EffectView::DeepSearch { root: root@, query: query@ },
        }
    }
}

/// What a key means in normal mode.
#[derive(Clone, Copy, Debug, PartialEq, Eq, Structural)]
pub enum Command {
    /// Carry out the action.
    Run(Action),
    /// Drop the selection and the search query.
    Reset,
    /// The key means nothing.
    Nothing,
}

/// The actions in the order in which normal mode tries them on a key.
pub open spec fn command_order() -> Seq<Action> {
    seq![
        Action::Up,
        Action::Down,
        Action::Enter,
        Action::Backspace,
        Action::Edit,
        Action::Settings,
        Action::Search,
        Action::CtrlHome,
        Action::CtrlEnd,
        Action::Home,
        Action::End,
        Action::PageUp,
        Action::PageDown,
        Action::SelectAll,
        Action::DeselectAll,
        Action::Select,
        Action::Copy,
        Action::Cut,
        Action::Paste,
        Action::NewFolder,
        Action::Delete,
        Action::Help,
        Action::Quit,
    ]
}

/// The key that carries out an action whatever is bound to it.
pub open spec fn fixed_key(action: Action) -> Option<KeyCode> {
    match action {
        Action::Up => Some(KeyCode::Up),
        Action::Down => Some(KeyCode::Down),
        Action::Enter => Some(KeyCode::Enter),
        Action::Backspace => Some(KeyCode::Backspace),
        Action::Home => Some(KeyCode::Home),
        Action::End => Some(KeyCode::End),
        Action::PageUp => Some(KeyCode::PageUp),
        Action::PageDown => Some(KeyCode::PageDown),
        _ => None,
    }
}

/// The key event carries out `action`: its description is the key bound to
/// the action, or its key is the fixed key of the action.
pub open spec fn triggers(bindings: Seq<Seq<char>>, action: Action, code: KeyCode, event: Seq<char>) -> bool {
    bindings[action.ordinal()] == event || fixed_key(action) == Some(code)
}

/// The first action from position `from` of the command order that the key
/// event carries out.
pub open spec fn first_triggered(bindings: Seq<Seq<char>>, code: KeyCode, event: Seq<char>, from: int) -> Option<
    Action,
>
    decreases ACTION_COUNT - from,
{
    if from < 0 || from >= ACTION_COUNT {
        None
    } else if triggers(bindings, command_order()[from], code, event) {
        Some(command_order()[from])
    } else {
        first_triggered(bindings, code, event, from + 1)
    }
}

/// What a key event means in normal mode: the first action that it carries
/// out; failing that, escape resets.
pub open spec fn normal_command(bindings: Seq<Seq<char>>, code: KeyCode, event: Seq<char>) -> Command {
    match first_triggered(bindings, code, event, 0) {
        Some(action) => Command::Run(action),
        None => if code == KeyCode::Esc {
            Command::Reset
        } else {
            Command::Nothing
        },
    }
}

/// The marked paths with `path` among them.
pub open spec fn with_path(paths: Seq<Seq<char>>, path: Seq<char>) -> Seq<Seq<char>> {
    if paths.contains(path) {
        paths
    } else {
        paths.push(path)
    }
}

/// The test that keeps every path but `path`.
pub open spec fn is_other(path: Seq<char>) -> spec_fn(Seq<char>) -> bool {
    |p: Seq<char>| p != path
}

/// The marked paths without `path`.
pub open spec fn without_path(paths: Seq<Seq<char>>, path: Seq<char>) -> Seq<Seq<char>> {
    paths.filter(is_other(path))
}

/// The marked paths with the path of every entry that stands for a node of
/// its own, which `.` and `..` do not.
pub open spec fn with_all(paths: Seq<Seq<char>>, entries: Seq<EntryView>) -> Seq<Seq<char>>
    decreases entries.len(),
{
    if entries.len() == 0 {
        paths
    } else {
        let before = with_all(paths, entries.drop_last());
        if entries.last().is_synthetic() {
            before
        } else {
            with_path(before, entries.last().path)
        }
    }
}

/// The copies or moves that a paste into `dest` makes of `paths`: each path
/// that has a final component goes to that name under `dest`.
pub open spec fn transfers(paths: Seq<Seq<char>>, dest: Seq<char>) -> Seq<(Seq<char>, Seq<char>)>
    decreases paths.len(),
{
    if paths.len() == 0 {
        Seq::empty()
    } else {
        let before = transfers(paths.drop_last(), dest);
        match path_file_name(paths.last()) {
            Some(name) => before.push((paths.last(), path_join(dest, name))),
            None => before,
        }
    }
}

/// Every marked path is on the clipboard.
pub open spec fn held_by_clipboard(selected: Seq<Seq<char>>, clipboard: Option<ClipboardView>) -> bool {
    match clipboard {
        Some(c) => forall|i: int| 0 <= i < selected.len() ==> c.paths.contains(#[trigger] selected[i]),
        None => false,
    }
}

impl AppView {
    /// The paths that a copy, a cut or a delete takes: the marked paths, or
    /// with none marked the entry under the cursor, unless that is `.` or
    /// `..`.
    pub open spec fn captured(self) -> Seq<Seq<char>> {
        if self.selected_paths.len() > 0 {
            self.selected_paths
        } else {
            match self.current() {
                Some(e) => if e.is_synthetic() {
                    Seq::empty()
                } else {
                    seq![e.path]
                },
                None => Seq::empty(),
            }
        }
    }

    /// The state after the directory has been left for `dir`: the marks are
    /// dropped unless the clipboard holds them all, the query is dropped and
    /// the cursor goes to the top.
    pub open spec fn moved_to(self, dir: Seq<char>) -> AppView {
        AppView {
            current_dir: dir,
            selected_paths: if held_by_clipboard(self.selected_paths, self.clipboard) {
                self.selected_paths
            } else {
                Seq::empty()
            },
            search_query: Seq::empty(),
            selected_index: 0,
            ..self
        }
    }

    /// The state after a copy or a cut: the captured paths are on the
    /// clipboard and no path is marked. With nothing to capture nothing
    /// changes.
    pub open spec fn took(self, mode: ClipboardMode) -> AppView {
        if self.captured().len() > 0 {
            AppView {
                clipboard: Some(ClipboardView { paths: self.captured(), mode }),
                selected_paths: Seq::empty(),
                ..self
            }
        } else {
            self
        }
    }

    /// The state and the effect of an action in normal mode, before the
    /// highlighted row is made to follow the cursor.
    pub open spec fn acted(self, action: Action) -> (AppView, EffectView) {
        match action {
            Action::Up => (self.with_cursor(self.selected_index - 1), EffectView::Nothing),
            Action::Down => (self.with_cursor(self.selected_index + 1), EffectView::Nothing),
            Action::Enter => match self.current() {
                Some(e) => if e.is_dir {
                    (self, EffectView::Navigate { target: path_join(self.current_dir, e.path) })
                } else {
                    (self, EffectView::Open { path: e.path })
                },
                None => (self, EffectView::Nothing),
            },
            Action::Backspace => match path_parent(self.current_dir) {
                Some(parent) => (self.moved_to(parent), EffectView::Refresh),
                None => (self, EffectView::Nothing),
            },
            Action::Edit => match self.current() {
                Some(e) => if e.is_synthetic() {
                    (self, EffectView::Nothing)
                } else {
                    (
                        AppView {
                            edit_buffer: match e.description {
                                Some(d) => d,
                                None => Seq::empty(),
                            },
                            input_mode: InputMode::Editing,
                            ..self
                        },
                        EffectView::Nothing,
                    )
                },
                None => (self, EffectView::Nothing),
            },
            Action::Settings => (
                AppView { input_mode: InputMode::Config, config_index: 0, ..self },
                EffectView::Nothing,
            ),
            Action::Search => (AppView { input_mode: InputMode::Search, ..self }, EffectView::Nothing),
            Action::CtrlHome => (self.with_cursor(0), EffectView::Nothing),
            Action::CtrlEnd => (self.with_cursor(self.filtered_entries.len() - 1), EffectView::Nothing),
            Action::Home => (self.with_cursor(self.list_offset), EffectView::Nothing),
            Action::End => (
                self.with_cursor(self.list_offset + self.list_height - 1),
                EffectView::Nothing,
            ),
            Action::PageUp => (
                self.with_cursor(self.selected_index - self.list_height),
                EffectView::Nothing,
            ),
            Action::PageDown => (
                self.with_cursor(self.selected_index + self.list_height),
                EffectView::Nothing,
            ),
            Action::SelectAll => (
                AppView {
                    selected_paths: with_all(self.selected_paths, self.filtered_entries),
                    ..self
                },
                EffectView::Nothing,
            ),
            Action::DeselectAll => (AppView { selected_paths: Seq::empty(), ..self }, EffectView::Nothing),
            Action::Select => match self.current() {
                Some(e) => if e.is_synthetic() {
                    (self, EffectView::Nothing)
                } else if self.selected_paths.contains(e.path) {
                    (
                        AppView { selected_paths: without_path(self.selected_paths, e.path), ..self },
                        EffectView::Nothing,
                    )
                } else {
                    (AppView { selected_paths: self.selected_paths.push(e.path), ..self }, EffectView::Nothing)
                },
                None => (self, EffectView::Nothing),
            },
            Action::Copy => (self.took(ClipboardMode::Copy), EffectView::Nothing),
            Action::Cut => (self.took(ClipboardMode::Cut), EffectView::Nothing),
            Action::Paste => match self.clipboard {
                Some(c) => (
                    AppView {
                        clipboard: if c.mode == ClipboardMode::Cut {
                            None
                        } else {
                            self.clipboard
                        },
                        ..self
                    },
                    EffectView::Paste { mode: c.mode, transfers: transfers(c.paths, self.current_dir) },
                ),
                None => (self, EffectView::Nothing),
            },
            Action::NewFolder => (
                AppView {
                    prompt_buffer: Seq::empty(),
                    input_mode: InputMode::Prompt(PromptType::NewFolder),
                    ..self
                },
                EffectView::Nothing,
            ),
            Action::Delete => (
                AppView {
                    input_mode: InputMode::Prompt(PromptType::DeleteConfirmation),
                    confirm_delete: false,
                    ..self
                },
                EffectView::Nothing,
            ),
            Action::Help => (AppView { input_mode: InputMode::Help, ..self }, EffectView::Nothing),
            Action::Quit => (self, EffectView::Nothing),
        }
    }

    /// The state and the effect of a key in normal mode.
    pub open spec fn normal_step(self, code: KeyCode, event: Seq<char>) -> (AppView, EffectView) {
        match normal_command(self.bindings, code, event) {
            Command::Run(action) => (self.acted(action).0.synced(), self.acted(action).1),
            Command::Reset => (
                AppView { selected_paths: Seq::empty(), search_query: Seq::empty(), ..self }.filtered(),
                EffectView::Nothing,
            ),
            Command::Nothing => (self.synced(), EffectView::Nothing),
        }
    }
}

/// A text buffer after a key: a character key appends its character,
/// backspace takes the last character away, any other key changes nothing.
pub open spec fn edited(buffer: Seq<char>, code: KeyCode) -> Seq<char> {
    match code {
        KeyCode::Char(c) => buffer.push(c),
        KeyCode::Backspace => if buffer.len() > 0 {
            buffer.drop_last()
        } else {
            buffer
        },
        _ => buffer,
    }
}

impl AppView {
    /// Back in normal mode with an empty prompt.
    pub open spec fn prompt_closed(self) -> AppView {
        AppView { input_mode: InputMode::Normal, prompt_buffer: Seq::empty(), ..self }
    }

    /// The state and the effect of a key while a prompt is open. The prompt
    /// for a folder name takes text; the delete confirmation is a choice
    /// between OK and Cancel that left, right and tab switch.
    pub open spec fn prompt_step(self, prompt: PromptType, code: KeyCode) -> (AppView, EffectView) {
        match prompt {
            PromptType::NewFolder => match code {
                KeyCode::Enter => (
                    self.prompt_closed(),
                    EffectView::CreateDir { path: path_join(self.current_dir, self.prompt_buffer) },
                ),
                KeyCode::Esc => (self.prompt_closed(), EffectView::Nothing),
                _ => (
                    AppView { prompt_buffer: edited(self.prompt_buffer, code), ..self },
                    EffectView::Nothing,
                ),
            },
            PromptType::DeleteConfirmation => match code {
                KeyCode::Left | KeyCode::Right | KeyCode::Tab => (
                    AppView { confirm_delete: !self.confirm_delete, ..self },
                    EffectView::Nothing,
                ),
                KeyCode::Enter => if self.confirm_delete {
                    (
                        AppView {
                            selected_paths: Seq::empty(),
                            confirm_delete: false,
                            ..self.prompt_closed()
                        },
                        EffectView::Delete { paths: self.captured() },
                    )
                } else {
                    (self.prompt_closed(), EffectView::Refresh)
                },
                KeyCode::Esc => (self.prompt_closed(), EffectView::Nothing),
                _ => (self, EffectView::Nothing),
            },
        }
    }

    /// The state after a key while the help is shown: escape, F1 and the key
    /// bound to help close it.
    pub open spec fn help_step(self, code: KeyCode, event: Seq<char>) -> AppView {
        if code == KeyCode::Esc || code == KeyCode::F(1) || event == self.bindings[Action::Help.ordinal()] {
            AppView { input_mode: InputMode::Normal, ..self }
        } else {
            self
        }
    }

    /// The state and the effect of a key while a description is edited: F2
    /// saves, enter breaks the line, escape gives up.
    pub open spec fn editing_step(self, code: KeyCode) -> (AppView, EffectView) {
        match code {
            KeyCode::F(n) => if n == 2 {
                (
                    AppView { input_mode: InputMode::Normal, ..self },
                    match self.current() {
                        Some(e) => EffectView::SetDescription { path: e.path, text: self.edit_buffer },
                        None => EffectView::Refresh,
                    },
                )
            } else {
                (self, EffectView::Nothing)
            },
            KeyCode::Enter => (
                AppView { edit_buffer: self.edit_buffer.push('\n'), ..self },
                EffectView::Nothing,
            ),
            KeyCode::Esc => (AppView { input_mode: InputMode::Normal, ..self }, EffectView::Nothing),
            _ => (AppView { edit_buffer: edited(self.edit_buffer, code), ..self }, EffectView::Nothing),
        }
    }

    /// The state and the effect of a key while a query is typed: every
    /// change of the query narrows the shown entries at once, enter starts a
    /// deep search for a query that is not empty.
    pub open spec fn search_step(self, code: KeyCode) -> (AppView, EffectView) {
        match code {
            KeyCode::Enter => if self.search_query.len() > 0 {
                (
                    AppView { input_mode: InputMode::Normal, is_searching: true, ..self },
                    EffectView::DeepSearch { root: "/"@, query: self.search_query },
                )
            } else {
                (AppView { input_mode: InputMode::Normal, ..self }, EffectView::Nothing)
            },
            KeyCode::Esc => (AppView { input_mode: InputMode::Normal, ..self }, EffectView::Nothing),
            KeyCode::Char(_) | KeyCode::Backspace => (
                AppView { search_query: edited(self.search_query, code), ..self }.filtered(),
                EffectView::Nothing,
            ),
            _ => (self, EffectView::Nothing),
        }
    }

    /// The state after a key while the key bindings are listed. The cursor
    /// runs over the actions in the order of the categorized list.
    pub open spec fn config_step(self, code: KeyCode) -> AppView {
        let up = AppView {
            config_index: if self.config_index > 0 {
                self.config_index - 1
            } else {
                self.config_index
            },
            ..self
        };
        let down = AppView {
            config_index: if self.config_index < ACTION_COUNT - 1 {
                self.config_index + 1
            } else {
                self.config_index
            },
            ..self
        };
        match code {
            KeyCode::Up => up,
            KeyCode::Down => down,
            KeyCode::Char(c) => if c == 'k' {
                up
            } else if c == 'j' {
                down
            } else {
                self
            },
            KeyCode::Enter => if 0 <= self.config_index < ACTION_COUNT {
                AppView {
                    input_mode: InputMode::Remapping(menu_order()[self.config_index]),
                    error_message: None,
                    ..self
                }
            } else {
                self
            },
            KeyCode::Esc => AppView { input_mode: InputMode::Normal, error_message: None, ..self },
            _ => self,
        }
    }

    /// The state and the effect of a key while `action` waits for its new
    /// key. Any named key but escape is bound if no other action holds it;
    /// a refusal is kept as the error message and the wait goes on.
    pub open spec fn remapping_step(self, action: Action, code: KeyCode, event: Seq<char>) -> (
        AppView,
        EffectView,
    ) {
        if event.len() > 0 && code != KeyCode::Esc {
            match rebind(self.bindings, action.spec_name(), event) {
                Ok(bindings) => (
                    AppView { bindings, input_mode: InputMode::Config, error_message: None, ..self },
                    EffectView::SaveConfig,
                ),
                Err(message) => (AppView { error_message: Some(message), ..self }, EffectView::Nothing),
            }
        } else if code == KeyCode::Esc {
            (AppView { input_mode: InputMode::Config, error_message: None, ..self }, EffectView::Nothing)
        } else {
            (self, EffectView::Nothing)
        }
    }

    /// The state and the effect of a key event.
    pub open spec fn step(self, code: KeyCode, modifiers: KeyModifiers) -> (AppView, EffectView) {
        let event = key_description(code, modifiers);
        match self.input_mode {
            InputMode::Normal => self.normal_step(code, event),
            InputMode::Prompt(prompt) => self.prompt_step(prompt, code),
            InputMode::Help => (self.help_step(code, event), EffectView::Nothing),
            InputMode::Editing => self.editing_step(code),
            InputMode::Search => self.search_step(code),
            InputMode::Config => (self.config_step(code), EffectView::Nothing),
            InputMode::Remapping(action) => self.remapping_step(action, code, event),
        }
    }

    /// The state after a navigation has been resolved on disk: a directory
    /// becomes the current directory, anything else changes nothing.
    pub open spec fn arrived(self, resolved: Seq<char>, is_dir: bool) -> AppView {
        if is_dir {
            self.moved_to(resolved).synced()
        } else {
            self
        }
    }

    /// The state after a deep search: its result is shown in place of the
    /// filtered listing, with the cursor at the top.
    pub open spec fn searched(self, found: Seq<EntryView>) -> AppView {
        AppView { filtered_entries: found, is_searching: false, selected_index: 0, ..self }
    }
}

/// No key takes the cursor off the list.
pub proof fn lemma_step_keeps_cursor(pre: AppView, code: KeyCode, modifiers: KeyModifiers)
    requires
        pre.cursor_valid(),
    ensures
        pre.step(code, modifiers).0.cursor_valid(),
{
}

/// A paste of what was cut empties the clipboard. A paste of what was
/// copied leaves the clipboard as it was, so that the next paste does the
/// same again.
pub proof fn lemma_paste_and_clipboard(pre: AppView)
    requires
        pre.clipboard is Some,
    ensures
        pre.clipboard->0.mode == ClipboardMode::Cut ==> pre.acted(Action::Paste).0.clipboard is None,
        pre.clipboard->0.mode == ClipboardMode::Copy ==> pre.acted(Action::Paste).0.clipboard
            == pre.clipboard && pre.acted(Action::Paste).0.acted(Action::Paste) == pre.acted(
            Action::Paste,
        ),
        pre.acted(Action::Paste).1 == (EffectView::Paste {
            mode: pre.clipboard->0.mode,
            transfers: transfers(pre.clipboard->0.paths, pre.current_dir),
        }),
{
}

/// Escape leads out of every mode but the normal one: from the wait for a
/// new key back to the list of bindings, from anywhere else to normal mode.
pub proof fn lemma_escape_leads_back(pre: AppView, modifiers: KeyModifiers)
    requires
        pre.input_mode != InputMode::Normal,
    ensures
        pre.step(KeyCode::Esc, modifiers).0.input_mode == if pre.input_mode is Remapping {
            InputMode::Config
        } else {
            InputMode::Normal
        },
{
}

impl AppView {
    /// No path is marked twice, and none is twice on the clipboard.
    pub open spec fn marks_distinct(self) -> bool {
        &&& self.selected_paths.no_duplicates()
        &&& match self.clipboard {
            Some(c) => c.paths.no_duplicates(),
            None => true,
        }
    }
}

/// Marking all entries marks no path twice.
pub proof fn lemma_with_all_distinct(paths: Seq<Seq<char>>, entries: Seq<EntryView>)
    requires
        paths.no_duplicates(),
    ensures
        with_all(paths, entries).no_duplicates(),
    decreases entries.len(),
{
    if entries.len() > 0 {
        lemma_with_all_distinct(paths, entries.drop_last());
    }
}

/// The marked paths and the paths on the clipboard behave as sets: no key
/// puts a path among them that is there already.
pub proof fn lemma_step_keeps_marks_distinct(pre: AppView, code: KeyCode, modifiers: KeyModifiers)
    requires
        pre.marks_distinct(),
    ensures
        pre.step(code, modifiers).0.marks_distinct(),
{
    lemma_with_all_distinct(pre.selected_paths, pre.filtered_entries);
    if let Some(e) = pre.current() {
        lemma_filter_keeps_distinct(pre.selected_paths, is_other(e.path));
    }
    assert(Seq::<Seq<char>>::empty().no_duplicates());
}

/// Going to another directory marks no path twice either.
pub proof fn lemma_arrival_keeps_marks_distinct(pre: AppView, resolved: Seq<char>, is_dir: bool)
    requires
        pre.marks_distinct(),
    ensures
        pre.arrived(resolved, is_dir).marks_distinct(),
{
}

/// The session of the browser.
pub struct App {
    pub manager: FileSystemManager,
    /// The listing of the current directory as it was last read.
    pub all_entries: Vec<FileEntry>,
    /// The entries on screen: what the live filter leaves of the listing, or
    /// the result of a deep search.
    pub filtered_entries: Vec<FileEntry>,
    /// The cursor, an index into `filtered_entries`.
    pub selected_index: usize,
    pub input_mode: InputMode,
    pub edit_buffer: String,
    pub search_query: String,
    pub config: Config,
    /// The cursor in the list of key bindings.
    pub config_index: usize,
    /// The last failure, kept for display.
    pub error_message: Option<String>,
    /// True while a deep search is under way.
    pub is_searching: bool,
    /// The paths marked for copy, cut and delete. No path occurs twice.
    pub selected_paths: Vec<String>,
    pub clipboard: Option<Clipboard>,
    pub prompt_buffer: String,
    /// The choice in the delete confirmation: true for OK.
    pub confirm_delete: bool,
    pub list_state: ListState,
    /// Number of rows of the list on screen.
    pub list_height: u16,
}

/// The view of an optional clipboard.
pub open spec fn clipboard_view(c: Option<Clipboard>) -> Option<ClipboardView> {
    match c {
        Some(c) => Some(c@),
        None => None,
    }
}

/// The view of an optional index.
pub open spec fn index_view(i: Option<usize>) -> Option<int> {
    match i {
        Some(i) => Some(i as int),
        None => None,
    }
}

impl View for App {
    type V = AppView;

    open spec fn view(&self) -> AppView {
        AppView {
            current_dir: self.manager@,
            all_entries: views(self.all_entries@),
            filtered_entries: views(self.filtered_entries@),
            selected_index: self.selected_index as int,
            input_mode: self.input_mode,
            edit_buffer: self.edit_buffer@,
            search_query: self.search_query@,
            bindings: self.config@,
            config_index: self.config_index as int,
            error_message: text_of(self.error_message),
            is_searching: self.is_searching,
            selected_paths: texts(self.selected_paths@),
            clipboard: clipboard_view(self.clipboard),
            prompt_buffer: self.prompt_buffer@,
            confirm_delete: self.confirm_delete,
            list_offset: self.list_state.offset as int,
            list_selected: index_view(self.list_state.selected),
            list_height: self.list_height as int,
        }
    }
}

/// The state in which a session starts: nothing listed, nothing selected,
/// normal mode.
pub open spec fn initial(current_dir: Seq<char>, bindings: Seq<Seq<char>>) -> AppView {
    AppView {
        current_dir,
        all_entries: Seq::empty(),
        filtered_entries: Seq::empty(),
        selected_index: 0,
        input_mode: InputMode::Normal,
        edit_buffer: Seq::empty(),
        search_query: Seq::empty(),
        bindings,
        config_index: 0,
        error_message: None,
        is_searching: false,
        selected_paths: Seq::empty(),
        clipboard: None,
        prompt_buffer: Seq::empty(),
        confirm_delete: false,
        list_offset: 0,
        list_selected: None,
        list_height: 0,
    }
}

impl App {
    /// A session in `manager`'s directory with the given bindings. It shows
    /// nothing until the first [`App::refresh`].
    pub fn new(manager: FileSystemManager, config: Config) -> (r: App)
        ensures
            r@ == initial(manager@, config@),
    {
        let r = App {
            manager,
            all_entries: Vec::new(),
            filtered_entries: Vec::new(),
            selected_index: 0,
            input_mode: InputMode::Normal,
            edit_buffer: String::new(),
            search_query: String::new(),
            config,
            config_index: 0,
            error_message: None,
            is_searching: false,
            selected_paths: Vec::new(),
            clipboard: None,
            prompt_buffer: String::new(),
            confirm_delete: false,
            list_state: ListState { offset: 0, selected: None },
            list_height: 0,
        };
        assert(r@.all_entries =~= Seq::<EntryView>::empty());
        assert(r@.filtered_entries =~= Seq::<EntryView>::empty());
        assert(r@.selected_paths =~= Seq::<Seq<char>>::empty());
        r
    }

    /// True when `path` is marked.
    pub fn is_selected(&self, path: &str) -> (r: bool)
        ensures
            r == self@.selected_paths.contains(path@),
    {
        contains_text(&self.selected_paths, path)
    }

    /// Puts the cursor on the row nearest to `index`.
    fn set_cursor(&mut self, index: usize)
        ensures
            final(self)@ == old(self)@.with_cursor(index as int),
    {
        let len = self.filtered_entries.len();
        self.selected_index = if len == 0 {
            0
        } else if index >= len {
            len - 1
        } else {
            index
        };
    }

    /// Makes the highlighted row follow the cursor.
    fn sync_list(&mut self)
        ensures
            final(self)@ == old(self)@.synced(),
    {
        self.list_state.selected = Some(self.selected_index);
    }

    /// Applies the live filter: shows all entries for an empty query, else
    /// those that the query matches, and keeps the cursor on a row.
    pub fn apply_filter(&mut self)
        ensures
            final(self)@ == old(self)@.filtered(),
            final(self)@.cursor_valid(),
    {
        if self.search_query.as_str().is_empty() {
            self.filtered_entries = clone_entries(&self.all_entries);
        } else {
            let folded = to_lowercase(self.search_query.as_str());
            let ghost all = views(self.all_entries@);
            let ghost test = entry_test(folded@);
            let mut shown: Vec<FileEntry> = Vec::new();
            let mut i: usize = 0;
            proof {
                reveal(Seq::filter);
                assert(all.take(0) =~= Seq::<EntryView>::empty());
                assert(views(shown@) =~= all.take(0).filter(test));
            }
            while i < self.all_entries.len()
                invariant
                    i <= self.all_entries@.len(),
                    all == views(self.all_entries@),
                    test == entry_test(folded@),
                    views(shown@) == all.take(i as int).filter(test),
                decreases self.all_entries@.len() - i,
            {
                let e = &self.all_entries[i];
                let ghost sofar = shown@;
                proof {
                    assert(all.take(i + 1) =~= all.take(i as int).push(e@));
                    all.take(i as int).lemma_filter_push(e@, test);
                }
                if hit(e.name.as_str(), &e.description, folded.as_str()) {
                    shown.push(e.clone());
                    assert(views(shown@) =~= views(sofar).push(e@));
                }
                i += 1;
            }
            proof {
                assert(all.take(all.len() as int) =~= all);
            }
            self.filtered_entries = shown;
        }
        let index = self.selected_index;
        self.set_cursor(index);
        self.sync_list();
    }

    /// Takes in what was read of the current directory and applies the live
    /// filter. `None` stands for a directory that could not be read: the
    /// listing is then empty.
    pub fn refresh(&mut self, scan: Option<DirectoryScan>)
        ensures
            final(self)@ == old(self)@.refreshed(
                match scan {
                    Some(s) => crate::manager::listing(old(self)@.current_dir, s@),
                    None => Seq::empty(),
                },
            ),
            final(self)@.cursor_valid(),
    {
        match scan {
            Some(s) => {
                self.all_entries = self.manager.list_directory(s);
            },
            None => {
                self.all_entries = Vec::new();
                assert(views(self.all_entries@) =~= Seq::<EntryView>::empty());
            },
        }
        self.apply_filter();
    }

    /// The entry under the cursor, if there is one.
    pub fn current_entry(&self) -> (r: Option<&FileEntry>)
        ensures
            match r {
                Some(e) => self@.current() == Some(e@),
                None => self@.current() is None,
            },
    {
        if self.selected_index < self.filtered_entries.len() {
            Some(&self.filtered_entries[self.selected_index])
        } else {
            None
        }
    }

    /// Puts the cursor on the row nearest to `target`, of which `index` is
    /// what fits a machine word.
    fn move_cursor(&mut self, index: usize, Ghost(target): Ghost<int>)
        requires
            index == target || (target > usize::MAX && index == usize::MAX) || (target < 0 && index == 0),
        ensures
            final(self)@ == old(self)@.with_cursor(target),
    {
        let len = self.filtered_entries.len();
        assert(views(self.filtered_entries@).len() == len);
        self.set_cursor(index);
    }

    /// What the key event means in normal mode.
    pub fn normal_command(&self, code: KeyCode, event: &str) -> (r: Command)
        ensures
            r == normal_command(self@.bindings, code, event@),
    {
        let mut i: usize = 0;
        while i < ACTION_COUNT
            invariant
                i <= ACTION_COUNT,
                first_triggered(self@.bindings, code, event@, 0) == first_triggered(
                    self@.bindings,
                    code,
                    event@,
                    i as int,
                ),
            decreases ACTION_COUNT - i,
        {
            let action = command_at(i);
            if str_eq(self.config.keybindings.key(action).as_str(), event) || is_fixed_key(action, code) {
                return Command::Run(action);
            }
            i += 1;
        }
        match code {
            KeyCode::Esc => Command::Reset,
            _ => Command::Nothing,
        }
    }

    /// Marks `path` unless it is marked.
    fn mark(&mut self, path: &String)
        ensures
            final(self)@ == (AppView { selected_paths: with_path(old(self)@.selected_paths, path@), ..old(self)@ }),
    {
        if !contains_text(&self.selected_paths, path.as_str()) {
            let ghost before = self.selected_paths@;
            self.selected_paths.push(path.clone());
            assert(texts(self.selected_paths@) =~= texts(before).push(path@));
        }
    }

    /// Takes the mark from `path`.
    fn unmark(&mut self, path: &str)
        ensures
            final(self)@ == (AppView {
                selected_paths: without_path(old(self)@.selected_paths, path@),
                ..old(self)@
            }),
    {
        let ghost all = texts(self.selected_paths@);
        let ghost test = is_other(path@);
        let mut kept: Vec<String> = Vec::new();
        let mut i: usize = 0;
        proof {
            reveal(Seq::filter);
            assert(all.take(0) =~= Seq::<Seq<char>>::empty());
            assert(texts(kept@) =~= all.take(0).filter(test));
        }
        while i < self.selected_paths.len()
            invariant
                i <= self.selected_paths@.len(),
                all == texts(self.selected_paths@),
                test == is_other(path@),
                texts(kept@) == all.take(i as int).filter(test),
            decreases self.selected_paths@.len() - i,
        {
            let ghost sofar = kept@;
            proof {
                assert(all.take(i + 1) =~= all.take(i as int).push(self.selected_paths@[i as int]@));
                all.take(i as int).lemma_filter_push(self.selected_paths@[i as int]@, test);
            }
            if !str_eq(self.selected_paths[i].as_str(), path) {
                kept.push(self.selected_paths[i].clone());
                assert(texts(kept@) =~= texts(sofar).push(self.selected_paths@[i as int]@));
            }
            i += 1;
        }
        proof {
            assert(all.take(all.len() as int) =~= all);
        }
        self.selected_paths = kept;
    }

    /// Marks every shown entry but `.` and `..`.
    fn mark_all(&mut self)
        ensures
            final(self)@ == (AppView {
                selected_paths: with_all(old(self)@.selected_paths, old(self)@.filtered_entries),
                ..old(self)@
            }),
    {
        let ghost shown = views(self.filtered_entries@);
        let ghost start = texts(self.selected_paths@);
        let mut i: usize = 0;
        proof {
            assert(shown.take(0) =~= Seq::<EntryView>::empty());
        }
        while i < self.filtered_entries.len()
            invariant
                i <= shown.len(),
                shown == views(self.filtered_entries@),
                self@ == (AppView {
                    selected_paths: with_all(start, shown.take(i as int)),
                    ..old(self)@
                }),
            decreases shown.len() - i,
        {
            proof {
                assert(shown.len() == self.filtered_entries@.len());
                assert(shown.take(i + 1).drop_last() =~= shown.take(i as int));
                assert(shown.take(i + 1).last() == self.filtered_entries@[i as int]@);
            }
            if !is_synthetic_name(self.filtered_entries[i].name.as_str()) {
                let path = self.filtered_entries[i].path.clone();
                self.mark(&path);
            }
            i += 1;
        }
        proof {
            assert(shown.take(shown.len() as int) =~= shown);
        }
    }

    /// The paths that a copy, a cut or a delete takes.
    fn capture(&self) -> (r: Vec<String>)
        ensures
            texts(r@) == self@.captured(),
    {
        if self.selected_paths.len() > 0 {
            clone_texts(&self.selected_paths)
        } else {
            let mut r: Vec<String> = Vec::new();
            match self.current_entry() {
                Some(e) => {
                    if !is_synthetic_name(e.name.as_str()) {
                        r.push(e.path.clone());
                        assert(texts(r@) =~= seq![e@.path]);
                    } else {
                        assert(texts(r@) =~= Seq::<Seq<char>>::empty());
                    }
                },
                None => {
                    assert(texts(r@) =~= Seq::<Seq<char>>::empty());
                },
            }
            r
        }
    }

    /// Copies or cuts: puts the captured paths on the clipboard.
    fn perform_clipboard_action(&mut self, mode: ClipboardMode)
        ensures
            final(self)@ == old(self)@.took(mode),
    {
        let paths = self.capture();
        if paths.len() > 0 {
            self.clipboard = Some(Clipboard { paths, mode });
            self.selected_paths = Vec::new();
            assert(texts(self.selected_paths@) =~= Seq::<Seq<char>>::empty());
        }
    }

    /// Drops the marks unless the clipboard holds them all.
    fn clear_selection_if_needed(&mut self)
        ensures
            final(self)@ == (AppView {
                selected_paths: if held_by_clipboard(old(self)@.selected_paths, old(self)@.clipboard) {
                    old(self)@.selected_paths
                } else {
                    Seq::empty()
                },
                ..old(self)@
            }),
    {
        let mut held = false;
        match &self.clipboard {
            Some(c) => {
                held = true;
                let mut i: usize = 0;
                while i < self.selected_paths.len() && held
                    invariant
                        i <= self.selected_paths@.len(),
                        held ==> forall|j: int|
                            0 <= j < i ==> c@.paths.contains(#[trigger] texts(self.selected_paths@)[j]),
                        !held ==> !held_by_clipboard(texts(self.selected_paths@), Some(c@)),
                    decreases self.selected_paths@.len() - i,
                {
                    if !contains_text(&c.paths, self.selected_paths[i].as_str()) {
                        assert(!c@.paths.contains(texts(self.selected_paths@)[i as int]));
                        held = false;
                    }
                    i += 1;
                }
            },
            None => {},
        }
        if !held {
            self.selected_paths = Vec::new();
            assert(texts(self.selected_paths@) =~= Seq::<Seq<char>>::empty());
        }
    }

    /// Takes in that the current directory has changed.
    fn leave_directory(&mut self)
        ensures
            final(self)@ == old(self)@.moved_to(old(self)@.current_dir),
    {
        self.clear_selection_if_needed();
        self.search_query = String::new();
        self.selected_index = 0;
    }

    /// The copies or moves that a paste of `paths` makes.
    fn plan_transfers(&self, paths: &Vec<String>) -> (r: Vec<(String, String)>)
        ensures
            pairs(r@) == transfers(texts(paths@), self@.current_dir),
    {
        let ghost all = texts(paths@);
        let ghost dest = self@.current_dir;
        let mut r: Vec<(String, String)> = Vec::new();
        let mut i: usize = 0;
        proof {
            assert(all.take(0) =~= Seq::<Seq<char>>::empty());
            assert(pairs(r@) =~= transfers(all.take(0), dest));
        }
        while i < paths.len()
            invariant
                i <= paths@.len(),
                all == texts(paths@),
                dest == self@.current_dir,
                pairs(r@) == transfers(all.take(i as int), dest),
            decreases paths@.len() - i,
        {
            let ghost sofar = r@;
            proof {
                assert(all.take(i + 1).drop_last() =~= all.take(i as int));
                assert(all.take(i + 1).last() == paths@[i as int]@);
            }
            match file_name_of(paths[i].as_str()) {
                Some(name) => {
                    let destination = self.manager.resolve(name.as_str());
                    r.push((paths[i].clone(), destination));
                    assert(pairs(r@) =~= pairs(sofar).push((paths@[i as int]@, path_join(dest, name@))));
                },
                None => {},
            }
            i += 1;
        }
        proof {
            assert(all.take(all.len() as int) =~= all);
        }
        r
    }

    /// Pastes: plans a copy or a move of every path on the clipboard into
    /// the current directory. What was cut leaves the clipboard.
    fn paste_clipboard(&mut self) -> (r: Effect)
        ensures
            final(self)@ == old(self)@.acted(Action::Paste).0,
            r@ == old(self)@.acted(Action::Paste).1,
    {
        let planned = match &self.clipboard {
            Some(c) => Some((c.mode, self.plan_transfers(&c.paths))),
            None => None,
        };
        match planned {
            Some((mode, transfers)) => {
                match mode {
                    ClipboardMode::Cut => {
                        self.clipboard = None;
                    },
                    ClipboardMode::Copy => {},
                }
                Effect::Paste { mode, transfers }
            },
            None => Effect::Nothing,
        }
    }

    /// Takes the captured paths for deletion and drops the marks.
    fn delete_selected(&mut self) -> (r: Effect)
        ensures
            final(self)@ == (AppView { selected_paths: Seq::empty(), ..old(self)@ }),
            r@ == (EffectView::Delete { paths: old(self)@.captured() }),
    {
        let paths = self.capture();
        self.selected_paths = Vec::new();
        assert(texts(self.selected_paths@) =~= Seq::<Seq<char>>::empty());
        Effect::Delete { paths }
    }

    /// Carries out an action in normal mode.
    fn act(&mut self, action: Action) -> (r: Effect)
        ensures
            final(self)@ == old(self)@.acted(action).0,
            r@ == old(self)@.acted(action).1,
    {
        let index = self.selected_index;
        let height = self.list_height as usize;
        match action {
            Action::Up => {
                if index > 0 {
                    self.move_cursor(index - 1, Ghost(index - 1));
                } else {
                    self.move_cursor(0, Ghost(index - 1));
                }
                Effect::Nothing
            },
            Action::Down => {
                if index < usize::MAX {
                    self.move_cursor(index + 1, Ghost(index + 1));
                } else {
                    self.move_cursor(index, Ghost(index + 1));
                }
                Effect::Nothing
            },
            Action::Enter => match self.current_entry() {
                Some(e) => {
                    if e.is_dir {
                        Effect::Navigate { target: self.manager.resolve(e.path.as_str()) }
                    } else {
                        Effect::Open { path: e.path.clone() }
                    }
                },
                None => Effect::Nothing,
            },
            Action::Backspace => {
                if self.manager.navigate_up() {
                    self.leave_directory();
                    Effect::Refresh
                } else {
                    Effect::Nothing
                }
            },
            Action::Edit => {
                let description = match self.current_entry() {
                    Some(e) => {
                        if is_synthetic_name(e.name.as_str()) {
                            None
                        } else {
                            Some(clone_text(&e.description))
                        }
                    },
                    None => None,
                };
                match description {
                    Some(d) => {
                        self.edit_buffer = match d {
                            Some(text) => text,
                            None => String::new(),
                        };
                        self.input_mode = InputMode::Editing;
                    },
                    None => {},
                }
                Effect::Nothing
            },
            Action::Settings => {
                self.input_mode = InputMode::Config;
                self.config_index = 0;
                Effect::Nothing
            },
            Action::Search => {
                self.input_mode = InputMode::Search;
                Effect::Nothing
            },
            Action::CtrlHome => {
                self.move_cursor(0, Ghost(0));
                Effect::Nothing
            },
            Action::CtrlEnd => {
                let len = self.filtered_entries.len();
                if len > 0 {
                    self.move_cursor(len - 1, Ghost(len - 1));
                } else {
                    self.move_cursor(0, Ghost(len - 1));
                }
                Effect::Nothing
            },
            Action::Home => {
                let offset = self.list_state.offset;
                self.move_cursor(offset, Ghost(offset as int));
                Effect::Nothing
            },
            Action::End => {
                let offset = self.list_state.offset;
                if offset > usize::MAX - height {
                    self.move_cursor(usize::MAX, Ghost(offset + height - 1));
                } else if offset + height == 0 {
                    self.move_cursor(0, Ghost(offset + height - 1));
                } else {
                    self.move_cursor(offset + height - 1, Ghost(offset + height - 1));
                }
                Effect::Nothing
            },
            Action::PageUp => {
                if height > index {
                    self.move_cursor(0, Ghost(index - height));
                } else {
                    self.move_cursor(index - height, Ghost(index - height));
                }
                Effect::Nothing
            },
            Action::PageDown => {
                if index > usize::MAX - height {
                    self.move_cursor(usize::MAX, Ghost(index + height));
                } else {
                    self.move_cursor(index + height, Ghost(index + height));
                }
                Effect::Nothing
            },
            Action::SelectAll => {
                self.mark_all();
                Effect::Nothing
            },
            Action::DeselectAll => {
                self.selected_paths = Vec::new();
                assert(texts(self.selected_paths@) =~= Seq::<Seq<char>>::empty());
                Effect::Nothing
            },
            Action::Select => {
                let path = match self.current_entry() {
                    Some(e) => {
                        if is_synthetic_name(e.name.as_str()) {
                            None
                        } else {
                            Some(e.path.clone())
                        }
                    },
                    None => None,
                };
                match path {
                    Some(p) => {
                        if contains_text(&self.selected_paths, p.as_str()) {
                            self.unmark(p.as_str());
                        } else {
                            self.mark(&p);
                        }
                    },
                    None => {},
                }
                Effect::Nothing
            },
            Action::Copy => {
                self.perform_clipboard_action(ClipboardMode::Copy);
                Effect::Nothing
            },
            Action::Cut => {
                self.perform_clipboard_action(ClipboardMode::Cut);
                Effect::Nothing
            },
            Action::Paste => self.paste_clipboard(),
            Action::NewFolder => {
                self.prompt_buffer = String::new();
                self.input_mode = InputMode::Prompt(PromptType::NewFolder);
                Effect::Nothing
            },
            Action::Delete => {
                self.input_mode = InputMode::Prompt(PromptType::DeleteConfirmation);
                self.confirm_delete = false;
                Effect::Nothing
            },
            Action::Help => {
                self.input_mode = InputMode::Help;
                Effect::Nothing
            },
            Action::Quit => Effect::Nothing,
        }
    }

    /// Handles a key in normal mode.
    fn on_key_normal(&mut self, code: KeyCode, event: &str) -> (r: Effect)
        ensures
            final(self)@ == old(self)@.normal_step(code, event@).0,
            r@ == old(self)@.normal_step(code, event@).1,
    {
        match self.normal_command(code, event) {
            Command::Run(action) => {
                let effect = self.act(action);
                self.sync_list();
                effect
            },
            Command::Reset => {
                self.selected_paths = Vec::new();
                assert(texts(self.selected_paths@) =~= Seq::<Seq<char>>::empty());
                self.search_query = String::new();
                self.apply_filter();
                Effect::Nothing
            },
            Command::Nothing => {
                self.sync_list();
                Effect::Nothing
            },
        }
    }

    /// Closes the prompt.
    fn close_prompt(&mut self)
        ensures
            final(self)@ == old(self)@.prompt_closed(),
    {
        self.input_mode = InputMode::Normal;
        self.prompt_buffer = String::new();
    }

    /// Handles a key while a prompt is open.
    fn on_key_prompt(&mut self, prompt: PromptType, code: KeyCode) -> (r: Effect)
        ensures
            final(self)@ == old(self)@.prompt_step(prompt, code).0,
            r@ == old(self)@.prompt_step(prompt, code).1,
    {
        match prompt {
            PromptType::NewFolder => match code {
                KeyCode::Enter => {
                    let path = self.manager.resolve(self.prompt_buffer.as_str());
                    self.close_prompt();
                    Effect::CreateDir { path }
                },
                KeyCode::Esc => {
                    self.close_prompt();
                    Effect::Nothing
                },
                _ => {
                    edit_text(&mut self.prompt_buffer, code);
                    Effect::Nothing
                },
            },
            PromptType::DeleteConfirmation => match code {
                KeyCode::Left | KeyCode::Right | KeyCode::Tab => {
                    self.confirm_delete = !self.confirm_delete;
                    Effect::Nothing
                },
                KeyCode::Enter => {
                    if self.confirm_delete {
                        let effect = self.delete_selected();
                        self.close_prompt();
                        self.confirm_delete = false;
                        effect
                    } else {
                        self.close_prompt();
                        Effect::Refresh
                    }
                },
                KeyCode::Esc => {
                    self.close_prompt();
                    Effect::Nothing
                },
                _ => Effect::Nothing,
            },
        }
    }

    /// Handles a key while the help is shown.
    fn on_key_help(&mut self, code: KeyCode, event: &str)
        ensures
            final(self)@ == old(self)@.help_step(code, event@),
    {
        let dismiss = match code {
            KeyCode::Esc => true,
            KeyCode::F(n) => n == 1,
            _ => false,
        };
        if dismiss || str_eq(event, self.config.keybindings.key(Action::Help).as_str()) {
            self.input_mode = InputMode::Normal;
        }
    }

    /// Handles a key while a description is edited.
    fn on_key_editing(&mut self, code: KeyCode) -> (r: Effect)
        ensures
            final(self)@ == old(self)@.editing_step(code).0,
            r@ == old(self)@.editing_step(code).1,
    {
        match code {
            KeyCode::F(n) => {
                if n == 2 {
                    let effect = match self.current_entry() {
                        Some(e) => Effect::SetDescription {
                            path: e.path.clone(),
                            text: self.edit_buffer.clone(),
                        },
                        None => Effect::Refresh,
                    };
                    self.input_mode = InputMode::Normal;
                    effect
                } else {
                    Effect::Nothing
                }
            },
            KeyCode::Enter => {
                self.edit_buffer.push('\n');
                Effect::Nothing
            },
            KeyCode::Esc => {
                self.input_mode = InputMode::Normal;
                Effect::Nothing
            },
            _ => {
                edit_text(&mut self.edit_buffer, code);
                Effect::Nothing
            },
        }
    }

    /// Handles a key while a query is typed.
    fn on_key_search(&mut self, code: KeyCode) -> (r: Effect)
        ensures
            final(self)@ == old(self)@.search_step(code).0,
            r@ == old(self)@.search_step(code).1,
    {
        match code {
            KeyCode::Enter => {
                self.input_mode = InputMode::Normal;
                if !self.search_query.as_str().is_empty() {
                    self.is_searching = true;
                    Effect::DeepSearch { root: String::from_str("/"), query: self.search_query.clone() }
                } else {
                    Effect::Nothing
                }
            },
            KeyCode::Esc => {
                self.input_mode = InputMode::Normal;
                Effect::Nothing
            },
            KeyCode::Char(_) | KeyCode::Backspace => {
                edit_text(&mut self.search_query, code);
                self.apply_filter();
                Effect::Nothing
            },
            _ => Effect::Nothing,
        }
    }

    /// Handles a key while the key bindings are listed.
    fn on_key_config(&mut self, code: KeyCode)
        ensures
            final(self)@ == old(self)@.config_step(code),
    {
        let up = match code {
            KeyCode::Up => true,
            KeyCode::Char(c) => c == 'k',
            _ => false,
        };
        let down = match code {
            KeyCode::Down => true,
            KeyCode::Char(c) => c == 'j',
            _ => false,
        };
        if up {
            if self.config_index > 0 {
                self.config_index -= 1;
            }
        } else if down {
            if self.config_index < ACTION_COUNT - 1 {
                self.config_index += 1;
            }
        } else {
            match code {
                KeyCode::Enter => {
                    match Config::menu_action(self.config_index) {
                        Some(action) => {
                            self.input_mode = InputMode::Remapping(action);
                            self.error_message = None;
                        },
                        None => {},
                    }
                },
                KeyCode::Esc => {
                    self.input_mode = InputMode::Normal;
                    self.error_message = None;
                },
                _ => {},
            }
        }
    }

    /// Handles a key while an action waits for its new key.
    fn on_key_remapping(&mut self, action: Action, code: KeyCode, event: String) -> (r: Effect)
        ensures
            final(self)@ == old(self)@.remapping_step(action, code, event@).0,
            r@ == old(self)@.remapping_step(action, code, event@).1,
    {
        let escape = match code {
            KeyCode::Esc => true,
            _ => false,
        };
        if !event.as_str().is_empty() && !escape {
            match self.config.set_key(action.name(), event) {
                Ok(_) => {
                    self.input_mode = InputMode::Config;
                    self.error_message = None;
                    Effect::SaveConfig
                },
                Err(message) => {
                    self.error_message = Some(String::from_str(message));
                    Effect::Nothing
                },
            }
        } else if escape {
            self.input_mode = InputMode::Config;
            self.error_message = None;
            Effect::Nothing
        } else {
            Effect::Nothing
        }
    }

    /// Handles one key event: changes the state as the input mode says and
    /// gives back what the caller has to do. A cursor that was on the list
    /// stays on the list.
    pub fn on_key(&mut self, code: KeyCode, modifiers: KeyModifiers) -> (r: Effect)
        ensures
            final(self)@ == old(self)@.step(code, modifiers).0,
            r@ == old(self)@.step(code, modifiers).1,
            old(self)@.cursor_valid() ==> final(self)@.cursor_valid(),
    {
        let event = key_event_to_string(code, modifiers);
        proof {
            if self@.cursor_valid() {
                lemma_step_keeps_cursor(self@, code, modifiers);
            }
        }
        match self.input_mode {
            InputMode::Normal => self.on_key_normal(code, event.as_str()),
            InputMode::Prompt(prompt) => self.on_key_prompt(prompt, code),
            InputMode::Help => {
                self.on_key_help(code, event.as_str());
                Effect::Nothing
            },
            InputMode::Editing => self.on_key_editing(code),
            InputMode::Search => self.on_key_search(code),
            InputMode::Config => {
                self.on_key_config(code);
                Effect::Nothing
            },
            InputMode::Remapping(action) => self.on_key_remapping(action, code, event),
        }
    }

    /// True when the key is the character that is bound to quit. The caller
    /// asks this of every key before it hands the key on.
    pub fn wants_quit(&self, code: KeyCode) -> (r: bool)
        ensures
            r == match code {
                KeyCode::Char(c) => self@.bindings[Action::Quit.ordinal()] == seq![c],
                _ => false,
            },
    {
        match code {
            KeyCode::Char(c) => {
                let mut typed = String::new();
                typed.push(c);
                assert(typed@ =~= seq![c]);
                str_eq(self.config.keybindings.key(Action::Quit).as_str(), typed.as_str())
            },
            _ => false,
        }
    }

    /// Takes in what came of an [`Effect::Navigate`]: the resolved target
    /// and whether it is a directory. A directory becomes the current
    /// directory and has to be read; anything else changes nothing.
    pub fn navigated(&mut self, resolved: String, is_dir: bool) -> (r: Effect)
        ensures
            final(self)@ == old(self)@.arrived(resolved@, is_dir),
            r@ == if is_dir {
                EffectView::Refresh
            } else {
                EffectView::Nothing
            },
            final(self)@.current_dir == if is_dir {
                resolved@
            } else {
                old(self)@.current_dir
            },
    {
        match self.manager.navigate_to(resolved, is_dir) {
            Ok(_) => {
                self.leave_directory();
                self.sync_list();
                Effect::Refresh
            },
            Err(_) => Effect::Nothing,
        }
    }

    /// Shows the result of a deep search in place of the filtered listing.
    /// It holds at most [`crate::manager::SEARCH_LIMIT`] entries, and none
    /// that the query of the search does not match.
    pub fn trigger_deep_search(&mut self, search: DeepSearch)
        ensures
            final(self)@ == old(self)@.searched(search.found()),
            final(self)@.filtered_entries.len() <= crate::manager::SEARCH_LIMIT,
            forall|i: int|
                0 <= i < final(self)@.filtered_entries.len() ==> is_hit(
                    (#[trigger] final(self)@.filtered_entries[i]).name,
                    final(self)@.filtered_entries[i].description,
                    search.folded_query(),
                ),
            final(self)@.cursor_valid(),
    {
        let results = search.into_results();
        assert forall|i: int| 0 <= i < views(results@).len() implies is_hit(
            (#[trigger] views(results@)[i]).name,
            views(results@)[i].description,
            search.folded_query(),
        ) by {
            assert(views(results@)[i] == results@[i]@);
        }
        self.filtered_entries = results;
        self.is_searching = false;
        self.selected_index = 0;
    }

    /// Keeps the message of a failure for display.
    pub fn report_error(&mut self, message: String)
        ensures
            final(self)@ == (AppView { error_message: Some(message@), ..old(self)@ }),
    {
        self.error_message = Some(message);
    }
}

/// The action at position `i` of the command order.
fn command_at(i: usize) -> (a: Action)
    requires
        i < ACTION_COUNT,
    ensures
        a == command_order()[i as int],
{
    if i == 0 {
        Action::Up
    } else if i == 1 {
        Action::Down
    } else if i == 2 {
        Action::Enter
    } else if i == 3 {
        Action::Backspace
    } else if i == 4 {
        Action::Edit
    } else if i == 5 {
        Action::Settings
    } else if i == 6 {
        Action::Search
    } else if i == 7 {
        Action::CtrlHome
    } else if i == 8 {
        Action::CtrlEnd
    } else if i == 9 {
        Action::Home
    } else if i == 10 {
        Action::End
    } else if i == 11 {
        Action::PageUp
    } else if i == 12 {
        Action::PageDown
    } else if i == 13 {
        Action::SelectAll
    } else if i == 14 {
        Action::DeselectAll
    } else if i == 15 {
        Action::Select
    } else if i == 16 {
        Action::Copy
    } else if i == 17 {
        Action::Cut
    } else if i == 18 {
        Action::Paste
    } else if i == 19 {
        Action::NewFolder
    } else if i == 20 {
        Action::Delete
    } else if i == 21 {
        Action::Help
    } else {
        Action::Quit
    }
}

/// True when `code` is the fixed key of `action`.
fn is_fixed_key(action: Action, code: KeyCode) -> (r: bool)
    ensures
        r == (fixed_key(action) == Some(code)),
{
    match (action, code) {
        (Action::Up, KeyCode::Up) => true,
        (Action::Down, KeyCode::Down) => true,
        (Action::Enter, KeyCode::Enter) => true,
        (Action::Backspace, KeyCode::Backspace) => true,
        (Action::Home, KeyCode::Home) => true,
        (Action::End, KeyCode::End) => true,
        (Action::PageUp, KeyCode::PageUp) => true,
        (Action::PageDown, KeyCode::PageDown) => true,
        _ => false,
    }
}

/// Applies a key to a text buffer.
fn edit_text(buffer: &mut String, code: KeyCode)
    ensures
        final(buffer)@ == edited(old(buffer)@, code),
{
    match code {
        KeyCode::Char(c) => {
            buffer.push(c);
        },
        KeyCode::Backspace => {
            let _ = buffer.pop();
        },
        _ => {},
    }
}

/// True for the names `.` and `..`.
fn is_synthetic_name(name: &str) -> (r: bool)
    ensures
        r == (name@ == "."@ || name@ == ".."@),
{
    str_eq(name, ".") || str_eq(name, "..")
}


} // verus!
