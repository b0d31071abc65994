use xplore::config::{Action, Config};
use xplore::entry::FileEntry;
use xplore::keys::{KeyCode, KeyModifiers};
use xplore::manager::{
    DeepSearch, DirectoryScan, FileSystemManager, Metadata, RawEntry, UnixAttributes,
};
use xplore::metadata::{description_from_attribute, description_to_attribute};
use xplore::session::{App, Clipboard, ClipboardMode, Effect, InputMode, PromptType};

fn plain_meta(is_dir: bool) -> Metadata {
    Metadata {
        is_dir,
        len: if is_dir { 4096 } else { 7 },
        modified: 0,
        unix: Some(UnixAttributes { mode: 0o755, uid: 1, gid: 1 }),
    }
}

fn child(dir: &str, name: &str, is_dir: bool) -> RawEntry {
    RawEntry {
        name: name.to_string(),
        path: format!("{}/{}", dir, name),
        metadata: plain_meta(is_dir),
        description: None,
    }
}

fn scan(children: Vec<RawEntry>) -> Option<DirectoryScan> {
    Some(DirectoryScan { this: plain_meta(true), parent: Some(plain_meta(true)), children })
}

/// A session in `/base` that shows `.`, `..`, `docs`, `sub`, `a.txt`, `b.md`.
fn session() -> App {
    let mut app = App::new(FileSystemManager::new(Some("/base".to_string())), Config::default());
    app.refresh(scan(vec![
        child("/base", "a.txt", false),
        child("/base", "sub", true),
        child("/base", "b.md", false),
        child("/base", "docs", true),
    ]));
    app
}

fn shown(app: &App) -> Vec<String> {
    app.filtered_entries.iter().map(|e| e.name.clone()).collect()
}

fn press(app: &mut App, code: KeyCode) -> Effect {
    app.on_key(code, KeyModifiers::none())
}

fn ctrl(app: &mut App, c: char) -> Effect {
    app.on_key(KeyCode::Char(c), KeyModifiers { control: true, alt: false, shift: false })
}

fn type_text(app: &mut App, text: &str) {
    for c in text.chars() {
        assert_eq!(press(app, KeyCode::Char(c)), Effect::Nothing);
    }
}

fn paths(list: &[&str]) -> Vec<String> {
    list.iter().map(|p| p.to_string()).collect()
}

#[test]
fn new_session_is_empty_and_normal() {
    let app = App::new(FileSystemManager::new(Some("/base".to_string())), Config::default());
    assert!(app.all_entries.is_empty());
    assert!(app.filtered_entries.is_empty());
    assert_eq!(app.selected_index, 0);
    assert_eq!(app.input_mode, InputMode::Normal);
    assert_eq!(app.clipboard, None);
    assert!(app.selected_paths.is_empty());
    assert_eq!(app.error_message, None);
    assert!(!app.is_searching);
    assert_eq!(app.manager.current_path(), "/base");
}

#[test]
fn refresh_lists_in_order() {
    let app = session();
    assert_eq!(shown(&app), vec![".", "..", "docs", "sub", "a.txt", "b.md"]);
    assert_eq!(app.all_entries, app.filtered_entries);
    assert_eq!(app.selected_index, 0);
    assert_eq!(app.list_state.selected, Some(0));
}

#[test]
fn refresh_of_an_unreadable_directory_shows_nothing() {
    let mut app = session();
    app.selected_index = 3;
    app.refresh(None);
    assert!(app.all_entries.is_empty());
    assert!(app.filtered_entries.is_empty());
    assert_eq!(app.selected_index, 0);
}

#[test]
fn filter_with_empty_query_shows_all_entries() {
    let mut app = session();
    app.search_query = String::new();
    app.selected_index = 4;
    app.apply_filter();
    assert_eq!(app.filtered_entries, app.all_entries);
    assert_eq!(app.selected_index, 4);
}

#[test]
fn filter_with_unmatched_query_shows_nothing() {
    let mut app = session();
    app.search_query = "nothing like it".to_string();
    app.selected_index = 4;
    app.apply_filter();
    assert!(app.filtered_entries.is_empty());
    assert_eq!(app.selected_index, 0);
    assert_eq!(app.all_entries.len(), 6);
}

#[test]
fn filter_matches_name_or_description_in_any_case() {
    let mut app = App::new(FileSystemManager::new(Some("/base".to_string())), Config::default());
    let mut noted = child("/base", "x.bin", false);
    noted.description = Some("Quarterly REPORT".to_string());
    app.refresh(scan(vec![child("/base", "Report.pdf", false), noted, child("/base", "y", false)]));
    app.search_query = "rePort".to_string();
    app.selected_index = 4;
    app.apply_filter();
    assert_eq!(shown(&app), vec!["Report.pdf", "x.bin"]);
    assert_eq!(app.selected_index, 1);
    assert_eq!(app.list_state.selected, Some(1));
}

#[test]
fn cursor_moves_and_stops_at_the_ends() {
    let mut app = session();
    assert_eq!(press(&mut app, KeyCode::Up), Effect::Nothing);
    assert_eq!(app.selected_index, 0);
    press(&mut app, KeyCode::Down);
    press(&mut app, KeyCode::Char('j'));
    assert_eq!(app.selected_index, 2);
    assert_eq!(app.list_state.selected, Some(2));
    press(&mut app, KeyCode::Char('k'));
    assert_eq!(app.selected_index, 1);
    for _ in 0..10 {
        press(&mut app, KeyCode::Down);
    }
    assert_eq!(app.selected_index, 5);
}

#[test]
fn cursor_jumps_to_first_and_last() {
    let mut app = session();
    let control = KeyModifiers { control: true, alt: false, shift: false };
    app.on_key(KeyCode::End, control);
    assert_eq!(app.selected_index, 5);
    app.on_key(KeyCode::Home, control);
    assert_eq!(app.selected_index, 0);
}

#[test]
fn cursor_pages_by_the_height_of_the_list() {
    let mut app = session();
    app.list_height = 4;
    press(&mut app, KeyCode::PageDown);
    assert_eq!(app.selected_index, 4);
    press(&mut app, KeyCode::PageDown);
    assert_eq!(app.selected_index, 5);
    press(&mut app, KeyCode::PageUp);
    assert_eq!(app.selected_index, 1);
    press(&mut app, KeyCode::PageUp);
    assert_eq!(app.selected_index, 0);
}

#[test]
fn cursor_jumps_to_the_ends_of_the_viewport() {
    let mut app = session();
    app.list_height = 3;
    app.list_state.offset = 2;
    press(&mut app, KeyCode::End);
    assert_eq!(app.selected_index, 4);
    press(&mut app, KeyCode::Home);
    assert_eq!(app.selected_index, 2);
    app.list_state.offset = 40;
    press(&mut app, KeyCode::Home);
    assert_eq!(app.selected_index, 5);
    app.list_height = 0;
    app.list_state.offset = 0;
    press(&mut app, KeyCode::End);
    assert_eq!(app.selected_index, 0);
}

#[test]
fn enter_on_a_directory_navigates() {
    let mut app = session();
    press(&mut app, KeyCode::Down);
    press(&mut app, KeyCode::Down);
    press(&mut app, KeyCode::Down);
    assert_eq!(
        press(&mut app, KeyCode::Enter),
        Effect::Navigate { target: "/base/sub".to_string() }
    );
    assert_eq!(app.manager.current_path(), "/base");
    assert_eq!(app.selected_index, 3);
}

#[test]
fn end_to_end_down_down_enter_on_sub() {
    let mut app = App::new(FileSystemManager::new(Some("/base".to_string())), Config::default());
    app.refresh(scan(vec![child("/base", "a.txt", false), child("/base", "sub", true)]));
    assert_eq!(shown(&app), vec![".", "..", "sub", "a.txt"]);
    press(&mut app, KeyCode::Down);
    press(&mut app, KeyCode::Down);
    let effect = press(&mut app, KeyCode::Enter);
    assert_eq!(effect, Effect::Navigate { target: "/base/sub".to_string() });
    assert_eq!(app.navigated("/base/sub".to_string(), true), Effect::Refresh);
    assert_eq!(app.manager.current_path(), "/base/sub");
    assert_eq!(app.selected_index, 0);
    app.refresh(scan(vec![child("/base/sub", "inner.txt", false)]));
    assert_eq!(shown(&app), vec![".", "..", "inner.txt"]);
    assert_eq!(app.filtered_entries[0].path, "/base/sub");
    assert_eq!(app.filtered_entries[1].path, "/base");
    assert_eq!(app.selected_index, 0);
}

#[test]
fn navigation_to_what_is_no_directory_changes_nothing() {
    let mut app = session();
    app.selected_index = 2;
    app.search_query = "s".to_string();
    assert_eq!(app.navigated("/base/a.txt".to_string(), false), Effect::Nothing);
    assert_eq!(app.manager.current_path(), "/base");
    assert_eq!(app.selected_index, 2);
    assert_eq!(app.search_query, "s");
}

#[test]
fn navigation_clears_the_search_query() {
    let mut app = session();
    app.search_query = "sub".to_string();
    app.apply_filter();
    assert_eq!(shown(&app), vec!["sub"]);
    assert_eq!(app.navigated("/base/sub".to_string(), true), Effect::Refresh);
    assert_eq!(app.search_query, "");
    app.refresh(scan(vec![child("/base/sub", "inner.txt", false)]));
    assert_eq!(shown(&app), vec![".", "..", "inner.txt"]);
}

#[test]
fn enter_on_a_file_opens_it() {
    let mut app = session();
    app.selected_index = 4;
    assert_eq!(press(&mut app, KeyCode::Enter), Effect::Open { path: "/base/a.txt".to_string() });
    assert_eq!(app.input_mode, InputMode::Normal);
}

#[test]
fn enter_on_an_empty_list_does_nothing() {
    let mut app = App::new(FileSystemManager::new(Some("/base".to_string())), Config::default());
    assert_eq!(press(&mut app, KeyCode::Enter), Effect::Nothing);
}

#[test]
fn backspace_goes_up_a_level() {
    let mut app = session();
    app.selected_index = 3;
    app.search_query = "x".to_string();
    assert_eq!(press(&mut app, KeyCode::Backspace), Effect::Refresh);
    assert_eq!(app.manager.current_path(), "/");
    assert_eq!(app.selected_index, 0);
    assert_eq!(app.search_query, "");
    assert_eq!(press(&mut app, KeyCode::Backspace), Effect::Nothing);
    assert_eq!(app.manager.current_path(), "/");
}

#[test]
fn select_toggles_the_entry_under_the_cursor() {
    let mut app = session();
    app.selected_index = 4;
    press(&mut app, KeyCode::Char(' '));
    assert_eq!(app.selected_paths, paths(&["/base/a.txt"]));
    assert!(app.is_selected("/base/a.txt"));
    assert!(!app.is_selected("/base/b.md"));
    app.selected_index = 5;
    press(&mut app, KeyCode::Char(' '));
    assert_eq!(app.selected_paths, paths(&["/base/a.txt", "/base/b.md"]));
    app.selected_index = 4;
    press(&mut app, KeyCode::Char(' '));
    assert_eq!(app.selected_paths, paths(&["/base/b.md"]));
}

#[test]
fn synthetic_entries_are_never_selected() {
    let mut app = session();
    app.selected_index = 0;
    press(&mut app, KeyCode::Char(' '));
    app.selected_index = 1;
    press(&mut app, KeyCode::Char(' '));
    assert!(app.selected_paths.is_empty());
    ctrl(&mut app, 'a');
    assert_eq!(app.selected_paths, paths(&["/base/docs", "/base/sub", "/base/a.txt", "/base/b.md"]));
    ctrl(&mut app, 'a');
    assert_eq!(app.selected_paths.len(), 4);
    ctrl(&mut app, 'd');
    assert!(app.selected_paths.is_empty());
}

#[test]
fn select_all_takes_the_filtered_list() {
    let mut app = session();
    app.search_query = "a".to_string();
    app.apply_filter();
    assert_eq!(shown(&app), vec!["a.txt"]);
    ctrl(&mut app, 'a');
    assert_eq!(app.selected_paths, paths(&["/base/a.txt"]));
}

#[test]
fn copy_takes_the_selection_or_the_entry_under_the_cursor() {
    let mut app = session();
    app.selected_index = 4;
    assert_eq!(ctrl(&mut app, 'c'), Effect::Nothing);
    assert_eq!(
        app.clipboard,
        Some(Clipboard { paths: paths(&["/base/a.txt"]), mode: ClipboardMode::Copy })
    );
    ctrl(&mut app, 'a');
    ctrl(&mut app, 'x');
    assert_eq!(
        app.clipboard,
        Some(Clipboard {
            paths: paths(&["/base/docs", "/base/sub", "/base/a.txt", "/base/b.md"]),
            mode: ClipboardMode::Cut,
        })
    );
    assert!(app.selected_paths.is_empty());
}

#[test]
fn copy_of_a_synthetic_entry_takes_nothing() {
    let mut app = session();
    app.selected_index = 1;
    ctrl(&mut app, 'c');
    assert_eq!(app.clipboard, None);
}

#[test]
fn paste_after_copy_keeps_the_clipboard() {
    let mut app = session();
    app.selected_index = 4;
    ctrl(&mut app, 'c');
    app.navigated("/base/sub".to_string(), true);
    let expected = Effect::Paste {
        mode: ClipboardMode::Copy,
        transfers: vec![("/base/a.txt".to_string(), "/base/sub/a.txt".to_string())],
    };
    assert_eq!(ctrl(&mut app, 'v'), expected);
    assert_eq!(
        app.clipboard,
        Some(Clipboard { paths: paths(&["/base/a.txt"]), mode: ClipboardMode::Copy })
    );
    assert_eq!(ctrl(&mut app, 'v'), expected);
}

#[test]
fn paste_after_cut_empties_the_clipboard() {
    let mut app = session();
    ctrl(&mut app, 'a');
    ctrl(&mut app, 'x');
    app.navigated("/other".to_string(), true);
    assert_eq!(
        ctrl(&mut app, 'v'),
        Effect::Paste {
            mode: ClipboardMode::Cut,
            transfers: vec![
                ("/base/docs".to_string(), "/other/docs".to_string()),
                ("/base/sub".to_string(), "/other/sub".to_string()),
                ("/base/a.txt".to_string(), "/other/a.txt".to_string()),
                ("/base/b.md".to_string(), "/other/b.md".to_string()),
            ],
        }
    );
    assert_eq!(app.clipboard, None);
    assert_eq!(ctrl(&mut app, 'v'), Effect::Nothing);
}

#[test]
fn paste_skips_a_path_without_a_final_component() {
    let mut app = session();
    app.clipboard = Some(Clipboard { paths: paths(&["/", "/x/.."]), mode: ClipboardMode::Copy });
    assert_eq!(ctrl(&mut app, 'v'), Effect::Paste { mode: ClipboardMode::Copy, transfers: vec![] });
}

#[test]
fn navigation_drops_marks_that_are_not_on_the_clipboard() {
    let mut app = session();
    app.selected_index = 4;
    press(&mut app, KeyCode::Char(' '));
    app.navigated("/base/sub".to_string(), true);
    assert!(app.selected_paths.is_empty());
}

#[test]
fn navigation_keeps_marks_that_are_all_on_the_clipboard() {
    let mut app = session();
    app.clipboard =
        Some(Clipboard { paths: paths(&["/base/a.txt", "/base/b.md"]), mode: ClipboardMode::Cut });
    app.selected_paths = paths(&["/base/b.md"]);
    app.navigated("/base/sub".to_string(), true);
    assert_eq!(app.selected_paths, paths(&["/base/b.md"]));
    app.selected_paths = paths(&["/base/b.md", "/base/docs"]);
    app.navigated("/base".to_string(), true);
    assert!(app.selected_paths.is_empty());
}

#[test]
fn escape_drops_selection_and_query() {
    let mut app = session();
    ctrl(&mut app, 'a');
    app.search_query = "a".to_string();
    app.apply_filter();
    assert_eq!(press(&mut app, KeyCode::Esc), Effect::Nothing);
    assert!(app.selected_paths.is_empty());
    assert_eq!(app.search_query, "");
    assert_eq!(app.filtered_entries, app.all_entries);
}

#[test]
fn quit_key_is_left_to_the_caller() {
    let mut app = session();
    assert!(app.wants_quit(KeyCode::Char('q')));
    assert!(!app.wants_quit(KeyCode::Char('Q')));
    assert!(!app.wants_quit(KeyCode::Esc));
    assert_eq!(press(&mut app, KeyCode::Char('q')), Effect::Nothing);
    assert_eq!(app.input_mode, InputMode::Normal);
}

#[test]
fn edit_opens_the_description_of_the_entry() {
    let mut app = App::new(FileSystemManager::new(Some("/base".to_string())), Config::default());
    let mut noted = child("/base", "a.txt", false);
    noted.description = Some("old".to_string());
    app.refresh(scan(vec![noted, child("/base", "b.txt", false)]));
    press(&mut app, KeyCode::Char('e'));
    assert_eq!(app.input_mode, InputMode::Normal);
    app.selected_index = 2;
    press(&mut app, KeyCode::Char('e'));
    assert_eq!(app.input_mode, InputMode::Editing);
    assert_eq!(app.edit_buffer, "old");
    press(&mut app, KeyCode::Esc);
    app.selected_index = 3;
    press(&mut app, KeyCode::Char('e'));
    assert_eq!(app.edit_buffer, "");
}

#[test]
fn editing_takes_text_and_enter_breaks_the_line() {
    let mut app = session();
    app.selected_index = 4;
    press(&mut app, KeyCode::Char('e'));
    type_text(&mut app, "one");
    assert_eq!(press(&mut app, KeyCode::Enter), Effect::Nothing);
    type_text(&mut app, "twox");
    press(&mut app, KeyCode::Backspace);
    assert_eq!(app.edit_buffer, "one\ntwo");
    assert_eq!(app.input_mode, InputMode::Editing);
    assert_eq!(press(&mut app, KeyCode::F(3)), Effect::Nothing);
    assert_eq!(app.input_mode, InputMode::Editing);
    assert_eq!(press(&mut app, KeyCode::Esc), Effect::Nothing);
    assert_eq!(app.input_mode, InputMode::Normal);
}

#[test]
fn end_to_end_description_is_saved_and_listed() {
    let mut app = App::new(FileSystemManager::new(Some("/base".to_string())), Config::default());
    app.refresh(scan(vec![child("/base", "a.txt", false)]));
    press(&mut app, KeyCode::Down);
    press(&mut app, KeyCode::Down);
    press(&mut app, KeyCode::Char('e'));
    type_text(&mut app, "My notes");
    let effect = press(&mut app, KeyCode::F(2));
    assert_eq!(
        effect,
        Effect::SetDescription { path: "/base/a.txt".to_string(), text: "My notes".to_string() }
    );
    assert_eq!(app.input_mode, InputMode::Normal);
    let stored = match effect {
        Effect::SetDescription { text, .. } => description_to_attribute(&text),
        _ => unreachable!(),
    };
    let mut reread = child("/base", "a.txt", false);
    reread.description = description_from_attribute(Some(stored));
    app.refresh(scan(vec![reread]));
    assert_eq!(app.filtered_entries[2].name, "a.txt");
    assert_eq!(app.filtered_entries[2].description, Some("My notes".to_string()));
}

#[test]
fn search_narrows_with_every_key() {
    let mut app = session();
    assert_eq!(press(&mut app, KeyCode::F(3)), Effect::Nothing);
    assert_eq!(app.input_mode, InputMode::Search);
    press(&mut app, KeyCode::Char('D'));
    assert_eq!(shown(&app), vec!["docs", "b.md"]);
    press(&mut app, KeyCode::Char('o'));
    assert_eq!(shown(&app), vec!["docs"]);
    press(&mut app, KeyCode::Backspace);
    assert_eq!(shown(&app), vec!["docs", "b.md"]);
    assert_eq!(press(&mut app, KeyCode::Esc), Effect::Nothing);
    assert_eq!(app.input_mode, InputMode::Normal);
    assert_eq!(shown(&app), vec!["docs", "b.md"]);
    assert_eq!(app.search_query, "D");
}

#[test]
fn search_enter_starts_a_deep_search() {
    let mut app = session();
    press(&mut app, KeyCode::F(3));
    assert_eq!(press(&mut app, KeyCode::Enter), Effect::Nothing);
    assert_eq!(app.input_mode, InputMode::Normal);
    assert!(!app.is_searching);
    press(&mut app, KeyCode::F(3));
    type_text(&mut app, "txt");
    assert_eq!(
        press(&mut app, KeyCode::Enter),
        Effect::DeepSearch { root: "/".to_string(), query: "txt".to_string() }
    );
    assert_eq!(app.input_mode, InputMode::Normal);
    assert!(app.is_searching);
}

#[test]
fn deep_search_result_replaces_the_shown_entries() {
    let mut app = session();
    app.selected_index = 3;
    app.search_query = "txt".to_string();
    app.is_searching = true;
    let mut search = DeepSearch::new("txt");
    search = search.offer(&child("/far/away", "x.TXT", false));
    search = search.offer(&child("/far", "other", false));
    search = search.offer(&child("/", "b.txt", false));
    app.trigger_deep_search(search);
    assert_eq!(shown(&app), vec!["x.TXT", "b.txt"]);
    assert_eq!(app.filtered_entries[0].path, "/far/away/x.TXT");
    assert_eq!(app.selected_index, 0);
    assert!(!app.is_searching);
    assert_eq!(app.all_entries.len(), 6);
}

#[test]
fn new_folder_prompt_creates_under_the_current_directory() {
    let mut app = session();
    app.prompt_buffer = "stale".to_string();
    assert_eq!(ctrl(&mut app, 'n'), Effect::Nothing);
    assert_eq!(app.input_mode, InputMode::Prompt(PromptType::NewFolder));
    assert_eq!(app.prompt_buffer, "");
    type_text(&mut app, "newx");
    press(&mut app, KeyCode::Backspace);
    assert_eq!(app.prompt_buffer, "new");
    assert_eq!(press(&mut app, KeyCode::Enter), Effect::CreateDir { path: "/base/new".to_string() });
    assert_eq!(app.input_mode, InputMode::Normal);
    assert_eq!(app.prompt_buffer, "");
}

#[test]
fn new_folder_prompt_can_be_cancelled() {
    let mut app = session();
    ctrl(&mut app, 'n');
    type_text(&mut app, "new");
    assert_eq!(press(&mut app, KeyCode::Esc), Effect::Nothing);
    assert_eq!(app.input_mode, InputMode::Normal);
    assert_eq!(app.prompt_buffer, "");
}

#[test]
fn failure_is_kept_as_error_message() {
    let mut app = session();
    app.report_error("Permission denied".to_string());
    assert_eq!(app.error_message, Some("Permission denied".to_string()));
}

#[test]
fn delete_needs_confirmation() {
    let mut app = session();
    app.selected_index = 4;
    let shift = KeyModifiers { control: false, alt: false, shift: true };
    assert_eq!(app.on_key(KeyCode::Delete, shift), Effect::Nothing);
    assert_eq!(app.input_mode, InputMode::Prompt(PromptType::DeleteConfirmation));
    assert!(!app.confirm_delete);
    assert_eq!(press(&mut app, KeyCode::Enter), Effect::Refresh);
    assert_eq!(app.input_mode, InputMode::Normal);
}

#[test]
fn delete_confirmation_is_a_toggle() {
    let mut app = session();
    app.selected_index = 4;
    app.on_key(KeyCode::Delete, KeyModifiers { control: false, alt: false, shift: true });
    press(&mut app, KeyCode::Left);
    assert!(app.confirm_delete);
    press(&mut app, KeyCode::Right);
    assert!(!app.confirm_delete);
    press(&mut app, KeyCode::Tab);
    assert!(app.confirm_delete);
    press(&mut app, KeyCode::Char('y'));
    assert!(app.confirm_delete);
    assert_eq!(app.prompt_buffer, "");
    assert_eq!(press(&mut app, KeyCode::Enter), Effect::Delete { paths: paths(&["/base/a.txt"]) });
    assert_eq!(app.input_mode, InputMode::Normal);
    assert!(!app.confirm_delete);
}

#[test]
fn delete_takes_the_selection() {
    let mut app = session();
    ctrl(&mut app, 'a');
    app.on_key(KeyCode::Delete, KeyModifiers { control: false, alt: false, shift: true });
    press(&mut app, KeyCode::Tab);
    assert_eq!(
        press(&mut app, KeyCode::Enter),
        Effect::Delete { paths: paths(&["/base/docs", "/base/sub", "/base/a.txt", "/base/b.md"]) }
    );
    assert!(app.selected_paths.is_empty());
}

#[test]
fn delete_can_be_cancelled_with_escape() {
    let mut app = session();
    app.selected_index = 4;
    app.on_key(KeyCode::Delete, KeyModifiers { control: false, alt: false, shift: true });
    press(&mut app, KeyCode::Tab);
    assert_eq!(press(&mut app, KeyCode::Esc), Effect::Nothing);
    assert_eq!(app.input_mode, InputMode::Normal);
}

#[test]
fn help_is_closed_by_its_keys_only() {
    let mut app = session();
    press(&mut app, KeyCode::F(1));
    assert_eq!(app.input_mode, InputMode::Help);
    press(&mut app, KeyCode::Down);
    press(&mut app, KeyCode::Char('q'));
    assert_eq!(app.input_mode, InputMode::Help);
    assert_eq!(app.selected_index, 0);
    press(&mut app, KeyCode::Esc);
    assert_eq!(app.input_mode, InputMode::Normal);
    press(&mut app, KeyCode::F(1));
    press(&mut app, KeyCode::F(1));
    assert_eq!(app.input_mode, InputMode::Normal);
}

#[test]
fn config_cursor_runs_over_the_actions() {
    let mut app = session();
    app.config_index = 9;
    press(&mut app, KeyCode::Char('s'));
    assert_eq!(app.input_mode, InputMode::Config);
    assert_eq!(app.config_index, 0);
    press(&mut app, KeyCode::Up);
    assert_eq!(app.config_index, 0);
    press(&mut app, KeyCode::Down);
    press(&mut app, KeyCode::Char('j'));
    assert_eq!(app.config_index, 2);
    press(&mut app, KeyCode::Char('k'));
    assert_eq!(app.config_index, 1);
    for _ in 0..40 {
        press(&mut app, KeyCode::Down);
    }
    assert_eq!(app.config_index, 22);
    press(&mut app, KeyCode::Esc);
    assert_eq!(app.input_mode, InputMode::Normal);
}

#[test]
fn remapping_binds_the_next_key() {
    let mut app = session();
    press(&mut app, KeyCode::Char('s'));
    for _ in 0..13 {
        press(&mut app, KeyCode::Down);
    }
    assert_eq!(press(&mut app, KeyCode::Enter), Effect::Nothing);
    assert_eq!(app.input_mode, InputMode::Remapping(Action::Select));
    assert_eq!(press(&mut app, KeyCode::Tab), Effect::Nothing);
    assert_eq!(app.input_mode, InputMode::Remapping(Action::Select));
    assert_eq!(press(&mut app, KeyCode::Char('M')), Effect::SaveConfig);
    assert_eq!(app.input_mode, InputMode::Config);
    assert_eq!(app.config.keybindings.select, "m");
    assert_eq!(app.error_message, None);
}

#[test]
fn remapping_keeps_waiting_after_a_conflict() {
    let mut app = session();
    press(&mut app, KeyCode::Char('s'));
    press(&mut app, KeyCode::Enter);
    assert_eq!(app.input_mode, InputMode::Remapping(Action::Up));
    assert_eq!(press(&mut app, KeyCode::Char('q')), Effect::Nothing);
    assert_eq!(app.input_mode, InputMode::Remapping(Action::Up));
    assert_eq!(app.error_message, Some("Key already assigned to another action".to_string()));
    assert_eq!(app.config.keybindings.up, "k");
    assert_eq!(press(&mut app, KeyCode::F(9)), Effect::SaveConfig);
    assert_eq!(app.config.keybindings.up, "f9");
    assert_eq!(app.error_message, None);
}

#[test]
fn remapping_is_cancelled_by_escape() {
    let mut app = session();
    press(&mut app, KeyCode::Char('s'));
    press(&mut app, KeyCode::Enter);
    press(&mut app, KeyCode::Char('q'));
    assert_eq!(press(&mut app, KeyCode::Esc), Effect::Nothing);
    assert_eq!(app.input_mode, InputMode::Config);
    assert_eq!(app.error_message, None);
    assert_eq!(app.config.keybindings.up, "k");
}

#[test]
fn rebound_key_is_used_in_normal_mode() {
    let mut app = session();
    assert_eq!(app.config.set_key("down", "n".to_string()), Ok(()));
    press(&mut app, KeyCode::Char('n'));
    assert_eq!(app.selected_index, 1);
    press(&mut app, KeyCode::Char('j'));
    assert_eq!(app.selected_index, 1);
    press(&mut app, KeyCode::Down);
    assert_eq!(app.selected_index, 2);
}

#[test]
fn earlier_action_wins_a_shared_key() {
    let mut app = session();
    app.config.keybindings.help = "k".to_string();
    press(&mut app, KeyCode::Down);
    press(&mut app, KeyCode::Char('k'));
    assert_eq!(app.selected_index, 0);
    assert_eq!(app.input_mode, InputMode::Normal);
}

#[test]
fn cursor_stays_on_the_list_through_any_keys() {
    let keys = [
        KeyCode::Down, KeyCode::PageDown, KeyCode::End, KeyCode::F(3), KeyCode::Char('z'),
        KeyCode::Esc, KeyCode::Down, KeyCode::Esc, KeyCode::PageUp, KeyCode::Home,
        KeyCode::Char(' '), KeyCode::Up, KeyCode::Backspace,
    ];
    let mut app = session();
    app.list_height = 3;
    for key in keys {
        press(&mut app, key);
        let len = app.filtered_entries.len();
        assert!(app.selected_index < len || (len == 0 && app.selected_index == 0));
    }
}

#[test]
fn current_entry_is_the_one_under_the_cursor() {
    let mut app = session();
    app.selected_index = 2;
    let current: Option<&FileEntry> = app.current_entry();
    assert_eq!(current.map(|e| e.name.as_str()), Some("docs"));
    app.selected_index = 6;
    assert!(app.current_entry().is_none());
}
