use xplore::config::{key_event_to_string, Action, Config, ACTION_COUNT};
use xplore::keys::{KeyCode, KeyModifiers};

fn held(control: bool, alt: bool, shift: bool) -> KeyModifiers {
    KeyModifiers { control, alt, shift }
}

#[test]
fn default_bindings_are_the_documented_ones() {
    let config = Config::default();
    assert_eq!(config.keybindings.quit, "q");
    assert_eq!(config.keybindings.edit, "e");
    assert_eq!(config.keybindings.up, "k");
    assert_eq!(config.keybindings.down, "j");
    assert_eq!(config.keybindings.enter, "enter");
    assert_eq!(config.keybindings.backspace, "backspace");
    assert_eq!(config.keybindings.settings, "s");
    assert_eq!(config.keybindings.search, "f3");
    assert_eq!(config.keybindings.select, "space");
    assert_eq!(config.keybindings.copy, "ctrl+c");
    assert_eq!(config.keybindings.cut, "ctrl+x");
    assert_eq!(config.keybindings.paste, "ctrl+v");
    assert_eq!(config.keybindings.new_folder, "ctrl+n");
    assert_eq!(config.keybindings.delete, "shift+delete");
    assert_eq!(config.keybindings.help, "f1");
    assert_eq!(config.keybindings.home, "home");
    assert_eq!(config.keybindings.end, "end");
    assert_eq!(config.keybindings.ctrl_home, "ctrl+home");
    assert_eq!(config.keybindings.ctrl_end, "ctrl+end");
    assert_eq!(config.keybindings.page_up, "pageup");
    assert_eq!(config.keybindings.page_down, "pagedown");
    assert_eq!(config.keybindings.select_all, "ctrl+a");
    assert_eq!(config.keybindings.deselect_all, "ctrl+d");
}

#[test]
fn bindings_are_stored_under_the_configuration_directory() {
    assert_eq!(Config::get_path(Some("/home/me/.config".to_string())), "/home/me/.config/xplore/config.toml");
    assert_eq!(Config::get_path(None), "./xplore/config.toml");
}

#[test]
fn is_key_taken_ignores_the_excluded_action() {
    let config = Config::default();
    assert!(config.is_key_taken("q", "up"));
    assert!(!config.is_key_taken("q", "quit"));
    assert!(!config.is_key_taken("f12", "up"));
    assert!(config.is_key_taken("q", "no such action"));
}

#[test]
fn set_key_binds_a_free_key() {
    let mut config = Config::default();
    assert_eq!(config.set_key("up", "w".to_string()), Ok(()));
    assert_eq!(config.keybindings.up, "w");
    assert_eq!(config.keybindings.down, "j");
}

#[test]
fn set_key_accepts_the_key_the_action_already_has() {
    let mut config = Config::default();
    assert_eq!(config.set_key("quit", "q".to_string()), Ok(()));
    assert_eq!(config.keybindings.quit, "q");
}

#[test]
fn set_key_reaches_every_action() {
    for i in 0..ACTION_COUNT {
        let action = Config::menu_action(i).unwrap();
        let mut config = Config::default();
        let key = format!("alt+{}", i);
        assert_eq!(config.set_key(action.name(), key.clone()), Ok(()));
        assert_eq!(config.keybindings.key(action), &key);
        let untouched = Config::default();
        for j in 0..ACTION_COUNT {
            if j != i {
                let other = Config::menu_action(j).unwrap();
                assert_eq!(config.keybindings.key(other), untouched.keybindings.key(other));
            }
        }
    }
}

#[test]
fn second_binding_of_a_key_is_rejected() {
    let mut config = Config::default();
    assert_eq!(config.set_key("up", "f9".to_string()), Ok(()));
    assert_eq!(
        config.set_key("down", "f9".to_string()),
        Err("Key already assigned to another action")
    );
    assert_eq!(config.keybindings.up, "f9");
    assert_eq!(config.keybindings.down, "j");
}

#[test]
fn released_key_can_be_bound_again() {
    let mut config = Config::default();
    assert_eq!(config.set_key("up", "f9".to_string()), Ok(()));
    assert_eq!(config.set_key("up", "f10".to_string()), Ok(()));
    assert_eq!(config.set_key("down", "f9".to_string()), Ok(()));
    assert_eq!(config.keybindings.up, "f10");
    assert_eq!(config.keybindings.down, "f9");
}

#[test]
fn set_key_rejects_an_unknown_action() {
    let mut config = Config::default();
    assert_eq!(config.set_key("fly", "f9".to_string()), Err("Invalid action"));
    assert_eq!(config.get_actions(), Config::default().get_actions());
}

#[test]
fn taken_key_is_reported_before_an_unknown_action() {
    let mut config = Config::default();
    assert_eq!(
        config.set_key("fly", "q".to_string()),
        Err("Key already assigned to another action")
    );
}

#[test]
fn get_actions_lists_all_actions_in_order() {
    let actions = Config::default().get_actions();
    let names: Vec<&str> = actions.iter().map(|a| a.0).collect();
    assert_eq!(
        names,
        vec![
            "up", "down", "enter", "backspace", "help", "quit", "settings", "home", "end",
            "ctrl_home", "ctrl_end", "page_up", "page_down", "select_all", "deselect_all",
            "select", "copy", "cut", "paste", "new_folder", "delete", "edit", "search",
        ]
    );
    assert_eq!(actions[0].1, "k");
    assert_eq!(actions[4].1, "f1");
    assert_eq!(actions[20].1, "shift+delete");
    assert_eq!(actions[22].1, "f3");
}

#[test]
fn get_categorized_actions_groups_the_actions() {
    let categories = Config::default().get_categorized_actions();
    let titles: Vec<&str> = categories.iter().map(|c| c.0).collect();
    assert_eq!(titles, vec!["Navigation", "Advanced Navigation", "File Operations", "Search"]);
    let names: Vec<Vec<&str>> =
        categories.iter().map(|c| c.1.iter().map(|a| a.0).collect()).collect();
    assert_eq!(names[0], vec!["up", "down", "enter", "backspace", "help", "quit", "settings"]);
    assert_eq!(names[1], vec!["home", "end", "ctrl_home", "ctrl_end", "page_up", "page_down"]);
    assert_eq!(
        names[2],
        vec![
            "select", "select_all", "deselect_all", "copy", "cut", "paste", "new_folder",
            "delete", "edit",
        ]
    );
    assert_eq!(names[3], vec!["search"]);
    assert_eq!(categories[2].1[0].1, "space");
    assert_eq!(categories[3].1[0].1, "f3");
}

#[test]
fn menu_action_follows_the_categorized_list() {
    let mut flat = Vec::new();
    for category in Config::default().get_categorized_actions() {
        for entry in category.1 {
            flat.push(entry.0);
        }
    }
    assert_eq!(flat.len(), ACTION_COUNT);
    for (i, name) in flat.iter().enumerate() {
        assert_eq!(Config::menu_action(i).map(|a| a.name()), Some(*name));
    }
    assert_eq!(Config::menu_action(13), Some(Action::Select));
    assert_eq!(Config::menu_action(ACTION_COUNT), None);
}

#[test]
fn action_names_round_trip() {
    for i in 0..ACTION_COUNT {
        let action = Config::menu_action(i).unwrap();
        assert_eq!(Action::from_name(action.name()), Some(action));
    }
    assert_eq!(Action::from_name("Up"), None);
    assert_eq!(Action::from_name(""), None);
}

#[test]
fn get_hint_shows_key_and_label() {
    let config = Config::default();
    assert_eq!(config.get_hint("quit"), "[q] Quit");
    assert_eq!(config.get_hint("enter"), "[enter] Open");
    assert_eq!(config.get_hint("backspace"), "[backspace] Parent");
    assert_eq!(config.get_hint("home"), "[home] Visible Top");
    assert_eq!(config.get_hint("end"), "[end] Visible Bottom");
    assert_eq!(config.get_hint("ctrl_home"), "[ctrl+home] First Item");
    assert_eq!(config.get_hint("ctrl_end"), "[ctrl+end] Last Item");
    assert_eq!(config.get_hint("new_folder"), "[ctrl+n] New Folder");
    assert_eq!(config.get_hint("deselect_all"), "[ctrl+d] Deselect All");
    assert_eq!(config.get_hint("search"), "[f3] Search");
    assert_eq!(config.get_hint("fly"), "");
}

#[test]
fn get_hint_follows_a_rebinding() {
    let mut config = Config::default();
    assert_eq!(config.set_key("help", "f9".to_string()), Ok(()));
    assert_eq!(config.get_hint("help"), "[f9] Help");
}

#[test]
fn key_event_to_string_names_plain_keys() {
    let none = KeyModifiers::none();
    assert_eq!(key_event_to_string(KeyCode::Enter, none), "enter");
    assert_eq!(key_event_to_string(KeyCode::Backspace, none), "backspace");
    assert_eq!(key_event_to_string(KeyCode::Up, none), "up");
    assert_eq!(key_event_to_string(KeyCode::Down, none), "down");
    assert_eq!(key_event_to_string(KeyCode::Left, none), "left");
    assert_eq!(key_event_to_string(KeyCode::Right, none), "right");
    assert_eq!(key_event_to_string(KeyCode::Esc, none), "esc");
    assert_eq!(key_event_to_string(KeyCode::Delete, none), "delete");
    assert_eq!(key_event_to_string(KeyCode::Home, none), "home");
    assert_eq!(key_event_to_string(KeyCode::End, none), "end");
    assert_eq!(key_event_to_string(KeyCode::PageUp, none), "pageup");
    assert_eq!(key_event_to_string(KeyCode::PageDown, none), "pagedown");
    assert_eq!(key_event_to_string(KeyCode::Char('x'), none), "x");
    assert_eq!(key_event_to_string(KeyCode::Char(' '), none), "space");
}

#[test]
fn key_event_to_string_numbers_function_keys() {
    let none = KeyModifiers::none();
    assert_eq!(key_event_to_string(KeyCode::F(1), none), "f1");
    assert_eq!(key_event_to_string(KeyCode::F(3), none), "f3");
    assert_eq!(key_event_to_string(KeyCode::F(12), none), "f12");
    assert_eq!(key_event_to_string(KeyCode::F(0), none), "f0");
    assert_eq!(key_event_to_string(KeyCode::F(255), none), "f255");
}

#[test]
fn key_event_to_string_folds_the_case_of_a_character() {
    assert_eq!(key_event_to_string(KeyCode::Char('Q'), KeyModifiers::none()), "q");
    assert_eq!(key_event_to_string(KeyCode::Char('A'), held(false, false, true)), "shift+a");
    assert_eq!(key_event_to_string(KeyCode::Char('\u{c9}'), KeyModifiers::none()), "\u{e9}");
}

#[test]
fn key_event_to_string_puts_modifiers_in_fixed_order() {
    assert_eq!(key_event_to_string(KeyCode::Char('c'), held(true, false, false)), "ctrl+c");
    assert_eq!(key_event_to_string(KeyCode::Delete, held(false, false, true)), "shift+delete");
    assert_eq!(key_event_to_string(KeyCode::Home, held(true, false, false)), "ctrl+home");
    assert_eq!(key_event_to_string(KeyCode::Char('x'), held(false, true, false)), "alt+x");
    assert_eq!(key_event_to_string(KeyCode::Enter, held(true, true, true)), "ctrl+alt+shift+enter");
    assert_eq!(key_event_to_string(KeyCode::Char(' '), held(true, false, true)), "ctrl+shift+space");
}

#[test]
fn key_event_to_string_is_empty_for_keys_without_a_name() {
    assert_eq!(key_event_to_string(KeyCode::Other, KeyModifiers::none()), "");
    assert_eq!(key_event_to_string(KeyCode::Tab, held(true, true, true)), "");
    assert_eq!(key_event_to_string(KeyCode::BackTab, KeyModifiers::none()), "");
    assert_eq!(key_event_to_string(KeyCode::Insert, held(true, false, false)), "");
}
