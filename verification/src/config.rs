//! Key bindings: the bindable actions, the key bound to each, and the
//! canonical description of a key event.

use crate::keys::{KeyCode, KeyModifiers};
use crate::paths::{join_paths, path_join};
use crate::text::{char_to_lowercase, decimal, lowercase_char, push_decimal, str_eq};
use vstd::prelude::*;
use vstd::string::*;

verus! {

/// Number of bindable actions.
pub const ACTION_COUNT: usize = 23;

/// What a key can be bound to.
#[derive(Clone, Copy, Debug, PartialEq, Eq, Structural)]
pub enum Action {
    Up,
    Down,
    Enter,
    Backspace,
    Help,
    Quit,
    Settings,
    Home,
    End,
    CtrlHome,
    CtrlEnd,
    PageUp,
    PageDown,
    SelectAll,
    DeselectAll,
    Select,
    Copy,
    Cut,
    Paste,
    NewFolder,
    Delete,
    Edit,
    Search,
}

/// The action at position `i` of the flat action list.
pub open spec fn action_at(i: int) -> Action {
    if i == 0 {
        Action::Up
    } else if i == 1 {
        Action::Down
    } else if i == 2 {
        Action::Enter
    } else if i == 3 {
        Action::Backspace
    } else if i == 4 {
        Action::Help
    } else if i == 5 {
        Action::Quit
    } else if i == 6 {
        Action::Settings
    } else if i == 7 {
        Action::Home
    } else if i == 8 {
        Action::End
    } else if i == 9 {
        Action::CtrlHome
    } else if i == 10 {
        Action::CtrlEnd
    } else if i == 11 {
        Action::PageUp
    } else if i == 12 {
        Action::PageDown
    } else if i == 13 {
        Action::SelectAll
    } else if i == 14 {
        Action::DeselectAll
    } else if i == 15 {
        Action::Select
    } else if i == 16 {
        Action::Copy
    } else if i == 17 {
        Action::Cut
    } else if i == 18 {
        Action::Paste
    } else if i == 19 {
        Action::NewFolder
    } else if i == 20 {
        Action::Delete
    } else if i == 21 {
        Action::Edit
    } else {
        Action::Search
    }
}

impl Action {
    /// Position of the action in the flat action list.
    pub open spec fn ordinal(self) -> int {
        match self {
            Action::Up => 0,
            Action::Down => 1,
            Action::Enter => 2,
            Action::Backspace => 3,
            Action::Help => 4,
            Action::Quit => 5,
            Action::Settings => 6,
            Action::Home => 7,
            Action::End => 8,
            Action::CtrlHome => 9,
            Action::CtrlEnd => 10,
            Action::PageUp => 11,
            Action::PageDown => 12,
            Action::SelectAll => 13,
            Action::DeselectAll => 14,
            Action::Select => 15,
            Action::Copy => 16,
            Action::Cut => 17,
            Action::Paste => 18,
            Action::NewFolder => 19,
            Action::Delete => 20,
            Action::Edit => 21,
            Action::Search => 22,
        }
    }

    /// The name under which the action is stored and remapped.
    pub open spec fn spec_name(self) -> Seq<char> {
        match self {
            Action::Up => "up"@,
            Action::Down => "down"@,
            Action::Enter => "enter"@,
            Action::Backspace => "backspace"@,
            Action::Help => "help"@,
            Action::Quit => "quit"@,
            Action::Settings => "settings"@,
            Action::Home => "home"@,
            Action::End => "end"@,
            Action::CtrlHome => "ctrl_home"@,
            Action::CtrlEnd => "ctrl_end"@,
            Action::PageUp => "page_up"@,
            Action::PageDown => "page_down"@,
            Action::SelectAll => "select_all"@,
            Action::DeselectAll => "deselect_all"@,
            Action::Select => "select"@,
            Action::Copy => "copy"@,
            Action::Cut => "cut"@,
            Action::Paste => "paste"@,
            Action::NewFolder => "new_folder"@,
            Action::Delete => "delete"@,
            Action::Edit => "edit"@,
            Action::Search => "search"@,
        }
    }

    /// The text that follows the key in a hint, starting at the closing
    /// bracket.
    pub open spec fn spec_hint_suffix(self) -> Seq<char> {
        match self {
            Action::Up => "] Up"@,
            Action::Down => "] Down"@,
            Action::Enter => "] Open"@,
            Action::Backspace => "] Parent"@,
            Action::Help => "] Help"@,
            Action::Quit => "] Quit"@,
            Action::Settings => "] Settings"@,
            Action::Home => "] Visible Top"@,
            Action::End => "] Visible Bottom"@,
            Action::CtrlHome => "] First Item"@,
            Action::CtrlEnd => "] Last Item"@,
            Action::PageUp => "] Page Up"@,
            Action::PageDown => "] Page Down"@,
            Action::SelectAll => "] Select All"@,
            Action::DeselectAll => "] Deselect All"@,
            Action::Select => "] Select"@,
            Action::Copy => "] Copy"@,
            Action::Cut => "] Cut"@,
            Action::Paste => "] Paste"@,
            Action::NewFolder => "] New Folder"@,
            Action::Delete => "] Delete"@,
            Action::Edit => "] Edit"@,
            Action::Search => "] Search"@,
        }
    }

    /// The action at position `i` of the flat action list.
    pub(crate) fn from_index(i: usize) -> (a: Action)
        requires
            i < ACTION_COUNT,
        ensures
            a == action_at(i as int),
            a.ordinal() == i,
    {
        if i == 0 {
            Action::Up
        } else if i == 1 {
            Action::Down
        } else if i == 2 {
            Action::Enter
        } else if i == 3 {
            Action::Backspace
        } else if i == 4 {
            Action::Help
        } else if i == 5 {
            Action::Quit
        } else if i == 6 {
            Action::Settings
        } else if i == 7 {
            Action::Home
        } else if i == 8 {
            Action::End
        } else if i == 9 {
            Action::CtrlHome
        } else if i == 10 {
            Action::CtrlEnd
        } else if i == 11 {
            Action::PageUp
        } else if i == 12 {
            Action::PageDown
        } else if i == 13 {
            Action::SelectAll
        } else if i == 14 {
            Action::DeselectAll
        } else if i == 15 {
            Action::Select
        } else if i == 16 {
            Action::Copy
        } else if i == 17 {
            Action::Cut
        } else if i == 18 {
            Action::Paste
        } else if i == 19 {
            Action::NewFolder
        } else if i == 20 {
            Action::Delete
        } else if i == 21 {
            Action::Edit
        } else {
            Action::Search
        }
    }

    /// The name under which the action is stored and remapped.
    pub fn name(self) -> (r: &'static str)
        ensures
            r@ == self.spec_name(),
    {
        match self {
            Action::Up => "up",
            Action::Down => "down",
            Action::Enter => "enter",
            Action::Backspace => "backspace",
            Action::Help => "help",
            Action::Quit => "quit",
            Action::Settings => "settings",
            Action::Home => "home",
            Action::End => "end",
            Action::CtrlHome => "ctrl_home",
            Action::CtrlEnd => "ctrl_end",
            Action::PageUp => "page_up",
            Action::PageDown => "page_down",
            Action::SelectAll => "select_all",
            Action::DeselectAll => "deselect_all",
            Action::Select => "select",
            Action::Copy => "copy",
            Action::Cut => "cut",
            Action::Paste => "paste",
            Action::NewFolder => "new_folder",
            Action::Delete => "delete",
            Action::Edit => "edit",
            Action::Search => "search",
        }
    }

    fn hint_suffix(self) -> (r: &'static str)
        ensures
            r@ == self.spec_hint_suffix(),
    {
        match self {
            Action::Up => "] Up",
            Action::Down => "] Down",
            Action::Enter => "] Open",
            Action::Backspace => "] Parent",
            Action::Help => "] Help",
            Action::Quit => "] Quit",
            Action::Settings => "] Settings",
            Action::Home => "] Visible Top",
            Action::End => "] Visible Bottom",
            Action::CtrlHome => "] First Item",
            Action::CtrlEnd => "] Last Item",
            Action::PageUp => "] Page Up",
            Action::PageDown => "] Page Down",
            Action::SelectAll => "] Select All",
            Action::DeselectAll => "] Deselect All",
            Action::Select => "] Select",
            Action::Copy => "] Copy",
            Action::Cut => "] Cut",
            Action::Paste => "] Paste",
            Action::NewFolder => "] New Folder",
            Action::Delete => "] Delete",
            Action::Edit => "] Edit",
            Action::Search => "] Search",
        }
    }

    /// The action with the given name, if there is one.
    pub fn from_name(name: &str) -> (r: Option<Action>)
        ensures
            r == action_named(name@),
    {
        let mut i: usize = 0;
        while i < ACTION_COUNT
            invariant
                i <= ACTION_COUNT,
                forall|j: int| 0 <= j < i ==> #[trigger] action_at(j).spec_name() != name@,
            decreases ACTION_COUNT - i,
        {
            let a = Action::from_index(i);
            if str_eq(a.name(), name) {
                proof {
                    lemma_names_distinct();
                    assert(action_at(a.ordinal()) == a);
                }
                return Some(a);
            }
            i += 1;
        }
        proof {
            assert forall|a: Action| a.spec_name() != name@ by {
                assert(action_at(a.ordinal()) == a);
            }
        }
        None
    }
}

/// The key bound to each action.
#[derive(Debug)]
pub struct Keybindings {
    pub quit: String,
    pub edit: String,
    pub up: String,
    pub down: String,
    pub enter: String,
    pub backspace: String,
    pub settings: String,
    pub search: String,
    pub select: String,
    pub copy: String,
    pub cut: String,
    pub paste: String,
    pub new_folder: String,
    pub delete: String,
    pub help: String,
    pub home: String,
    pub end: String,
    pub ctrl_home: String,
    pub ctrl_end: String,
    pub page_up: String,
    pub page_down: String,
    pub select_all: String,
    pub deselect_all: String,
}

impl View for Keybindings {
    type V = Seq<Seq<char>>;

    /// The bound keys, in the order of the flat action list.
    open spec fn view(&self) -> Seq<Seq<char>> {
        seq![
            self.up@,
            self.down@,
            self.enter@,
            self.backspace@,
            self.help@,
            self.quit@,
            self.settings@,
            self.home@,
            self.end@,
            self.ctrl_home@,
            self.ctrl_end@,
            self.page_up@,
            self.page_down@,
            self.select_all@,
            self.deselect_all@,
            self.select@,
            self.copy@,
            self.cut@,
            self.paste@,
            self.new_folder@,
            self.delete@,
            self.edit@,
            self.search@,
        ]
    }
}

impl Keybindings {
    /// The key bound to `action`.
    pub fn key(&self, action: Action) -> (r: &String)
        ensures
            r@ == self@[action.ordinal()],
    {
        match action {
            Action::Up => &self.up,
            Action::Down => &self.down,
            Action::Enter => &self.enter,
            Action::Backspace => &self.backspace,
            Action::Help => &self.help,
            Action::Quit => &self.quit,
            Action::Settings => &self.settings,
            Action::Home => &self.home,
            Action::End => &self.end,
            Action::CtrlHome => &self.ctrl_home,
            Action::CtrlEnd => &self.ctrl_end,
            Action::PageUp => &self.page_up,
            Action::PageDown => &self.page_down,
            Action::SelectAll => &self.select_all,
            Action::DeselectAll => &self.deselect_all,
            Action::Select => &self.select,
            Action::Copy => &self.copy,
            Action::Cut => &self.cut,
            Action::Paste => &self.paste,
            Action::NewFolder => &self.new_folder,
            Action::Delete => &self.delete,
            Action::Edit => &self.edit,
            Action::Search => &self.search,
        }
    }

    /// Binds `key` to `action`, whatever else is bound to it.
    fn assign(&mut self, action: Action, key: String)
        ensures
            final(self)@ == old(self)@.update(action.ordinal(), key@),
    {
        match action {
            Action::Up => self.up = key,
            Action::Down => self.down = key,
            Action::Enter => self.enter = key,
            Action::Backspace => self.backspace = key,
            Action::Help => self.help = key,
            Action::Quit => self.quit = key,
            Action::Settings => self.settings = key,
            Action::Home => self.home = key,
            Action::End => self.end = key,
            Action::CtrlHome => self.ctrl_home = key,
            Action::CtrlEnd => self.ctrl_end = key,
            Action::PageUp => self.page_up = key,
            Action::PageDown => self.page_down = key,
            Action::SelectAll => self.select_all = key,
            Action::DeselectAll => self.deselect_all = key,
            Action::Select => self.select = key,
            Action::Copy => self.copy = key,
            Action::Cut => self.cut = key,
            Action::Paste => self.paste = key,
            Action::NewFolder => self.new_folder = key,
            Action::Delete => self.delete = key,
            Action::Edit => self.edit = key,
            Action::Search => self.search = key,
        }
        assert(self@ =~= old(self)@.update(action.ordinal(), key@));
    }
}

/// The bindings a fresh configuration starts with.
pub open spec fn default_bindings() -> Seq<Seq<char>> {
    seq![
        "k"@,
        "j"@,
        "enter"@,
        "backspace"@,
        "f1"@,
        "q"@,
        "s"@,
        "home"@,
        "end"@,
        "ctrl+home"@,
        "ctrl+end"@,
        "pageup"@,
        "pagedown"@,
        "ctrl+a"@,
        "ctrl+d"@,
        "space"@,
        "ctrl+c"@,
        "ctrl+x"@,
        "ctrl+v"@,
        "ctrl+n"@,
        "shift+delete"@,
        "e"@,
        "f3"@,
    ]
}

/// Position `i` of `bindings` holds `key` for an action not named `exclude`.
pub open spec fn taken_at(bindings: Seq<Seq<char>>, key: Seq<char>, exclude: Seq<char>, i: int) -> bool {
    &&& 0 <= i < ACTION_COUNT
    &&& action_at(i).spec_name() != exclude
    &&& bindings[i] == key
}

/// `key` is bound to some action other than the one named `exclude`.
pub open spec fn key_taken(bindings: Seq<Seq<char>>, key: Seq<char>, exclude: Seq<char>) -> bool {
    exists|i: int| taken_at(bindings, key, exclude, i)
}

/// The outcome of binding `key` to the action named `action`: the new
/// bindings, or the message of the refusal.
pub open spec fn rebind(bindings: Seq<Seq<char>>, action: Seq<char>, key: Seq<char>) -> Result<
    Seq<Seq<char>>,
    Seq<char>,
> {
    if key_taken(bindings, key, action) {
        Err("Key already assigned to another action"@)
    } else {
        match action_named(action) {
            Some(a) => Ok(bindings.update(a.ordinal(), key)),
            None => Err("Invalid action"@),
        }
    }
}

/// The titles of the action categories, in display order.
pub open spec fn category_title(c: int) -> Seq<char> {
    if c == 0 {
        "Navigation"@
    } else if c == 1 {
        "Advanced Navigation"@
    } else if c == 2 {
        "File Operations"@
    } else {
        "Search"@
    }
}

/// The actions of each category, in display order.
pub open spec fn category_members(c: int) -> Seq<Action> {
    if c == 0 {
        seq![
            Action::Up,
            Action::Down,
            Action::Enter,
            Action::Backspace,
            Action::Help,
            Action::Quit,
            Action::Settings,
        ]
    } else if c == 1 {
        seq![
            Action::Home,
            Action::End,
            Action::CtrlHome,
            Action::CtrlEnd,
            Action::PageUp,
            Action::PageDown,
        ]
    } else if c == 2 {
        seq![
            Action::Select,
            Action::SelectAll,
            Action::DeselectAll,
            Action::Copy,
            Action::Cut,
            Action::Paste,
            Action::NewFolder,
            Action::Delete,
            Action::Edit,
        ]
    } else {
        seq![Action::Search]
    }
}

/// All actions in the order in which the categorized list shows them.
pub open spec fn menu_order() -> Seq<Action> {
    category_members(0) + category_members(1) + category_members(2) + category_members(3)
}

/// The name and key of each of `members`, in order.
pub open spec fn listed(bindings: Seq<Seq<char>>, members: Seq<Action>) -> Seq<(Seq<char>, Seq<char>)> {
    Seq::new(members.len(), |j: int| (members[j].spec_name(), bindings[members[j].ordinal()]))
}

/// The names and keys behind a list of entries.
pub open spec fn entries_view(entries: Seq<(&'static str, String)>) -> Seq<(Seq<char>, Seq<char>)> {
    Seq::new(entries.len(), |j: int| (entries[j].0@, entries[j].1@))
}

/// The hint shown for the action named `action`: the key in brackets and a
/// label; empty for an unknown name.
pub open spec fn hint(bindings: Seq<Seq<char>>, action: Seq<char>) -> Seq<char> {
    match action_named(action) {
        Some(a) => seq!['['] + bindings[a.ordinal()] + a.spec_hint_suffix(),
        None => Seq::empty(),
    }
}

fn category_actions(c: usize) -> (r: Vec<Action>)
    requires
        c < 4,
    ensures
        r@ == category_members(c as int),
{
    let mut r: Vec<Action> = Vec::new();
    if c == 0 {
        r.push(Action::Up);
        r.push(Action::Down);
        r.push(Action::Enter);
        r.push(Action::Backspace);
        r.push(Action::Help);
        r.push(Action::Quit);
        r.push(Action::Settings);
    } else if c == 1 {
        r.push(Action::Home);
        r.push(Action::End);
        r.push(Action::CtrlHome);
        r.push(Action::CtrlEnd);
        r.push(Action::PageUp);
        r.push(Action::PageDown);
    } else if c == 2 {
        r.push(Action::Select);
        r.push(Action::SelectAll);
        r.push(Action::DeselectAll);
        r.push(Action::Copy);
        r.push(Action::Cut);
        r.push(Action::Paste);
        r.push(Action::NewFolder);
        r.push(Action::Delete);
        r.push(Action::Edit);
    } else {
        r.push(Action::Search);
    }
    assert(r@ =~= category_members(c as int));
    r
}

fn category_name(c: usize) -> (r: &'static str)
    requires
        c < 4,
    ensures
        r@ == category_title(c as int),
{
    if c == 0 {
        "Navigation"
    } else if c == 1 {
        "Advanced Navigation"
    } else if c == 2 {
        "File Operations"
    } else {
        "Search"
    }
}

/// The key bindings of the browser.
#[derive(Debug)]
pub struct Config {
    pub keybindings: Keybindings,
}

impl View for Config {
    type V = Seq<Seq<char>>;

    open spec fn view(&self) -> Seq<Seq<char>> {
        self.keybindings@
    }
}

impl Default for Config {
    fn default() -> (r: Config)
        ensures
            r@ == default_bindings(),
    {
        let r = Config {
            keybindings: Keybindings {
                quit: String::from_str("q"),
                edit: String::from_str("e"),
                up: String::from_str("k"),
                down: String::from_str("j"),
                enter: String::from_str("enter"),
                backspace: String::from_str("backspace"),
                settings: String::from_str("s"),
                search: String::from_str("f3"),
                select: String::from_str("space"),
                copy: String::from_str("ctrl+c"),
                cut: String::from_str("ctrl+x"),
                paste: String::from_str("ctrl+v"),
                new_folder: String::from_str("ctrl+n"),
                delete: String::from_str("shift+delete"),
                help: String::from_str("f1"),
                home: String::from_str("home"),
                end: String::from_str("end"),
                ctrl_home: String::from_str("ctrl+home"),
                ctrl_end: String::from_str("ctrl+end"),
                page_up: String::from_str("pageup"),
                page_down: String::from_str("pagedown"),
                select_all: String::from_str("ctrl+a"),
                deselect_all: String::from_str("ctrl+d"),
            },
        };
        assert(r@ =~= default_bindings());
        r
    }
}

impl Config {
    /// The path of the file that holds the bindings: `xplore/config.toml`
    /// under the user's configuration directory, or under `.` where there
    /// is none.
    pub fn get_path(config_dir: Option<String>) -> (r: String)
        ensures
            r@ == path_join(
                match config_dir {
                    Some(dir) => dir@,
                    None => "."@,
                },
                "xplore/config.toml"@,
            ),
    {
        match config_dir {
            Some(dir) => join_paths(dir.as_str(), "xplore/config.toml"),
            None => join_paths(".", "xplore/config.toml"),
        }
    }

    /// True when `key` is bound to an action other than `exclude_action`.
    pub fn is_key_taken(&self, key: &str, exclude_action: &str) -> (r: bool)
        ensures
            r == key_taken(self@, key@, exclude_action@),
    {
        let mut i: usize = 0;
        while i < ACTION_COUNT
            invariant
                i <= ACTION_COUNT,
                forall|j: int| 0 <= j < i ==> !taken_at(self@, key@, exclude_action@, j),
            decreases ACTION_COUNT - i,
        {
            let a = Action::from_index(i);
            if !str_eq(a.name(), exclude_action) && str_eq(self.keybindings.key(a).as_str(), key) {
                assert(taken_at(self@, key@, exclude_action@, i as int));
                return true;
            }
            i += 1;
        }
        false
    }

    /// Binds `key` to the action named `action`. A key that another action
    /// holds is refused, and so is an unknown action name; the bindings are
    /// then left as they were.
    pub fn set_key(&mut self, action: &str, key: String) -> (r: Result<(), &'static str>)
        ensures
            match rebind(old(self)@, action@, key@) {
                Ok(bindings) => r is Ok && final(self)@ == bindings,
                Err(message) => final(self)@ == old(self)@ && (r matches Err(m) && m@ == message),
            },
    {
        if self.is_key_taken(key.as_str(), action) {
            return Err("Key already assigned to another action");
        }
        match Action::from_name(action) {
            Some(a) => {
                self.keybindings.assign(a, key);
                Ok(())
            },
            None => Err("Invalid action"),
        }
    }

    fn entries_for(&self, members: &Vec<Action>) -> (r: Vec<(&'static str, String)>)
        ensures
            entries_view(r@) == listed(self@, members@),
    {
        let mut r: Vec<(&'static str, String)> = Vec::new();
        let mut j: usize = 0;
        while j < members.len()
            invariant
                j <= members@.len(),
                r@.len() == j,
                forall|k: int|
                    0 <= k < j ==> (#[trigger] r@[k]).0@ == members@[k].spec_name() && r@[k].1@
                        == self@[members@[k].ordinal()],
            decreases members@.len() - j,
        {
            let a = members[j];
            r.push((a.name(), self.keybindings.key(a).clone()));
            j += 1;
        }
        assert(entries_view(r@) =~= listed(self@, members@));
        r
    }

    /// Every action with its key, in the order of the flat action list.
    pub fn get_actions(&self) -> (r: Vec<(&'static str, String)>)
        ensures
            entries_view(r@) == listed(self@, Seq::new(ACTION_COUNT as nat, |i: int| action_at(i))),
    {
        let mut all: Vec<Action> = Vec::new();
        let mut i: usize = 0;
        while i < ACTION_COUNT
            invariant
                i <= ACTION_COUNT,
                all@.len() == i,
                forall|k: int| 0 <= k < i ==> all@[k] == action_at(k),
            decreases ACTION_COUNT - i,
        {
            all.push(Action::from_index(i));
            i += 1;
        }
        assert(all@ =~= Seq::new(ACTION_COUNT as nat, |i: int| action_at(i)));
        self.entries_for(&all)
    }

    /// The actions with their keys, grouped under the category titles.
    pub fn get_categorized_actions(&self) -> (r: Vec<(&'static str, Vec<(&'static str, String)>)>)
        ensures
            r@.len() == 4,
            forall|c: int|
                0 <= c < 4 ==> (#[trigger] r@[c]).0@ == category_title(c) && entries_view(r@[c].1@)
                    == listed(self@, category_members(c)),
    {
        let mut r: Vec<(&'static str, Vec<(&'static str, String)>)> = Vec::new();
        let mut c: usize = 0;
        while c < 4
            invariant
                c <= 4,
                r@.len() == c,
                forall|d: int|
                    0 <= d < c ==> (#[trigger] r@[d]).0@ == category_title(d) && entries_view(
                        r@[d].1@,
                    ) == listed(self@, category_members(d)),
            decreases 4 - c,
        {
            let members = category_actions(c);
            let entries = self.entries_for(&members);
            r.push((category_name(c), entries));
            c += 1;
        }
        r
    }

    /// The action at position `i` of the categorized list, counted across
    /// the categories.
    pub fn menu_action(i: usize) -> (r: Option<Action>)
        ensures
            r == if i < ACTION_COUNT {
                Some(menu_order()[i as int])
            } else {
                None
            },
    {
        let mut c: usize = 0;
        let mut skipped: usize = 0;
        while c < 4
            invariant
                c <= 4,
                skipped <= i,
                skipped <= ACTION_COUNT,
                c == 0 ==> skipped == 0,
                c == 1 ==> skipped == 7,
                c == 2 ==> skipped == 13,
                c == 3 ==> skipped == 22,
                c == 4 ==> skipped == 23,
            decreases 4 - c,
        {
            let members = category_actions(c);
            if i - skipped < members.len() {
                return Some(members[i - skipped]);
            }
            skipped += members.len();
            c += 1;
        }
        None
    }

    /// The hint for the action named `action`: its key in brackets, then a
    /// label. Empty for an unknown name.
    pub fn get_hint(&self, action: &str) -> (r: String)
        ensures
            r@ == hint(self@, action@),
    {
        match Action::from_name(action) {
            Some(a) => {
                let mut out = String::from_str("[");
                proof {
                    reveal_strlit("[");
                    assert("["@ =~= seq!['[']);
                }
                out.append(self.keybindings.key(a).as_str());
                out.append(a.hint_suffix());
                out
            },
            None => String::new(),
        }
    }
}

/// The name of a key, without modifiers; empty for a key that has none.
pub open spec fn key_name(code: KeyCode) -> Seq<char> {
    match code {
        KeyCode::Char(c) => if c == ' ' {
            "space"@
        } else {
            lowercase_char(c)
        },
        KeyCode::Enter => "enter"@,
        KeyCode::Backspace => "backspace"@,
        KeyCode::Up => "up"@,
        KeyCode::Down => "down"@,
        KeyCode::Left => "left"@,
        KeyCode::Right => "right"@,
        KeyCode::F(n) => seq!['f'] + decimal(n as nat),
        KeyCode::Esc => "esc"@,
        KeyCode::Delete => "delete"@,
        KeyCode::Home => "home"@,
        KeyCode::End => "end"@,
        KeyCode::PageUp => "pageup"@,
        KeyCode::PageDown => "pagedown"@,
        _ => Seq::empty(),
    }
}

/// The held modifiers, each followed by a plus sign: control, alt, shift.
pub open spec fn modifier_prefix(modifiers: KeyModifiers) -> Seq<char> {
    (if modifiers.control {
        "ctrl+"@
    } else {
        Seq::empty()
    }) + (if modifiers.alt {
        "alt+"@
    } else {
        Seq::empty()
    }) + (if modifiers.shift {
        "shift+"@
    } else {
        Seq::empty()
    })
}

/// The canonical description of a key event, such as `ctrl+c` or
/// `shift+delete`; empty for a key without a name.
pub open spec fn key_description(code: KeyCode, modifiers: KeyModifiers) -> Seq<char> {
    if key_name(code).len() == 0 {
        Seq::empty()
    } else {
        modifier_prefix(modifiers) + key_name(code)
    }
}

fn key_name_string(code: KeyCode) -> (r: String)
    ensures
        r@ == key_name(code),
{
    match code {
        KeyCode::Char(c) => {
            if c == ' ' {
                String::from_str("space")
            } else {
                char_to_lowercase(c)
            }
        },
        KeyCode::Enter => String::from_str("enter"),
        KeyCode::Backspace => String::from_str("backspace"),
        KeyCode::Up => String::from_str("up"),
        KeyCode::Down => String::from_str("down"),
        KeyCode::Left => String::from_str("left"),
        KeyCode::Right => String::from_str("right"),
        KeyCode::F(n) => {
            let mut out = String::new();
            out.push('f');
            push_decimal(&mut out, n as u32);
            assert(out@ =~= seq!['f'] + decimal(n as nat));
            out
        },
        KeyCode::Esc => String::from_str("esc"),
        KeyCode::Delete => String::from_str("delete"),
        KeyCode::Home => String::from_str("home"),
        KeyCode::End => String::from_str("end"),
        KeyCode::PageUp => String::from_str("pageup"),
        KeyCode::PageDown => String::from_str("pagedown"),
        _ => String::new(),
    }
}

/// Describes a key event the way bindings are written: the held modifiers in
/// the order control, alt, shift, then the key, joined by plus signs. A key
/// without a name gives the empty string.
pub fn key_event_to_string(code: KeyCode, modifiers: KeyModifiers) -> (r: String)
    ensures
        r@ == key_description(code, modifiers),
{
    let name = key_name_string(code);
    if name.as_str().unicode_len() == 0 {
        return String::new();
    }
    let mut out = String::new();
    if modifiers.control {
        out.append("ctrl+");
    }
    if modifiers.alt {
        out.append("alt+");
    }
    if modifiers.shift {
        out.append("shift+");
    }
    assert(out@ =~= modifier_prefix(modifiers));
    out.append(name.as_str());
    out
}

/// Once a key has been bound to one action, binding it to another action is
/// refused and changes nothing.
pub proof fn lemma_second_binding_rejected(
    bindings: Seq<Seq<char>>,
    first: Action,
    second: Action,
    key: Seq<char>,
)
    requires
        bindings.len() == ACTION_COUNT,
        first != second,
        rebind(bindings, first.spec_name(), key) is Ok,
    ensures
        rebind(rebind(bindings, first.spec_name(), key)->Ok_0, second.spec_name(), key) == Err::<
            Seq<Seq<char>>,
            Seq<char>,
        >("Key already assigned to another action"@),
{
    lemma_names_distinct();
    let bound = rebind(bindings, first.spec_name(), key)->Ok_0;
    assert(action_at(first.ordinal()) == first);
    assert(taken_at(bound, key, second.spec_name(), first.ordinal()));
}

/// After the action that held a key has been moved to another key, the first
/// key can be bound to a different action.
pub proof fn lemma_released_key_can_be_bound(
    bindings: Seq<Seq<char>>,
    first: Action,
    second: Action,
    key: Seq<char>,
    other_key: Seq<char>,
)
    requires
        bindings.len() == ACTION_COUNT,
        first != second,
        key != other_key,
        rebind(bindings, first.spec_name(), key) is Ok,
        rebind(rebind(bindings, first.spec_name(), key)->Ok_0, first.spec_name(), other_key) is Ok,
    ensures
        rebind(
            rebind(
                rebind(bindings, first.spec_name(), key)->Ok_0,
                first.spec_name(),
                other_key,
            )->Ok_0,
            second.spec_name(),
            key,
        ) is Ok,
{
    lemma_names_distinct();
    let bound = rebind(bindings, first.spec_name(), key)->Ok_0;
    let moved = rebind(bound, first.spec_name(), other_key)->Ok_0;
    assert(action_at(first.ordinal()) == first);
    assert forall|i: int| !taken_at(moved, key, second.spec_name(), i) by {
        if 0 <= i < ACTION_COUNT && i != first.ordinal() {
            assert(action_at(i).ordinal() == i);
            assert(!taken_at(bindings, key, first.spec_name(), i));
        }
    }
}

/// The action with the given name, if there is one.
pub open spec fn action_named(name: Seq<char>) -> Option<Action> {
    if exists|a: Action| a.spec_name() == name {
        Some(choose|a: Action| a.spec_name() == name)
    } else {
        None
    }
}

/// What tells two action names apart: the length and the first characters.
spec fn name_tag(s: Seq<char>) -> (nat, char, char, char) {
    (s.len(), s[0], s[1], s[2])
}

/// No two actions share a name.
pub proof fn lemma_names_distinct()
    ensures
        forall|a: Action, b: Action| a.spec_name() == b.spec_name() ==> a == b,
        forall|a: Action| action_named(a.spec_name()) == Some(a),
{
    reveal_strlit("up");
    reveal_strlit("down");
    reveal_strlit("enter");
    reveal_strlit("backspace");
    reveal_strlit("help");
    reveal_strlit("quit");
    reveal_strlit("settings");
    reveal_strlit("home");
    reveal_strlit("end");
    reveal_strlit("ctrl_home");
    reveal_strlit("ctrl_end");
    reveal_strlit("page_up");
    reveal_strlit("page_down");
    reveal_strlit("select_all");
    reveal_strlit("deselect_all");
    reveal_strlit("select");
    reveal_strlit("copy");
    reveal_strlit("cut");
    reveal_strlit("paste");
    reveal_strlit("new_folder");
    reveal_strlit("delete");
    reveal_strlit("edit");
    reveal_strlit("search");
    assert forall|a: Action, b: Action| a.spec_name() == b.spec_name() implies a == b by {
        assert(name_tag(a.spec_name()) == name_tag(b.spec_name()));
    }
}

} // verus!
