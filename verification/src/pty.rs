//! The rules of the embedded shell: what a frame asks of it, how its
//! working directory and that of the browser follow each other, what bytes
//! a key sends to it, and what is kept of its output.
//!
//! The pseudo-terminal itself and its reader are the caller's. Once per
//! frame the caller takes in the output of the shell, calls
//! [`PtySync::tick`], carries out the [`TickPlan`] and reports what it found.

use crate::keys::{KeyCode, KeyModifiers};
use crate::session::{App, AppView, Effect, EffectView};
use crate::procfs::{find_shell, nearest_shell, process_views, ProcessInfo};
use crate::text::{str_eq, text_of, texts};
use vstd::prelude::*;
use vstd::string::*;
use vstd::utf8::encode_utf8;

verus! {

/// Rows of the pseudo-terminal when it is opened.
pub const PTY_ROWS: u16 = 24;

/// Columns of the pseudo-terminal when it is opened.
pub const PTY_COLS: u16 = 80;

/// The listing is read again on every tick whose number this divides.
pub const REFRESH_EVERY: u64 = 50;

/// The shell is looked for, or asked for its directory, on every tick whose
/// number this divides.
pub const SYNC_EVERY: u64 = 10;

/// The program that is started when no shell is configured.
pub open spec fn default_shell() -> Seq<char> {
    "/bin/sh"@
}

/// The shell to start: the configured one, or the default.
pub fn shell_program(configured: Option<String>) -> (r: String)
    ensures
        r@ == match configured {
            Some(shell) => shell@,
            None => default_shell(),
        },
{
    match configured {
        Some(shell) => shell,
        None => String::from_str("/bin/sh"),
    }
}

/// The line that takes the shell to `path`: `cd`, the path in single
/// quotes, and a carriage return.
pub open spec fn cd_command(path: Seq<char>) -> Seq<char> {
    "cd '"@ + path + "'\r"@
}

/// What the sync rules keep between frames.
#[derive(Debug)]
pub struct PtySync {
    /// The process id of the shell; 0 while it has not been found.
    pub shell_pid: u32,
    /// The directory that the shell and the browser last agreed on.
    pub last_synced: String,
    /// The number of the last tick. It starts over after `u64::MAX`.
    pub ticks: u64,
}

/// What a [`PtySync`] holds, as text and numbers.
pub struct SyncView {
    pub shell_pid: u32,
    pub last_synced: Seq<char>,
    pub ticks: u64,
}

impl View for PtySync {
    type V = SyncView;

    open spec fn view(&self) -> SyncView {
        SyncView { shell_pid: self.shell_pid, last_synced: self.last_synced@, ticks: self.ticks }
    }
}

/// What a tick asks about the shell process.
#[derive(Clone, Copy, Debug, PartialEq, Eq, Structural)]
pub enum Probe {
    /// Nothing this tick.
    Idle,
    /// Take a snapshot of the processes and report with
    /// [`PtySync::discovered`].
    Discover,
    /// Read the working directory of the process and report with
    /// [`PtySync::shell_reported`].
    ReadCwd(u32),
}

/// What the caller has to do in one frame, in the order of the fields.
#[derive(Debug, PartialEq, Eq)]
pub struct TickPlan {
    /// Read the current directory again.
    pub refresh: bool,
    /// Write this line to the shell.
    pub command: Option<String>,
    pub probe: Probe,
}

/// What a [`TickPlan`] holds, as text.
pub struct PlanView {
    pub refresh: bool,
    pub command: Option<Seq<char>>,
    pub probe: Probe,
}

impl View for TickPlan {
    type V = PlanView;

    open spec fn view(&self) -> PlanView {
        PlanView { refresh: self.refresh, command: text_of(self.command), probe: self.probe }
    }
}

impl SyncView {
    /// The number of the tick after this one.
    pub open spec fn next_tick(self) -> u64 {
        if self.ticks == u64::MAX {
            0
        } else {
            (self.ticks + 1) as u64
        }
    }

    /// The state after a tick in the directory `current_dir`: the shell is
    /// taken to have been told of the directory.
    pub open spec fn ticked(self, current_dir: Seq<char>) -> SyncView {
        SyncView { ticks: self.next_tick(), last_synced: current_dir, ..self }
    }

    /// What a tick in the directory `current_dir` asks for. The shell is
    /// sent to the directory only if the directory is not the one last
    /// agreed on.
    pub open spec fn plan(self, current_dir: Seq<char>) -> PlanView {
        PlanView {
            refresh: self.next_tick() % REFRESH_EVERY == 0,
            command: if current_dir != self.last_synced {
                Some(cd_command(current_dir))
            } else {
                None
            },
            probe: if self.next_tick() % SYNC_EVERY != 0 {
                Probe::Idle
            } else if self.shell_pid == 0 {
                Probe::Discover
            } else {
                Probe::ReadCwd(self.shell_pid)
            },
        }
    }

    /// The state after the shell was asked for its directory. A shell that
    /// gave none has gone and must be found again; a directory other than
    /// `current_dir` is agreed on at once.
    pub open spec fn reported(self, current_dir: Seq<char>, cwd: Option<Seq<char>>) -> SyncView {
        match cwd {
            Some(dir) => if dir != current_dir {
                SyncView { last_synced: dir, ..self }
            } else {
                self
            },
            None => SyncView { shell_pid: 0, ..self },
        }
    }
}

impl PtySync {
    /// The state with which a shell is opened in `current_dir`: the shell
    /// starts in that directory and has yet to be found.
    pub fn new(current_dir: &str) -> (r: PtySync)
        ensures
            r@ == (SyncView { shell_pid: 0, last_synced: current_dir@, ticks: 0 }),
    {
        PtySync { shell_pid: 0, last_synced: String::from_str(current_dir), ticks: 0 }
    }

    /// One frame has passed. Says what the caller has to do in it, and from
    /// now on takes the shell to be in `current_dir`.
    pub fn tick(&mut self, current_dir: &str) -> (r: TickPlan)
        ensures
            final(self)@ == old(self)@.ticked(current_dir@),
            r@ == old(self)@.plan(current_dir@),
    {
        self.ticks = if self.ticks == u64::MAX {
            0
        } else {
            self.ticks + 1
        };
        let refresh = self.ticks % REFRESH_EVERY == 0;
        let command = if !str_eq(current_dir, self.last_synced.as_str()) {
            let mut line = String::from_str("cd '");
            line.append(current_dir);
            line.append("'\r");
            self.last_synced = String::from_str(current_dir);
            Some(line)
        } else {
            None
        };
        let probe = if self.ticks % SYNC_EVERY != 0 {
            Probe::Idle
        } else if self.shell_pid == 0 {
            Probe::Discover
        } else {
            Probe::ReadCwd(self.shell_pid)
        };
        TickPlan { refresh, command, probe }
    }

    /// Takes in a snapshot of the processes: the shell is the nearest one
    /// among the descendants of `root`, the process that embeds it. With no
    /// shell among them the shell stays to be found.
    pub fn discovered(&mut self, snapshot: &Vec<ProcessInfo>, root: u32)
        ensures
            final(self)@ == (SyncView {
                shell_pid: match nearest_shell(process_views(snapshot@), root) {
                    Some(pid) => pid,
                    None => 0,
                },
                ..old(self)@
            }),
    {
        self.shell_pid = match find_shell(snapshot, root) {
            Some(pid) => pid,
            None => 0,
        };
    }

    /// Takes in the working directory of the shell, `None` if it could not
    /// be read. A directory other than the current one becomes the current
    /// directory of `app` and is agreed on at once, so that the next tick
    /// does not send the shell back; the caller then reads it. A shell whose
    /// directory could not be read has to be found again.
    pub fn shell_reported(&mut self, app: &mut App, cwd: Option<String>) -> (r: Effect)
        ensures
            final(self)@ == old(self)@.reported(old(app)@.current_dir, text_of(cwd)),
            final(app)@ == match cwd {
                Some(dir) => if dir@ != old(app)@.current_dir {
                    old(app)@.arrived(dir@, true)
                } else {
                    old(app)@
                },
                None => old(app)@,
            },
            r@ == match cwd {
                Some(dir) => if dir@ != old(app)@.current_dir {
                    EffectView::Refresh
                } else {
                    EffectView::Nothing
                },
                None => EffectView::Nothing,
            },
    {
        match cwd {
            Some(dir) => {
                if !str_eq(dir.as_str(), app.manager.current_path()) {
                    self.last_synced = dir.clone();
                    app.navigated(dir, true)
                } else {
                    Effect::Nothing
                }
            },
            None => {
                self.shell_pid = 0;
                Effect::Nothing
            },
        }
    }
}

/// After the shell has reported a directory other than the current one,
/// the browser is in that directory and the next tick sends the shell
/// nowhere.
pub proof fn lemma_no_echo(sync: SyncView, app: AppView, dir: Seq<char>)
    requires
        dir != app.current_dir,
    ensures
        app.arrived(dir, true).current_dir == dir,
        sync.reported(app.current_dir, Some(dir)).plan(app.arrived(dir, true).current_dir).command is None,
{
}

/// After the browser has gone to a directory that the shell was not told
/// of, the next tick sends the shell there, and the tick after it sends
/// nothing.
pub proof fn lemma_cd_sent_once(sync: SyncView, dir: Seq<char>)
    requires
        dir != sync.last_synced,
    ensures
        sync.plan(dir).command == Some(cd_command(dir)),
        sync.ticked(dir).plan(dir).command is None,
{
}

/// The lines after a character has been printed: a line feed starts a new
/// line, a carriage return is dropped, anything else goes to the end of the
/// last line.
pub open spec fn printed(lines: Seq<Seq<char>>, c: char) -> Seq<Seq<char>> {
    if c == '\n' {
        lines.push(Seq::empty())
    } else if c == '\r' {
        lines
    } else if lines.len() == 0 {
        seq![seq![c]]
    } else {
        lines.drop_last().push(lines.last().push(c))
    }
}

/// The last [`PTY_ROWS`] of the lines.
pub open spec fn last_rows(lines: Seq<Seq<char>>) -> Seq<Seq<char>> {
    if lines.len() > PTY_ROWS {
        lines.skip(lines.len() - PTY_ROWS)
    } else {
        lines
    }
}

/// What the shell printed last, as plain lines.
#[derive(Debug, PartialEq, Eq)]
pub struct Scrollback {
    /// The lines, the newest last.
    pub lines: Vec<String>,
}

impl View for Scrollback {
    type V = Seq<Seq<char>>;

    open spec fn view(&self) -> Seq<Seq<char>> {
        texts(self.lines@)
    }
}

impl Scrollback {
    /// Nothing printed yet: one line, and that empty.
    pub fn new() -> (r: Scrollback)
        ensures
            r@ == seq![Seq::<char>::empty()],
    {
        let mut lines: Vec<String> = Vec::new();
        lines.push(String::new());
        let r = Scrollback { lines };
        assert(r@ =~= seq![Seq::<char>::empty()]);
        r
    }

    /// Prints one character and keeps the last [`PTY_ROWS`] lines.
    pub fn put(&mut self, c: char)
        ensures
            final(self)@ == last_rows(printed(old(self)@, c)),
    {
        let ghost before = self.lines@;
        if c == '\n' {
            self.lines.push(String::new());
            assert(texts(self.lines@) =~= texts(before).push(Seq::empty()));
        } else if c == '\r' {
        } else {
            match self.lines.pop() {
                Some(mut line) => {
                    let ghost rest = self.lines@;
                    let ghost old_line = line@;
                    line.push(c);
                    self.lines.push(line);
                    assert(texts(self.lines@) =~= texts(before).drop_last().push(old_line.push(c))) by {
                        assert(texts(rest) =~= texts(before).drop_last());
                        assert(texts(before).last() == old_line);
                    }
                },
                None => {
                    let mut line = String::new();
                    line.push(c);
                    self.lines.push(line);
                    assert(texts(self.lines@) =~= seq![seq![c]]);
                },
            }
        }
        let ghost all = texts(self.lines@);
        assert(all == printed(texts(before), c));
        assert(all.skip(0) =~= all);
        let rows = PTY_ROWS as usize;
        while self.lines.len() > rows
            invariant
                rows == PTY_ROWS,
                texts(self.lines@).len() <= all.len(),
                all.len() > PTY_ROWS ==> texts(self.lines@).len() >= PTY_ROWS,
                all.len() <= PTY_ROWS ==> texts(self.lines@).len() == all.len(),
                texts(self.lines@) == all.skip(all.len() - texts(self.lines@).len()),
            decreases self.lines@.len(),
        {
            let ghost sofar = self.lines@;
            let _ = self.lines.remove(0);
            assert(texts(self.lines@) =~= texts(sofar).skip(1));
        }
    }
}

/// Whether there is a shell session, and who gets the keys.
#[derive(Clone, Copy, Debug, PartialEq, Eq, Structural)]
pub enum Pane {
    /// No shell session; the pane is hidden.
    Closed,
    /// A shell session is shown; the keys go to the browser.
    Open,
    /// A shell session is shown and gets the keys.
    Focused,
}

/// Where a key goes.
#[derive(Debug, PartialEq, Eq)]
pub enum Route {
    /// The key moves the focus between the browser and the terminal pane.
    Toggle,
    /// The key belongs to the terminal pane.
    Terminal(TerminalInput),
    /// The key belongs to the browser.
    Browser,
}

/// True for the key that moves the focus: F4.
pub open spec fn is_toggle_key(code: KeyCode) -> bool {
    code == KeyCode::F(4)
}

impl Pane {
    /// The pane after the focus key. The focus goes to the terminal pane,
    /// or back from it; a closed pane is opened, for which the caller has to
    /// start the shell first.
    pub open spec fn toggled(self) -> Pane {
        match self {
            Pane::Focused => Pane::Open,
            _ => Pane::Focused,
        }
    }

    /// Says where a key goes: the focus key toggles, any other key goes to
    /// the pane that has the focus.
    pub fn route(self, code: KeyCode, modifiers: KeyModifiers) -> (r: Route)
        ensures
            match r {
                Route::Toggle => is_toggle_key(code),
                Route::Terminal(input) => !is_toggle_key(code) && self == Pane::Focused && (match input {
                    TerminalInput::Close => is_close_key(code, modifiers),
                    TerminalInput::Send(bytes) => !is_close_key(code, modifiers) && bytes@ == key_bytes(
                        code,
                        modifiers,
                    ),
                }),
                Route::Browser => !is_toggle_key(code) && self != Pane::Focused,
            },
    {
        let toggle = match code {
            KeyCode::F(n) => n == 4,
            _ => false,
        };
        if toggle {
            Route::Toggle
        } else {
            match self {
                Pane::Focused => Route::Terminal(forward_key(code, modifiers)),
                _ => Route::Browser,
            }
        }
    }

    /// The pane after the focus key. `started` says whether a shell runs
    /// once the caller has done its part: a pane whose shell could not be
    /// started stays closed.
    pub fn toggle(self, started: bool) -> (r: Pane)
        ensures
            r == if self == Pane::Closed && !started {
                Pane::Closed
            } else {
                self.toggled()
            },
    {
        match self {
            Pane::Focused => Pane::Open,
            Pane::Open => Pane::Focused,
            Pane::Closed => if started {
                Pane::Focused
            } else {
                Pane::Closed
            },
        }
    }
}

/// What a key does in the terminal pane.
#[derive(Debug, PartialEq, Eq)]
pub enum TerminalInput {
    /// Close the shell session and hide the pane.
    Close,
    /// Write the bytes to the shell.
    Send(Vec<u8>),
}

/// True for the letters `a` to `z` and `A` to `Z`.
pub open spec fn is_letter(c: char) -> bool {
    ('a' <= c && c <= 'z') || ('A' <= c && c <= 'Z')
}

/// The control character of a letter: 1 for `a` or `A`, up to 26.
pub open spec fn control_byte(c: char) -> u8 {
    if 'a' <= c && c <= 'z' {
        (c as u32 - 'a' as u32 + 1) as u8
    } else {
        (c as u32 - 'A' as u32 + 1) as u8
    }
}

/// The escape sequence of a function key; empty for a key beyond F12.
pub open spec fn function_key_bytes(n: u8) -> Seq<u8> {
    if n == 1 {
        seq![27u8, 79u8, 80u8]
    } else if n == 2 {
        seq![27u8, 79u8, 81u8]
    } else if n == 3 {
        seq![27u8, 79u8, 82u8]
    } else if n == 4 {
        seq![27u8, 79u8, 83u8]
    } else if n == 5 {
        seq![27u8, 91u8, 49u8, 53u8, 126u8]
    } else if n == 6 {
        seq![27u8, 91u8, 49u8, 55u8, 126u8]
    } else if n == 7 {
        seq![27u8, 91u8, 49u8, 56u8, 126u8]
    } else if n == 8 {
        seq![27u8, 91u8, 49u8, 57u8, 126u8]
    } else if n == 9 {
        seq![27u8, 91u8, 50u8, 48u8, 126u8]
    } else if n == 10 {
        seq![27u8, 91u8, 50u8, 49u8, 126u8]
    } else if n == 11 {
        seq![27u8, 91u8, 50u8, 51u8, 126u8]
    } else if n == 12 {
        seq![27u8, 91u8, 50u8, 52u8, 126u8]
    } else {
        Seq::empty()
    }
}

/// The bytes that a key sends to the shell: the control character for
/// control with a letter, the escape sequence of a navigation or function
/// key, else the character in UTF-8. A key that has no bytes sends none.
pub open spec fn key_bytes(code: KeyCode, modifiers: KeyModifiers) -> Seq<u8> {
    match code {
        KeyCode::Char(c) => if modifiers.control && is_letter(c) {
            seq![control_byte(c)]
        } else {
            encode_utf8(seq![c])
        },
        KeyCode::Enter => seq![13u8],
        KeyCode::Backspace => seq![127u8],
        KeyCode::Tab => seq![9u8],
        KeyCode::Esc => seq![27u8],
        KeyCode::Up => seq![27u8, 91u8, 65u8],
        KeyCode::Down => seq![27u8, 91u8, 66u8],
        KeyCode::Right => seq![27u8, 91u8, 67u8],
        KeyCode::Left => seq![27u8, 91u8, 68u8],
        KeyCode::Home => seq![27u8, 91u8, 72u8],
        KeyCode::End => seq![27u8, 91u8, 70u8],
        KeyCode::BackTab => seq![27u8, 91u8, 90u8],
        KeyCode::Insert => seq![27u8, 91u8, 50u8, 126u8],
        KeyCode::Delete => seq![27u8, 91u8, 51u8, 126u8],
        KeyCode::PageUp => seq![27u8, 91u8, 53u8, 126u8],
        KeyCode::PageDown => seq![27u8, 91u8, 54u8, 126u8],
        KeyCode::F(n) => function_key_bytes(n),
        KeyCode::Other => Seq::empty(),
    }
}

/// True for the key that closes the shell session: control with `d`.
pub open spec fn is_close_key(code: KeyCode, modifiers: KeyModifiers) -> bool {
    modifiers.control && (code == KeyCode::Char('d') || code == KeyCode::Char('D'))
}

fn sequence(bytes: &[u8]) -> (r: Vec<u8>)
    ensures
        r@ == bytes@,
{
    vstd::slice::slice_to_vec(bytes)
}

fn function_key(n: u8) -> (r: Vec<u8>)
    ensures
        r@ == function_key_bytes(n),
{
    let r = if n == 1 {
        sequence(&[27, 79, 80])
    } else if n == 2 {
        sequence(&[27, 79, 81])
    } else if n == 3 {
        sequence(&[27, 79, 82])
    } else if n == 4 {
        sequence(&[27, 79, 83])
    } else if n == 5 {
        sequence(&[27, 91, 49, 53, 126])
    } else if n == 6 {
        sequence(&[27, 91, 49, 55, 126])
    } else if n == 7 {
        sequence(&[27, 91, 49, 56, 126])
    } else if n == 8 {
        sequence(&[27, 91, 49, 57, 126])
    } else if n == 9 {
        sequence(&[27, 91, 50, 48, 126])
    } else if n == 10 {
        sequence(&[27, 91, 50, 49, 126])
    } else if n == 11 {
        sequence(&[27, 91, 50, 51, 126])
    } else if n == 12 {
        sequence(&[27, 91, 50, 52, 126])
    } else {
        Vec::new()
    };
    assert(r@ =~= function_key_bytes(n));
    r
}

/// Encodes a key for the shell.
pub fn encode_key(code: KeyCode, modifiers: KeyModifiers) -> (r: Vec<u8>)
    ensures
        r@ == key_bytes(code, modifiers),
{
    let r = match code {
        KeyCode::Char(c) => {
            if modifiers.control && (('a' <= c && c <= 'z') || ('A' <= c && c <= 'Z')) {
                let base: u32 = if 'a' <= c && c <= 'z' {
                    'a' as u32
                } else {
                    'A' as u32
                };
                let byte: u8 = (c as u32 - base + 1) as u8;
                let mut one: Vec<u8> = Vec::new();
                one.push(byte);
                one
            } else {
                let mut text = String::new();
                text.push(c);
                assert(text@ =~= seq![c]);
                text.as_str().as_bytes_vec()
            }
        },
        KeyCode::Enter => sequence(&[13]),
        KeyCode::Backspace => sequence(&[127]),
        KeyCode::Tab => sequence(&[9]),
        KeyCode::Esc => sequence(&[27]),
        KeyCode::Up => sequence(&[27, 91, 65]),
        KeyCode::Down => sequence(&[27, 91, 66]),
        KeyCode::Right => sequence(&[27, 91, 67]),
        KeyCode::Left => sequence(&[27, 91, 68]),
        KeyCode::Home => sequence(&[27, 91, 72]),
        KeyCode::End => sequence(&[27, 91, 70]),
        KeyCode::BackTab => sequence(&[27, 91, 90]),
        KeyCode::Insert => sequence(&[27, 91, 50, 126]),
        KeyCode::Delete => sequence(&[27, 91, 51, 126]),
        KeyCode::PageUp => sequence(&[27, 91, 53, 126]),
        KeyCode::PageDown => sequence(&[27, 91, 54, 126]),
        KeyCode::F(n) => function_key(n),
        KeyCode::Other => Vec::new(),
    };
    assert(r@ =~= key_bytes(code, modifiers));
    r
}

/// What a key does while the terminal pane has the focus: control with `d`
/// closes the session, any other key is sent to the shell.
pub fn forward_key(code: KeyCode, modifiers: KeyModifiers) -> (r: TerminalInput)
    ensures
        match r {
            TerminalInput::Close => is_close_key(code, modifiers),
            TerminalInput::Send(bytes) => !is_close_key(code, modifiers) && bytes@ == key_bytes(
                code,
                modifiers,
            ),
        },
{
    let close = modifiers.control && match code {
        KeyCode::Char(c) => c == 'd' || c == 'D',
        _ => false,
    };
    if close {
        TerminalInput::Close
    } else {
        TerminalInput::Send(encode_key(code, modifiers))
    }
}

} // verus!
