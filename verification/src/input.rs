//! Keys and commands: which command a key runs in the Picker, and what each command
//! does to the Picker state.
use vstd::prelude::*;
use crate::app::{shows_topology, without_last_word, App, InputMode};
use crate::config::source_enabled;
use crate::model::Source;
use crate::navigation::{cursor_readable, horizontal_move_done, vertical_move_done, workspace_move_done};
use crate::ranking::filter_applied;
use crate::text::{ascii_lower, chars_of, string_of, trim};
use crate::topology::{ws_count, TopologyCursor, TopologyDepth};

verus! {

/// A key of the keyboard.
#[derive(Clone, Copy, Debug, PartialEq, Eq, Structural)]
pub enum KeyCode {
    Char(char),
    Enter,
    Esc,
    Backspace,
    Tab,
    BackTab,
    Up,
    Down,
    Left,
    Right,
    F(u8),
    Other,
}

/// A key press: the key and the modifiers held (`other` for any modifier besides
/// Shift, Ctrl and Alt).
#[derive(Clone, Copy, Debug, PartialEq, Eq, Structural)]
pub struct Key {
    pub code: KeyCode,
    pub shift: bool,
    pub control: bool,
    pub alt: bool,
    pub other: bool,
}

/// What a key binding asks for.
#[derive(Clone, Copy, Debug, PartialEq, Eq, Structural)]
pub enum Command {
    Back,
    Open,
    OpenTemplate,
    Update,
    MoveUp,
    MoveDown,
    Collapse,
    Expand,
    StartSearch,
    DeleteChar,
    DeleteWord,
    Clear,
    CloseWorkspace,
    ToggleMark,
    ToggleHelp,
    Filter(Source),
}

/// What the Picker loop does after a key or command.
#[derive(Clone, Copy, Debug, PartialEq, Eq, Structural)]
pub enum Action {
    Continue,
    Quit,
    Open,
    OpenTemplate,
    Update,
    CloseWorkspace,
    ToggleMark,
}

/// The key is pressed with no modifier.
pub open spec fn plain(k: Key) -> bool {
    !k.shift && !k.control && !k.alt && !k.other
}

/// The key is pressed with Ctrl alone.
pub open spec fn with_ctrl(k: Key) -> bool {
    !k.shift && k.control && !k.alt && !k.other
}

/// The key is pressed with Shift alone.
pub open spec fn with_shift(k: Key) -> bool {
    k.shift && !k.control && !k.alt && !k.other
}

/// The key is text: pressed with no modifier but Shift.
pub open spec fn textual(k: Key) -> bool {
    !k.control && !k.alt && !k.other
}

/// The Source that Ctrl with `c` filters to.
pub open spec fn filter_key(c: char) -> Option<Source> {
    if c == 'w' {
        Some(Source::Workspace)
    } else if c == 'a' {
        Some(Source::Agent)
    } else if c == 'p' {
        Some(Source::Project)
    } else if c == 'q' {
        Some(Source::QuickAction)
    } else if c == 's' {
        Some(Source::Server)
    } else if c == 'l' {
        Some(Source::Session)
    } else if c == 'z' {
        Some(Source::Zoxide)
    } else if c == 'r' {
        Some(Source::Root)
    } else {
        None
    }
}

/// The key matches the configured template shortcut: `alt-enter`, `ctrl-enter`, or Ctrl
/// or Alt with one character (ignoring case and surrounding white space).
pub open spec fn template_key_matches(setting: Seq<char>, k: Key) -> bool {
    let s = ascii_lower(trim(setting));
    if s == "alt-enter"@ {
        k.code == KeyCode::Enter && k.alt && !k.control && !k.shift && !k.other
    } else if s == "ctrl-enter"@ {
        k.code == KeyCode::Enter && with_ctrl(k)
    } else if s.len() == 6 && "ctrl-"@.is_prefix_of(s) {
        k.code == KeyCode::Char(s[5]) && with_ctrl(k)
    } else if s.len() == 5 && "alt-"@.is_prefix_of(s) {
        k.code == KeyCode::Char(s[4]) && k.alt && !k.control && !k.shift && !k.other
    } else {
        false
    }
}

/// The command a key runs: Esc or Ctrl-C go back; Enter opens and the template shortcut
/// opens with the template; F5 updates when an update is available; arrows (and `h`, `j`, `k`, `l` in Normal mode)
/// move, collapse and expand; `/` in Normal mode starts a search; Backspace deletes a
/// character and Ctrl-Backspace or Ctrl-H a word; Ctrl-U clears; Ctrl-X closes the
/// Workspace; Ctrl-B marks; `?` shows the help; Ctrl-W, A, P, Q, S, L, Z and R filter to
/// an enabled Source.
pub open spec fn command_of(app: App, k: Key) -> Option<Command> {
    let normal = app.input_mode == InputMode::Normal;
    if (k.code == KeyCode::Esc && plain(k)) || (k.code == KeyCode::Char('c') && with_ctrl(k)) {
        Some(Command::Back)
    } else if k.code == KeyCode::Enter && plain(k) {
        Some(Command::Open)
    } else if template_key_matches(app.config.picker.directory_template_key@, k) {
        Some(Command::OpenTemplate)
    } else if k.code == KeyCode::F(5) && plain(k) && app.update_available is Some {
        Some(Command::Update)
    } else if (k.code == KeyCode::Up && plain(k)) || (normal && k.code == KeyCode::Char('k') && plain(k)) {
        Some(Command::MoveUp)
    } else if (k.code == KeyCode::Down && plain(k)) || (normal && k.code == KeyCode::Char('j') && plain(k)) {
        Some(Command::MoveDown)
    } else if (k.code == KeyCode::Left && plain(k)) || (normal && k.code == KeyCode::Char('h') && plain(k)) {
        Some(Command::Collapse)
    } else if (k.code == KeyCode::Right && plain(k)) || (normal && k.code == KeyCode::Char('l') && plain(k)) {
        Some(Command::Expand)
    } else if normal && k.code == KeyCode::Char('/') && plain(k) {
        Some(Command::StartSearch)
    } else if k.code == KeyCode::Backspace && plain(k) {
        Some(Command::DeleteChar)
    } else if (k.code == KeyCode::Backspace && with_ctrl(k)) || (k.code == KeyCode::Char('h') && with_ctrl(k)) {
        Some(Command::DeleteWord)
    } else if k.code == KeyCode::Char('u') && with_ctrl(k) {
        Some(Command::Clear)
    } else if k.code == KeyCode::Char('x') && with_ctrl(k) {
        Some(Command::CloseWorkspace)
    } else if k.code == KeyCode::Char('b') && with_ctrl(k) {
        Some(Command::ToggleMark)
    } else if k.code == KeyCode::Char('?') && textual(k) {
        Some(Command::ToggleHelp)
    } else {
        match k.code {
            KeyCode::Char(c) => if with_ctrl(k) && filter_key(c) is Some && source_enabled(
                app.config.sources,
                filter_key(c)->0,
            ) {
                Some(Command::Filter(filter_key(c)->0))
            } else {
                None
            },
            _ => None,
        }
    }
}

/// The Picker can move its cursor: in the Topology the cursor's Workspace has a
/// selection, and a cursor below Workspace depth has a Workspace under it.
pub open spec fn navigable(app: App) -> bool {
    shows_topology(app.query@, app.source_filter) ==> cursor_readable(app) && (app.topology_cursor.depth
        != TopologyDepth::Workspace ==> ws_count(app.topology) > 0)
}

/// The depth one level up.
pub open spec fn collapsed(d: TopologyDepth) -> TopologyDepth {
    match d {
        TopologyDepth::Workspace => TopologyDepth::Workspace,
        TopologyDepth::Tab => TopologyDepth::Workspace,
        TopologyDepth::Pane => TopologyDepth::Tab,
    }
}

/// A Result row is selected.
pub open spec fn has_selected_entry(app: App) -> bool {
    app.selected < app.filtered@.len() && app.filtered@[app.selected as int] < app.entries@.len()
}

/// What running command `c` makes of the Picker and which action follows; `escape` and
/// `control` tell whether the key was Esc and whether Ctrl was held.
pub open spec fn command_done(before: App, after: App, c: Command, escape: bool, control: bool, action: Action) -> bool {
    let topo = shows_topology(before.query@, before.source_filter);
    match c {
        Command::Back => if escape && before.input_mode == InputMode::Search {
            after == (App { input_mode: InputMode::Normal, ..before }) && action == Action::Continue
        } else {
            after == before && action == Action::Quit
        },
        Command::Open => after == before && action == if topo || has_selected_entry(before) {
            Action::Open
        } else {
            Action::Continue
        },
        Command::OpenTemplate => after == before && action == if topo || has_selected_entry(before) {
            Action::OpenTemplate
        } else {
            Action::Continue
        },
        Command::Update => after == before && action == Action::Update,
        Command::MoveUp => vertical_move_done(before, after, -1) && action == Action::Continue,
        Command::MoveDown => vertical_move_done(before, after, 1) && action == Action::Continue,
        Command::Collapse => action == Action::Continue && if topo {
            after == (App {
                topology_cursor: TopologyCursor { depth: collapsed(before.topology_cursor.depth), ..before.topology_cursor },
                ..before
            })
        } else {
            after == before
        },
        Command::Expand => action == Action::Continue && if topo {
            horizontal_move_done(before, after, 1)
        } else {
            after == before
        },
        Command::StartSearch => after == (App { input_mode: InputMode::Search, ..before }) && action
            == Action::Continue,
        Command::DeleteChar => action == Action::Continue && after.query@ == (if before.query@.len() > 0 {
            before.query@.drop_last()
        } else {
            seq![]
        }) && filter_applied(App { query: after.query, ..before }, after),
        Command::DeleteWord => action == Action::Continue && after.query@ == without_last_word(before.query@)
            && filter_applied(App { query: after.query, ..before }, after),
        Command::Clear => action == Action::Continue && after.query@.len() == 0 && filter_applied(
            App { query: after.query, source_filter: None, selected: 0, input_mode: InputMode::Normal, ..before },
            after,
        ),
        Command::CloseWorkspace => after == before && action == Action::CloseWorkspace,
        Command::ToggleMark => after == before && action == Action::ToggleMark,
        Command::ToggleHelp => after == (App { input_mode: InputMode::Help, ..before }) && action
            == Action::Continue,
        Command::Filter(s) => {
            let m = if control {
                before
            } else {
                App { query: after.query, input_mode: InputMode::Normal, ..before }
            };
            let filtered = if source_enabled(before.config.sources, s) {
                App {
                    source_filter: if m.source_filter == Some(s) {
                        None
                    } else {
                        Some(s)
                    },
                    selected: 0,
                    ..m
                }
            } else {
                m
            };
            &&& action == Action::Continue
            &&& (!control ==> after.query@.len() == 0)
            &&& filter_applied(filtered, after)
        },
    }
}

} // verus!

verus! {

fn template_key(setting: &str, k: Key) -> (r: bool)
    ensures
        r == template_key_matches(setting@, k),
{
    let t = crate::text::trim_chars(chars_of(setting).as_slice());
    let ts = string_of(t.as_slice());
    let s = crate::text::to_ascii_lowercase(ts.as_str());
    let ss = string_of(s.as_slice());
    if crate::text::eq_str(ss.as_str(), "alt-enter") {
        k.code == KeyCode::Enter && k.alt && !k.control && !k.shift && !k.other
    } else if crate::text::eq_str(ss.as_str(), "ctrl-enter") {
        k.code == KeyCode::Enter && !k.shift && k.control && !k.alt && !k.other
    } else if s.len() == 6 && crate::text::starts_with(s.as_slice(), chars_of("ctrl-").as_slice()) {
        k.code == KeyCode::Char(s[5]) && !k.shift && k.control && !k.alt && !k.other
    } else if s.len() == 5 && crate::text::starts_with(s.as_slice(), chars_of("alt-").as_slice()) {
        k.code == KeyCode::Char(s[4]) && k.alt && !k.control && !k.shift && !k.other
    } else {
        false
    }
}

fn filter_for(c: char) -> (r: Option<Source>)
    ensures
        r == filter_key(c),
{
    if c == 'w' {
        Some(Source::Workspace)
    } else if c == 'a' {
        Some(Source::Agent)
    } else if c == 'p' {
        Some(Source::Project)
    } else if c == 'q' {
        Some(Source::QuickAction)
    } else if c == 's' {
        Some(Source::Server)
    } else if c == 'l' {
        Some(Source::Session)
    } else if c == 'z' {
        Some(Source::Zoxide)
    } else if c == 'r' {
        Some(Source::Root)
    } else {
        None
    }
}

/// The command a key runs (see `command_of`).
pub fn command_for(app: &App, k: Key) -> (r: Option<Command>)
    ensures
        r == command_of(*app, k),
{
    let normal = app.input_mode == InputMode::Normal;
    let plain = !k.shift && !k.control && !k.alt && !k.other;
    let ctrl = !k.shift && k.control && !k.alt && !k.other;
    if (k.code == KeyCode::Esc && plain) || (k.code == KeyCode::Char('c') && ctrl) {
        Some(Command::Back)
    } else if k.code == KeyCode::Enter && plain {
        Some(Command::Open)
    } else if template_key(app.config.picker.directory_template_key.as_str(), k) {
        Some(Command::OpenTemplate)
    } else if k.code == KeyCode::F(5) && plain && app.update_available.is_some() {
        Some(Command::Update)
    } else if (k.code == KeyCode::Up && plain) || (normal && k.code == KeyCode::Char('k') && plain) {
        Some(Command::MoveUp)
    } else if (k.code == KeyCode::Down && plain) || (normal && k.code == KeyCode::Char('j') && plain) {
        Some(Command::MoveDown)
    } else if (k.code == KeyCode::Left && plain) || (normal && k.code == KeyCode::Char('h') && plain) {
        Some(Command::Collapse)
    } else if (k.code == KeyCode::Right && plain) || (normal && k.code == KeyCode::Char('l') && plain) {
        Some(Command::Expand)
    } else if normal && k.code == KeyCode::Char('/') && plain {
        Some(Command::StartSearch)
    } else if k.code == KeyCode::Backspace && plain {
        Some(Command::DeleteChar)
    } else if (k.code == KeyCode::Backspace && ctrl) || (k.code == KeyCode::Char('h') && ctrl) {
        Some(Command::DeleteWord)
    } else if k.code == KeyCode::Char('u') && ctrl {
        Some(Command::Clear)
    } else if k.code == KeyCode::Char('x') && ctrl {
        Some(Command::CloseWorkspace)
    } else if k.code == KeyCode::Char('b') && ctrl {
        Some(Command::ToggleMark)
    } else if k.code == KeyCode::Char('?') && !k.control && !k.alt && !k.other {
        Some(Command::ToggleHelp)
    } else {
        match k.code {
            KeyCode::Char(c) => {
                if ctrl {
                    match filter_for(c) {
                        Some(s) => {
                            if app.config.sources.enabled(&s) {
                                Some(Command::Filter(s))
                            } else {
                                None
                            }
                        },
                        None => None,
                    }
                } else {
                    None
                }
            },
            _ => None,
        }
    }
}

impl App {
    /// Runs a command (see `command_done`); `escape` and `control` tell whether the key
    /// was Esc and whether Ctrl was held.
    pub fn execute_command(&mut self, command: Command, escape: bool, control: bool) -> (r: Action)
        requires
            navigable(*old(self)),
        ensures
            command_done(*old(self), *final(self), command, escape, control, r),
    {
        match command {
            Command::Back => {
                if escape && self.input_mode == InputMode::Search {
                    self.input_mode = InputMode::Normal;
                    Action::Continue
                } else {
                    Action::Quit
                }
            },
            Command::Open => {
                if self.topology_view() {
                    Action::Open
                } else {
                    match self.selected_entry() {
                        Some(_) => Action::Open,
                        None => Action::Continue,
                    }
                }
            },
            Command::OpenTemplate => {
                if self.topology_view() {
                    Action::OpenTemplate
                } else {
                    match self.selected_entry() {
                        Some(_) => Action::OpenTemplate,
                        None => Action::Continue,
                    }
                }
            },
            Command::Update => Action::Update,
            Command::MoveUp => {
                self.topology_move_vertical(-1);
                Action::Continue
            },
            Command::MoveDown => {
                self.topology_move_vertical(1);
                Action::Continue
            },
            Command::Collapse => {
                if self.topology_view() {
                    match self.topology_cursor.depth {
                        TopologyDepth::Workspace => {},
                        TopologyDepth::Tab => self.topology_cursor.leave_to_workspace(),
                        TopologyDepth::Pane => self.topology_cursor.leave_to_tab(),
                    }
                }
                Action::Continue
            },
            Command::Expand => {
                if self.topology_view() {
                    self.topology_move_horizontal(1);
                }
                Action::Continue
            },
            Command::StartSearch => {
                self.input_mode = InputMode::Search;
                Action::Continue
            },
            Command::DeleteChar => {
                let mut q = chars_of(self.query.as_str());
                q.pop();
                self.query = string_of(q.as_slice());
                assert(self.query@ == (if old(self).query@.len() > 0 {
                    old(self).query@.drop_last()
                } else {
                    seq![]
                }));
                let ghost mid = *self;
                assert(mid == (App { query: mid.query, ..*old(self) }));
                self.apply_filter();
                assert(self.query == mid.query);
                Action::Continue
            },
            Command::DeleteWord => {
                self.delete_query_word();
                self.apply_filter();
                Action::Continue
            },
            Command::Clear => {
                self.query = String::new();
                self.set_filter(None);
                self.input_mode = InputMode::Normal;
                self.apply_filter();
                Action::Continue
            },
            Command::CloseWorkspace => Action::CloseWorkspace,
            Command::ToggleMark => Action::ToggleMark,
            Command::ToggleHelp => {
                self.input_mode = InputMode::Help;
                Action::Continue
            },
            Command::Filter(source) => {
                if !control {
                    self.query = String::new();
                    self.input_mode = InputMode::Normal;
                }
                self.set_filter(Some(source));
                self.apply_filter();
                Action::Continue
            },
        }
    }
}

} // verus!

verus! {

/// The Topology move of a key in Normal mode: (kind, direction) with kind 0 between
/// Workspaces (`[`, `]`, Shift-K, Shift-J), 1 sideways (`h`, `l`, Tab, Shift-Tab), 2 up
/// or down (`k`, `j`), 3 open (Enter).
pub open spec fn topology_key(k: Key) -> Option<(u8, int)> {
    match k.code {
        KeyCode::Char(c) => if c == '[' && plain(k) {
            Some((0u8, -1int))
        } else if c == ']' && plain(k) {
            Some((0u8, 1int))
        } else if c == 'K' && with_shift(k) {
            Some((0u8, -1int))
        } else if c == 'J' && with_shift(k) {
            Some((0u8, 1int))
        } else if c == 'h' && plain(k) {
            Some((1u8, -1int))
        } else if c == 'l' && plain(k) {
            Some((1u8, 1int))
        } else if c == 'j' && plain(k) {
            Some((2u8, 1int))
        } else if c == 'k' && plain(k) {
            Some((2u8, -1int))
        } else {
            None
        },
        KeyCode::Tab => if plain(k) {
            Some((1u8, 1int))
        } else if with_shift(k) {
            Some((1u8, -1int))
        } else {
            None
        },
        KeyCode::BackTab => if with_shift(k) {
            Some((1u8, -1int))
        } else {
            None
        },
        KeyCode::Enter => if plain(k) {
            Some((3u8, 0int))
        } else {
            None
        },
        _ => None,
    }
}

/// What a key press makes of the Picker and which action follows: Tab keys do nothing in
/// the Result list; in Normal mode the Topology keys move the cursor or open; in the Help
/// panel only Back and Help return to Normal mode; a bound key runs its command (see
/// `command_done`); in Search mode other text keys are typed into the Query.
pub open spec fn key_done(before: App, after: App, k: Key, action: Action) -> bool {
    let topo = shows_topology(before.query@, before.source_filter);
    if before.input_mode != InputMode::Help && !topo && (k.code == KeyCode::Tab || k.code == KeyCode::BackTab) {
        after == before && action == Action::Continue
    } else if before.input_mode == InputMode::Normal && topo && topology_key(k) is Some {
        let (kind, d) = topology_key(k)->0;
        if kind == 0 {
            workspace_move_done(before, after, d) && action == Action::Continue
        } else if kind == 1 {
            horizontal_move_done(before, after, d) && action == Action::Continue
        } else if kind == 2 {
            vertical_move_done(before, after, d) && action == Action::Continue
        } else {
            after == before && action == Action::Open
        }
    } else {
        let c = command_of(before, k);
        if before.input_mode == InputMode::Help {
            action == Action::Continue && after == if c == Some(Command::Back) || c == Some(Command::ToggleHelp) {
                App { input_mode: InputMode::Normal, ..before }
            } else {
                before
            }
        } else if c is Some {
            command_done(before, after, c->0, k.code == KeyCode::Esc, k.control, action)
        } else if before.input_mode == InputMode::Search && k.code is Char && textual(k) {
            action == Action::Continue && after.query@ == before.query@.push(k.code->Char_0) && filter_applied(
                App { query: after.query, ..before },
                after,
            )
        } else {
            after == before && action == Action::Continue
        }
    }
}

/// Outside Search mode a key bound to nothing changes nothing: plain letters in Normal
/// mode are inert until the search trigger.
pub proof fn law_unbound_keys_are_inert_outside_search(before: App, after: App, k: Key, action: Action)
    requires
        key_done(before, after, k, action),
        before.input_mode != InputMode::Search,
        command_of(before, k) is None,
        !(before.input_mode == InputMode::Normal && shows_topology(before.query@, before.source_filter)
            && topology_key(k) is Some),
    ensures
        after == before,
        action == Action::Continue,
{
}

fn topology_key_exec(k: Key) -> (r: Option<(u8, isize)>)
    ensures
        match r {
            Some((kind, d)) => topology_key(k) == Some((kind, d as int)),
            None => topology_key(k) is None,
        },
{
    let plain = !k.shift && !k.control && !k.alt && !k.other;
    let shift = k.shift && !k.control && !k.alt && !k.other;
    match k.code {
        KeyCode::Char(c) => if c == '[' && plain {
            Some((0, -1))
        } else if c == ']' && plain {
            Some((0, 1))
        } else if c == 'K' && shift {
            Some((0, -1))
        } else if c == 'J' && shift {
            Some((0, 1))
        } else if c == 'h' && plain {
            Some((1, -1))
        } else if c == 'l' && plain {
            Some((1, 1))
        } else if c == 'j' && plain {
            Some((2, 1))
        } else if c == 'k' && plain {
            Some((2, -1))
        } else {
            None
        },
        KeyCode::Tab => if plain {
            Some((1, 1))
        } else if shift {
            Some((1, -1))
        } else {
            None
        },
        KeyCode::BackTab => if shift {
            Some((1, -1))
        } else {
            None
        },
        KeyCode::Enter => if plain {
            Some((3, 0))
        } else {
            None
        },
        _ => None,
    }
}

impl App {
    /// Handles a key press (see `key_done`).
    pub fn handle_key(&mut self, key: Key) -> (r: Action)
        requires
            navigable(*old(self)),
        ensures
            key_done(*old(self), *final(self), key, r),
    {
        let topo = self.topology_view();
        if self.input_mode != InputMode::Help && !topo && (key.code == KeyCode::Tab || key.code == KeyCode::BackTab) {
            return Action::Continue;
        }
        if self.input_mode == InputMode::Normal && topo {
            match topology_key_exec(key) {
                Some((kind, d)) => {
                    if kind == 0 {
                        self.topology_move_workspace(d);
                        return Action::Continue;
                    } else if kind == 1 {
                        self.topology_move_horizontal(d);
                        return Action::Continue;
                    } else if kind == 2 {
                        self.topology_move_vertical(d);
                        return Action::Continue;
                    } else {
                        return Action::Open;
                    }
                },
                None => {},
            }
        }
        let command = command_for(self, key);
        if self.input_mode == InputMode::Help {
            if command == Some(Command::Back) || command == Some(Command::ToggleHelp) {
                self.input_mode = InputMode::Normal;
            }
            return Action::Continue;
        }
        match command {
            Some(c) => {
                return self.execute_command(c, key.code == KeyCode::Esc, key.control);
            },
            None => {},
        }
        if self.input_mode == InputMode::Search {
            match key.code {
                KeyCode::Char(c) => {
                    if !key.control && !key.alt && !key.other {
                        let mut q = chars_of(self.query.as_str());
                        q.push(c);
                        self.query = string_of(q.as_slice());
                        let ghost mid = *self;
                        assert(mid == (App { query: mid.query, ..*old(self) }));
                        self.apply_filter();
                    }
                },
                _ => {},
            }
        }
        Action::Continue
    }
}

} // verus!
