//! The key bindings that the footer and the help list show.
use vstd::prelude::*;
use crate::app::App;
use crate::config::{source_enabled, SourcesConfig};
use crate::input::{command_for, command_of, Command, Key};
use crate::model::Source;

verus! {

/// A key binding as shown to the User: the command, the keys that run it and what it does.
pub struct KeyBinding {
    pub command: Command,
    pub keys: String,
    pub label: String,
}

/// A binding as (command, keys, label).
pub open spec fn binding_view(b: KeyBinding) -> (Command, Seq<char>, Seq<char>) {
    (b.command, b.keys@, b.label@)
}

/// The action bindings, in the order shown.
pub open spec fn action_rows() -> Seq<(Command, Seq<char>, Seq<char>)> {
    seq![
        (Command::MoveDown, "↓/j"@, "up/down"@),
        (Command::Open, "⏎"@, "open"@),
        (Command::StartSearch, "/"@, "search"@),
        (Command::ToggleMark, "⌃B"@, "mark"@),
        (Command::CloseWorkspace, "⌃X"@, "close"@),
        (Command::ToggleHelp, "?"@, "help"@),
        (Command::Back, "esc"@, "back"@),
    ]
}

/// The filter binding of `s`, shown when `s` is enabled.
#[verifier::opaque]
pub open spec fn filter_row(c: SourcesConfig, s: Source, keys: Seq<char>, label: Seq<char>) -> Seq<
    (Command, Seq<char>, Seq<char>),
> {
    if source_enabled(c, s) {
        seq![(Command::Filter(s), keys, label)]
    } else {
        seq![]
    }
}

/// The filter bindings of the enabled Sources, in the order shown.
pub open spec fn filter_rows(c: SourcesConfig) -> Seq<(Command, Seq<char>, Seq<char>)> {
    filter_row(c, Source::Workspace, "⌃W"@, "workspaces"@) + filter_row(c, Source::Agent, "⌃A"@, "agent"@)
        + filter_row(c, Source::Project, "⌃P"@, "project"@) + filter_row(c, Source::QuickAction, "⌃Q"@, "quick"@)
        + filter_row(c, Source::Server, "⌃S"@, "server"@) + filter_row(c, Source::Session, "⌃L"@, "session"@)
        + filter_row(c, Source::Zoxide, "⌃Z"@, "zoxide"@) + filter_row(c, Source::Root, "⌃R"@, "root"@)
}

fn push_binding(out: &mut Vec<KeyBinding>, command: Command, keys: &str, label: &str)
    ensures
        final(out)@.map_values(|b: KeyBinding| binding_view(b)) == old(out)@.map_values(
            |b: KeyBinding| binding_view(b),
        ).push((command, keys@, label@)),
{
    let ghost before = out@;
    out.push(KeyBinding { command, keys: keys.to_owned(), label: label.to_owned() });
    assert(out@.map_values(|b: KeyBinding| binding_view(b)) =~= before.map_values(|b: KeyBinding| binding_view(b)).push(
        (command, keys@, label@),
    ));
}

fn push_filter(out: &mut Vec<KeyBinding>, c: &SourcesConfig, s: Source, keys: &str, label: &str)
    ensures
        final(out)@.map_values(|b: KeyBinding| binding_view(b)) == old(out)@.map_values(
            |b: KeyBinding| binding_view(b),
        ) + filter_row(*c, s, keys@, label@),
{
    reveal(filter_row);
    if c.enabled(&s) {
        push_binding(out, Command::Filter(s), keys, label);
    } else {
        assert(out@.map_values(|b: KeyBinding| binding_view(b)) + filter_row(*c, s, keys@, label@) =~= out@.map_values(
            |b: KeyBinding| binding_view(b),
        ));
    }
}

fn action_bindings() -> (r: Vec<KeyBinding>)
    ensures
        r@.map_values(|b: KeyBinding| binding_view(b)) == action_rows(),
{
    let mut out: Vec<KeyBinding> = Vec::new();
    assert(out@.map_values(|b: KeyBinding| binding_view(b)) =~= Seq::<(Command, Seq<char>, Seq<char>)>::empty());
    push_binding(&mut out, Command::MoveDown, "↓/j", "up/down");
    push_binding(&mut out, Command::Open, "⏎", "open");
    push_binding(&mut out, Command::StartSearch, "/", "search");
    push_binding(&mut out, Command::ToggleMark, "⌃B", "mark");
    push_binding(&mut out, Command::CloseWorkspace, "⌃X", "close");
    push_binding(&mut out, Command::ToggleHelp, "?", "help");
    push_binding(&mut out, Command::Back, "esc", "back");
    assert(out@.map_values(|b: KeyBinding| binding_view(b)) =~= action_rows());
    out
}

#[verifier::rlimit(40)]
fn push_filters(out: &mut Vec<KeyBinding>, c: &SourcesConfig)
    ensures
        final(out)@.map_values(|b: KeyBinding| binding_view(b)) == old(out)@.map_values(
            |b: KeyBinding| binding_view(b),
        ) + filter_rows(*c),
{
    let ghost s0 = out@.map_values(|b: KeyBinding| binding_view(b));
    push_filter(out, c, Source::Workspace, "⌃W", "workspaces");
    push_filter(out, c, Source::Agent, "⌃A", "agent");
    let ghost s2 = out@.map_values(|b: KeyBinding| binding_view(b));
    assert(s2 =~= s0 + (filter_row(*c, Source::Workspace, "⌃W"@, "workspaces"@) + filter_row(*c, Source::Agent, "⌃A"@, "agent"@)));
    push_filter(out, c, Source::Project, "⌃P", "project");
    push_filter(out, c, Source::QuickAction, "⌃Q", "quick");
    let ghost s4 = out@.map_values(|b: KeyBinding| binding_view(b));
    assert(s4 =~= s2 + (filter_row(*c, Source::Project, "⌃P"@, "project"@) + filter_row(*c, Source::QuickAction, "⌃Q"@, "quick"@)));
    push_filter(out, c, Source::Server, "⌃S", "server");
    push_filter(out, c, Source::Session, "⌃L", "session");
    let ghost s6 = out@.map_values(|b: KeyBinding| binding_view(b));
    assert(s6 =~= s4 + (filter_row(*c, Source::Server, "⌃S"@, "server"@) + filter_row(*c, Source::Session, "⌃L"@, "session"@)));
    push_filter(out, c, Source::Zoxide, "⌃Z", "zoxide");
    push_filter(out, c, Source::Root, "⌃R", "root");
    let ghost s8 = out@.map_values(|b: KeyBinding| binding_view(b));
    assert(s8 =~= s6 + (filter_row(*c, Source::Zoxide, "⌃Z"@, "zoxide"@) + filter_row(*c, Source::Root, "⌃R"@, "root"@)));
    assert(s8 =~= s0 + filter_rows(*c));
}

/// The bindings shown: the actions, then the filters of the enabled Sources.
pub fn keybindings(app: &App) -> (r: Vec<KeyBinding>)
    ensures
        r@.map_values(|b: KeyBinding| binding_view(b)) == action_rows() + filter_rows(app.config.sources),
{
    let mut out = action_bindings();
    push_filters(&mut out, &app.config.sources);
    out
}

impl KeyBinding {
    /// Whether key `k` runs this binding's command.
    pub fn matches(&self, app: &App, k: Key) -> (r: bool)
        ensures
            r == (command_of(*app, k) == Some(self.command)),
    {
        match command_for(app, k) {
            Some(c) => c == self.command,
            None => false,
        }
    }
}

} // verus!
