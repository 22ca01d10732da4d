//! What opening, closing and jumping back do: the Herdr commands to run and the errors
//! to report, decided from the Picker state; running them is left to the caller.
use vstd::prelude::*;
use crate::app::{reused_workspace, App};
use crate::json::{array_of, bool_of, field, field_of, str_field, Json};
use crate::model::{entry_key, Entry, EntryAction, WorkspaceKind};
use crate::text::strings_view;

verus! {

/// The Workspaces of a Workspace list reply (`result.workspaces`).
pub open spec fn listed_workspaces(v: Json) -> Option<Seq<Json>> {
    array_of(field_of(field(v, "result"@), "workspaces"@))
}

/// The first listed Workspace at or after `from` that is focused.
pub open spec fn first_focused_ws(ws: Seq<Json>, from: int) -> Option<int>
    decreases ws.len() - from,
{
    if from < 0 || from >= ws.len() {
        None
    } else if bool_of(field(ws[from], "focused"@)) == Some(true) {
        Some(from)
    } else {
        first_focused_ws(ws, from + 1)
    }
}

/// The first listed Workspace at or after `from` with ID `id`.
pub open spec fn first_with_id(ws: Seq<Json>, id: Seq<char>, from: int) -> Option<int>
    decreases ws.len() - from,
{
    if from < 0 || from >= ws.len() {
        None
    } else if str_field(ws[from], "workspace_id"@) == Some(id) {
        Some(from)
    } else {
        first_with_id(ws, id, from + 1)
    }
}

/// The ID of the focused Workspace of a Workspace list reply: that of the first focused
/// Workspace.
pub open spec fn focused_id_of(v: Json) -> Option<Seq<char>> {
    match listed_workspaces(v) {
        Some(ws) => match first_focused_ws(ws, 0) {
            Some(i) => str_field(ws[i], "workspace_id"@),
            None => None,
        },
        None => None,
    }
}

/// The label of Workspace `id` in a Workspace list reply: that of the first Workspace
/// with the ID.
pub open spec fn label_of(v: Json, id: Seq<char>) -> Option<Seq<char>> {
    match listed_workspaces(v) {
        Some(ws) => match first_with_id(ws, id, 0) {
            Some(i) => str_field(ws[i], "label"@),
            None => None,
        },
        None => None,
    }
}

fn listed<'a>(json: &'a Json) -> (r: Option<&'a Vec<Json>>)
    ensures
        match r {
            Some(a) => listed_workspaces(*json) == Some(a@),
            None => listed_workspaces(*json) is None,
        },
{
    match crate::json::get_opt(json.get("result"), "workspaces") {
        Some(v) => v.as_array(),
        None => None,
    }
}

/// The ID of the focused Workspace of a Workspace list reply.
pub fn focused_workspace_id(json: &Json) -> (r: Option<&str>)
    ensures
        crate::recent::opt_str_view(r) == focused_id_of(*json),
{
    let ws = match listed(json) {
        Some(a) => a,
        None => {
            return None;
        },
    };
    let mut i: usize = 0;
    while i < ws.len()
        invariant
            i <= ws@.len(),
            listed_workspaces(*json) == Some(ws@),
            first_focused_ws(ws@, 0) == first_focused_ws(ws@, i as int),
        decreases ws.len() - i,
    {
        let focused = match ws[i].get("focused") {
            Some(x) => x.as_bool() == Some(true),
            None => false,
        };
        if focused {
            return crate::json::str_at(&ws[i], "workspace_id");
        }
        i = i + 1;
    }
    None
}

/// The label of Workspace `id` in a Workspace list reply.
pub fn workspace_label<'a>(json: &'a Json, id: &str) -> (r: Option<&'a str>)
    ensures
        crate::recent::opt_str_view(r) == label_of(*json, id@),
{
    let ws = match listed(json) {
        Some(a) => a,
        None => {
            return None;
        },
    };
    let mut i: usize = 0;
    while i < ws.len()
        invariant
            i <= ws@.len(),
            listed_workspaces(*json) == Some(ws@),
            first_with_id(ws@, id@, 0) == first_with_id(ws@, id@, i as int),
        decreases ws.len() - i,
    {
        let same = match crate::json::str_at(&ws[i], "workspace_id") {
            Some(w) => crate::text::eq_str(w, id),
            None => false,
        };
        if same {
            return crate::json::str_at(&ws[i], "label");
        }
        i = i + 1;
    }
    None
}

/// What Jump Back does once the current and previous Workspaces are known.
#[derive(Debug)]
pub enum JumpBackStep {
    /// Focus the previous Workspace (shown by `label`) and remember the current one.
    Go { previous: String, label: String },
    /// Refuse with a message.
    Refuse(String),
    /// The previous Workspace is gone: forget it and refuse with a message.
    Forget(String),
}

/// Jump Back's decision: refuse when disabled or when the current Workspace is unknown or
/// the previous one cannot be read; refuse when the previous one is the current one;
/// forget it when it is no longer listed; otherwise go there.
pub open spec fn jump_back_decision(
    enabled: bool,
    list: Json,
    previous: Result<Seq<char>, Seq<char>>,
) -> (u8, Seq<char>, Seq<char>) {
    if !enabled {
        (1, "jump back is disabled in config"@, seq![])
    } else {
        match focused_id_of(list) {
            None => (1, "can't determine the current workspace"@, seq![]),
            Some(current) => match previous {
                Err(m) => (1, m, seq![]),
                Ok(p) => if p == current {
                    (1, "no previous workspace yet"@, seq![])
                } else {
                    match label_of(list, p) {
                        Some(l) => (0, p, l),
                        None => (2, "previous workspace no longer exists"@, seq![]),
                    }
                },
            },
        }
    }
}

/// A step as (kind, first text, second text): kind 0 goes (previous, label), 1 refuses
/// (message), 2 forgets (message).
pub open spec fn step_view(s: JumpBackStep) -> (u8, Seq<char>, Seq<char>) {
    match s {
        JumpBackStep::Go { previous, label } => (0, previous@, label@),
        JumpBackStep::Refuse(m) => (1, m@, seq![]),
        JumpBackStep::Forget(m) => (2, m@, seq![]),
    }
}

/// Decides Jump Back from the Workspace list reply and the stored previous Workspace.
pub fn plan_jump_back(enabled: bool, list: &Json, previous: Result<String, String>) -> (r: JumpBackStep)
    ensures
        step_view(r) == jump_back_decision(enabled, *list, crate::pins::result_view(previous)),
{
    if !enabled {
        return JumpBackStep::Refuse("jump back is disabled in config".to_owned());
    }
    let current = match focused_workspace_id(list) {
        Some(c) => c,
        None => {
            return JumpBackStep::Refuse("can't determine the current workspace".to_owned());
        },
    };
    let previous = match previous {
        Ok(p) => p,
        Err(m) => {
            return JumpBackStep::Refuse(m);
        },
    };
    if crate::text::eq_str(previous.as_str(), current) {
        return JumpBackStep::Refuse("no previous workspace yet".to_owned());
    }
    match workspace_label(list, previous.as_str()) {
        Some(l) => {
            let label = l.to_owned();
            JumpBackStep::Go { previous, label }
        },
        None => JumpBackStep::Forget("previous workspace no longer exists".to_owned()),
    }
}

/// What opening an Entry runs.
#[derive(Debug)]
pub enum OpenStep {
    /// Run Herdr with these arguments.
    Herdr(Vec<String>),
    /// Focus this Pane through the socket API.
    FocusPane(String),
    /// Open the Entry's project (see `plan_open_project`).
    OpenProject,
    /// Hand off to this remote target.
    OpenRemote(String),
    /// Focus or create the Entry's directory Workspace (see `plan_open_dir`).
    FocusOrCreateDir,
    /// Run this integration command.
    RunCommand(String),
}

/// The step of an action as (kind, arguments).
pub open spec fn open_step_view(s: OpenStep) -> (u8, Seq<Seq<char>>) {
    match s {
        OpenStep::Herdr(args) => (0, strings_view(args@)),
        OpenStep::FocusPane(id) => (1, seq![id@]),
        OpenStep::OpenProject => (2, seq![]),
        OpenStep::OpenRemote(t) => (3, seq![t@]),
        OpenStep::FocusOrCreateDir => (4, seq![]),
        OpenStep::RunCommand(c) => (5, seq![c@]),
    }
}

/// What opening an action runs, and whether success and failure are notified: agents,
/// plugin actions, Workspaces and Tabs through Herdr commands, Panes through the socket
/// API; remote hand-off notifies only failures; commands notify as configured.
pub open spec fn open_plan_of(a: EntryAction) -> ((u8, Seq<Seq<char>>), bool, bool) {
    match a {
        EntryAction::FocusAgent { target } => ((0, seq!["agent"@, "focus"@, target@]), true, true),
        EntryAction::FocusPane { id, .. } => ((1, seq![id@]), true, true),
        EntryAction::FocusWorkspace { id, .. } => ((0, seq!["workspace"@, "focus"@, id@]), true, true),
        EntryAction::FocusTab { id, .. } => ((0, seq!["tab"@, "focus"@, id@]), true, true),
        EntryAction::OpenProject => ((2, seq![]), true, true),
        EntryAction::OpenRemote { target } => ((3, seq![target@]), false, true),
        EntryAction::InvokePluginAction { action } => (
            (0, seq!["plugin"@, "action"@, "invoke"@, action@]),
            true,
            true,
        ),
        EntryAction::FocusOrCreateDir => ((4, seq![]), true, true),
        EntryAction::RunCommand { command, notify_success, notify_error } => (
            (5, seq![command@]),
            notify_success,
            notify_error,
        ),
    }
}

fn args(words: &[&str]) -> (r: Vec<String>)
    ensures
        strings_view(r@) == words@.map_values(|w: &str| w@),
{
    let mut out: Vec<String> = Vec::new();
    let mut i: usize = 0;
    while i < words.len()
        invariant
            i <= words@.len(),
            strings_view(out@) == words@.take(i as int).map_values(|w: &str| w@),
        decreases words.len() - i,
    {
        let ghost before = strings_view(out@);
        let w = words[i].to_owned();
        assert(w@ == words@[i as int]@);
        out.push(w);
        assert(strings_view(out@) =~= before.push(w@));
        assert(words@.take(i + 1).map_values(|w: &str| w@) =~= words@.take(i as int).map_values(|w: &str| w@).push(words@[i as int]@));
        i = i + 1;
    }
    assert(words@.take(words@.len() as int) =~= words@);
    out
}

/// What opening an action runs, with its success and failure notification flags.
pub fn open_plan(action: &EntryAction) -> (r: (OpenStep, bool, bool))
    ensures
        (open_step_view(r.0), r.1, r.2) == open_plan_of(*action),
{
    match action {
        EntryAction::FocusAgent { target } => {
            let a = ["agent", "focus", target.as_str()];
            let v = args(&a);
            assert(a@.map_values(|w: &str| w@) =~= seq!["agent"@, "focus"@, target@]);
            (OpenStep::Herdr(v), true, true)
        },
        EntryAction::FocusPane { id, .. } => (OpenStep::FocusPane(id.clone()), true, true),
        EntryAction::FocusWorkspace { id, .. } => {
            let a = ["workspace", "focus", id.as_str()];
            let v = args(&a);
            assert(a@.map_values(|w: &str| w@) =~= seq!["workspace"@, "focus"@, id@]);
            (OpenStep::Herdr(v), true, true)
        },
        EntryAction::FocusTab { id, .. } => {
            let a = ["tab", "focus", id.as_str()];
            let v = args(&a);
            assert(a@.map_values(|w: &str| w@) =~= seq!["tab"@, "focus"@, id@]);
            (OpenStep::Herdr(v), true, true)
        },
        EntryAction::OpenProject => (OpenStep::OpenProject, true, true),
        EntryAction::OpenRemote { target } => (OpenStep::OpenRemote(target.clone()), false, true),
        EntryAction::InvokePluginAction { action } => {
            let a = ["plugin", "action", "invoke", action.as_str()];
            let v = args(&a);
            assert(a@.map_values(|w: &str| w@) =~= seq!["plugin"@, "action"@, "invoke"@, action@]);
            (OpenStep::Herdr(v), true, true)
        },
        EntryAction::FocusOrCreateDir => (OpenStep::FocusOrCreateDir, true, true),
        EntryAction::RunCommand { command, notify_success, notify_error } => (
            OpenStep::RunCommand(command.clone()),
            *notify_success,
            *notify_error,
        ),
    }
}

/// The Herdr arguments that create a focused Workspace labelled `label` in `dir`.
pub open spec fn create_args(dir: Seq<char>, label: Seq<char>) -> Seq<Seq<char>> {
    seq!["workspace"@, "create"@, "--cwd"@, dir, "--label"@, label, "--focus"@]
}

/// The Herdr arguments that create a focused Workspace labelled `label` in `dir`.
pub fn create_workspace_args(dir: &str, label: &str) -> (r: Vec<String>)
    ensures
        strings_view(r@) == create_args(dir@, label@),
{
    let a = ["workspace", "create", "--cwd", dir, "--label", label, "--focus"];
    let v = args(&a);
    assert(a@.map_values(|w: &str| w@) =~= create_args(dir@, label@));
    v
}

/// How a project or directory destination is opened.
#[derive(Debug)]
pub enum ReuseStep {
    /// Focus this open Workspace.
    Focus(String),
    /// Create a Workspace with these Herdr arguments.
    Create(Vec<String>),
    /// Refuse with a message.
    Refuse(String),
}

/// A reuse step as (kind, texts): 0 focuses (ID), 1 creates (arguments), 2 refuses
/// (message).
pub open spec fn reuse_view(s: ReuseStep) -> (u8, Seq<Seq<char>>) {
    match s {
        ReuseStep::Focus(id) => (0, seq![id@]),
        ReuseStep::Create(a) => (1, strings_view(a@)),
        ReuseStep::Refuse(m) => (2, seq![m@]),
    }
}

/// How a destination at path key `key` of kind `kind` is opened: an open Workspace is
/// reused when reuse is on; otherwise a Workspace is created in `dir` labelled `label`,
/// unless creation is off.
pub open spec fn reuse_decision(app: App, key: Seq<char>, kind: WorkspaceKind, dir: Seq<char>, label: Seq<char>) -> (u8, Seq<Seq<char>>) {
    if app.config.picker.reuse_existing && reused_workspace(app, key, kind) is Some {
        (0, seq![reused_workspace(app, key, kind)->0.id@])
    } else if !app.config.picker.create_missing {
        (2, seq!["create_missing=false and no workspace exists"@])
    } else {
        (1, create_args(dir, label))
    }
}

/// The label a project Workspace is created with: the project's name, else the Entry
/// title.
pub open spec fn project_label(e: Entry) -> Seq<char> {
    match e.project {
        Some(p) => p.name@,
        None => e.title@,
    }
}

impl App {
    /// How a project Entry is opened (see `reuse_decision`; the Workspace is created in
    /// the Entry's path, labelled by `project_label`).
    pub fn plan_open_project(&self, e: &Entry) -> (r: ReuseStep)
        ensures
            reuse_view(r) == reuse_decision(*self, entry_key(*e), WorkspaceKind::Project, e.path@, project_label(*e)),
    {
        if self.config.picker.reuse_existing {
            match self.matching_project_workspace(e) {
                Some(ws) => {
                    return ReuseStep::Focus(ws.id.clone());
                },
                None => {},
            }
        }
        if !self.config.picker.create_missing {
            return ReuseStep::Refuse("create_missing=false and no workspace exists".to_owned());
        }
        let label = match &e.project {
            Some(p) => p.name.as_str(),
            None => e.title.as_str(),
        };
        ReuseStep::Create(create_workspace_args(e.path.as_str(), label))
    }

    /// How a directory is opened without a template (see `reuse_decision`): `key` is
    /// the directory's canonical path key, `dir` its path.
    pub fn plan_open_dir(&self, key: &str, dir: &str, label: &str) -> (r: ReuseStep)
        ensures
            reuse_view(r) == reuse_decision(*self, key@, WorkspaceKind::Dir, dir@, label@),
    {
        if self.config.picker.reuse_existing {
            match self.matching_template_workspace_by_key(key) {
                Some(ws) => {
                    return ReuseStep::Focus(ws.id.clone());
                },
                None => {},
            }
        }
        if !self.config.picker.create_missing {
            return ReuseStep::Refuse("create_missing=false and no workspace exists".to_owned());
        }
        ReuseStep::Create(create_workspace_args(dir, label))
    }
}

/// What closing the selected Workspace does.
#[derive(Debug)]
pub struct ClosePlan {
    /// The Workspace to close.
    pub id: String,
    /// The closed Entry's title.
    pub title: String,
    /// The Workspace to focus first, when the Picker was launched from one.
    pub focus_first: Option<String>,
}

/// Why closing the Workspace that owns the Picker is refused.
pub open spec fn owns_picker_error() -> Seq<char> {
    "refusing to close the workspace that owns the picker; switch away first"@
}

/// Closing's decision given the Workspace the Picker was launched from: refuse with
/// nothing selected or nothing to close; refuse to close the Workspace that owns the
/// Picker (the User switches away first); otherwise focus the launching Workspace first,
/// if any.
pub open spec fn close_decision(app: App, launcher: Option<Seq<char>>) -> Result<
    (Seq<char>, Seq<char>, Option<Seq<char>>),
    Seq<char>,
> {
    if !(app.selected < app.filtered@.len() && app.filtered@[app.selected as int] < app.entries@.len()) {
        Err("nothing selected"@)
    } else {
        let e = app.entries@[app.filtered@[app.selected as int] as int];
        match crate::app::close_target(app, e) {
            None => Err("no open workspace for selected item"@),
            Some(id) => if launcher == Some(id) {
                Err(owns_picker_error())
            } else {
                Ok((id, e.title@, launcher))
            },
        }
    }
}

/// Helm never closes the Workspace that owns the Picker: a close planned from a
/// launching Workspace closes another one and focuses the launching one first.
pub proof fn law_close_spares_the_picker_workspace(app: App, launcher: Seq<char>)
    ensures
        close_decision(app, Some(launcher)) matches Ok((id, title, first)) ==> id != launcher && first
            == Some(launcher),
{
}

/// Jump Back goes to the previous Workspace whenever it is still listed and is not the
/// current one, and shows it by its label.
pub proof fn law_jump_back_goes_to_listed_previous(list: Json, previous: Seq<char>)
    requires
        focused_id_of(list) matches Some(current) && current != previous,
        label_of(list, previous) is Some,
    ensures
        jump_back_decision(true, list, Ok(previous)) == (0u8, previous, label_of(list, previous)->0),
{
}

/// A close plan as (Workspace, title, Workspace to focus first).
pub open spec fn close_view(p: ClosePlan) -> (Seq<char>, Seq<char>, Option<Seq<char>>) {
    (p.id@, p.title@, crate::model::opt_view(p.focus_first))
}

impl App {
    /// Decides how the selected Entry's Workspace is closed (see `close_decision`).
    pub fn plan_close(&self, launcher: Option<&str>) -> (r: Result<ClosePlan, String>)
        ensures
            match r {
                Ok(p) => close_decision(*self, crate::recent::opt_str_view(launcher)) == Ok::<
                    (Seq<char>, Seq<char>, Option<Seq<char>>),
                    Seq<char>,
                >(close_view(p)),
                Err(m) => close_decision(*self, crate::recent::opt_str_view(launcher)) == Err::<
                    (Seq<char>, Seq<char>, Option<Seq<char>>),
                    Seq<char>,
                >(m@),
            },
    {
        let e = match self.selected_entry() {
            Some(e) => e,
            None => {
                return Err("nothing selected".to_owned());
            },
        };
        let id = match self.workspace_to_close(e) {
            Some(id) => id,
            None => {
                return Err("no open workspace for selected item".to_owned());
            },
        };
        let focus_first = match launcher {
            Some(l) => {
                if crate::text::eq_str(l, id.as_str()) {
                    return Err("refusing to close the workspace that owns the picker; switch away first".to_owned());
                }
                Some(l.to_owned())
            },
            None => None,
        };
        Ok(ClosePlan { id, title: e.title.clone(), focus_first })
    }
}

} // verus!
