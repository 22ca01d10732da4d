//! Sources, Entries and their actions: the destinations that the Picker lists.
use vstd::prelude::*;
use crate::text::{chars_of, extend, string_of, strings_view};

verus! {

/// A category that supplies Entries to the Result list.
#[derive(Clone, Copy, Debug, PartialEq, Eq, Structural)]
pub enum Source {
    Workspace,
    Agent,
    Project,
    Session,
    Zoxide,
    Root,
    Server,
    QuickAction,
    Integration,
}

/// The label that names a Source in configuration and in Entry rows.
pub open spec fn source_label(s: Source) -> Seq<char> {
    match s {
        Source::Workspace => "workspace"@,
        Source::Agent => "agent"@,
        Source::Project => "project"@,
        Source::Session => "session"@,
        Source::Zoxide => "zoxide"@,
        Source::Root => "root"@,
        Source::Server => "server"@,
        Source::QuickAction => "quick"@,
        Source::Integration => "plugin"@,
    }
}

impl Source {
    /// The Source's label, such as `workspace`, `quick` or `plugin`.
    pub fn label(&self) -> (r: &'static str)
        ensures
            r@ == source_label(*self),
    {
        match self {
            Source::Workspace => "workspace",
            Source::Agent => "agent",
            Source::Project => "project",
            Source::Session => "session",
            Source::Zoxide => "zoxide",
            Source::Root => "root",
            Source::Server => "server",
            Source::QuickAction => "quick",
            Source::Integration => "plugin",
        }
    }
}

/// The kind of an open Workspace, read from its label prefix.
#[derive(Clone, Copy, Debug, PartialEq, Eq, Structural)]
pub enum WorkspaceKind {
    Project,
    Dir,
    Unknown,
}

/// An open Workspace that a path maps to.
#[derive(Clone, Debug)]
pub struct WorkspaceRef {
    pub id: String,
    pub label: String,
    pub kind: WorkspaceKind,
    pub path: String,
    pub tab_count: i64,
    pub pane_count: i64,
}

/// A Herdr Plus project definition.
#[derive(Clone, Debug)]
pub struct Project {
    pub name: String,
    pub description: String,
    pub working_dir: String,
    pub tabs: Vec<String>,
}

/// The operation performed when the User opens an Entry.
#[derive(Clone, Debug)]
pub enum EntryAction {
    FocusAgent { target: String },
    FocusPane { session: Option<String>, id: String },
    FocusWorkspace { session: Option<String>, id: String },
    FocusTab { session: Option<String>, id: String },
    OpenProject,
    OpenRemote { target: String },
    InvokePluginAction { action: String },
    FocusOrCreateDir,
    RunCommand { command: String, notify_success: bool, notify_error: bool },
}

/// A navigable destination represented in the Result list.
#[derive(Clone, Debug)]
pub struct Entry {
    pub source: Source,
    pub title: String,
    pub subtitle: String,
    pub path: String,
    pub workspace_id: Option<String>,
    pub workspace_label: Option<String>,
    pub agent_target: Option<String>,
    pub project: Option<Project>,
    pub action: EntryAction,
    pub source_label: Option<String>,
    pub search_terms: Vec<String>,
}

/// The characters of an optional string.
pub open spec fn opt_view(o: Option<String>) -> Option<Seq<char>> {
    match o {
        Some(s) => Some(s@),
        None => None,
    }
}

/// The session name used in keys: the name, or `<default>` when there is none.
pub open spec fn session_or_default(session: Option<String>) -> Seq<char> {
    match session {
        Some(s) => s@,
        None => "<default>"@,
    }
}

/// The Source label that an Entry shows when no explicit label is set: Workspace,
/// Tab and Pane destinations name their level, others their Source.
pub open spec fn ordinary_label(e: Entry) -> Seq<char> {
    match e.action {
        EntryAction::FocusWorkspace { .. } => "workspace"@,
        EntryAction::FocusTab { .. } => "tab"@,
        EntryAction::FocusPane { .. } | EntryAction::FocusAgent { .. } => "pane"@,
        _ => source_label(e.source),
    }
}

/// The Source name that an Entry row shows.
pub open spec fn source_name_of(e: Entry) -> Seq<char> {
    match e.source_label {
        Some(l) => l@,
        None => ordinary_label(e),
    }
}

/// The identity of an Entry's destination: the session-qualified pane key for a pane,
/// the path otherwise.
pub open spec fn entry_key(e: Entry) -> Seq<char> {
    match e.action {
        EntryAction::FocusPane { session, id } => "pane:"@ + session_or_default(session) + ":"@
            + id@,
        _ => e.path@,
    }
}

/// The text that the fuzzy matcher searches: title, subtitle, path and search terms,
/// separated by single spaces.
pub open spec fn haystack_of(e: Entry) -> Seq<char> {
    join_with_space(seq![e.title@, e.subtitle@, e.path@] + strings_view(e.search_terms@))
}

/// `parts` joined by single spaces.
pub open spec fn join_with_space(parts: Seq<Seq<char>>) -> Seq<char>
    decreases parts.len(),
{
    if parts.len() == 0 {
        seq![]
    } else if parts.len() == 1 {
        parts[0]
    } else {
        join_with_space(parts.drop_last()) + seq![' '] + parts.last()
    }
}

/// A copy of an optional string.
pub fn clone_opt(o: &Option<String>) -> (r: Option<String>)
    ensures
        r == *o,
{
    match o {
        Some(s) => Some(s.clone()),
        None => None,
    }
}

/// A copy of a list of strings.
pub fn clone_strings(v: &Vec<String>) -> (r: Vec<String>)
    ensures
        r@ == v@,
{
    let mut out: Vec<String> = Vec::new();
    let mut i: usize = 0;
    while i < v.len()
        invariant
            i <= v.len(),
            out@ == v@.take(i as int),
        decreases v.len() - i,
    {
        out.push(v[i].clone());
        assert(v@.take(i + 1) =~= v@.take(i as int).push(v@[i as int]));
        i = i + 1;
    }
    assert(v@.take(v.len() as int) =~= v@);
    out
}

/// A copy of an Entry's action.
pub fn clone_action(a: &EntryAction) -> (r: EntryAction)
    ensures
        r == *a,
{
    match a {
        EntryAction::FocusAgent { target } => EntryAction::FocusAgent { target: target.clone() },
        EntryAction::FocusPane { session, id } => EntryAction::FocusPane {
            session: clone_opt(session),
            id: id.clone(),
        },
        EntryAction::FocusWorkspace { session, id } => EntryAction::FocusWorkspace {
            session: clone_opt(session),
            id: id.clone(),
        },
        EntryAction::FocusTab { session, id } => EntryAction::FocusTab {
            session: clone_opt(session),
            id: id.clone(),
        },
        EntryAction::OpenProject => EntryAction::OpenProject,
        EntryAction::OpenRemote { target } => EntryAction::OpenRemote { target: target.clone() },
        EntryAction::InvokePluginAction { action } => EntryAction::InvokePluginAction {
            action: action.clone(),
        },
        EntryAction::FocusOrCreateDir => EntryAction::FocusOrCreateDir,
        EntryAction::RunCommand { command, notify_success, notify_error } =>
            EntryAction::RunCommand {
            command: command.clone(),
            notify_success: *notify_success,
            notify_error: *notify_error,
        },
    }
}

/// Two project definitions with the same fields.
pub open spec fn same_project(a: Project, b: Project) -> bool {
    &&& a.name == b.name
    &&& a.description == b.description
    &&& a.working_dir == b.working_dir
    &&& a.tabs@ == b.tabs@
}

/// Two Entries with the same fields.
pub open spec fn same_entry(a: Entry, b: Entry) -> bool {
    &&& a.source == b.source
    &&& a.title == b.title
    &&& a.subtitle == b.subtitle
    &&& a.path == b.path
    &&& a.workspace_id == b.workspace_id
    &&& a.workspace_label == b.workspace_label
    &&& a.agent_target == b.agent_target
    &&& a.project is Some == b.project is Some
    &&& (a.project is Some ==> same_project(a.project->0, b.project->0))
    &&& a.action == b.action
    &&& a.source_label == b.source_label
    &&& a.search_terms@ == b.search_terms@
}

/// A copy of a project definition.
pub fn clone_project(p: &Project) -> (r: Project)
    ensures
        same_project(r, *p),
{
    Project {
        name: p.name.clone(),
        description: p.description.clone(),
        working_dir: p.working_dir.clone(),
        tabs: clone_strings(&p.tabs),
    }
}

/// A copy of an Entry.
pub fn clone_entry(e: &Entry) -> (r: Entry)
    ensures
        same_entry(r, *e),
        r@ == e@,
{
    let r = Entry {
        source: e.source,
        title: e.title.clone(),
        subtitle: e.subtitle.clone(),
        path: e.path.clone(),
        workspace_id: clone_opt(&e.workspace_id),
        workspace_label: clone_opt(&e.workspace_label),
        agent_target: clone_opt(&e.agent_target),
        project: match &e.project {
            Some(p) => Some(clone_project(p)),
            None => None,
        },
        action: clone_action(&e.action),
        source_label: clone_opt(&e.source_label),
        search_terms: clone_strings(&e.search_terms),
    };
    assert(r@.project == e@.project);
    r
}

/// Copies of a list of Entries.
pub fn clone_entries(es: &Vec<Entry>) -> (r: Vec<Entry>)
    ensures
        entries_view(r@) == entries_view(es@),
{
    let mut out: Vec<Entry> = Vec::new();
    let mut i: usize = 0;
    while i < es.len()
        invariant
            i <= es@.len(),
            entries_view(out@) == entries_view(es@.take(i as int)),
        decreases es.len() - i,
    {
        out.push(clone_entry(&es[i]));
        assert(entries_view(es@.take(i + 1)) =~= entries_view(es@.take(i as int)).push(es@[i as int]@));
        assert(entries_view(out@) =~= entries_view(es@.take(i as int)).push(es@[i as int]@));
        i = i + 1;
    }
    assert(es@.take(es.len() as int) =~= es@);
    out
}

/// The session name used in keys, as characters.
pub fn session_or_default_chars(session: &Option<String>) -> (r: Vec<char>)
    ensures
        r@ == session_or_default(*session),
{
    match session {
        Some(s) => chars_of(s.as_str()),
        None => chars_of("<default>"),
    }
}

impl Entry {
    /// The label that the Entry shows when no explicit label is set.
    pub fn ordinary_label(&self) -> (r: &'static str)
        ensures
            r@ == ordinary_label(*self),
    {
        match self.action {
            EntryAction::FocusWorkspace { .. } => "workspace",
            EntryAction::FocusTab { .. } => "tab",
            EntryAction::FocusPane { .. } | EntryAction::FocusAgent { .. } => "pane",
            _ => self.source.label(),
        }
    }

    /// The Source name shown in the Entry row: the explicit label when there is one.
    pub fn source_name(&self) -> (r: String)
        ensures
            r@ == source_name_of(*self),
    {
        match &self.source_label {
            Some(l) => l.clone(),
            None => string_of(chars_of(self.ordinary_label()).as_slice()),
        }
    }

    /// The identity of the Entry's destination.
    pub fn key(&self) -> (r: String)
        ensures
            r@ == entry_key(*self),
    {
        match &self.action {
            EntryAction::FocusPane { session, id } => {
                let mut out = chars_of("pane:");
                let s = session_or_default_chars(session);
                extend(&mut out, s.as_slice());
                let colon = chars_of(":");
                extend(&mut out, colon.as_slice());
                let idc = chars_of(id.as_str());
                extend(&mut out, idc.as_slice());
                string_of(out.as_slice())
            },
            _ => self.path.clone(),
        }
    }

    /// The text that the fuzzy matcher searches.
    pub fn haystack(&self) -> (r: String)
        ensures
            r@ == haystack_of(*self),
    {
        let ghost parts = seq![self.title@, self.subtitle@, self.path@] + strings_view(
            self.search_terms@,
        );
        let mut out = chars_of(self.title.as_str());
        let sub = chars_of(self.subtitle.as_str());
        let ghost t0 = out@;
        out.push(' ');
        extend(&mut out, sub.as_slice());
        assert(out@ == join_with_space(parts.take(2))) by {
            assert(t0.push(' ') + sub@ =~= t0 + seq![' '] + sub@);
            assert(parts.take(2).drop_last() =~= parts.take(1));
            assert(parts.take(1) =~= seq![self.title@]);
            assert(parts[0] == self.title@);
            assert(parts[1] == self.subtitle@);
            assert(parts.take(2).last() == self.subtitle@);
            assert(join_with_space(seq![self.title@]) == self.title@);
        }
        let p = chars_of(self.path.as_str());
        let ghost t1 = out@;
        out.push(' ');
        extend(&mut out, p.as_slice());
        assert(out@ == join_with_space(parts.take(3))) by {
            assert(t1.push(' ') + p@ =~= t1 + seq![' '] + p@);
            assert(parts.take(3).drop_last() =~= parts.take(2));
            assert(parts[2] == self.path@);
            assert(parts.take(3).last() == self.path@);
        }
        let mut i: usize = 0;
        while i < self.search_terms.len()
            invariant
                i <= self.search_terms.len(),
                parts == seq![self.title@, self.subtitle@, self.path@] + strings_view(
                    self.search_terms@,
                ),
                out@ == join_with_space(parts.take(3 + i)),
            decreases self.search_terms.len() - i,
        {
            let t = chars_of(self.search_terms[i].as_str());
            let ghost t2 = out@;
            out.push(' ');
            extend(&mut out, t.as_slice());
            assert(parts.take(3 + i + 1).drop_last() =~= parts.take(3 + i));
            assert(parts.take(3 + i + 1).last() == self.search_terms@[i as int]@);
            assert(t2.push(' ') + t@ =~= t2 + seq![' '] + t@);
            i = i + 1;
        }
        assert(parts.take(3 + self.search_terms.len()) =~= parts);
        string_of(out.as_slice())
    }
}

} // verus!

verus! {

/// The character vectors joined by single spaces.
pub fn join_words(parts: &Vec<Vec<char>>) -> (r: Vec<char>)
    ensures
        r@ == join_with_space(parts@.map_values(|p: Vec<char>| p@)),
{
    let ghost ps = parts@.map_values(|p: Vec<char>| p@);
    let mut out: Vec<char> = Vec::new();
    if parts.len() == 0 {
        return out;
    }
    extend(&mut out, parts[0].as_slice());
    assert(ps.take(1) =~= seq![ps[0]]);
    let mut i: usize = 1;
    while i < parts.len()
        invariant
            1 <= i <= parts.len(),
            ps == parts@.map_values(|p: Vec<char>| p@),
            out@ == join_with_space(ps.take(i as int)),
        decreases parts.len() - i,
    {
        let ghost before = out@;
        out.push(' ');
        extend(&mut out, parts[i].as_slice());
        assert(ps.take(i + 1).drop_last() =~= ps.take(i as int));
        assert(ps.take(i + 1).last() == parts@[i as int]@);
        assert(before.push(' ') + parts@[i as int]@ =~= before + seq![' '] + parts@[i as int]@);
        i = i + 1;
    }
    assert(ps.take(parts.len() as int) =~= ps);
    out
}

} // verus!

verus! {

/// What a Project definition holds.
pub struct ProjectModel {
    pub name: Seq<char>,
    pub description: Seq<char>,
    pub working_dir: Seq<char>,
    pub tabs: Seq<Seq<char>>,
}

/// What an Entry action holds.
pub enum ActionModel {
    FocusAgent { target: Seq<char> },
    FocusPane { session: Option<Seq<char>>, id: Seq<char> },
    FocusWorkspace { session: Option<Seq<char>>, id: Seq<char> },
    FocusTab { session: Option<Seq<char>>, id: Seq<char> },
    OpenProject,
    OpenRemote { target: Seq<char> },
    InvokePluginAction { action: Seq<char> },
    FocusOrCreateDir,
    RunCommand { command: Seq<char>, notify_success: bool, notify_error: bool },
}

/// What an Entry holds.
pub struct EntryModel {
    pub source: Source,
    pub title: Seq<char>,
    pub subtitle: Seq<char>,
    pub path: Seq<char>,
    pub workspace_id: Option<Seq<char>>,
    pub workspace_label: Option<Seq<char>>,
    pub agent_target: Option<Seq<char>>,
    pub project: Option<ProjectModel>,
    pub action: ActionModel,
    pub source_label: Option<Seq<char>>,
    pub search_terms: Seq<Seq<char>>,
}

impl View for Project {
    type V = ProjectModel;

    open spec fn view(&self) -> ProjectModel {
        ProjectModel {
            name: self.name@,
            description: self.description@,
            working_dir: self.working_dir@,
            tabs: strings_view(self.tabs@),
        }
    }
}

impl View for EntryAction {
    type V = ActionModel;

    open spec fn view(&self) -> ActionModel {
        match *self {
            EntryAction::FocusAgent { target } => ActionModel::FocusAgent { target: target@ },
            EntryAction::FocusPane { session, id } => ActionModel::FocusPane { session: opt_view(session), id: id@ },
            EntryAction::FocusWorkspace { session, id } => ActionModel::FocusWorkspace {
                session: opt_view(session),
                id: id@,
            },
            EntryAction::FocusTab { session, id } => ActionModel::FocusTab { session: opt_view(session), id: id@ },
            EntryAction::OpenProject => ActionModel::OpenProject,
            EntryAction::OpenRemote { target } => ActionModel::OpenRemote { target: target@ },
            EntryAction::InvokePluginAction { action } => ActionModel::InvokePluginAction { action: action@ },
            EntryAction::FocusOrCreateDir => ActionModel::FocusOrCreateDir,
            EntryAction::RunCommand { command, notify_success, notify_error } => ActionModel::RunCommand {
                command: command@,
                notify_success,
                notify_error,
            },
        }
    }
}

impl View for Entry {
    type V = EntryModel;

    open spec fn view(&self) -> EntryModel {
        EntryModel {
            source: self.source,
            title: self.title@,
            subtitle: self.subtitle@,
            path: self.path@,
            workspace_id: opt_view(self.workspace_id),
            workspace_label: opt_view(self.workspace_label),
            agent_target: opt_view(self.agent_target),
            project: match self.project {
                Some(p) => Some(p@),
                None => None,
            },
            action: self.action@,
            source_label: opt_view(self.source_label),
            search_terms: strings_view(self.search_terms@),
        }
    }
}

/// The views of a list of Entries.
pub open spec fn entries_view(es: Seq<Entry>) -> Seq<EntryModel> {
    es.map_values(|e: Entry| e@)
}

} // verus!
