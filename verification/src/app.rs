//! Picker state: the Entries, the Query and Source filter, the Result list, marks,
//! Jump Back pinning and the Topology cursor.
use vstd::prelude::*;
use crate::config::{source_enabled, Config};
use crate::keyed::KeyedList;
use crate::keyset::KeySet;
use crate::model::{Entry, EntryAction, Source, WorkspaceKind, WorkspaceRef};
use crate::recent::RecentState;
use crate::text::{chars_of, is_blank, is_white, string_of, trim_end};
use crate::topology::{ChildSelection, OpenTopology, TopologyCursor};

verus! {

/// Whether keys edit the Query, act in Normal mode, or close the Help panel.
#[derive(Clone, Copy, Debug, PartialEq, Eq, Structural)]
pub enum InputMode {
    Normal,
    Search,
    Help,
}

/// The two exclusive projections of the Picker.
#[derive(Clone, Copy, Debug, PartialEq, Eq, Structural)]
pub enum ProjectionKind {
    Topology,
    Results,
}

/// The Picker state.
pub struct App {
    pub config: Config,
    pub entries: Vec<Entry>,
    pub filtered: Vec<usize>,
    pub filtered_scores: Vec<i64>,
    pub selected: usize,
    pub query: String,
    pub input_mode: InputMode,
    pub source_filter: Option<Source>,
    pub path_to_workspaces: KeyedList<Vec<WorkspaceRef>>,
    pub previous_workspace_id: Option<String>,
    pub pinned_entries: KeySet,
    pub recent_state: RecentState,
    pub spinner_tick: u32,
    pub update_available: Option<String>,
    pub topology: OpenTopology,
    pub topology_entries: Vec<Entry>,
    pub topology_cursor: TopologyCursor,
    pub topology_memory: KeyedList<ChildSelection>,
    pub herdr_agent_panel_sort: String,
    pub initial_selection_pending: bool,
}

/// The Topology is shown for an empty Query with no Source filter or the Workspace
/// filter; a flat Result list otherwise.
pub open spec fn shows_topology(query: Seq<char>, filter: Option<Source>) -> bool {
    is_blank(query) && (filter is None || filter == Some(Source::Workspace))
}

/// The last white-space index of `s`, if any.
pub open spec fn last_white(s: Seq<char>) -> Option<int>
    decreases s.len(),
{
    if s.len() == 0 {
        None
    } else if is_white(s.last()) {
        Some(s.len() - 1)
    } else {
        last_white(s.drop_last())
    }
}

/// The Query without its last word and the white space after it: everything up to and
/// including the last white space before that word.
pub open spec fn without_last_word(q: Seq<char>) -> Seq<char> {
    match last_white(trim_end(q)) {
        Some(i) => q.take(i + 1),
        None => seq![],
    }
}

proof fn lemma_trim_end_prefix(s: Seq<char>)
    ensures
        trim_end(s).is_prefix_of(s),
    decreases s.len(),
{
    if s.len() > 0 && is_white(s.last()) {
        lemma_trim_end_prefix(s.drop_last());
    }
}

proof fn lemma_last_white_bound(s: Seq<char>)
    ensures
        last_white(s) matches Some(i) ==> 0 <= i < s.len(),
    decreases s.len(),
{
    if s.len() > 0 && !is_white(s.last()) {
        lemma_last_white_bound(s.drop_last());
    }
}

impl App {
    /// A Picker with no Entries, an empty Query, Normal mode and no filter.
    pub fn new(config: Config) -> (r: App)
        ensures
            r.config == config,
            r.entries@.len() == 0,
            r.filtered@.len() == 0,
            r.selected == 0,
            r.query@.len() == 0,
            r.input_mode == InputMode::Normal,
            r.source_filter is None,
            r.previous_workspace_id is None,
            r.pinned_entries@ == Set::<Seq<char>>::empty(),
            r.topology.workspaces@.len() == 0,
            r.initial_selection_pending,
    {
        App {
            config,
            entries: Vec::new(),
            filtered: Vec::new(),
            filtered_scores: Vec::new(),
            selected: 0,
            query: String::new(),
            input_mode: InputMode::Normal,
            source_filter: None,
            path_to_workspaces: KeyedList::new(),
            previous_workspace_id: None,
            pinned_entries: KeySet::new(),
            recent_state: RecentState::default(),
            spinner_tick: 0,
            update_available: None,
            topology: OpenTopology::default(),
            topology_entries: Vec::new(),
            topology_cursor: TopologyCursor::default(),
            topology_memory: KeyedList::new(),
            herdr_agent_panel_sort: "spaces".to_owned(),
            initial_selection_pending: true,
        }
    }

    /// Which projection the Picker shows.
    pub fn projection_kind(&self) -> (r: ProjectionKind)
        ensures
            (r == ProjectionKind::Topology) == shows_topology(self.query@, self.source_filter),
    {
        let q = chars_of(self.query.as_str());
        let blank = crate::text::blank(q.as_slice());
        let filter_ok = match self.source_filter {
            None => true,
            Some(s) => s == Source::Workspace,
        };
        if blank && filter_ok {
            ProjectionKind::Topology
        } else {
            ProjectionKind::Results
        }
    }

    /// Whether the Topology is shown.
    pub fn topology_view(&self) -> (r: bool)
        ensures
            r == shows_topology(self.query@, self.source_filter),
    {
        self.projection_kind() == ProjectionKind::Topology
    }

    /// Drops the trailing word of the Query, plus any white space after it.
    pub fn delete_query_word(&mut self)
        ensures
            *final(self) == (App { query: final(self).query, ..*old(self) }),
            final(self).query@ == without_last_word(old(self).query@),
    {
        let q = chars_of(self.query.as_str());
        let ghost qv = q@;
        let mut end = q.len();
        assert(q@.take(end as int) =~= qv);
        while end > 0 && crate::text::is_whitespace(q[end - 1])
            invariant
                end <= q.len(),
                qv == q@,
                trim_end(qv) == trim_end(qv.take(end as int)),
            decreases end,
        {
            assert(qv.take(end as int).drop_last() =~= qv.take(end - 1));
            end = end - 1;
        }
        assert(trim_end(qv.take(end as int)) == qv.take(end as int)) by {
            if end > 0 {
                assert(qv.take(end as int).last() == q@[end - 1]);
            }
        }
        let ghost t = qv.take(end as int);
        let mut cut = end;
        assert(qv.take(cut as int) =~= t);
        while cut > 0 && !crate::text::is_whitespace(q[cut - 1])
            invariant
                cut <= end <= q.len(),
                qv == q@,
                t == qv.take(end as int),
                last_white(t) == last_white(qv.take(cut as int)),
            decreases cut,
        {
            assert(qv.take(cut as int).drop_last() =~= qv.take(cut - 1));
            cut = cut - 1;
        }
        proof {
            if cut > 0 {
                assert(qv.take(cut as int).last() == q@[cut - 1]);
                assert(last_white(qv.take(cut as int)) == Some(cut - 1));
            } else {
                assert(qv.take(0) =~= Seq::<char>::empty());
            }
        }
        self.query = string_of(crate::text::slice_vec(q.as_slice(), 0, cut).as_slice());
        assert(qv.subrange(0, cut as int) =~= without_last_word(qv));
    }

    /// Sets the Source filter: choosing the active filter again clears it, and a disabled
    /// Source is ignored. The selection returns to the first row.
    pub fn set_filter(&mut self, source: Option<Source>)
        ensures
            *final(self) == (App { source_filter: final(self).source_filter, selected: final(self).selected, ..*old(self) }),
            source is Some && !source_enabled(old(self).config.sources, source->0) ==> final(self).source_filter
                == old(self).source_filter && final(self).selected == old(self).selected,
            !(source is Some && !source_enabled(old(self).config.sources, source->0)) ==> final(self).source_filter
                == (if old(self).source_filter == source {
                None
            } else {
                source
            }) && final(self).selected == 0,
    {
        if let Some(s) = source {
            if !self.config.sources.enabled(&s) {
                return;
            }
        }
        self.source_filter = if self.source_filter == source {
            None
        } else {
            source
        };
        self.selected = 0;
    }

    /// Selects the next row, stopping at the last.
    pub fn next(&mut self)
        ensures
            *final(self) == (App { selected: final(self).selected, ..*old(self) }),
            old(self).filtered@.len() > 0 ==> final(self).selected == if old(self).selected + 1 < old(
                self,
            ).filtered@.len() {
                old(self).selected + 1
            } else {
                old(self).filtered@.len() - 1
            },
            old(self).filtered@.len() == 0 ==> final(self).selected == old(self).selected,
    {
        if self.filtered.len() > 0 {
            let last = self.filtered.len() - 1;
            self.selected = if self.selected < last {
                self.selected + 1
            } else {
                last
            };
        }
    }

    /// Selects the previous row, stopping at the first.
    pub fn prev(&mut self)
        ensures
            *final(self) == (App { selected: final(self).selected, ..*old(self) }),
            final(self).selected == if old(self).selected > 0 {
                old(self).selected - 1
            } else {
                0
            },
    {
        if self.selected > 0 {
            self.selected = self.selected - 1;
        }
    }

    /// The Entry of the selected row of the Result list.
    pub fn selected_entry(&self) -> (r: Option<&Entry>)
        ensures
            match r {
                Some(e) => self.selected < self.filtered@.len() && self.filtered@[self.selected as int]
                    < self.entries@.len() && *e == self.entries@[self.filtered@[self.selected as int] as int],
                None => self.selected >= self.filtered@.len() || self.filtered@[self.selected as int]
                    >= self.entries@.len(),
            },
    {
        if self.selected < self.filtered.len() {
            let idx = self.filtered[self.selected];
            if idx < self.entries.len() {
                return Some(&self.entries[idx]);
            }
        }
        None
    }
}

} // verus!

verus! {

/// The open Workspace that closing Entry `e` closes: a Workspace or agent Entry's own
/// Workspace, the reused Workspace of a project or directory, none for other Sources.
pub open spec fn close_target(app: App, e: Entry) -> Option<Seq<char>> {
    match e.source {
        Source::Workspace | Source::Agent => crate::model::opt_view(e.workspace_id),
        Source::Project => match reused_workspace(app, crate::model::entry_key(e), WorkspaceKind::Project) {
            Some(w) => Some(w.id@),
            None => None,
        },
        Source::Zoxide | Source::Root => match reused_workspace(app, crate::model::entry_key(e), WorkspaceKind::Dir) {
            Some(w) => Some(w.id@),
            None => None,
        },
        _ => None,
    }
}

/// The first Workspace of `ws` at or after `from` with the given kind.
pub open spec fn first_of_kind(ws: Seq<WorkspaceRef>, kind: WorkspaceKind, from: int) -> Option<int>
    decreases ws.len() - from,
{
    if from < 0 || from >= ws.len() {
        None
    } else if ws[from].kind == kind {
        Some(from)
    } else {
        first_of_kind(ws, kind, from + 1)
    }
}

/// The Workspace of `ws` that a destination of kind `kind` reuses: the first of that kind,
/// or else the first plain (unknown-kind) one.
pub open spec fn reusable(ws: Seq<WorkspaceRef>, kind: WorkspaceKind) -> Option<int> {
    match first_of_kind(ws, kind, 0) {
        Some(i) => Some(i),
        None => first_of_kind(ws, WorkspaceKind::Unknown, 0),
    }
}

/// The open Workspaces at a path key.
pub open spec fn workspaces_at(app: App, key: Seq<char>) -> Seq<WorkspaceRef> {
    match app.path_to_workspaces.get_spec(key) {
        Some(v) => v@,
        None => seq![],
    }
}

/// The Workspace reused for a destination of kind `kind` at path key `key`.
pub open spec fn reused_workspace(app: App, key: Seq<char>, kind: WorkspaceKind) -> Option<WorkspaceRef> {
    match reusable(workspaces_at(app, key), kind) {
        Some(i) => Some(workspaces_at(app, key)[i]),
        None => None,
    }
}

proof fn lemma_first_of_kind_found(ws: Seq<WorkspaceRef>, kind: WorkspaceKind, from: int)
    requires
        0 <= from,
    ensures
        first_of_kind(ws, kind, from) matches Some(i) ==> from <= i < ws.len() && ws[i].kind == kind,
        (exists|j: int| from <= j < ws.len() && ws[j].kind == kind) ==> first_of_kind(ws, kind, from) is Some,
    decreases ws.len() - from,
{
    if from < ws.len() && ws[from].kind != kind {
        lemma_first_of_kind_found(ws, kind, from + 1);
        if exists|j: int| from <= j < ws.len() && ws[j].kind == kind {
            let j = choose|j: int| from <= j < ws.len() && ws[j].kind == kind;
            assert(from + 1 <= j);
        }
    }
}

/// Same-path Workspaces keep their identities: a project destination never reuses a
/// directory Workspace, and a directory destination never reuses a project Workspace.
pub proof fn law_reuse_keeps_project_and_dir_apart(app: App, key: Seq<char>)
    ensures
        reused_workspace(app, key, WorkspaceKind::Project) matches Some(w) ==> w.kind != WorkspaceKind::Dir,
        reused_workspace(app, key, WorkspaceKind::Dir) matches Some(w) ==> w.kind != WorkspaceKind::Project,
{
    let ws = workspaces_at(app, key);
    lemma_first_of_kind_found(ws, WorkspaceKind::Project, 0);
    lemma_first_of_kind_found(ws, WorkspaceKind::Dir, 0);
    lemma_first_of_kind_found(ws, WorkspaceKind::Unknown, 0);
}

/// Reuse first: when a Workspace of the destination's kind, or a plain one, is open at
/// the path, one is reused rather than a new one created.
pub proof fn law_existing_workspace_is_reused(app: App, key: Seq<char>, kind: WorkspaceKind, i: int)
    requires
        0 <= i < workspaces_at(app, key).len(),
        workspaces_at(app, key)[i].kind == kind || workspaces_at(app, key)[i].kind == WorkspaceKind::Unknown,
    ensures
        reused_workspace(app, key, kind) is Some,
{
    let ws = workspaces_at(app, key);
    lemma_first_of_kind_found(ws, kind, 0);
    lemma_first_of_kind_found(ws, WorkspaceKind::Unknown, 0);
}

proof fn lemma_first_of_kind_range(ws: Seq<WorkspaceRef>, kind: WorkspaceKind, from: int)
    requires
        0 <= from,
    ensures
        first_of_kind(ws, kind, from) matches Some(i) ==> from <= i < ws.len(),
    decreases ws.len() - from,
{
    if from < ws.len() && ws[from].kind != kind {
        lemma_first_of_kind_range(ws, kind, from + 1);
    }
}

fn find_kind(ws: &Vec<WorkspaceRef>, kind: WorkspaceKind) -> (r: Option<usize>)
    ensures
        match r {
            Some(i) => first_of_kind(ws@, kind, 0) == Some(i as int) && i < ws@.len(),
            None => first_of_kind(ws@, kind, 0) is None,
        },
{
    let mut i: usize = 0;
    while i < ws.len()
        invariant
            i <= ws@.len(),
            first_of_kind(ws@, kind, 0) == first_of_kind(ws@, kind, i as int),
        decreases ws.len() - i,
    {
        if ws[i].kind == kind {
            return Some(i);
        }
        i = i + 1;
    }
    None
}

impl App {
    /// The Workspace reused for a destination of kind `kind` at path key `key`.
    fn reuse_by_key(&self, key: &str, kind: WorkspaceKind) -> (r: Option<&WorkspaceRef>)
        ensures
            match r {
                Some(w) => reused_workspace(*self, key@, kind) == Some(*w),
                None => reused_workspace(*self, key@, kind) is None,
            },
    {
        let ws = match self.path_to_workspaces.get(key) {
            Some(ws) => ws,
            None => {
                return None;
            },
        };
        match find_kind(ws, kind) {
            Some(i) => Some(&ws[i]),
            None => match find_kind(ws, WorkspaceKind::Unknown) {
                Some(i) => Some(&ws[i]),
                None => None,
            },
        }
    }

    /// The Workspace a project Entry reuses: a project Workspace at its path, or a plain
    /// one.
    pub fn matching_project_workspace(&self, e: &Entry) -> (r: Option<&WorkspaceRef>)
        ensures
            match r {
                Some(w) => reused_workspace(*self, crate::model::entry_key(*e), WorkspaceKind::Project) == Some(*w),
                None => reused_workspace(*self, crate::model::entry_key(*e), WorkspaceKind::Project) is None,
            },
    {
        let key = e.key();
        self.reuse_by_key(key.as_str(), WorkspaceKind::Project)
    }

    /// The Workspace a directory Entry reuses: a directory Workspace at its path, or a
    /// plain one.
    pub fn matching_dir_workspace(&self, e: &Entry) -> (r: Option<&WorkspaceRef>)
        ensures
            match r {
                Some(w) => reused_workspace(*self, crate::model::entry_key(*e), WorkspaceKind::Dir) == Some(*w),
                None => reused_workspace(*self, crate::model::entry_key(*e), WorkspaceKind::Dir) is None,
            },
    {
        let key = e.key();
        self.reuse_by_key(key.as_str(), WorkspaceKind::Dir)
    }

    /// The Workspace a directory template reuses at a path key: a directory Workspace, or
    /// a plain one.
    pub fn matching_template_workspace_by_key(&self, key: &str) -> (r: Option<&WorkspaceRef>)
        ensures
            match r {
                Some(w) => reused_workspace(*self, key@, WorkspaceKind::Dir) == Some(*w),
                None => reused_workspace(*self, key@, WorkspaceKind::Dir) is None,
            },
    {
        self.reuse_by_key(key, WorkspaceKind::Dir)
    }

    /// The open Workspace that closing the selected Entry closes (see `close_target`).
    pub fn workspace_to_close(&self, e: &Entry) -> (r: Option<String>)
        ensures
            crate::model::opt_view(r) == close_target(*self, *e),
    {
        match e.source {
            Source::Workspace | Source::Agent => crate::model::clone_opt(&e.workspace_id),
            Source::Project => match self.matching_project_workspace(e) {
                Some(w) => Some(w.id.clone()),
                None => None,
            },
            Source::Zoxide | Source::Root => match self.matching_dir_workspace(e) {
                Some(w) => Some(w.id.clone()),
                None => None,
            },
            _ => None,
        }
    }

    /// Whether an Entry is marked.
    pub fn is_pinned(&self, entry: &Entry) -> (r: bool)
        ensures
            r == self.pinned_entries@.contains(crate::pins::pin_key_of(*entry)),
    {
        let key = crate::pins::pin_key(entry);
        self.pinned_entries.contains(key.as_str())
    }

    /// The configured directory template, when it is set (not blank) and the selected
    /// Entry opens a directory.
    pub fn directory_template_for_selected(&self) -> (r: Option<String>)
        ensures
            match r {
                Some(t) => self.config.picker.directory_template is Some && t@ == crate::text::trim(
                    self.config.picker.directory_template->0@,
                ) && t@.len() > 0 && self.selected < self.filtered@.len() && self.filtered@[self.selected as int]
                    < self.entries@.len() && self.entries@[self.filtered@[self.selected as int] as int].action is FocusOrCreateDir,
                None => self.config.picker.directory_template is None || crate::text::trim(
                    self.config.picker.directory_template->0@,
                ).len() == 0 || !(self.selected < self.filtered@.len() && self.filtered@[self.selected as int]
                    < self.entries@.len() && self.entries@[self.filtered@[self.selected as int] as int].action is FocusOrCreateDir),
            },
    {
        let template = match &self.config.picker.directory_template {
            Some(t) => crate::text::trim_chars(chars_of(t.as_str()).as_slice()),
            None => {
                return None;
            },
        };
        if template.len() == 0 {
            return None;
        }
        match self.selected_entry() {
            Some(e) => {
                if matches!(e.action, EntryAction::FocusOrCreateDir) {
                    Some(string_of(template.as_slice()))
                } else {
                    None
                }
            },
            None => None,
        }
    }
}

} // verus!
