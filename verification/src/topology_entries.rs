//! The Entries of the live topology: one per Workspace, Tab and Pane, so that a Query
//! finds them in the Result list.
use vstd::prelude::*;
use crate::model::{entries_view, ActionModel, Entry, EntryAction, EntryModel, Source};
use crate::render::or_unnamed;
use crate::text::{append_str, chars_of, string_of};
use crate::topology::{OpenTopology, PaneModel, TabModel, WorkspaceModel, WorkspaceNode};

verus! {

/// The first non-empty Pane directory among the first `n` Panes of `ps`.
pub open spec fn first_cwd_in(ps: Seq<PaneModel>, from: int) -> Option<Seq<char>>
    decreases ps.len() - from,
{
    if from < 0 || from >= ps.len() {
        None
    } else if ps[from].cwd.len() > 0 {
        Some(ps[from].cwd)
    } else {
        first_cwd_in(ps, from + 1)
    }
}

/// The first non-empty Pane directory among the Tabs from `from`.
pub open spec fn first_cwd(ts: Seq<TabModel>, from: int) -> Option<Seq<char>>
    decreases ts.len() - from,
{
    if from < 0 || from >= ts.len() {
        None
    } else {
        match first_cwd_in(ts[from].panes, 0) {
            Some(c) => Some(c),
            None => first_cwd(ts, from + 1),
        }
    }
}

/// The directory of a Workspace Entry: its first Pane directory, else its label.
pub open spec fn workspace_path(w: WorkspaceModel) -> Seq<char> {
    match first_cwd(w.tabs, 0) {
        Some(c) => c,
        None => w.label,
    }
}

/// The session name used in keys.
pub open spec fn session_name(s: Option<Seq<char>>) -> Seq<char> {
    match s {
        Some(n) => n,
        None => "<default>"@,
    }
}

/// The Entry of an open Workspace.
pub open spec fn workspace_query_entry(w: WorkspaceModel) -> EntryModel {
    EntryModel {
        source: Source::Workspace,
        title: w.label,
        subtitle: w.id,
        path: workspace_path(w),
        workspace_id: Some(w.id),
        workspace_label: Some(w.label),
        agent_target: None,
        project: None,
        action: ActionModel::FocusWorkspace { session: w.session, id: w.id },
        source_label: None,
        search_terms: seq![w.id, w.label],
    }
}

/// The Entry of a Tab.
pub open spec fn tab_query_entry(w: WorkspaceModel, t: TabModel) -> EntryModel {
    let crumb = w.label + " › "@ + t.label;
    EntryModel {
        source: Source::Workspace,
        title: t.label,
        subtitle: crumb,
        path: crumb,
        workspace_id: Some(w.id),
        workspace_label: Some(w.label),
        agent_target: None,
        project: None,
        action: ActionModel::FocusTab { session: w.session, id: t.id },
        source_label: None,
        search_terms: seq![w.label, t.id, t.label],
    }
}

/// The Entry of a Pane: its session-qualified key is a search term, and a Pane running an
/// agent is that agent's target.
pub open spec fn pane_query_entry(w: WorkspaceModel, t: TabModel, p: PaneModel) -> EntryModel {
    EntryModel {
        source: Source::Workspace,
        title: or_unnamed(p.label),
        subtitle: w.label + " › "@ + t.label + " › "@ + or_unnamed(p.label),
        path: p.cwd,
        workspace_id: Some(w.id),
        workspace_label: Some(w.label),
        agent_target: if p.agent is Some {
            Some(p.id)
        } else {
            None
        },
        project: None,
        action: ActionModel::FocusPane { session: w.session, id: p.id },
        source_label: None,
        search_terms: seq!["pane:"@ + session_name(w.session) + ":"@ + p.id, p.id, p.label],
    }
}

/// The Entries of the first `n` Tabs of a Workspace, each followed by its Panes.
pub open spec fn tab_entries_of(w: WorkspaceModel, n: int) -> Seq<EntryModel>
    decreases n,
{
    if n <= 0 {
        seq![]
    } else {
        let t = w.tabs[n - 1];
        tab_entries_of(w, n - 1) + seq![tab_query_entry(w, t)] + t.panes.map_values(
            |p: PaneModel| pane_query_entry(w, t, p),
        )
    }
}

/// The Entries of the first `n` Workspaces, each followed by its Tabs and Panes.
pub open spec fn query_entries_of(ws: Seq<WorkspaceModel>, n: int) -> Seq<EntryModel>
    decreases n,
{
    if n <= 0 {
        seq![]
    } else {
        query_entries_of(ws, n - 1) + seq![workspace_query_entry(ws[n - 1])] + tab_entries_of(
            ws[n - 1],
            ws[n - 1].tabs.len() as int,
        )
    }
}

} // verus!

verus! {

use crate::model::clone_opt;
use crate::topology::{PaneNode, TabNode};

fn workspace_path_of(w: &WorkspaceNode) -> (r: String)
    ensures
        r@ == workspace_path(w@),
{
    let mut i: usize = 0;
    while i < w.tabs.len()
        invariant
            i <= w.tabs@.len(),
            first_cwd(w@.tabs, 0) == first_cwd(w@.tabs, i as int),
        decreases w.tabs.len() - i,
    {
        let tab = &w.tabs[i];
        let mut j: usize = 0;
        while j < tab.panes.len()
            invariant
                j <= tab.panes@.len(),
                i < w.tabs@.len(),
                tab@ == w@.tabs[i as int],
                first_cwd_in(w@.tabs[i as int].panes, 0) == first_cwd_in(w@.tabs[i as int].panes, j as int),
                first_cwd(w@.tabs, 0) == first_cwd(w@.tabs, i as int),
            decreases tab.panes.len() - j,
        {
            if !tab.panes[j].cwd.as_str().is_empty() {
                return tab.panes[j].cwd.clone();
            }
            j = j + 1;
        }
        i = i + 1;
    }
    w.label.clone()
}

fn workspace_query(w: &WorkspaceNode, path: String) -> (r: Entry)
    requires
        path@ == workspace_path(w@),
    ensures
        r@ == workspace_query_entry(w@),
{
    let mut terms: Vec<String> = Vec::new();
    terms.push(w.id.clone());
    terms.push(w.label.clone());
    let e = Entry {
        source: Source::Workspace,
        title: w.label.clone(),
        subtitle: w.id.clone(),
        path,
        workspace_id: Some(w.id.clone()),
        workspace_label: Some(w.label.clone()),
        agent_target: None,
        project: None,
        action: EntryAction::FocusWorkspace { session: clone_opt(&w.session), id: w.id.clone() },
        source_label: None,
        search_terms: terms,
    };
    assert(e@.search_terms =~= workspace_query_entry(w@).search_terms);
    e
}

fn tab_query(w: &WorkspaceNode, t: &TabNode) -> (r: Entry)
    ensures
        r@ == tab_query_entry(w@, t@),
{
    let mut crumb: Vec<char> = Vec::new();
    append_str(&mut crumb, w.label.as_str());
    append_str(&mut crumb, " › ");
    append_str(&mut crumb, t.label.as_str());
    let mut terms: Vec<String> = Vec::new();
    terms.push(w.label.clone());
    terms.push(t.id.clone());
    terms.push(t.label.clone());
    let e = Entry {
        source: Source::Workspace,
        title: t.label.clone(),
        subtitle: string_of(crumb.as_slice()),
        path: string_of(crumb.as_slice()),
        workspace_id: Some(w.id.clone()),
        workspace_label: Some(w.label.clone()),
        agent_target: None,
        project: None,
        action: EntryAction::FocusTab { session: clone_opt(&w.session), id: t.id.clone() },
        source_label: None,
        search_terms: terms,
    };
    assert(e@.search_terms =~= tab_query_entry(w@, t@).search_terms);
    e
}

fn pane_query(w: &WorkspaceNode, t: &TabNode, p: &PaneNode) -> (r: Entry)
    ensures
        r@ == pane_query_entry(w@, t@, p@),
{
    let label = crate::render::or_unnamed_text(p.label.as_str());
    let mut crumb: Vec<char> = Vec::new();
    append_str(&mut crumb, w.label.as_str());
    append_str(&mut crumb, " › ");
    append_str(&mut crumb, t.label.as_str());
    append_str(&mut crumb, " › ");
    append_str(&mut crumb, label);
    let mut key = chars_of("pane:");
    let s = crate::model::session_or_default_chars(&w.session);
    crate::text::extend(&mut key, s.as_slice());
    append_str(&mut key, ":");
    append_str(&mut key, p.id.as_str());
    let mut terms: Vec<String> = Vec::new();
    terms.push(string_of(key.as_slice()));
    terms.push(p.id.clone());
    terms.push(p.label.clone());
    let e = Entry {
        source: Source::Workspace,
        title: label.to_owned(),
        subtitle: string_of(crumb.as_slice()),
        path: p.cwd.clone(),
        workspace_id: Some(w.id.clone()),
        workspace_label: Some(w.label.clone()),
        agent_target: if p.agent.is_some() {
            Some(p.id.clone())
        } else {
            None
        },
        project: None,
        action: EntryAction::FocusPane { session: clone_opt(&w.session), id: p.id.clone() },
        source_label: None,
        search_terms: terms,
    };
    assert(e@.search_terms =~= pane_query_entry(w@, t@, p@).search_terms);
    e
}

/// The Entries of the live topology: every Workspace followed by its Tabs, each Tab
/// followed by its Panes (see `query_entries_of`).
pub fn query_entries(topology: &OpenTopology, _include_agents: bool) -> (r: Vec<Entry>)
    ensures
        entries_view(r@) == query_entries_of(topology@, topology@.len() as int),
{
    let mut out: Vec<Entry> = Vec::new();
    let mut i: usize = 0;
    while i < topology.workspaces.len()
        invariant
            i <= topology.workspaces@.len(),
            entries_view(out@) == query_entries_of(topology@, i as int),
        decreases topology.workspaces.len() - i,
    {
        let w = &topology.workspaces[i];
        assert(topology@[i as int] == w@);
        let ghost start = entries_view(out@);
        let path = workspace_path_of(w);
        let we = workspace_query(w, path);
        out.push(we);
        assert(entries_view(out@) =~= start.push(we@));
        let mut j: usize = 0;
        while j < w.tabs.len()
            invariant
                j <= w.tabs@.len(),
                entries_view(out@) == start + seq![workspace_query_entry(w@)] + tab_entries_of(w@, j as int),
            decreases w.tabs.len() - j,
        {
            let t = &w.tabs[j];
            assert(w@.tabs[j as int] == t@);
            let ghost mid = entries_view(out@);
            let te = tab_query(w, t);
            out.push(te);
            assert(entries_view(out@) =~= mid.push(te@));
            let mut k: usize = 0;
            while k < t.panes.len()
                invariant
                    k <= t.panes@.len(),
                    entries_view(out@) == mid + seq![tab_query_entry(w@, t@)] + t@.panes.take(k as int).map_values(
                        |p: PaneModel| pane_query_entry(w@, t@, p),
                    ),
                decreases t.panes.len() - k,
            {
                let ghost before = entries_view(out@);
                let pe = pane_query(w, t, &t.panes[k]);
                out.push(pe);
                assert(t@.panes.take(k + 1) =~= t@.panes.take(k as int).push(t.panes@[k as int]@));
                assert(entries_view(out@) =~= before.push(pe@));
                k = k + 1;
            }
            assert(t@.panes.take(t.panes@.len() as int) =~= t@.panes);
            j = j + 1;
        }
        i = i + 1;
    }
    out
}

} // verus!
