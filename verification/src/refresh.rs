//! Assembling the Picker's Entries from the collected Sources, and keeping the
//! recent-workspace history in step with the live Workspaces.
use vstd::prelude::*;
use crate::config::SourcesConfig;
use crate::keyset::KeySet;
use crate::model::{opt_view, Entry, EntryAction};
use crate::pins::{push_unique, pushed_unique};
use crate::recent::{history_in, normalized, opt_str_view, recent_key, RecentState};
use crate::text::strings_view;

verus! {

/// The session of the first Workspace Entry at or after `from`.
pub open spec fn first_session(es: Seq<Entry>, from: int) -> Option<Option<Seq<char>>>
    decreases es.len() - from,
{
    if from < 0 || from >= es.len() {
        None
    } else {
        match es[from].action {
            EntryAction::FocusWorkspace { session, .. } => Some(opt_view(session)),
            _ => first_session(es, from + 1),
        }
    }
}

/// The IDs of the Workspace Entries among the first `n`, in order.
pub open spec fn live_workspace_ids(es: Seq<Entry>, n: int) -> Seq<Seq<char>>
    decreases n,
{
    if n <= 0 {
        seq![]
    } else {
        match es[n - 1].action {
            EntryAction::FocusWorkspace { id, .. } => live_workspace_ids(es, n - 1).push(id@),
            _ => live_workspace_ids(es, n - 1),
        }
    }
}

/// The Workspace of the first Entry at or after `from` marked focused.
pub open spec fn focused_workspace(es: Seq<Entry>, from: int) -> Option<Seq<char>>
    decreases es.len() - from,
{
    if from < 0 || from >= es.len() {
        None
    } else if strings_view(es[from].search_terms@).contains("focused"@) {
        opt_view(es[from].workspace_id)
    } else {
        focused_workspace(es, from + 1)
    }
}

fn find_session(entries: &[Entry]) -> (r: Option<Option<&str>>)
    ensures
        match r {
            Some(s) => first_session(entries@, 0) == Some(opt_str_view(s)),
            None => first_session(entries@, 0) is None,
        },
{
    let mut i: usize = 0;
    while i < entries.len()
        invariant
            i <= entries@.len(),
            first_session(entries@, 0) == first_session(entries@, i as int),
        decreases entries.len() - i,
    {
        match &entries[i].action {
            EntryAction::FocusWorkspace { session, .. } => {
                return Some(
                    match session {
                        Some(s) => Some(s.as_str()),
                        None => None,
                    },
                );
            },
            _ => {},
        }
        i = i + 1;
    }
    None
}

fn live_ids_of(entries: &[Entry]) -> (r: Vec<String>)
    ensures
        strings_view(r@) == live_workspace_ids(entries@, entries@.len() as int),
{
    let mut out: Vec<String> = Vec::new();
    let mut i: usize = 0;
    while i < entries.len()
        invariant
            i <= entries@.len(),
            strings_view(out@) == live_workspace_ids(entries@, i as int),
        decreases entries.len() - i,
    {
        match &entries[i].action {
            EntryAction::FocusWorkspace { id, .. } => {
                let ghost before = strings_view(out@);
                out.push(id.clone());
                assert(strings_view(out@) =~= before.push(id@));
            },
            _ => {},
        }
        i = i + 1;
    }
    out
}

fn focused_id_of(entries: &[Entry]) -> (r: Option<&str>)
    ensures
        opt_str_view(r) == focused_workspace(entries@, 0),
{
    let mut i: usize = 0;
    while i < entries.len()
        invariant
            i <= entries@.len(),
            focused_workspace(entries@, 0) == focused_workspace(entries@, i as int),
        decreases entries.len() - i,
    {
        if crate::pins::is_focused_workspace_entry(&entries[i]) {
            return match &entries[i].workspace_id {
                Some(w) => Some(w.as_str()),
                None => None,
            };
        }
        i = i + 1;
    }
    None
}

/// Brings the recent history of the live session in step with its open Workspaces (see
/// `normalized`): the session is that of the first Workspace Entry; without Workspace
/// Entries nothing changes.
pub fn normalize_recent_state(state: &mut RecentState, entries: &[Entry])
    ensures
        match first_session(entries@, 0) {
            Some(s) => final(state).sessions@ == old(state).sessions@.insert(
                recent_key(s),
                normalized(
                    history_in(old(state).sessions@, recent_key(s)),
                    live_workspace_ids(entries@, entries@.len() as int),
                    focused_workspace(entries@, 0),
                ),
            ),
            None => final(state).sessions@ == old(state).sessions@,
        },
{
    let session = match find_session(entries) {
        Some(s) => s,
        None => {
            return;
        },
    };
    let live = live_ids_of(entries);
    let current = focused_id_of(entries);
    state.normalize(session, live.as_slice(), current);
}

/// A Pane Entry of the topology whose agent is `target`, among the first `n`.
pub open spec fn pane_runs(topo: Seq<Entry>, target: Seq<char>, n: int) -> bool
    decreases n,
{
    if n <= 0 {
        false
    } else {
        (topo[n - 1].action is FocusPane && opt_view(topo[n - 1].agent_target) == Some(target)) || pane_runs(
            topo,
            target,
            n - 1,
        )
    }
}

/// An Entry is an agent Entry whose agent runs in a topology Pane.
pub open spec fn covered(e: Entry, topo: Seq<Entry>) -> bool {
    match e.action {
        EntryAction::FocusAgent { target } => pane_runs(topo, target@, topo.len() as int),
        _ => false,
    }
}

/// The first `n` Entries without those covered by the topology.
pub open spec fn uncovered(es: Seq<Entry>, topo: Seq<Entry>, n: int) -> Seq<Entry>
    decreases n,
{
    if n <= 0 {
        seq![]
    } else if covered(es[n - 1], topo) {
        uncovered(es, topo, n - 1)
    } else {
        uncovered(es, topo, n - 1).push(es[n - 1])
    }
}

fn runs_in_pane(topo: &[Entry], target: &str) -> (r: bool)
    ensures
        r == pane_runs(topo@, target@, topo@.len() as int),
{
    let mut i: usize = 0;
    let mut found = false;
    while i < topo.len()
        invariant
            i <= topo@.len(),
            found == pane_runs(topo@, target@, i as int),
        decreases topo.len() - i,
    {
        let t = &topo[i];
        let here = matches!(t.action, EntryAction::FocusPane { .. }) && match &t.agent_target {
            Some(a) => crate::text::eq_str(a.as_str(), target),
            None => false,
        };
        found = found || here;
        i = i + 1;
    }
    found
}

/// Drops the agent Entries whose agent runs in a Pane of the topology (its Pane Entry
/// already lists it).
pub fn drop_covered_agents(entries: Vec<Entry>, topology_entries: &[Entry]) -> (r: Vec<Entry>)
    ensures
        r@ == uncovered(entries@, topology_entries@, entries@.len() as int),
{
    let ghost es = entries@;
    let n = entries.len();
    let mut rest = entries;
    let mut out: Vec<Entry> = Vec::new();
    let mut i: usize = 0;
    while i < n
        invariant
            i <= n,
            n == es.len(),
            rest@ == es.skip(i as int),
            out@ == uncovered(es, topology_entries@, i as int),
        decreases n - i,
    {
        let e = rest.remove(0);
        assert(e == es[i as int]);
        assert(rest@ =~= es.skip(i + 1));
        let drop = match &e.action {
            EntryAction::FocusAgent { target } => runs_in_pane(topology_entries, target.as_str()),
            _ => false,
        };
        if !drop {
            out.push(e);
        }
        i = i + 1;
    }
    out
}

/// The Entries of the Picker: projects, zoxide directories, roots and remotes (each when
/// enabled) deduplicated in that order, then agents (when enabled), the Quick Actions
/// Entry, and deduplicated integration commands; agent Entries covered by the topology
/// are dropped and the topology Entries follow.
pub open spec fn merged(
    c: SourcesConfig,
    projects: Seq<Entry>,
    zoxide: Seq<Entry>,
    roots: Seq<Entry>,
    remotes: Seq<Entry>,
    agents: Seq<Entry>,
    quick_action: Option<Entry>,
    commands: Seq<Entry>,
    topology: Seq<Entry>,
) -> Seq<Entry> {
    let s0: (Seq<Entry>, Set<Seq<char>>) = (seq![], Set::empty());
    let s1 = if c.herdr_plus_projects {
        pushed_unique(s0.0, s0.1, projects)
    } else {
        s0
    };
    let s2 = if c.zoxide {
        pushed_unique(s1.0, s1.1, zoxide)
    } else {
        s1
    };
    let s3 = if c.roots {
        pushed_unique(s2.0, s2.1, roots)
    } else {
        s2
    };
    let s4 = if c.servers {
        pushed_unique(s3.0, s3.1, remotes)
    } else {
        s3
    };
    let with_agents = if c.agents {
        s4.0 + agents
    } else {
        s4.0
    };
    let with_quick = match quick_action {
        Some(q) => if c.herdr_plus_quick_actions {
            with_agents.push(q)
        } else {
            with_agents
        },
        None => with_agents,
    };
    let s5 = pushed_unique(with_quick, s4.1, commands);
    uncovered(s5.0, topology, s5.0.len() as int) + topology
}

/// The Entries of the Picker from the collected Sources (see `merged`); the Quick
/// Actions Entry is given only when its directory exists.
pub fn merge_sources(
    config: &SourcesConfig,
    projects: Vec<Entry>,
    zoxide: Vec<Entry>,
    roots: Vec<Entry>,
    remotes: Vec<Entry>,
    agents: Vec<Entry>,
    quick_action: Option<Entry>,
    commands: Vec<Entry>,
    topology_entries: Vec<Entry>,
) -> (r: Vec<Entry>)
    ensures
        r@ == merged(
            *config,
            projects@,
            zoxide@,
            roots@,
            remotes@,
            agents@,
            quick_action,
            commands@,
            topology_entries@,
        ),
{
    let mut entries: Vec<Entry> = Vec::new();
    let mut seen = KeySet::new();
    if config.herdr_plus_projects {
        push_unique(&mut entries, &mut seen, projects);
    }
    if config.zoxide {
        push_unique(&mut entries, &mut seen, zoxide);
    }
    if config.roots {
        push_unique(&mut entries, &mut seen, roots);
    }
    if config.servers {
        push_unique(&mut entries, &mut seen, remotes);
    }
    if config.agents {
        let mut more = agents;
        entries.append(&mut more);
    }
    match quick_action {
        Some(q) => {
            if config.herdr_plus_quick_actions {
                entries.push(q);
            }
        },
        None => {},
    }
    push_unique(&mut entries, &mut seen, commands);
    let mut out = drop_covered_agents(entries, topology_entries.as_slice());
    let mut topo = topology_entries;
    out.append(&mut topo);
    out
}

} // verus!
