//! Topology navigation in the Picker: the order of open Workspaces, the cursor and the
//! per-Workspace memory of the selected Tab and Pane.
use vstd::prelude::*;
use crate::app::{shows_topology, App};
use crate::model::{opt_view, session_or_default, Entry, EntryAction};
use crate::recent::{history_in, opt_str_view, recent_key, RecentState};
use crate::text::{append_str, chars_of, eq_str, string_of, strings_view};
use crate::topology::{
    clamp_parts, clamped, cursor_parts, entered_pane, entered_tab, first_child, focused_selection,
    moved_pane, moved_tab, moved_workspace, with_depth, ws_count, ChildSelection, OpenTopology,
    TopologyCursor, TopologyDepth, WorkspaceNode,
};

verus! {

/// The position of the first `id` in the history `h` at or after `from`, or `usize::MAX`
/// when it is not there.
pub open spec fn recency_from(h: Seq<Seq<char>>, id: Seq<char>, from: int) -> int
    decreases h.len() - from,
{
    if from < 0 || from >= h.len() {
        usize::MAX as int
    } else if h[from] == id {
        from
    } else {
        recency_from(h, id, from + 1)
    }
}

/// The ordering key of an open Workspace: the focused Workspace first, then the previous
/// Workspace, then by how recently it was visited in its session.
pub open spec fn workspace_rank(
    w: WorkspaceNode,
    previous: Option<Seq<char>>,
    recent: Map<Seq<char>, Seq<Seq<char>>>,
) -> (bool, bool, int) {
    let is_previous = !w.focused && previous == Some(w.id@);
    (!w.focused, !is_previous, recency_from(history_in(recent, recent_key(opt_view(w.session))), w.id@, 0))
}

/// Key `a` sorts before key `b` (false before true, lower recency first).
pub open spec fn rank_lt(a: (bool, bool, int), b: (bool, bool, int)) -> bool {
    if a.0 != b.0 {
        !a.0
    } else if a.1 != b.1 {
        !a.1
    } else {
        a.2 < b.2
    }
}

/// `perm` lists each of `0..n` once.
pub open spec fn is_permutation(perm: Seq<int>, n: int) -> bool {
    &&& perm.len() == n
    &&& forall|k: int| 0 <= k < n ==> 0 <= #[trigger] perm[k] < n
    &&& forall|a: int, b: int| 0 <= a < b < n ==> #[trigger] perm[a] != #[trigger] perm[b]
}

/// `after` is `before` sorted by `workspace_rank`, Workspaces of equal rank in the
/// order they came in.
pub open spec fn stably_ranked(
    before: Seq<WorkspaceNode>,
    after: Seq<WorkspaceNode>,
    previous: Option<Seq<char>>,
    recent: Map<Seq<char>, Seq<Seq<char>>>,
) -> bool {
    exists|perm: Seq<int>|
        #![trigger is_permutation(perm, before.len() as int)]
        is_permutation(perm, before.len() as int) && after.len() == before.len() && (forall|k: int|
            0 <= k < after.len() ==> #[trigger] after[k] == before[perm[k]]) && (forall|a: int, b: int|
            0 <= a < b < after.len() ==> rank_lt(
                workspace_rank(#[trigger] after[a], previous, recent),
                workspace_rank(#[trigger] after[b], previous, recent),
            ) || (workspace_rank(after[a], previous, recent) == workspace_rank(after[b], previous, recent)
                && perm[a] < perm[b]))
}

fn recency(h: &[String], id: &str) -> (r: usize)
    ensures
        r as int == recency_from(strings_view(h@), id@, 0),
{
    let mut i: usize = 0;
    while i < h.len()
        invariant
            i <= h.len(),
            recency_from(strings_view(h@), id@, 0) == recency_from(strings_view(h@), id@, i as int),
        decreases h.len() - i,
    {
        if eq_str(h[i].as_str(), id) {
            return i;
        }
        i = i + 1;
    }
    usize::MAX
}

fn session_str(session: &Option<String>) -> (r: Option<&str>)
    ensures
        opt_str_view(r) == opt_view(*session),
{
    match session {
        Some(s) => Some(s.as_str()),
        None => None,
    }
}

/// The ordering key of an open Workspace.
fn workspace_rank_exec(w: &WorkspaceNode, previous: Option<&str>, recent: &RecentState) -> (r: (bool, bool, usize))
    ensures
        (r.0, r.1, r.2 as int) == workspace_rank(*w, opt_str_view(previous), recent.sessions@),
{
    let is_previous = !w.focused && match previous {
        Some(p) => eq_str(p, w.id.as_str()),
        None => false,
    };
    let ids = recent.recent_ids(session_str(&w.session));
    (!w.focused, !is_previous, recency(ids, w.id.as_str()))
}

fn rank_lt_exec(a: (bool, bool, usize), b: (bool, bool, usize)) -> (r: bool)
    ensures
        r == rank_lt((a.0, a.1, a.2 as int), (b.0, b.1, b.2 as int)),
{
    if a.0 != b.0 {
        !a.0
    } else if a.1 != b.1 {
        !a.1
    } else {
        a.2 < b.2
    }
}

/// Sorts Workspaces stably by `workspace_rank`.
#[verifier::spinoff_prover]
pub fn sort_workspaces(ws: &mut Vec<WorkspaceNode>, previous: Option<&str>, recent: &RecentState)
    ensures
        stably_ranked(old(ws)@, final(ws)@, opt_str_view(previous), recent.sessions@),
{
    let ghost orig = ws@;
    let ghost pv = opt_str_view(previous);
    let ghost rm = recent.sessions@;
    let n = ws.len();
    let ghost mut perm: Seq<int> = Seq::new(n as nat, |k: int| k);
    let mut i: usize = 0;
    while i < n
        invariant
            n == orig.len(),
            ws@.len() == n,
            i <= n,
            pv == opt_str_view(previous),
            rm == recent.sessions@,
            perm.len() == n,
            forall|k: int| 0 <= k < n ==> 0 <= #[trigger] perm[k] < n && ws@[k] == orig[perm[k]],
            forall|a: int, b: int| 0 <= a < b < n ==> #[trigger] perm[a] != #[trigger] perm[b],
            forall|k: int| i <= k < n ==> #[trigger] perm[k] == k,
            forall|k: int| 0 <= k < i ==> #[trigger] perm[k] < i,
            forall|a: int, b: int|
                0 <= a < b < i ==> rank_lt(
                    workspace_rank(#[trigger] ws@[a], pv, rm),
                    workspace_rank(#[trigger] ws@[b], pv, rm),
                ) || (workspace_rank(ws@[a], pv, rm) == workspace_rank(ws@[b], pv, rm) && perm[a]
                    < perm[b]),
        decreases n - i,
    {
        let key = workspace_rank_exec(&ws[i], previous, recent);
        let mut p: usize = 0;
        while p < i && !rank_lt_exec(key, workspace_rank_exec(&ws[p], previous, recent))
            invariant
                p <= i,
                i < n,
                ws@.len() == n,
                (key.0, key.1, key.2 as int) == workspace_rank(ws@[i as int], pv, rm),
                pv == opt_str_view(previous),
                rm == recent.sessions@,
                forall|t: int| 0 <= t < p ==> !rank_lt(workspace_rank(ws@[i as int], pv, rm), workspace_rank(#[trigger] ws@[t], pv, rm)),
            decreases i - p,
        {
            p = p + 1;
        }
        let ghost w0 = ws@;
        let ghost p0 = perm;
        let x = ws.remove(i);
        ws.insert(p, x);
        proof {
            perm = p0.remove(i as int).insert(p as int, i as int);
            assert forall|k: int| 0 <= k < n implies (k < p ==> ws@[k] == w0[k] && perm[k] == p0[k]) && (k == p
                ==> ws@[k] == w0[i as int] && perm[k] == i) && (p < k <= i ==> ws@[k] == w0[k - 1] && perm[k]
                == p0[k - 1]) && (k > i ==> ws@[k] == w0[k] && perm[k] == p0[k]) by {
                if k < p {
                } else if k == p {
                } else if k <= i {
                    assert(ws@[k] == w0.remove(i as int)[k - 1]);
                    assert(perm[k] == p0.remove(i as int)[k - 1]);
                } else {
                    assert(ws@[k] == w0.remove(i as int)[k - 1]);
                    assert(perm[k] == p0.remove(i as int)[k - 1]);
                }
            }
            assert forall|k: int| 0 <= k < n implies 0 <= #[trigger] perm[k] < n && ws@[k] == orig[perm[k]] by {
                let ok = if k < p { k } else if k == p { i as int } else if k <= i { k - 1 } else { k };
                assert(perm[k] == p0[ok] && ws@[k] == w0[ok]);
            }
            let kx = workspace_rank(w0[i as int], pv, rm);
            assert forall|a: int, b: int|
                0 <= a < b < i + 1 implies rank_lt(
                workspace_rank(#[trigger] ws@[a], pv, rm),
                workspace_rank(#[trigger] ws@[b], pv, rm),
            ) || (workspace_rank(ws@[a], pv, rm) == workspace_rank(ws@[b], pv, rm) && perm[a] < perm[b]) by {
                let oa = if a < p { a } else if a == p { i as int } else { a - 1 };
                let ob = if b < p { b } else if b == p { i as int } else { b - 1 };
                assert(ws@[a] == w0[oa] && perm[a] == p0[oa]);
                assert(ws@[b] == w0[ob] && perm[b] == p0[ob]);
                if a == p {
                    assert(rank_lt(kx, workspace_rank(w0[p as int], pv, rm)));
                    if ob > p {
                        assert(rank_lt(workspace_rank(w0[p as int], pv, rm), workspace_rank(w0[ob], pv, rm))
                            || workspace_rank(w0[p as int], pv, rm) == workspace_rank(w0[ob], pv, rm));
                    }
                } else if b == p {
                    assert(!rank_lt(kx, workspace_rank(w0[oa], pv, rm)));
                }
            }
            assert forall|a: int, b: int| 0 <= a < b < n implies #[trigger] perm[a] != #[trigger] perm[b] by {
                let oa = if a < p { a } else if a == p { i as int } else if a <= i { a - 1 } else { a };
                let ob = if b < p { b } else if b == p { i as int } else if b <= i { b - 1 } else { b };
                assert(perm[a] == p0[oa]);
                assert(perm[b] == p0[ob]);
            }
        }
        i = i + 1;
    }
    assert(is_permutation(perm, orig.len() as int));
}

} // verus!

verus! {

/// The memory key of an open Workspace: its session (or `<default>`), `::` and its ID.
pub open spec fn workspace_memory_key(w: WorkspaceNode) -> Seq<char> {
    session_or_default(w.session) + "::"@ + w.id@
}

/// The Tab and Pane selection that the cursor of `app` restores from its memory: the
/// remembered selection of each live Workspace, the cursor's own otherwise.
pub open spec fn restored_selection(app: App, sel: Seq<ChildSelection>) -> Seq<ChildSelection> {
    Seq::new(
        sel.len(),
        |k: int|
            match app.topology_memory.get_spec(workspace_memory_key(app.topology.workspaces@[k])) {
                Some(s) => s,
                None => sel[k],
            },
    )
}

/// The selection of the cursor's Workspace can be read: a cursor on an existing
/// Workspace has a selection for it.
pub open spec fn cursor_readable(app: App) -> bool {
    app.topology_cursor.workspace < ws_count(app.topology) ==> app.topology_cursor.workspace
        < app.topology_cursor.selection@.len()
}

/// What `remember_topology_selection` makes of the memory: the selection of the cursor's
/// Workspace is stored under its key.
pub open spec fn remembers(before: App, after: App) -> bool {
    let w = before.topology_cursor.workspace as int;
    if w < ws_count(before.topology) {
        forall|k: Seq<char>| #[trigger] after.topology_memory.get_spec(k) == if k == workspace_memory_key(
            before.topology.workspaces@[w],
        ) {
            Some(before.topology_cursor.selection@[w])
        } else {
            before.topology_memory.get_spec(k)
        }
    } else {
        after.topology_memory == before.topology_memory
    }
}

/// What a vertical move makes of the cursor: between Workspaces at Workspace depth; at
/// Tab depth up to the Workspace or down into the Panes; at Pane depth up to the Tab or
/// down to the next Workspace, keeping Pane depth where it has Panes.
pub open spec fn moved_vertically(
    p: (int, TopologyDepth, Seq<ChildSelection>),
    t: OpenTopology,
    delta: int,
) -> (int, TopologyDepth, Seq<ChildSelection>) {
    let moved = match p.1 {
        TopologyDepth::Workspace => moved_workspace(p, t, delta),
        TopologyDepth::Tab => if delta < 0 {
            with_depth(p, TopologyDepth::Workspace)
        } else {
            entered_pane(p, t)
        },
        TopologyDepth::Pane => if delta < 0 {
            with_depth(p, TopologyDepth::Tab)
        } else if delta > 0 {
            moved_workspace(p, t, 1)
        } else {
            p
        },
    };
    clamp_parts(moved, t)
}

/// What a horizontal move makes of the cursor: into the Tabs from a Workspace, and
/// between Tabs or Panes at those depths.
pub open spec fn moved_horizontally(
    p: (int, TopologyDepth, Seq<ChildSelection>),
    t: OpenTopology,
    delta: int,
) -> (int, TopologyDepth, Seq<ChildSelection>) {
    let moved = match p.1 {
        TopologyDepth::Workspace => if delta > 0 {
            entered_tab(p, t)
        } else {
            p
        },
        TopologyDepth::Tab => moved_tab(p, t, delta),
        TopologyDepth::Pane => moved_pane(p, t, delta),
    };
    clamp_parts(moved, t)
}

/// The first Entry of `entries` at or after `from` that focuses the target of `depth`
/// named (`session`, `id`).
pub open spec fn first_focusing(
    entries: Seq<Entry>,
    depth: TopologyDepth,
    session: Option<String>,
    id: Seq<char>,
    from: int,
) -> Option<int>
    decreases entries.len() - from,
{
    if from < 0 || from >= entries.len() {
        None
    } else if focuses(entries[from].action, depth, session, id) {
        Some(from)
    } else {
        first_focusing(entries, depth, session, id, from + 1)
    }
}

/// An action focuses the Workspace, Tab or Pane (`session`, `id`).
pub open spec fn focuses(a: EntryAction, depth: TopologyDepth, session: Option<String>, id: Seq<char>) -> bool {
    match (a, depth) {
        (EntryAction::FocusWorkspace { session: s, id: i }, TopologyDepth::Workspace) => i@ == id
            && opt_view(s) == opt_view(session),
        (EntryAction::FocusTab { session: s, id: i }, TopologyDepth::Tab) => i@ == id && opt_view(s)
            == opt_view(session),
        (EntryAction::FocusPane { session: s, id: i }, TopologyDepth::Pane) => i@ == id && opt_view(s)
            == opt_view(session),
        _ => false,
    }
}

/// The target under the cursor: (depth, session, ID) of the selected Workspace, Tab or
/// Pane, when it exists.
pub open spec fn cursor_target(app: App) -> Option<(TopologyDepth, Option<String>, Seq<char>)> {
    let w = app.topology_cursor.workspace as int;
    if w >= ws_count(app.topology) {
        None
    } else {
        let ws = app.topology.workspaces@[w];
        let s = app.topology_cursor.selection@[w];
        match app.topology_cursor.depth {
            TopologyDepth::Workspace => Some((TopologyDepth::Workspace, ws.session, ws.id@)),
            TopologyDepth::Tab => if s.tab < ws.tabs@.len() {
                Some((TopologyDepth::Tab, ws.session, ws.tabs@[s.tab as int].id@))
            } else {
                None
            },
            TopologyDepth::Pane => if s.tab < ws.tabs@.len() && s.pane < ws.tabs@[s.tab as int].panes@.len() {
                Some((TopologyDepth::Pane, ws.session, ws.tabs@[s.tab as int].panes@[s.pane as int].id@))
            } else {
                None
            },
        }
    }
}

/// The Topology Entry under the cursor, by position in the Topology Entries.
pub open spec fn selected_topology_index(app: App) -> Option<int> {
    match cursor_target(app) {
        Some((d, s, id)) => first_focusing(app.topology_entries@, d, s, id, 0),
        None => None,
    }
}

fn opt_eq(a: &Option<String>, b: &Option<String>) -> (r: bool)
    ensures
        r == (opt_view(*a) == opt_view(*b)),
{
    match (a, b) {
        (Some(x), Some(y)) => eq_str(x.as_str(), y.as_str()),
        (None, None) => true,
        _ => false,
    }
}

fn focuses_exec(a: &EntryAction, depth: TopologyDepth, session: &Option<String>, id: &str) -> (r: bool)
    ensures
        r == focuses(*a, depth, *session, id@),
{
    match (a, depth) {
        (EntryAction::FocusWorkspace { session: s, id: i }, TopologyDepth::Workspace) => eq_str(i.as_str(), id)
            && opt_eq(s, session),
        (EntryAction::FocusTab { session: s, id: i }, TopologyDepth::Tab) => eq_str(i.as_str(), id) && opt_eq(
            s,
            session,
        ),
        (EntryAction::FocusPane { session: s, id: i }, TopologyDepth::Pane) => eq_str(i.as_str(), id)
            && opt_eq(s, session),
        _ => false,
    }
}

fn find_focusing(entries: &Vec<Entry>, depth: TopologyDepth, session: &Option<String>, id: &str) -> (r: Option<usize>)
    ensures
        match r {
            Some(i) => first_focusing(entries@, depth, *session, id@, 0) == Some(i as int) && i < entries@.len(),
            None => first_focusing(entries@, depth, *session, id@, 0) is None,
        },
{
    let mut i: usize = 0;
    while i < entries.len()
        invariant
            i <= entries@.len(),
            first_focusing(entries@, depth, *session, id@, 0) == first_focusing(entries@, depth, *session, id@, i as int),
        decreases entries.len() - i,
    {
        if focuses_exec(&entries[i].action, depth, session, id) {
            return Some(i);
        }
        i = i + 1;
    }
    None
}

impl App {
    /// The memory key of an open Workspace.
    pub fn topology_workspace_key(workspace: &WorkspaceNode) -> (r: String)
        ensures
            r@ == workspace_memory_key(*workspace),
    {
        let mut k = crate::model::session_or_default_chars(&workspace.session);
        append_str(&mut k, "::");
        append_str(&mut k, workspace.id.as_str());
        string_of(k.as_slice())
    }

    /// Orders the open Workspaces: the focused one first, then the previous one, then by
    /// recency in their session (see `workspace_rank`), keeping equal ones in order.
    pub fn sort_topology(&mut self)
        ensures
            *final(self) == (App { topology: final(self).topology, ..*old(self) }),
            stably_ranked(
                old(self).topology.workspaces@,
                final(self).topology.workspaces@,
                opt_view(old(self).previous_workspace_id),
                old(self).recent_state.sessions@,
            ),
            forall|a: int, b: int|
                0 <= a < final(self).topology.workspaces@.len() && 0 <= b < final(self).topology.workspaces@.len()
                    && (#[trigger] final(self).topology.workspaces@[a]).focused && !(
                #[trigger] final(self).topology.workspaces@[b]).focused ==> a < b,
            forall|a: int, b: int|
                0 <= a < final(self).topology.workspaces@.len() && 0 <= b < final(self).topology.workspaces@.len()
                    && !(#[trigger] final(self).topology.workspaces@[a]).focused && opt_view(
                    old(self).previous_workspace_id,
                ) == Some(final(self).topology.workspaces@[a].id@) && !(
                #[trigger] final(self).topology.workspaces@[b]).focused && opt_view(
                    old(self).previous_workspace_id,
                ) != Some(final(self).topology.workspaces@[b].id@) ==> a < b,
    {
        let mut ws: Vec<WorkspaceNode> = Vec::new();
        std::mem::swap(&mut ws, &mut self.topology.workspaces);
        sort_workspaces(&mut ws, session_str(&self.previous_workspace_id), &self.recent_state);
        std::mem::swap(&mut ws, &mut self.topology.workspaces);
        proof {
            law_sort_puts_focused_then_previous_first(
                old(self).topology.workspaces@,
                self.topology.workspaces@,
                opt_view(self.previous_workspace_id),
                self.recent_state.sessions@,
            );
        }
    }

    /// Forgets the selections of Workspaces that are gone, starts a fresh cursor, restores
    /// each live Workspace's remembered selection and clamps the cursor.
    pub fn sync_topology_cursor(&mut self)
        ensures
            *final(self) == (App {
                topology_cursor: final(self).topology_cursor,
                topology_memory: final(self).topology_memory,
                ..*old(self)
            }),
            forall|k: Seq<char>| #[trigger] final(self).topology_memory.get_spec(k) == if exists|i: int|
                0 <= i < old(self).topology.workspaces@.len() && workspace_memory_key(
                    #[trigger] old(self).topology.workspaces@[i],
                ) == k {
                old(self).topology_memory.get_spec(k)
            } else {
                None
            },
            ({
                let c = clamped(0, TopologyDepth::Workspace, focused_selection(old(self).topology), old(self).topology);
                cursor_parts(final(self).topology_cursor) == clamped(
                    c.0,
                    c.1,
                    restored_selection(*final(self), c.2),
                    old(self).topology,
                )
            }),
    {
        let n = self.topology.workspaces.len();
        let mut live = crate::keyset::KeySet::new();
        let mut i: usize = 0;
        while i < n
            invariant
                i <= n,
                n == self.topology.workspaces@.len(),
                forall|k: Seq<char>| live@.contains(k) <==> exists|j: int|
                    0 <= j < i && workspace_memory_key(#[trigger] self.topology.workspaces@[j]) == k,
            decreases n - i,
        {
            let key = App::topology_workspace_key(&self.topology.workspaces[i]);
            let ghost before = live@;
            live.insert(key);
            assert forall|k: Seq<char>| live@.contains(k) <== exists|j: int|
                0 <= j < i + 1 && workspace_memory_key(#[trigger] self.topology.workspaces@[j]) == k by {
                if exists|j: int| 0 <= j < i + 1 && workspace_memory_key(#[trigger] self.topology.workspaces@[j]) == k {
                    let j = choose|j: int| 0 <= j < i + 1 && workspace_memory_key(#[trigger] self.topology.workspaces@[j]) == k;
                    if j < i {
                        assert(before.contains(k));
                    }
                }
            }
            i = i + 1;
        }
        self.topology_memory.retain_keys(&live);
        let mut cursor = TopologyCursor::new(&self.topology);
        let ghost c = cursor_parts(cursor);
        let ghost final_mem = self.topology_memory;
        proof {
            if n > 0 {
                assert(c.2.len() == n);
            } else {
                assert(c.2.len() == 0);
            }
        }
        let mut j: usize = 0;
        while j < n
            invariant
                j <= n,
                n == self.topology.workspaces@.len(),
                c.2.len() == n,
                cursor.workspace as int == c.0,
                cursor.depth == c.1,
                cursor.selection@.len() == n,
                self.topology_memory == final_mem,
                forall|k: int| 0 <= k < j ==> #[trigger] cursor.selection@[k] == match final_mem.get_spec(
                    workspace_memory_key(self.topology.workspaces@[k]),
                ) {
                    Some(s) => s,
                    None => c.2[k],
                },
                forall|k: int| j <= k < n ==> #[trigger] cursor.selection@[k] == c.2[k],
            decreases n - j,
        {
            let key = App::topology_workspace_key(&self.topology.workspaces[j]);
            match self.topology_memory.get(key.as_str()) {
                Some(sel) => {
                    cursor.selection.set(j, *sel);
                },
                None => {},
            }
            j = j + 1;
        }
        let ghost restored = cursor.selection@;
        cursor.clamp(&self.topology);
        self.topology_cursor = cursor;
        assert(restored =~= restored_selection(*self, c.2));
    }

    /// Stores the selection of the cursor's Workspace under its key.
    pub fn remember_topology_selection(&mut self)
        requires
            cursor_readable(*old(self)),
        ensures
            *final(self) == (App { topology_memory: final(self).topology_memory, ..*old(self) }),
            remembers(*old(self), *final(self)),
    {
        let w = self.topology_cursor.workspace;
        if w < self.topology.workspaces.len() {
            let key = App::topology_workspace_key(&self.topology.workspaces[w]);
            let sel = self.topology_cursor.selection[w];
            self.topology_memory.insert(key, sel);
        }
    }
}

} // verus!

verus! {

/// The Entry that an action applies to: the Topology Entry under the cursor in the
/// Topology, the selected row's Entry in the Result list.
pub open spec fn selected_for_action(app: App) -> Option<Entry> {
    if shows_topology(app.query@, app.source_filter) {
        match selected_topology_index(app) {
            Some(i) => Some(app.topology_entries@[i]),
            None => None,
        }
    } else if app.selected < app.filtered@.len() && app.filtered@[app.selected as int] < app.entries@.len() {
        Some(app.entries@[app.filtered@[app.selected as int] as int])
    } else {
        None
    }
}

/// `pins` with `key` added, or removed when it was there.
pub open spec fn toggled(pins: Set<Seq<char>>, key: Seq<char>) -> Set<Seq<char>> {
    if pins.contains(key) {
        pins.remove(key)
    } else {
        pins.insert(key)
    }
}

/// Marking is a toggle: toggling the same key twice gives back the marks.
pub proof fn law_toggle_twice_restores_marks(pins: Set<Seq<char>>, key: Seq<char>)
    ensures
        toggled(toggled(pins, key), key) == pins,
{
    assert(toggled(toggled(pins, key), key) =~= pins);
}

/// What a vertical move makes of the Picker: in the Result list, the previous
/// (`delta < 0`) or next row is selected; in the Topology, the current selection is
/// remembered and the cursor moves (see `moved_vertically`).
pub open spec fn vertical_move_done(before: App, after: App, delta: int) -> bool {
    if !shows_topology(before.query@, before.source_filter) {
        &&& after == (App { selected: after.selected, ..before })
        &&& after.selected == if delta < 0 {
            if before.selected > 0 {
                before.selected - 1
            } else {
                0
            }
        } else if before.filtered@.len() == 0 {
            before.selected as int
        } else if before.selected + 1 < before.filtered@.len() {
            before.selected + 1
        } else {
            before.filtered@.len() - 1
        }
    } else {
        &&& after == (App { topology_cursor: after.topology_cursor, topology_memory: after.topology_memory, ..before })
        &&& remembers(before, after)
        &&& cursor_parts(after.topology_cursor) == moved_vertically(
            cursor_parts(before.topology_cursor),
            before.topology,
            delta,
        )
    }
}

/// What a horizontal move makes of the Picker: nothing in the Result list; in the
/// Topology, the current selection is remembered and the cursor moves (see
/// `moved_horizontally`).
pub open spec fn horizontal_move_done(before: App, after: App, delta: int) -> bool {
    if !shows_topology(before.query@, before.source_filter) {
        after == before
    } else {
        &&& after == (App { topology_cursor: after.topology_cursor, topology_memory: after.topology_memory, ..before })
        &&& remembers(before, after)
        &&& cursor_parts(after.topology_cursor) == moved_horizontally(
            cursor_parts(before.topology_cursor),
            before.topology,
            delta,
        )
    }
}

/// What a move between Workspaces makes of the Picker: nothing in the Result list; in
/// the Topology, the current selection is remembered and the cursor moves `delta`
/// Workspaces.
pub open spec fn workspace_move_done(before: App, after: App, delta: int) -> bool {
    if !shows_topology(before.query@, before.source_filter) {
        after == before
    } else {
        &&& after == (App { topology_cursor: after.topology_cursor, topology_memory: after.topology_memory, ..before })
        &&& remembers(before, after)
        &&& cursor_parts(after.topology_cursor) == clamp_parts(
            moved_workspace(cursor_parts(before.topology_cursor), before.topology, delta),
            before.topology,
        )
    }
}

impl App {
    /// Moves the cursor up (`delta < 0`) or down in the Topology (see
    /// `moved_vertically`), remembering the current selection first; in the Result list,
    /// selects the previous or next row.
    pub fn topology_move_vertical(&mut self, delta: isize)
        requires
            shows_topology(old(self).query@, old(self).source_filter) ==> cursor_readable(*old(self)) && (
            old(self).topology_cursor.depth == TopologyDepth::Tab && delta >= 0 ==> ws_count(old(self).topology)
                > 0),
        ensures
            vertical_move_done(*old(self), *final(self), delta as int),
    {
        if !self.topology_view() {
            if delta < 0 {
                self.prev();
            } else {
                self.next();
            }
            return;
        }
        self.remember_topology_selection();
        match self.topology_cursor.depth {
            TopologyDepth::Workspace => self.topology_cursor.move_workspace(&self.topology, delta),
            TopologyDepth::Tab => {
                if delta < 0 {
                    self.topology_cursor.leave_to_workspace();
                } else {
                    self.topology_cursor.enter_pane(&self.topology);
                }
            },
            TopologyDepth::Pane => {
                if delta < 0 {
                    self.topology_cursor.leave_to_tab();
                } else if delta > 0 {
                    self.topology_cursor.move_workspace(&self.topology, 1);
                }
            },
        }
        self.topology_cursor.clamp(&self.topology);
    }

    /// Moves the cursor sideways in the Topology (see `moved_horizontally`), remembering
    /// the current selection first; nothing happens in the Result list.
    pub fn topology_move_horizontal(&mut self, delta: isize)
        requires
            shows_topology(old(self).query@, old(self).source_filter) ==> cursor_readable(*old(self)) && (
            old(self).topology_cursor.depth != TopologyDepth::Workspace ==> ws_count(old(self).topology) > 0),
        ensures
            horizontal_move_done(*old(self), *final(self), delta as int),
    {
        if !self.topology_view() {
            return;
        }
        self.remember_topology_selection();
        match self.topology_cursor.depth {
            TopologyDepth::Workspace => {
                if delta > 0 {
                    self.topology_cursor.enter_tab(&self.topology);
                }
            },
            TopologyDepth::Tab => self.topology_cursor.move_tab(&self.topology, delta),
            TopologyDepth::Pane => self.topology_cursor.move_pane(&self.topology, delta),
        }
        self.topology_cursor.clamp(&self.topology);
    }

    /// Moves the cursor `delta` Workspaces in the Topology, remembering the current
    /// selection first; nothing happens in the Result list.
    pub fn topology_move_workspace(&mut self, delta: isize)
        requires
            shows_topology(old(self).query@, old(self).source_filter) ==> cursor_readable(*old(self)),
        ensures
            workspace_move_done(*old(self), *final(self), delta as int),
    {
        if !self.topology_view() {
            return;
        }
        self.remember_topology_selection();
        self.topology_cursor.move_workspace(&self.topology, delta);
        self.topology_cursor.clamp(&self.topology);
    }

    /// The Topology Entry of the Workspace, Tab or Pane under the cursor.
    pub fn topology_selected_entry(&self) -> (r: Option<&Entry>)
        requires
            cursor_readable(*self),
        ensures
            match r {
                Some(e) => selected_topology_index(*self) matches Some(i) && *e == self.topology_entries@[i],
                None => selected_topology_index(*self) is None,
            },
    {
        let w = self.topology_cursor.workspace;
        if w >= self.topology.workspaces.len() {
            return None;
        }
        let ws = &self.topology.workspaces[w];
        let sel = self.topology_cursor.selection[w];
        let found = match self.topology_cursor.depth {
            TopologyDepth::Workspace => find_focusing(
                &self.topology_entries,
                TopologyDepth::Workspace,
                &ws.session,
                ws.id.as_str(),
            ),
            TopologyDepth::Tab => {
                if sel.tab >= ws.tabs.len() {
                    return None;
                }
                find_focusing(&self.topology_entries, TopologyDepth::Tab, &ws.session, ws.tabs[sel.tab].id.as_str())
            },
            TopologyDepth::Pane => {
                if sel.tab >= ws.tabs.len() || sel.pane >= ws.tabs[sel.tab].panes.len() {
                    return None;
                }
                find_focusing(
                    &self.topology_entries,
                    TopologyDepth::Pane,
                    &ws.session,
                    ws.tabs[sel.tab].panes[sel.pane].id.as_str(),
                )
            },
        };
        match found {
            Some(i) => Some(&self.topology_entries[i]),
            None => None,
        }
    }

    /// The Entry an action applies to (see `selected_for_action`).
    pub fn action_entry(&self) -> (r: Option<&Entry>)
        requires
            shows_topology(self.query@, self.source_filter) ==> cursor_readable(*self),
        ensures
            match r {
                Some(e) => selected_for_action(*self) == Some(*e),
                None => selected_for_action(*self) is None,
            },
    {
        if self.topology_view() {
            self.topology_selected_entry()
        } else {
            self.selected_entry()
        }
    }

    /// The marks after toggling the mark of the Entry an action applies to; an error when
    /// nothing is selected.
    pub fn toggled_pins(&self) -> (r: Result<crate::keyset::KeySet, String>)
        requires
            shows_topology(self.query@, self.source_filter) ==> cursor_readable(*self),
        ensures
            match r {
                Ok(s) => selected_for_action(*self) is Some && s@ == toggled(
                    self.pinned_entries@,
                    crate::pins::pin_key_of(selected_for_action(*self)->0),
                ),
                Err(m) => selected_for_action(*self) is None && m@ == "nothing selected"@,
            },
    {
        let entry = match self.action_entry() {
            Some(e) => e,
            None => {
                return Err("nothing selected".to_owned());
            },
        };
        let key = crate::pins::pin_key(entry);
        let mut pinned = self.pinned_entries.duplicate();
        let removed = pinned.remove(key.as_str());
        if !removed {
            pinned.insert(key);
        }
        Ok(pinned)
    }
}


/// Law: after ordering the open Workspaces, the focused Workspaces come first, and an
/// unfocused Workspace whose ID is the previous (Jump Back) Workspace's comes before
/// every other unfocused Workspace.
pub proof fn law_sort_puts_focused_then_previous_first(
    before: Seq<WorkspaceNode>,
    after: Seq<WorkspaceNode>,
    previous: Option<Seq<char>>,
    recent: Map<Seq<char>, Seq<Seq<char>>>,
)
    requires
        stably_ranked(before, after, previous, recent),
    ensures
        forall|a: int, b: int|
            0 <= a < after.len() && 0 <= b < after.len() && (#[trigger] after[a]).focused && !(
            #[trigger] after[b]).focused ==> a < b,
        forall|a: int, b: int|
            0 <= a < after.len() && 0 <= b < after.len() && !(#[trigger] after[a]).focused && previous == Some(
                after[a].id@,
            ) && !(#[trigger] after[b]).focused && previous != Some(after[b].id@) ==> a < b,
{
    let perm = choose|perm: Seq<int>|
        #![trigger is_permutation(perm, before.len() as int)]
        is_permutation(perm, before.len() as int) && after.len() == before.len() && (forall|k: int|
            0 <= k < after.len() ==> #[trigger] after[k] == before[perm[k]]) && (forall|a: int, b: int|
            0 <= a < b < after.len() ==> rank_lt(
                workspace_rank(#[trigger] after[a], previous, recent),
                workspace_rank(#[trigger] after[b], previous, recent),
            ) || (workspace_rank(after[a], previous, recent) == workspace_rank(after[b], previous, recent)
                && perm[a] < perm[b]));
    assert forall|a: int, b: int|
        0 <= a < after.len() && 0 <= b < after.len() && (#[trigger] after[a]).focused && !(
        #[trigger] after[b]).focused implies a < b by {
        if b < a {
            assert(rank_lt(workspace_rank(after[b], previous, recent), workspace_rank(after[a], previous, recent))
                || workspace_rank(after[b], previous, recent) == workspace_rank(after[a], previous, recent));
        }
    }
    assert forall|a: int, b: int|
        0 <= a < after.len() && 0 <= b < after.len() && !(#[trigger] after[a]).focused && previous == Some(
            after[a].id@,
        ) && !(#[trigger] after[b]).focused && previous != Some(after[b].id@) implies a < b by {
        if b < a {
            assert(rank_lt(workspace_rank(after[b], previous, recent), workspace_rank(after[a], previous, recent))
                || workspace_rank(after[b], previous, recent) == workspace_rank(after[a], previous, recent));
        }
    }
}

} // verus!
