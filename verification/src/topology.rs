//! The live Workspace → Tab → Pane topology and the cursor that moves through it.
use vstd::prelude::*;

verus! {

/// The state of an agent as Herdr reports it.
#[derive(Clone, Copy, Debug, PartialEq, Eq, Structural)]
pub enum AgentState {
    Blocked,
    Working,
    Done,
    Idle,
    Unknown,
}

/// An agent detected in a Pane.
#[derive(Clone, Debug)]
pub struct AgentMeta {
    pub name: String,
    pub state: AgentState,
    pub alias: Option<String>,
}

/// A terminal area within a Tab.
#[derive(Clone, Debug)]
pub struct PaneNode {
    pub id: String,
    pub label: String,
    pub cwd: String,
    pub focused: bool,
    pub title: Option<String>,
    pub agent: Option<AgentMeta>,
}

/// A named view within a Workspace.
#[derive(Clone, Debug)]
pub struct TabNode {
    pub id: String,
    pub label: String,
    pub focused: bool,
    pub panes: Vec<PaneNode>,
}

/// The checked-out head of a git worktree.
#[derive(Clone, Debug)]
pub enum GitHead {
    Branch(String),
    Detached(String),
}

/// The repository identity of a Workspace.
#[derive(Clone, Debug)]
pub struct GitIdentity {
    pub repo_key: String,
    pub label: String,
    pub head: GitHead,
}

/// A Herdr container of related Tabs.
#[derive(Clone, Debug)]
pub struct WorkspaceNode {
    pub id: String,
    pub label: String,
    pub session: Option<String>,
    pub focused: bool,
    pub tabs: Vec<TabNode>,
    pub git: Option<GitIdentity>,
}

/// The open Workspaces, in display order.
#[derive(Clone, Debug)]
pub struct OpenTopology {
    pub workspaces: Vec<WorkspaceNode>,
}

impl Default for OpenTopology {
    fn default() -> (r: OpenTopology)
        ensures
            r.workspaces@.len() == 0,
    {
        OpenTopology { workspaces: Vec::new() }
    }
}

/// The selected level in a Topology block.
#[derive(Clone, Copy, Debug, PartialEq, Eq, Structural)]
pub enum TopologyDepth {
    Workspace,
    Tab,
    Pane,
}

/// The Tab and Pane selected within one Workspace.
#[derive(Clone, Copy, Debug, Default, PartialEq, Eq, Structural)]
pub struct ChildSelection {
    pub tab: usize,
    pub pane: usize,
}

/// The position of the selection in the Topology: a Workspace, a depth, and for every
/// Workspace the Tab and Pane chosen within it.
#[derive(Clone, Debug)]
pub struct TopologyCursor {
    pub workspace: usize,
    pub depth: TopologyDepth,
    pub selection: Vec<ChildSelection>,
}

/// The number of open Workspaces.
pub open spec fn ws_count(t: OpenTopology) -> int {
    t.workspaces@.len() as int
}

/// The number of Tabs of Workspace `w`.
pub open spec fn tab_count(t: OpenTopology, w: int) -> int {
    t.workspaces@[w].tabs@.len() as int
}

/// The number of Panes of Tab `tab` of Workspace `w`.
pub open spec fn pane_count(t: OpenTopology, w: int, tab: int) -> int {
    t.workspaces@[w].tabs@[tab].panes@.len() as int
}

/// The last index of a list of `n` items, or 0 when it is empty.
pub open spec fn last_or_zero(n: int) -> int {
    if n > 0 {
        n - 1
    } else {
        0
    }
}

/// The cursor parts (Workspace, depth, selections) point at an existing target: the
/// Workspace exists (or there is none and the parts are at Workspace depth with no
/// selections), there is a selection per Workspace, the current Workspace's selection names
/// an existing Tab and Pane (or 0 where there are none), and the depth names a level that
/// exists.
pub open spec fn parts_wf(p: (int, TopologyDepth, Seq<ChildSelection>), t: OpenTopology) -> bool {
    if ws_count(t) == 0 {
        &&& p.0 == 0
        &&& p.1 == TopologyDepth::Workspace
        &&& p.2.len() == 0
    } else {
        let w = p.0;
        let s = p.2[w];
        &&& 0 <= w < ws_count(t)
        &&& p.2.len() == ws_count(t)
        &&& s.tab <= last_or_zero(tab_count(t, w))
        &&& (s.tab < tab_count(t, w) ==> s.pane <= last_or_zero(pane_count(t, w, s.tab as int)))
        &&& (s.tab >= tab_count(t, w) ==> s.pane == 0)
        &&& (p.1 == TopologyDepth::Tab ==> tab_count(t, w) > 0)
        &&& (p.1 == TopologyDepth::Pane ==> s.tab < tab_count(t, w) && pane_count(
            t,
            w,
            s.tab as int,
        ) > 0)
    }
}

/// `sel` resized to `n` entries, new entries selecting the first Tab and Pane.
pub open spec fn resized(sel: Seq<ChildSelection>, n: int) -> Seq<ChildSelection> {
    if sel.len() >= n {
        sel.take(n)
    } else {
        sel + Seq::new((n - sel.len()) as nat, |i: int| first_child())
    }
}

/// The selection of the first Tab and Pane.
pub open spec fn first_child() -> ChildSelection {
    ChildSelection { tab: 0, pane: 0 }
}

/// The first focused Tab at or after `from`.
pub open spec fn focused_tab_from(tabs: Seq<TabNode>, from: int) -> Option<int>
    decreases tabs.len() - from,
{
    if from < 0 || from >= tabs.len() {
        None
    } else if tabs[from].focused {
        Some(from)
    } else {
        focused_tab_from(tabs, from + 1)
    }
}

/// The first focused Pane at or after `from`.
pub open spec fn focused_pane_from(panes: Seq<PaneNode>, from: int) -> Option<int>
    decreases panes.len() - from,
{
    if from < 0 || from >= panes.len() {
        None
    } else if panes[from].focused {
        Some(from)
    } else {
        focused_pane_from(panes, from + 1)
    }
}

/// The Tab and Pane a Workspace has in focus: its first focused Tab (else the first),
/// and that Tab's first focused Pane (else the first).
pub open spec fn focused_child(w: WorkspaceNode) -> ChildSelection {
    let tab = match focused_tab_from(w.tabs@, 0) {
        Some(t) => t,
        None => 0,
    };
    let pane = if tab < w.tabs@.len() {
        match focused_pane_from(w.tabs@[tab].panes@, 0) {
            Some(p) => p,
            None => 0,
        }
    } else {
        0
    };
    ChildSelection { tab: tab as usize, pane: pane as usize }
}

/// The focused Tab and Pane of every Workspace.
pub open spec fn focused_selection(t: OpenTopology) -> Seq<ChildSelection> {
    Seq::new(t.workspaces@.len(), |i: int| focused_child(t.workspaces@[i]))
}

/// The first focused Tab at or after `from` lies between `from` and the last Tab.
pub proof fn lemma_focused_tab_bound(tabs: Seq<TabNode>, from: int)
    ensures
        focused_tab_from(tabs, from) matches Some(t) ==> from <= t < tabs.len(),
    decreases tabs.len() - from,
{
    if 0 <= from < tabs.len() && !tabs[from].focused {
        lemma_focused_tab_bound(tabs, from + 1);
    }
}

proof fn lemma_focused_pane_bound(panes: Seq<PaneNode>, from: int)
    ensures
        focused_pane_from(panes, from) matches Some(p) ==> from <= p < panes.len(),
    decreases panes.len() - from,
{
    if 0 <= from < panes.len() && !panes[from].focused {
        lemma_focused_pane_bound(panes, from + 1);
    }
}

/// The Tab and Pane a Workspace has in focus (see `focused_child`).
pub fn focused_child_of(w: &WorkspaceNode) -> (r: ChildSelection)
    ensures
        r == focused_child(*w),
{
    let mut found: Option<usize> = None;
    let mut i: usize = 0;
    while i < w.tabs.len() && found.is_none()
        invariant
            i <= w.tabs@.len(),
            found is None ==> focused_tab_from(w.tabs@, 0) == focused_tab_from(w.tabs@, i as int),
            found matches Some(t) ==> focused_tab_from(w.tabs@, 0) == Some(t as int),
        decreases w.tabs.len() - i,
    {
        if w.tabs[i].focused {
            found = Some(i);
        }
        i = i + 1;
    }
    proof {
        lemma_focused_tab_bound(w.tabs@, 0);
    }
    let tab: usize = match found {
        Some(t) => t,
        None => 0,
    };
    let mut pane: usize = 0;
    if tab < w.tabs.len() {
        let ps = &w.tabs[tab].panes;
        let mut hit: Option<usize> = None;
        let mut k: usize = 0;
        while k < ps.len() && hit.is_none()
            invariant
                k <= ps@.len(),
                hit is None ==> focused_pane_from(ps@, 0) == focused_pane_from(ps@, k as int),
                hit matches Some(p) ==> focused_pane_from(ps@, 0) == Some(p as int),
            decreases ps.len() - k,
        {
            if ps[k].focused {
                hit = Some(k);
            }
            k = k + 1;
        }
        proof {
            lemma_focused_pane_bound(ps@, 0);
        }
        pane = match hit {
            Some(p) => p,
            None => 0,
        };
    }
    ChildSelection { tab, pane }
}

/// What `clamp` makes of a cursor: (Workspace, depth, selections).
pub open spec fn clamped(cw: int, cdepth: TopologyDepth, csel: Seq<ChildSelection>, t: OpenTopology) -> (
    int,
    TopologyDepth,
    Seq<ChildSelection>,
) {
    if ws_count(t) == 0 {
        (0, TopologyDepth::Workspace, seq![])
    } else {
        let w = if cw < ws_count(t) {
            cw
        } else {
            ws_count(t) - 1
        };
        let sel = resized(csel, ws_count(t));
        let tabs = tab_count(t, w);
        let tab = if sel[w].tab <= last_or_zero(tabs) {
            sel[w].tab as int
        } else {
            last_or_zero(tabs)
        };
        let pane = if tab < tabs {
            if sel[w].pane <= last_or_zero(pane_count(t, w, tab)) {
                sel[w].pane as int
            } else {
                last_or_zero(pane_count(t, w, tab))
            }
        } else {
            0
        };
        let depth1 = if cdepth == TopologyDepth::Tab && tabs == 0 {
            TopologyDepth::Workspace
        } else {
            cdepth
        };
        let depth = if depth1 == TopologyDepth::Pane && (tab >= tabs || pane_count(t, w, tab)
            == 0) {
            TopologyDepth::Tab
        } else {
            depth1
        };
        (w, depth, sel.update(w, ChildSelection { tab: tab as usize, pane: pane as usize }))
    }
}

/// The cursor's (Workspace, depth, selections).
pub open spec fn cursor_parts(c: TopologyCursor) -> (int, TopologyDepth, Seq<ChildSelection>) {
    (c.workspace as int, c.depth, c.selection@)
}

/// `cur` moved by `delta`, at least 0 and, when moving forward, at most `last`.
pub open spec fn stepped(cur: int, delta: int, last: int) -> int {
    if delta < 0 {
        if cur + delta < 0 {
            0
        } else {
            cur + delta
        }
    } else if cur + delta > last {
        last
    } else {
        cur + delta
    }
}

fn step(cur: usize, delta: isize, last: usize) -> (r: usize)
    ensures
        r == stepped(cur as int, delta as int, last as int),
{
    if delta < 0 {
        let back = (0i128 - delta as i128) as u128;
        if back > cur as u128 {
            0
        } else {
            cur - back as usize
        }
    } else {
        let ahead = delta as usize;
        if cur > last || ahead > last - cur {
            last
        } else {
            cur + ahead
        }
    }
}

fn tabs_of(t: &OpenTopology, w: usize) -> (r: usize)
    requires
        w < ws_count(*t),
    ensures
        r == tab_count(*t, w as int),
{
    t.workspaces[w].tabs.len()
}

fn panes_of(t: &OpenTopology, w: usize, tab: usize) -> (r: usize)
    requires
        w < ws_count(*t),
        tab < tab_count(*t, w as int),
    ensures
        r == pane_count(*t, w as int, tab as int),
{
    t.workspaces[w].tabs[tab].panes.len()
}

impl Default for TopologyCursor {
    fn default() -> (r: TopologyCursor)
        ensures
            r.workspace == 0,
            r.depth == TopologyDepth::Workspace,
            r.selection@.len() == 0,
    {
        TopologyCursor { workspace: 0, depth: TopologyDepth::Workspace, selection: Vec::new() }
    }
}

impl TopologyCursor {
    /// Brings the cursor back to the deepest existing target: the Workspace index, the
    /// selection list and the current Workspace's Tab and Pane are clamped to what exists,
    /// and a depth whose level is gone falls back one level (Tab to Workspace, Pane to Tab).
    pub fn clamp(&mut self, topology: &OpenTopology)
        ensures
            cursor_parts(*final(self)) == clamped(
                old(self).workspace as int,
                old(self).depth,
                old(self).selection@,
                *topology,
            ),
    {
        let n = topology.workspaces.len();
        if n == 0 {
            self.workspace = 0;
            self.depth = TopologyDepth::Workspace;
            self.selection.clear();
            assert(self.selection@ =~= seq![]);
            return;
        }
        if self.workspace > n - 1 {
            self.workspace = n - 1;
        }
        let ghost sel0 = self.selection@;
        let ghost w0 = self.workspace;
        let ghost d0 = self.depth;
        if self.selection.len() >= n {
            self.selection.truncate(n);
        } else {
            while self.selection.len() < n
                invariant
                    self.selection@.len() <= n,
                    sel0.len() < n,
                    self.workspace == w0,
                    self.depth == d0,
                    w0 < n,
                    self.selection@ =~= sel0 + Seq::new(
                        (self.selection@.len() - sel0.len()) as nat,
                        |i: int| first_child(),
                    ),
                decreases n - self.selection@.len(),
            {
                self.selection.push(ChildSelection { tab: 0, pane: 0 });
            }
        }
        assert(self.selection@ =~= resized(sel0, n as int));
        let w = self.workspace;
        let tabs = tabs_of(topology, w);
        let mut selected = self.selection[w];
        let last_tab = if tabs > 0 {
            tabs - 1
        } else {
            0
        };
        if selected.tab > last_tab {
            selected.tab = last_tab;
        }
        if selected.tab < tabs {
            let panes = panes_of(topology, w, selected.tab);
            let last_pane = if panes > 0 {
                panes - 1
            } else {
                0
            };
            if selected.pane > last_pane {
                selected.pane = last_pane;
            }
        } else {
            selected.pane = 0;
        }
        self.selection.set(w, selected);
        if self.depth == TopologyDepth::Tab && tabs == 0 {
            self.depth = TopologyDepth::Workspace;
        }
        if self.depth == TopologyDepth::Pane {
            if selected.tab >= tabs || panes_of(topology, w, selected.tab) == 0 {
                self.depth = TopologyDepth::Tab;
            }
        }
    }

    /// A cursor at the first Workspace, with every Workspace selecting the Tab and Pane
    /// it has in focus, clamped to the topology.
    pub fn new(topology: &OpenTopology) -> (r: TopologyCursor)
        ensures
            cursor_parts(r) == clamped(0, TopologyDepth::Workspace, focused_selection(*topology), *topology),
    {
        let n = topology.workspaces.len();
        let mut selection: Vec<ChildSelection> = Vec::new();
        while selection.len() < n
            invariant
                selection@.len() <= n,
                n == topology.workspaces@.len(),
                forall|i: int|
                    0 <= i < selection@.len() ==> #[trigger] selection@[i] == focused_child(topology.workspaces@[i]),
            decreases n - selection@.len(),
        {
            let k = selection.len();
            selection.push(focused_child_of(&topology.workspaces[k]));
        }
        let mut cursor = TopologyCursor { workspace: 0, depth: TopologyDepth::Workspace, selection };
        assert(cursor.selection@ =~= focused_selection(*topology));
        cursor.clamp(topology);
        cursor
    }
}

} // verus!

verus! {

/// `p` with depth `d`.
pub open spec fn with_depth(p: (int, TopologyDepth, Seq<ChildSelection>), d: TopologyDepth) -> (
    int,
    TopologyDepth,
    Seq<ChildSelection>,
) {
    (p.0, d, p.2)
}

/// The clamped parts of `p`.
pub open spec fn clamp_parts(p: (int, TopologyDepth, Seq<ChildSelection>), t: OpenTopology) -> (
    int,
    TopologyDepth,
    Seq<ChildSelection>,
) {
    clamped(p.0, p.1, p.2, t)
}

/// What `enter_tab` makes of cursor parts.
pub open spec fn entered_tab(p: (int, TopologyDepth, Seq<ChildSelection>), t: OpenTopology) -> (
    int,
    TopologyDepth,
    Seq<ChildSelection>,
) {
    let c = clamp_parts(p, t);
    if ws_count(t) > 0 && tab_count(t, c.0) > 0 {
        with_depth(c, TopologyDepth::Tab)
    } else {
        c
    }
}

/// What `enter_pane` makes of cursor parts.
pub open spec fn entered_pane(p: (int, TopologyDepth, Seq<ChildSelection>), t: OpenTopology) -> (
    int,
    TopologyDepth,
    Seq<ChildSelection>,
) {
    let c = clamp_parts(p, t);
    let s = c.2[c.0];
    if s.tab < tab_count(t, c.0) && pane_count(t, c.0, s.tab as int) > 0 {
        with_depth(c, TopologyDepth::Pane)
    } else {
        c
    }
}

/// What `move_workspace` makes of cursor parts.
pub open spec fn moved_workspace(
    p: (int, TopologyDepth, Seq<ChildSelection>),
    t: OpenTopology,
    delta: int,
) -> (int, TopologyDepth, Seq<ChildSelection>) {
    if ws_count(t) == 0 {
        p
    } else {
        clamped(stepped(p.0, delta, ws_count(t) - 1), p.1, p.2, t)
    }
}

/// What `move_tab` makes of cursor parts: the current Workspace's Tab moves by `delta`
/// within its Tabs and its Pane selection restarts at the first Pane.
pub open spec fn moved_tab(p: (int, TopologyDepth, Seq<ChildSelection>), t: OpenTopology, delta: int) -> (
    int,
    TopologyDepth,
    Seq<ChildSelection>,
) {
    let c = clamp_parts(p, t);
    let tabs = tab_count(t, c.0);
    if tabs == 0 {
        c
    } else {
        let tab = stepped(c.2[c.0].tab as int, delta, tabs - 1);
        clamped(c.0, c.1, c.2.update(c.0, ChildSelection { tab: tab as usize, pane: 0 }), t)
    }
}

/// What `move_pane` makes of cursor parts: the current Tab's Pane moves by `delta` within
/// its Panes.
pub open spec fn moved_pane(p: (int, TopologyDepth, Seq<ChildSelection>), t: OpenTopology, delta: int) -> (
    int,
    TopologyDepth,
    Seq<ChildSelection>,
) {
    let c = clamp_parts(p, t);
    let s = c.2[c.0];
    if s.tab >= tab_count(t, c.0) || pane_count(t, c.0, s.tab as int) == 0 {
        c
    } else {
        let pane = stepped(s.pane as int, delta, pane_count(t, c.0, s.tab as int) - 1);
        (c.0, c.1, c.2.update(c.0, ChildSelection { tab: s.tab, pane: pane as usize }))
    }
}

impl TopologyCursor {
    /// Enters the Tabs of the current Workspace when it has any.
    pub fn enter_tab(&mut self, topology: &OpenTopology)
        ensures
            cursor_parts(*final(self)) == entered_tab(cursor_parts(*old(self)), *topology),
    {
        self.clamp(topology);
        if topology.workspaces.len() > 0 && tabs_of(topology, self.workspace) > 0 {
            self.depth = TopologyDepth::Tab;
        }
    }

    /// Enters the Panes of the selected Tab when it has any.
    pub fn enter_pane(&mut self, topology: &OpenTopology)
        requires
            ws_count(*topology) > 0,
        ensures
            cursor_parts(*final(self)) == entered_pane(cursor_parts(*old(self)), *topology),
    {
        self.clamp(topology);
        let w = self.workspace;
        let tab = self.selection[w].tab;
        if tab < tabs_of(topology, w) && panes_of(topology, w, tab) > 0 {
            self.depth = TopologyDepth::Pane;
        }
    }

    /// Returns to Workspace depth.
    pub fn leave_to_workspace(&mut self)
        ensures
            *final(self) == (TopologyCursor { depth: TopologyDepth::Workspace, ..*old(self) }),
            cursor_parts(*final(self)) == with_depth(cursor_parts(*old(self)), TopologyDepth::Workspace),
    {
        self.depth = TopologyDepth::Workspace;
    }

    /// Returns to Tab depth.
    pub fn leave_to_tab(&mut self)
        ensures
            *final(self) == (TopologyCursor { depth: TopologyDepth::Tab, ..*old(self) }),
            cursor_parts(*final(self)) == with_depth(cursor_parts(*old(self)), TopologyDepth::Tab),
    {
        self.depth = TopologyDepth::Tab;
    }

    /// Moves to the Workspace `delta` positions away, stopping at the first and last.
    pub fn move_workspace(&mut self, topology: &OpenTopology, delta: isize)
        ensures
            cursor_parts(*final(self)) == moved_workspace(cursor_parts(*old(self)), *topology, delta as int),
    {
        let n = topology.workspaces.len();
        if n == 0 {
            return;
        }
        self.workspace = step(self.workspace, delta, n - 1);
        self.clamp(topology);
    }

    /// Moves the current Workspace's Tab selection by `delta`, stopping at the first and
    /// last Tab, and selects the new Tab's first Pane.
    pub fn move_tab(&mut self, topology: &OpenTopology, delta: isize)
        requires
            ws_count(*topology) > 0,
        ensures
            cursor_parts(*final(self)) == moved_tab(cursor_parts(*old(self)), *topology, delta as int),
    {
        self.clamp(topology);
        let w = self.workspace;
        let tabs = tabs_of(topology, w);
        if tabs == 0 {
            return;
        }
        let tab = step(self.selection[w].tab, delta, tabs - 1);
        self.selection.set(w, ChildSelection { tab, pane: 0 });
        self.clamp(topology);
    }

    /// Moves the current Tab's Pane selection by `delta`, stopping at the first and last
    /// Pane.
    pub fn move_pane(&mut self, topology: &OpenTopology, delta: isize)
        requires
            ws_count(*topology) > 0,
        ensures
            cursor_parts(*final(self)) == moved_pane(cursor_parts(*old(self)), *topology, delta as int),
    {
        self.clamp(topology);
        let w = self.workspace;
        let selected = self.selection[w];
        if selected.tab >= tabs_of(topology, w) {
            return;
        }
        let panes = panes_of(topology, w, selected.tab);
        if panes == 0 {
            return;
        }
        let pane = step(selected.pane, delta, panes - 1);
        self.selection.set(w, ChildSelection { tab: selected.tab, pane });
    }
}

/// Law: clamping yields a cursor that points at an existing target, except when a
/// Pane-depth cursor lands on a Workspace without Tabs (it then stops at Tab depth, and a
/// second clamp brings it to Workspace depth).
pub proof fn law_clamp_reaches_existing_target(
    p: (int, TopologyDepth, Seq<ChildSelection>),
    t: OpenTopology,
)
    requires
        p.0 >= 0,
    ensures
        !(p.1 == TopologyDepth::Pane && clamp_parts(p, t).1 == TopologyDepth::Tab && tab_count(
            t,
            clamp_parts(p, t).0,
        ) == 0) ==> parts_wf(clamp_parts(p, t), t),
        parts_wf(clamp_parts(clamp_parts(p, t), t), t),
{
}

/// Law: clamping a cursor that already points at an existing target changes nothing.
pub proof fn law_clamp_keeps_valid_cursor(p: (int, TopologyDepth, Seq<ChildSelection>), t: OpenTopology)
    requires
        parts_wf(p, t),
    ensures
        clamp_parts(p, t) == p,
{
    if ws_count(t) > 0 {
        assert(resized(p.2, ws_count(t)) =~= p.2);
        assert(p.2.update(p.0, p.2[p.0]) =~= p.2);
    } else {
        assert(p.2 =~= seq![]);
    }
}

/// Law: moving between Tabs keeps the Workspace and steps the selected Tab by `delta`,
/// stopping at the first and last Tab: forward (`delta > 0`) it never goes back and
/// advances by `min(delta, last - tab)`, backward it never goes forward and retreats by
/// `min(-delta, tab)`; the Pane selection restarts at the first Pane.
pub proof fn law_move_tab_steps_within_tabs(
    p: (int, TopologyDepth, Seq<ChildSelection>),
    t: OpenTopology,
    delta: int,
)
    requires
        parts_wf(p, t),
        ws_count(t) > 0,
        tab_count(t, p.0) > 0,
    ensures
        moved_tab(p, t, delta).0 == p.0,
        delta >= 0 ==> moved_tab(p, t, delta).2[p.0].tab >= p.2[p.0].tab,
        delta >= 0 ==> moved_tab(p, t, delta).2[p.0].tab == if p.2[p.0].tab + delta <= tab_count(t, p.0) - 1 {
            p.2[p.0].tab + delta
        } else {
            tab_count(t, p.0) - 1
        },
        delta < 0 ==> moved_tab(p, t, delta).2[p.0].tab <= p.2[p.0].tab,
        delta < 0 ==> moved_tab(p, t, delta).2[p.0].tab == if p.2[p.0].tab + delta >= 0 {
            p.2[p.0].tab + delta
        } else {
            0
        },
        moved_tab(p, t, delta).2[p.0].pane == 0,
{
    law_clamp_keeps_valid_cursor(p, t);
    assert(t.workspaces@[p.0].tabs.len() == tab_count(t, p.0));
    let c = clamp_parts(p, t);
    let tabs = tab_count(t, c.0);
    let tab = stepped(c.2[c.0].tab as int, delta, tabs - 1);
    let sel = c.2.update(c.0, ChildSelection { tab: tab as usize, pane: 0 });
    assert(resized(sel, ws_count(t)) =~= sel);
}

/// Law: every cursor movement from a valid cursor leaves a valid cursor (entering Tabs or
/// Panes, moving between Workspaces, Tabs and Panes, and returning to Workspace depth).
pub proof fn law_moves_keep_cursor_valid(
    p: (int, TopologyDepth, Seq<ChildSelection>),
    t: OpenTopology,
    delta: int,
)
    requires
        parts_wf(p, t),
    ensures
        parts_wf(entered_tab(p, t), t),
        ws_count(t) > 0 ==> parts_wf(entered_pane(p, t), t),
        parts_wf(moved_workspace(p, t, delta), t) || moved_workspace(p, t, delta).1 == TopologyDepth::Tab,
        parts_wf(clamp_parts(moved_workspace(p, t, delta), t), t),
        ws_count(t) > 0 ==> parts_wf(moved_tab(p, t, delta), t),
        ws_count(t) > 0 ==> parts_wf(moved_pane(p, t, delta), t),
        parts_wf(with_depth(p, TopologyDepth::Workspace), t),
{
    law_clamp_keeps_valid_cursor(p, t);
}

} // verus!

verus! {

/// What an agent entry holds.
pub struct AgentModel {
    pub name: Seq<char>,
    pub state: AgentState,
    pub alias: Option<Seq<char>>,
}

/// What a Pane holds.
pub struct PaneModel {
    pub id: Seq<char>,
    pub label: Seq<char>,
    pub cwd: Seq<char>,
    pub focused: bool,
    pub title: Option<Seq<char>>,
    pub agent: Option<AgentModel>,
}

/// What a Tab holds.
pub struct TabModel {
    pub id: Seq<char>,
    pub label: Seq<char>,
    pub focused: bool,
    pub panes: Seq<PaneModel>,
}

/// What a repository identity holds: repository key, label, and the head (a branch
/// when `branch` is true, a detached commit otherwise).
pub struct GitModel {
    pub repo_key: Seq<char>,
    pub label: Seq<char>,
    pub branch: bool,
    pub head: Seq<char>,
}

/// What a Workspace holds.
pub struct WorkspaceModel {
    pub id: Seq<char>,
    pub label: Seq<char>,
    pub session: Option<Seq<char>>,
    pub focused: bool,
    pub tabs: Seq<TabModel>,
    pub git: Option<GitModel>,
}

impl View for AgentMeta {
    type V = AgentModel;

    open spec fn view(&self) -> AgentModel {
        AgentModel { name: self.name@, state: self.state, alias: crate::model::opt_view(self.alias) }
    }
}

impl View for PaneNode {
    type V = PaneModel;

    open spec fn view(&self) -> PaneModel {
        PaneModel {
            id: self.id@,
            label: self.label@,
            cwd: self.cwd@,
            focused: self.focused,
            title: crate::model::opt_view(self.title),
            agent: match self.agent {
                Some(a) => Some(a@),
                None => None,
            },
        }
    }
}

impl View for TabNode {
    type V = TabModel;

    open spec fn view(&self) -> TabModel {
        TabModel {
            id: self.id@,
            label: self.label@,
            focused: self.focused,
            panes: self.panes@.map_values(|p: PaneNode| p@),
        }
    }
}

impl View for GitIdentity {
    type V = GitModel;

    open spec fn view(&self) -> GitModel {
        GitModel {
            repo_key: self.repo_key@,
            label: self.label@,
            branch: self.head is Branch,
            head: match self.head {
                GitHead::Branch(b) => b@,
                GitHead::Detached(h) => h@,
            },
        }
    }
}

impl View for WorkspaceNode {
    type V = WorkspaceModel;

    open spec fn view(&self) -> WorkspaceModel {
        WorkspaceModel {
            id: self.id@,
            label: self.label@,
            session: crate::model::opt_view(self.session),
            focused: self.focused,
            tabs: self.tabs@.map_values(|t: TabNode| t@),
            git: match self.git {
                Some(g) => Some(g@),
                None => None,
            },
        }
    }
}

impl View for OpenTopology {
    type V = Seq<WorkspaceModel>;

    open spec fn view(&self) -> Seq<WorkspaceModel> {
        self.workspaces@.map_values(|w: WorkspaceNode| w@)
    }
}

/// The agent state named by `value`, ignoring case and surrounding white space.
pub open spec fn state_named(value: Seq<char>) -> AgentState {
    let v = crate::text::ascii_lower(crate::text::trim(value));
    if v == "blocked"@ {
        AgentState::Blocked
    } else if v == "working"@ {
        AgentState::Working
    } else if v == "done"@ {
        AgentState::Done
    } else if v == "idle"@ {
        AgentState::Idle
    } else {
        AgentState::Unknown
    }
}

/// The label of an agent state.
pub open spec fn state_label(s: AgentState) -> Seq<char> {
    match s {
        AgentState::Blocked => "blocked"@,
        AgentState::Done => "done"@,
        AgentState::Working => "working"@,
        AgentState::Idle => "idle"@,
        AgentState::Unknown => "unknown"@,
    }
}

/// The glyph of an agent state.
pub open spec fn state_glyph(s: AgentState) -> Seq<char> {
    match s {
        AgentState::Blocked => "!"@,
        AgentState::Working => "⠋"@,
        AgentState::Done => "✓"@,
        AgentState::Idle => "○"@,
        AgentState::Unknown => ""@,
    }
}

impl AgentState {
    /// The agent state named by `value` (unknown names give `Unknown`).
    pub fn parse(value: &str) -> (r: AgentState)
        ensures
            r == state_named(value@),
    {
        let t = crate::text::trim_chars(crate::text::chars_of(value).as_slice());
        let ts = crate::text::string_of(t.as_slice());
        let l = crate::text::to_ascii_lowercase(ts.as_str());
        let ls = crate::text::string_of(l.as_slice());
        if crate::text::eq_str(ls.as_str(), "blocked") {
            AgentState::Blocked
        } else if crate::text::eq_str(ls.as_str(), "working") {
            AgentState::Working
        } else if crate::text::eq_str(ls.as_str(), "done") {
            AgentState::Done
        } else if crate::text::eq_str(ls.as_str(), "idle") {
            AgentState::Idle
        } else {
            AgentState::Unknown
        }
    }

    /// The state's label.
    pub fn label(self) -> (r: &'static str)
        ensures
            r@ == state_label(self),
    {
        match self {
            AgentState::Blocked => "blocked",
            AgentState::Done => "done",
            AgentState::Working => "working",
            AgentState::Idle => "idle",
            AgentState::Unknown => "unknown",
        }
    }

    /// The state's glyph.
    pub fn glyph(self) -> (r: &'static str)
        ensures
            r@ == state_glyph(self),
    {
        match self {
            AgentState::Blocked => "!",
            AgentState::Working => "⠋",
            AgentState::Done => "✓",
            AgentState::Idle => "○",
            AgentState::Unknown => "",
        }
    }
}

} // verus!
