//! Mouse input: scrolling and clicking rows of the Result list and children of the
//! Topology.
use vstd::prelude::*;
use crate::app::{shows_topology, App, InputMode};
use crate::input::Action;
use crate::navigation::{remembers, vertical_move_done};
use crate::topology::{clamped, cursor_parts, ws_count, ChildSelection, TopologyDepth};

verus! {

/// A rectangle of terminal cells.
#[derive(Clone, Copy, Debug, PartialEq, Eq, Structural)]
pub struct Area {
    pub x: u16,
    pub y: u16,
    pub width: u16,
    pub height: u16,
}

/// A half-open range of cells.
#[derive(Clone, Copy, Debug, PartialEq, Eq, Structural)]
pub struct Span16 {
    pub start: u16,
    pub end: u16,
}

/// A clickable Topology child: its cells, Workspace, line (0 Workspace, 1 Tabs, 2 or 3
/// Panes), Tab, and child index when it names one.
#[derive(Clone, Copy, Debug)]
pub struct TopologyHit {
    pub y: Span16,
    pub x: Span16,
    pub workspace: usize,
    pub line: usize,
    pub tab: usize,
    pub child: Option<usize>,
}

/// Where the last drawing put the Result rows and Topology children.
#[derive(Debug)]
pub struct ListHits {
    pub area: Area,
    pub rows: Vec<(Span16, usize)>,
    pub topology: Vec<TopologyHit>,
}

/// What the mouse did.
#[derive(Clone, Copy, Debug, PartialEq, Eq, Structural)]
pub enum MouseKind {
    ScrollUp,
    ScrollDown,
    LeftDown,
    Other,
}

/// A mouse event at a cell.
#[derive(Clone, Copy, Debug)]
pub struct MouseInput {
    pub kind: MouseKind,
    pub column: u16,
    pub row: u16,
}

/// `v` lies in the range.
pub open spec fn in_span(s: Span16, v: u16) -> bool {
    s.start <= v && v < s.end
}

/// The cell lies in the area (whose right and bottom edges saturate at the type's
/// limit).
pub open spec fn in_area(a: Area, col: u16, row: u16) -> bool {
    &&& a.x <= col
    &&& col < if a.x + a.width > u16::MAX {
        u16::MAX as int
    } else {
        a.x + a.width
    }
    &&& a.y <= row
    &&& row < if a.y + a.height > u16::MAX {
        u16::MAX as int
    } else {
        a.y + a.height
    }
}

/// The first Topology hit at or after `from` containing the cell.
pub open spec fn topology_hit_at(hits: Seq<TopologyHit>, col: u16, row: u16, from: int) -> Option<int>
    decreases hits.len() - from,
{
    if from < 0 || from >= hits.len() {
        None
    } else if in_span(hits[from].y, row) && in_span(hits[from].x, col) {
        Some(from)
    } else {
        topology_hit_at(hits, col, row, from + 1)
    }
}

/// The first Result row at or after `from` containing the line.
pub open spec fn row_hit_at(rows: Seq<(Span16, usize)>, row: u16, from: int) -> Option<int>
    decreases rows.len() - from,
{
    if from < 0 || from >= rows.len() {
        None
    } else if in_span(rows[from].0, row) {
        Some(from)
    } else {
        row_hit_at(rows, row, from + 1)
    }
}

/// The cursor parts after clicking a Topology hit: the hit's Workspace, at Workspace
/// depth for its first line, Tab depth (selecting the clicked Tab) for its second, and
/// Pane depth (selecting its Tab and the clicked Pane) for the others.
pub open spec fn clicked_parts(
    p: (int, TopologyDepth, Seq<ChildSelection>),
    h: TopologyHit,
) -> (int, TopologyDepth, Seq<ChildSelection>) {
    let w = h.workspace as int;
    if h.line == 0 {
        (w, TopologyDepth::Workspace, p.2)
    } else if h.line == 1 {
        (w, TopologyDepth::Tab, match h.child {
            Some(t) => p.2.update(w, ChildSelection { tab: t, ..p.2[w] }),
            None => p.2,
        })
    } else if h.line == 2 || h.line == 3 {
        let s1 = ChildSelection { tab: h.tab, ..p.2[w] };
        (w, TopologyDepth::Pane, p.2.update(w, match h.child {
            Some(c) => ChildSelection { pane: c, ..s1 },
            None => s1,
        }))
    } else {
        (w, p.1, p.2)
    }
}

/// The hits fit the Picker: the Topology has Workspaces, there is a selection per
/// Workspace, and every Topology hit names one of them.
pub open spec fn hits_fit(app: App, hits: ListHits) -> bool {
    &&& ws_count(app.topology) > 0
    &&& app.topology_cursor.workspace < ws_count(app.topology)
    &&& app.topology_cursor.selection@.len() == ws_count(app.topology)
    &&& forall|i: int| 0 <= i < hits.topology@.len() ==> (#[trigger] hits.topology@[i]).workspace < ws_count(
        app.topology,
    )
}

/// What a mouse event makes of the Picker: nothing in the Help panel or outside the
/// list; scrolling moves like the arrow keys; clicking a Topology child moves the cursor
/// there (see `clicked_parts`, then clamped) and remembers it, and opens it when the
/// cursor was already there; clicking a Result row selects it, and opens it when it was
/// already selected.
pub open spec fn mouse_done(before: App, after: App, m: MouseInput, hits: ListHits, action: Action) -> bool {
    let topo = shows_topology(before.query@, before.source_filter);
    if before.input_mode == InputMode::Help || !in_area(hits.area, m.column, m.row) {
        after == before && action == Action::Continue
    } else {
        match m.kind {
            MouseKind::ScrollUp => action == Action::Continue && vertical_move_done(before, after, -1),
            MouseKind::ScrollDown => action == Action::Continue && vertical_move_done(before, after, 1),
            MouseKind::LeftDown => if topo {
                match topology_hit_at(hits.topology@, m.column, m.row, 0) {
                    None => after == before && action == Action::Continue,
                    Some(i) => {
                        let p0 = cursor_parts(before.topology_cursor);
                        let c = clamped(
                            clicked_parts(p0, hits.topology@[i]).0,
                            clicked_parts(p0, hits.topology@[i]).1,
                            clicked_parts(p0, hits.topology@[i]).2,
                            before.topology,
                        );
                        let mid = App { topology_cursor: after.topology_cursor, ..before };
                        &&& after == (App { topology_memory: after.topology_memory, ..mid })
                        &&& cursor_parts(after.topology_cursor) == c
                        &&& remembers(mid, after)
                        &&& action == if (c.0, c.1, c.2[c.0]) == (p0.0, p0.1, p0.2[p0.0]) {
                            Action::Open
                        } else {
                            Action::Continue
                        }
                    },
                }
            } else {
                match row_hit_at(hits.rows@, m.row, 0) {
                    None => after == before && action == Action::Continue,
                    Some(i) => if before.selected == hits.rows@[i].1 {
                        after == before && action == Action::Open
                    } else {
                        after == (App { selected: hits.rows@[i].1, ..before }) && action == Action::Continue
                    },
                }
            },
            MouseKind::Other => after == before && action == Action::Continue,
        }
    }
}

} // verus!

verus! {

fn area_contains(a: Area, col: u16, row: u16) -> (r: bool)
    ensures
        r == in_area(a, col, row),
{
    let right: u16 = if (a.x as u32) + (a.width as u32) > 0xFFFF {
        0xFFFF
    } else {
        a.x + a.width
    };
    let bottom: u16 = if (a.y as u32) + (a.height as u32) > 0xFFFF {
        0xFFFF
    } else {
        a.y + a.height
    };
    a.x <= col && col < right && a.y <= row && row < bottom
}

fn find_topology_hit(hits: &Vec<TopologyHit>, col: u16, row: u16) -> (r: Option<usize>)
    ensures
        match r {
            Some(i) => topology_hit_at(hits@, col, row, 0) == Some(i as int) && i < hits@.len(),
            None => topology_hit_at(hits@, col, row, 0) is None,
        },
{
    let mut i: usize = 0;
    while i < hits.len()
        invariant
            i <= hits@.len(),
            topology_hit_at(hits@, col, row, 0) == topology_hit_at(hits@, col, row, i as int),
        decreases hits.len() - i,
    {
        let h = hits[i];
        if h.y.start <= row && row < h.y.end && h.x.start <= col && col < h.x.end {
            return Some(i);
        }
        i = i + 1;
    }
    None
}

fn find_row_hit(rows: &Vec<(Span16, usize)>, row: u16) -> (r: Option<usize>)
    ensures
        match r {
            Some(i) => row_hit_at(rows@, row, 0) == Some(i as int) && i < rows@.len(),
            None => row_hit_at(rows@, row, 0) is None,
        },
{
    let mut i: usize = 0;
    while i < rows.len()
        invariant
            i <= rows@.len(),
            row_hit_at(rows@, row, 0) == row_hit_at(rows@, row, i as int),
        decreases rows.len() - i,
    {
        let s = rows[i].0;
        if s.start <= row && row < s.end {
            return Some(i);
        }
        i = i + 1;
    }
    None
}

impl App {
    /// Handles a mouse event (see `mouse_done`).
    pub fn handle_mouse(&mut self, mouse: MouseInput, hits: &ListHits) -> (r: Action)
        requires
            crate::input::navigable(*old(self)),
            old(self).input_mode != InputMode::Help && in_area(hits.area, mouse.column, mouse.row) && mouse.kind
                == MouseKind::LeftDown && shows_topology(old(self).query@, old(self).source_filter) && topology_hit_at(
                hits.topology@,
                mouse.column,
                mouse.row,
                0,
            ) is Some ==> hits_fit(*old(self), *hits),
        ensures
            mouse_done(*old(self), *final(self), mouse, *hits, r),
    {
        if self.input_mode == InputMode::Help || !area_contains(hits.area, mouse.column, mouse.row) {
            return Action::Continue;
        }
        match mouse.kind {
            MouseKind::ScrollUp => {
                self.topology_move_vertical(-1);
                Action::Continue
            },
            MouseKind::ScrollDown => {
                self.topology_move_vertical(1);
                Action::Continue
            },
            MouseKind::LeftDown => {
                if self.topology_view() {
                    let i = match find_topology_hit(&hits.topology, mouse.column, mouse.row) {
                        Some(i) => i,
                        None => {
                            return Action::Continue;
                        },
                    };
                    let h = hits.topology[i];
                    let w0 = self.topology_cursor.workspace;
                    let d0 = self.topology_cursor.depth;
                    let s0 = self.topology_cursor.selection[w0];
                    let ghost p0 = cursor_parts(self.topology_cursor);
                    let ghost before = *self;
                    self.topology_cursor.workspace = h.workspace;
                    if h.line == 0 {
                        self.topology_cursor.leave_to_workspace();
                    } else if h.line == 1 {
                        self.topology_cursor.depth = TopologyDepth::Tab;
                        match h.child {
                            Some(t) => {
                                let mut s = self.topology_cursor.selection[h.workspace];
                                s.tab = t;
                                self.topology_cursor.selection.set(h.workspace, s);
                            },
                            None => {},
                        }
                    } else if h.line == 2 || h.line == 3 {
                        self.topology_cursor.depth = TopologyDepth::Pane;
                        let mut s = self.topology_cursor.selection[h.workspace];
                        s.tab = h.tab;
                        match h.child {
                            Some(p) => {
                                s.pane = p;
                            },
                            None => {},
                        }
                        self.topology_cursor.selection.set(h.workspace, s);
                    }
                    assert(cursor_parts(self.topology_cursor) == clicked_parts(p0, hits.topology@[i as int]));
                    self.topology_cursor.clamp(&self.topology);
                    let ghost mid = *self;
                    assert(mid == (App { topology_cursor: mid.topology_cursor, ..before }));
                    self.remember_topology_selection();
                    let w1 = self.topology_cursor.workspace;
                    let s1 = self.topology_cursor.selection[w1];
                    if w0 == w1 && d0 == self.topology_cursor.depth && s0 == s1 {
                        Action::Open
                    } else {
                        Action::Continue
                    }
                } else {
                    match find_row_hit(&hits.rows, mouse.row) {
                        Some(i) => {
                            let row = hits.rows[i].1;
                            if self.selected == row {
                                Action::Open
                            } else {
                                self.selected = row;
                                Action::Continue
                            }
                        },
                        None => Action::Continue,
                    }
                }
            },
            MouseKind::Other => Action::Continue,
        }
    }
}

} // verus!
