//! Where the children of a Topology block's Tab and Pane lines stand on screen, so that
//! a click can select them.
use vstd::prelude::*;
use crate::mouse::Span16;
use crate::render::{
    bracketed, clip_for_hits, clip_selected_for_hits, display_width, marked, or_unnamed, or_unnamed_text,
    pane_text, pane_value, sat_sub, span_width,
};
use crate::text::{chars_of, find, find_chars, join_chars, join_sep, slice_vec, string_of};
use crate::app::App;
use crate::mouse::{Area, ListHits, TopologyHit};
use crate::topology::{focused_child_of, focused_tab_from, ws_count, WorkspaceModel, WorkspaceNode};

verus! {

/// The values a child line lists: every Tab label on the Tabs line (1); on a Pane line,
/// every Pane of Tab `tab`, or nothing to hit when that Tab does not exist.
pub open spec fn child_values(w: WorkspaceModel, line: int, tab: int) -> Option<Seq<Seq<char>>> {
    if line == 1 {
        Some(Seq::new(w.tabs.len(), |i: int| or_unnamed(w.tabs[i].label)))
    } else if 0 <= tab < w.tabs.len() {
        Some(Seq::new(w.tabs[tab].panes.len(), |i: int| pane_text(w.tabs[tab].panes[i])))
    } else {
        None
    }
}

/// The values in their selection slots.
pub open spec fn slotted(values: Seq<Seq<char>>, selected: Option<int>) -> Seq<Seq<char>> {
    Seq::new(values.len(), |i: int| marked(values[i], selected == Some(i)))
}

/// `x` limited to the `u16` range.
pub open spec fn sat16(x: int) -> int {
    if x > u16::MAX {
        u16::MAX as int
    } else {
        x
    }
}

/// The cells of each slot from `i` on, found left to right in the visible text from
/// character `from`: a selected slot wider than the space is looked up as the whole
/// visible text; a slot that is not found has no cells. Each entry is (first cell,
/// end cell, slot index).
pub open spec fn child_spans(
    slots: Seq<Seq<char>>,
    visible: Seq<char>,
    avail: int,
    selected: Option<int>,
    start: int,
    i: int,
    from: int,
) -> Seq<(int, int, int)>
    decreases slots.len() - i,
{
    if i < 0 || i >= slots.len() {
        seq![]
    } else {
        let v = slots[i];
        let sv = if selected == Some(i) && display_width(v) > avail {
            visible
        } else {
            v
        };
        match find(visible.skip(from), sv) {
            Some(off) => {
                let offset = from + off;
                let prefix = display_width(visible.take(offset)) as int;
                seq![(sat16(start + prefix), sat16(start + prefix + display_width(sv)), i)] + child_spans(
                    slots,
                    visible,
                    avail,
                    selected,
                    start,
                    i + 1,
                    offset + sv.len(),
                )
            },
            None => child_spans(slots, visible, avail, selected, start, i + 1, from),
        }
    }
}

/// The selected slot, when the selection names one.
pub open spec fn selected_slot(slots: Seq<Seq<char>>, selected: Option<int>) -> Option<Seq<char>> {
    match selected {
        Some(k) => if 0 <= k < slots.len() {
            Some(slots[k])
        } else {
            None
        },
        None => None,
    }
}

/// The cells of every child of line `line` of a block drawn `width` cells wide from
/// column `start`: the slots joined by spaces and clipped to the width less the nine
/// cells of the line's label, keeping the selected child in view.
pub open spec fn child_ranges(
    w: WorkspaceModel,
    line: int,
    tab: int,
    selected: Option<int>,
    width: int,
    start: int,
) -> Seq<(int, int, int)> {
    match child_values(w, line, tab) {
        None => seq![],
        Some(values) => {
            let slots = slotted(values, selected);
            let avail = sat_sub(width, 9);
            let visible = clip_for_hits(join_sep(slots, " "@), avail, selected_slot(slots, selected));
            child_spans(slots, visible, avail, selected, start, 0, 0)
        },
    }
}

fn sat_add16(a: u16, b: usize, c: usize) -> (r: u16)
    ensures
        r == sat16(a + b + c),
{
    let room: usize = (65535u16 - a) as usize;
    if b >= room || c >= room - b {
        65535u16
    } else {
        a + ((b + c) as u16)
    }
}

fn values_of(workspace: &WorkspaceNode, line: usize, tab: usize) -> (r: Option<Vec<Vec<char>>>)
    ensures
        match r {
            Some(v) => child_values(workspace@, line as int, tab as int) == Some(
                v@.map_values(|x: Vec<char>| x@),
            ),
            None => child_values(workspace@, line as int, tab as int) is None,
        },
{
    let mut out: Vec<Vec<char>> = Vec::new();
    if line == 1 {
        let ghost want = Seq::new(workspace@.tabs.len(), |i: int| or_unnamed(workspace@.tabs[i].label));
        let mut i: usize = 0;
        while i < workspace.tabs.len()
            invariant
                i <= workspace.tabs@.len(),
                want == Seq::new(workspace@.tabs.len(), |i: int| or_unnamed(workspace@.tabs[i].label)),
                out@.map_values(|x: Vec<char>| x@) == want.take(i as int),
            decreases workspace.tabs.len() - i,
        {
            let ghost before = out@.map_values(|x: Vec<char>| x@);
            out.push(chars_of(or_unnamed_text(workspace.tabs[i].label.as_str())));
            assert(workspace@.tabs[i as int] == workspace.tabs@[i as int]@);
            assert(out@.map_values(|x: Vec<char>| x@) =~= before.push(want[i as int]));
            assert(want.take(i + 1) =~= want.take(i as int).push(want[i as int]));
            i = i + 1;
        }
        assert(want.take(workspace.tabs@.len() as int) =~= want);
        return Some(out);
    }
    if tab >= workspace.tabs.len() {
        return None;
    }
    let t = &workspace.tabs[tab];
    let ghost tm = workspace@.tabs[tab as int];
    let ghost want = Seq::new(tm.panes.len(), |i: int| pane_text(tm.panes[i]));
    let mut i: usize = 0;
    while i < t.panes.len()
        invariant
            i <= t.panes@.len(),
            tm == t@,
            want == Seq::new(tm.panes.len(), |i: int| pane_text(tm.panes[i])),
            out@.map_values(|x: Vec<char>| x@) == want.take(i as int),
        decreases t.panes.len() - i,
    {
        let ghost before = out@.map_values(|x: Vec<char>| x@);
        out.push(chars_of(pane_value(&t.panes[i]).as_str()));
        assert(out@.map_values(|x: Vec<char>| x@) =~= before.push(want[i as int]));
        assert(want.take(i + 1) =~= want.take(i as int).push(want[i as int]));
        i = i + 1;
    }
    assert(want.take(t.panes@.len() as int) =~= want);
    Some(out)
}

/// The cells and index of every child on line `line` of a block (see `child_ranges`);
/// `selected_tab` is the Tab whose Panes the Pane line lists.
pub fn topology_child_ranges(
    workspace: &WorkspaceNode,
    line: usize,
    selected_tab: usize,
    selected_child: Option<usize>,
    width: usize,
    start: u16,
) -> (r: Vec<(Span16, usize)>)
    ensures
        r@.map_values(|x: (Span16, usize)| (x.0.start as int, x.0.end as int, x.1 as int)) == child_ranges(
            workspace@,
            line as int,
            selected_tab as int,
            match selected_child {
                Some(k) => Some(k as int),
                None => None,
            },
            width as int,
            start as int,
        ),
{
    let ghost sel: Option<int> = match selected_child {
        Some(k) => Some(k as int),
        None => None,
    };
    let mut out: Vec<(Span16, usize)> = Vec::new();
    let values = match values_of(workspace, line, selected_tab) {
        Some(v) => v,
        None => {
            assert(out@.map_values(|x: (Span16, usize)| (x.0.start as int, x.0.end as int, x.1 as int)) =~= seq![]);
            return out;
        },
    };
    let ghost vv = values@.map_values(|x: Vec<char>| x@);
    let ghost slots = slotted(vv, sel);
    let mut decorated: Vec<Vec<char>> = Vec::new();
    let mut i: usize = 0;
    while i < values.len()
        invariant
            i <= values@.len(),
            vv == values@.map_values(|x: Vec<char>| x@),
            slots == slotted(vv, sel),
            sel == match selected_child {
                Some(k) => Some(k as int),
                None => None::<int>,
            },
            decorated@.map_values(|x: Vec<char>| x@) == slots.take(i as int),
        decreases values.len() - i,
    {
        let is_sel = match selected_child {
            Some(k) => k == i,
            None => false,
        };
        let ghost before = decorated@.map_values(|x: Vec<char>| x@);
        decorated.push(bracketed(values[i].as_slice(), is_sel));
        assert(decorated@.map_values(|x: Vec<char>| x@) =~= before.push(slots[i as int]));
        assert(slots.take(i + 1) =~= slots.take(i as int).push(slots[i as int]));
        i = i + 1;
    }
    assert(slots.take(values@.len() as int) =~= slots);
    let full = string_of(join_chars(&decorated, " ").as_slice());
    let avail: usize = if width > 9 {
        width - 9
    } else {
        0
    };
    let selected_value: Option<String> = match selected_child {
        Some(k) => if k < decorated.len() {
            Some(string_of(decorated[k].as_slice()))
        } else {
            None
        },
        None => None,
    };
    let visible_s = match &selected_value {
        Some(v) => clip_selected_for_hits(full.as_str(), avail, Some(v.as_str())),
        None => clip_selected_for_hits(full.as_str(), avail, None),
    };
    let visible = chars_of(visible_s.as_str());
    assert(visible@ == clip_for_hits(join_sep(slots, " "@), sat_sub(width as int, 9), selected_slot(slots, sel)));
    let mut from: usize = 0;
    let mut i: usize = 0;
    while i < decorated.len()
        invariant
            i <= decorated@.len(),
            from <= visible@.len(),
            decorated@.map_values(|x: Vec<char>| x@) == slots,
            sel == match selected_child {
                Some(k) => Some(k as int),
                None => None::<int>,
            },
            child_ranges(workspace@, line as int, selected_tab as int, sel, width as int, start as int)
                == out@.map_values(|x: (Span16, usize)| (x.0.start as int, x.0.end as int, x.1 as int))
                + child_spans(slots, visible@, avail as int, sel, start as int, i as int, from as int),
        decreases decorated.len() - i,
    {
        let ghost before = out@.map_values(|x: (Span16, usize)| (x.0.start as int, x.0.end as int, x.1 as int));
        let v = &decorated[i];
        assert(v@ == slots[i as int]);
        let vs = string_of(v.as_slice());
        let is_sel = match selected_child {
            Some(k) => k == i,
            None => false,
        };
        let search: Vec<char> = if is_sel && span_width(vs.as_str()) > avail {
            slice_vec(visible.as_slice(), 0, visible.len())
        } else {
            slice_vec(v.as_slice(), 0, v.len())
        };
        let ghost sv = if sel == Some(i as int) && display_width(slots[i as int]) > avail as int {
            visible@
        } else {
            slots[i as int]
        };
        assert(search@ =~= sv);
        let rest = slice_vec(visible.as_slice(), from, visible.len());
        assert(rest@ =~= visible@.skip(from as int));
        match find_chars(rest.as_slice(), search.as_slice()) {
            Some(off) => {
                proof {
                    crate::text::lemma_find(rest@, search@);
                }
                let offset = from + off;
                let before_s = string_of(slice_vec(visible.as_slice(), 0, offset).as_slice());
                assert(before_s@ =~= visible@.take(offset as int));
                let prefix = span_width(before_s.as_str());
                let sw = span_width(string_of(search.as_slice()).as_str());
                let lo = sat_add16(start, prefix, 0);
                let hi = sat_add16(start, prefix, sw);
                out.push((Span16 { start: lo, end: hi }, i));
                assert(out@.map_values(|x: (Span16, usize)| (x.0.start as int, x.0.end as int, x.1 as int)) =~= before
                    + seq![(sat16(start + prefix), sat16(start + prefix + sw), i as int)]);
                from = offset + search.len();
            },
            None => {
                assert(out@.map_values(|x: (Span16, usize)| (x.0.start as int, x.0.end as int, x.1 as int)) == before);
            },
        }
        i = i + 1;
    }
    assert(out@.map_values(|x: (Span16, usize)| (x.0.start as int, x.0.end as int, x.1 as int)) =~= out@.map_values(
        |x: (Span16, usize)| (x.0.start as int, x.0.end as int, x.1 as int),
    ) + seq![]);
    out
}

/// The Tab whose Panes a block lists: the selected Tab of the cursor's Workspace, else
/// the Workspace's first focused Tab (or its first).
pub open spec fn shown_tab_index(app: App, w: int) -> int {
    if w == app.topology_cursor.workspace {
        app.topology_cursor.selection@[w].tab as int
    } else {
        match focused_tab_from(app.topology.workspaces@[w].tabs@, 0) {
            Some(t) => t,
            None => 0,
        }
    }
}

/// The selected child of line `line` of block `w`: the cursor's Tab or Pane in the
/// cursor's Workspace, none elsewhere.
pub open spec fn selected_child_at(app: App, w: int, line: int) -> Option<int> {
    if w == app.topology_cursor.workspace {
        Some(
            if line == 1 {
                app.topology_cursor.selection@[w].tab as int
            } else {
                app.topology_cursor.selection@[w].pane as int
            },
        )
    } else {
        None
    }
}

/// The hits of line `line` of block `w` drawn from row `top`: one per child on the Tab
/// and Pane lines, or one covering the whole line from column `x` to `right`.
pub open spec fn line_hits(app: App, w: int, top: int, line: int, x: int, right: int, width: int) -> Seq<
    TopologyHit,
> {
    let tab = shown_tab_index(app, w);
    let ranges = if line == 1 || line == 2 {
        child_ranges(app.topology.workspaces@[w]@, line, tab, selected_child_at(app, w, line), width, x + 9)
    } else {
        seq![]
    };
    let row = Span16 { start: (top + line) as u16, end: (top + line + 1) as u16 };
    if ranges.len() == 0 {
        seq![
            TopologyHit {
                y: row,
                x: Span16 { start: x as u16, end: right as u16 },
                workspace: w as usize,
                line: line as usize,
                tab: tab as usize,
                child: None,
            },
        ]
    } else {
        Seq::new(
            ranges.len(),
            |i: int|
                TopologyHit {
                    y: row,
                    x: Span16 { start: ranges[i].0 as u16, end: ranges[i].1 as u16 },
                    workspace: w as usize,
                    line: line as usize,
                    tab: tab as usize,
                    child: Some(ranges[i].2 as usize),
                },
        )
    }
}

/// The hits of the first `l` lines of block `w` drawn from row `top`.
pub open spec fn block_lines(app: App, w: int, top: int, x: int, right: int, width: int, l: int) -> Seq<
    TopologyHit,
>
    decreases l,
{
    if l <= 0 {
        seq![]
    } else {
        block_lines(app, w, top, x, right, width, l - 1) + line_hits(app, w, top, l - 1, x, right, width)
    }
}

/// The hits of the four lines of block `w` drawn from row `top`.
pub open spec fn block_hits(app: App, w: int, top: int, x: int, right: int, width: int) -> Seq<TopologyHit> {
    block_lines(app, w, top, x, right, width, 4)
}

/// The hits of the blocks from `k` on, block `k` drawn from row `y + 4k`, as long as a
/// block's first line fits above `bottom`.
pub open spec fn hits_from(app: App, k: int, y: int, bottom: int, x: int, right: int, width: int) -> Seq<
    TopologyHit,
>
    decreases ws_count(app.topology) - k,
{
    if k < 0 || k >= ws_count(app.topology) || y + 4 * k + 1 > bottom {
        seq![]
    } else {
        block_hits(app, k, y + 4 * k, x, right, width) + hits_from(app, k + 1, y, bottom, x, right, width)
    }
}

/// The rows of the blocks from `k` on, four per block, as far as `hits_from` goes.
pub open spec fn block_rows_from(app: App, k: int, y: int, bottom: int) -> Seq<(Span16, usize)>
    decreases ws_count(app.topology) - k,
{
    if k < 0 || k >= ws_count(app.topology) || y + 4 * k + 1 > bottom {
        seq![]
    } else {
        seq![(Span16 { start: (y + 4 * k) as u16, end: (y + 4 * k + 4) as u16 }, k as usize)]
            + block_rows_from(app, k + 1, y, bottom)
    }
}

/// `a + b`, limited to the `u16` range.
pub open spec fn sat_u16(a: int, b: int) -> int {
    sat16(a + b)
}

fn line_hits_exec(app: &App, w: usize, top: u16, line: usize, x: u16, right: u16, width: usize) -> (r: Vec<
    TopologyHit,
>)
    requires
        w < ws_count(app.topology),
        crate::navigation::cursor_readable(*app),
        line < 4,
        top as int + 4 <= u16::MAX,
        x as int + 9 <= u16::MAX,
    ensures
        r@ == line_hits(*app, w as int, top as int, line as int, x as int, right as int, width as int),
{
    let ws = &app.topology.workspaces[w];
    let selected = w == app.topology_cursor.workspace;
    let tab: usize = if selected {
        app.topology_cursor.selection[w].tab
    } else {
        focused_child_of(ws).tab
    };
    let tab_count = ws.tabs.len();
    proof {
        crate::topology::lemma_focused_tab_bound(ws.tabs@, 0);
        assert(*ws == app.topology.workspaces@[w as int]);
        assert(ws.tabs@.len() == tab_count);
    }
    assert(tab as int == shown_tab_index(*app, w as int));
    let child: Option<usize> = if selected {
        Some(if line == 1 {
            app.topology_cursor.selection[w].tab
        } else {
            app.topology_cursor.selection[w].pane
        })
    } else {
        None
    };
    let ghost want = line_hits(*app, w as int, top as int, line as int, x as int, right as int, width as int);
    let row = Span16 { start: top + line as u16, end: top + line as u16 + 1 };
    let ranges: Vec<(Span16, usize)> = if line == 1 || line == 2 {
        topology_child_ranges(ws, line, tab, child, width, x + 9)
    } else {
        Vec::new()
    };
    let ghost rv = ranges@.map_values(|t: (Span16, usize)| (t.0.start as int, t.0.end as int, t.1 as int));
    assert(rv == if line == 1 || line == 2 {
        child_ranges(
            app.topology.workspaces@[w as int]@,
            line as int,
            tab as int,
            selected_child_at(*app, w as int, line as int),
            width as int,
            x + 9,
        )
    } else {
        seq![]
    });
    let mut out: Vec<TopologyHit> = Vec::new();
    if ranges.len() == 0 {
        out.push(TopologyHit { y: row, x: Span16 { start: x, end: right }, workspace: w, line, tab, child: None });
        assert(out@ =~= want);
        return out;
    }
    let mut i: usize = 0;
    while i < ranges.len()
        invariant
            i <= ranges@.len(),
            rv == ranges@.map_values(|t: (Span16, usize)| (t.0.start as int, t.0.end as int, t.1 as int)),
            rv.len() > 0,
            want == Seq::new(
                rv.len(),
                |j: int|
                    TopologyHit {
                        y: row,
                        x: Span16 { start: rv[j].0 as u16, end: rv[j].1 as u16 },
                        workspace: w,
                        line,
                        tab,
                        child: Some(rv[j].2 as usize),
                    },
            ),
            out@ == want.take(i as int),
        decreases ranges.len() - i,
    {
        let (span, index) = ranges[i];
        out.push(TopologyHit { y: row, x: span, workspace: w, line, tab, child: Some(index) });
        assert(want.take(i + 1) =~= want.take(i as int).push(want[i as int]));
        i = i + 1;
    }
    assert(want.take(ranges@.len() as int) =~= want);
    out
}

/// Where a Topology list drawn in `list` puts its blocks and children: four rows per
/// Workspace from the top of the list, as long as a block's first line fits; the child
/// ranges start nine cells in (see `topology_child_ranges`).
pub fn topology_hits(app: &App, list: Area) -> (r: ListHits)
    requires
        crate::navigation::cursor_readable(*app),
        list.x as int + 9 <= u16::MAX,
        list.y as int + list.height as int + 3 <= u16::MAX,
    ensures
        r.area == list,
        r.topology@ == hits_from(
            *app,
            0,
            list.y as int,
            list.y + list.height,
            list.x as int,
            sat_u16(list.x as int, list.width as int),
            list.width as int,
        ),
        r.rows@ == block_rows_from(*app, 0, list.y as int, list.y + list.height),
        forall|i: int| 0 <= i < r.topology@.len() ==> (#[trigger] r.topology@[i]).workspace < ws_count(app.topology),
{
    let right: u16 = if (list.x as u32) + (list.width as u32) > 0xFFFF {
        0xFFFF
    } else {
        list.x + list.width
    };
    let bottom: u16 = list.y + list.height;
    let width = list.width as usize;
    let n = app.topology.workspaces.len();
    let mut hits: Vec<TopologyHit> = Vec::new();
    let mut rows: Vec<(Span16, usize)> = Vec::new();
    let mut k: usize = 0;
    let mut top: u16 = list.y;
    while k < n && top as u32 + 1 <= bottom as u32
        invariant
            k <= n,
            n == ws_count(app.topology),
            top as int == list.y + 4 * k,
            top as int <= bottom + 3,
            bottom as int == list.y + list.height,
            bottom as int + 3 <= u16::MAX,
            list.x as int + 9 <= u16::MAX,
            right as int == sat_u16(list.x as int, list.width as int),
            width == list.width as usize,
            crate::navigation::cursor_readable(*app),
            hits_from(*app, 0, list.y as int, bottom as int, list.x as int, right as int, width as int) == hits@ + hits_from(*app, k as int, list.y as int, bottom as int, list.x as int, right as int, width as int),
            block_rows_from(*app, 0, list.y as int, bottom as int) == rows@ + block_rows_from(*app, k as int, list.y as int, bottom as int),
            forall|i: int| 0 <= i < hits@.len() ==> (#[trigger] hits@[i]).workspace < n,
        decreases n - k,
    {
        let mut line: usize = 0;
        let ghost before = hits@;
        while line < 4
            invariant
                line <= 4,
                k < n,
                n == ws_count(app.topology),
                top as int + 4 <= u16::MAX,
                list.x as int + 9 <= u16::MAX,
                crate::navigation::cursor_readable(*app),
                hits@ == before + block_lines(*app, k as int, top as int, list.x as int, right as int, width as int, line as int),
                forall|i: int| 0 <= i < hits@.len() ==> (#[trigger] hits@[i]).workspace < n,
            decreases 4 - line,
        {
            let part = line_hits_exec(app, k, top, line, list.x, right, width);
            let ghost mid = hits@;
            let mut j: usize = 0;
            while j < part.len()
                invariant
                    j <= part@.len(),
                    hits@ == mid + part@.take(j as int),
                    k < n,
                    part@ == line_hits(*app, k as int, top as int, line as int, list.x as int, right as int, width as int),
                    forall|i: int| 0 <= i < hits@.len() ==> (#[trigger] hits@[i]).workspace < n,
                decreases part.len() - j,
            {
                hits.push(part[j]);
                assert(part@.take(j + 1) =~= part@.take(j as int).push(part@[j as int]));
                j = j + 1;
            }
            assert(part@.take(part@.len() as int) =~= part@);
            assert(hits@ =~= before + block_lines(*app, k as int, top as int, list.x as int, right as int, width as int, line + 1));
            line = line + 1;
        }
        proof {
            assert(list.y + 4 * (k as int) == top as int);
            assert(hits_from(*app, k as int, list.y as int, bottom as int, list.x as int, right as int, width as int) == block_hits(*app, k as int, top as int, list.x as int, right as int, width as int) + hits_from(*app, k + 1, list.y as int, bottom as int, list.x as int, right as int, width as int));
            assert(block_rows_from(*app, k as int, list.y as int, bottom as int) == seq![(Span16 { start: top, end: (top + 4) as u16 }, k)] + block_rows_from(*app, k + 1, list.y as int, bottom as int));
        }
        let ghost rows_before = rows@;
        rows.push((Span16 { start: top, end: top + 4 }, k));
        assert(rows@ =~= rows_before + seq![(Span16 { start: top, end: (top + 4) as u16 }, k)]);
        assert(hits@ =~= before + block_hits(*app, k as int, top as int, list.x as int, right as int, width as int));
        k = k + 1;
        top = top + 4;
    }
    ListHits { area: list, rows, topology: hits }
}

} // verus!
