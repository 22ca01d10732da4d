//! The text of a Topology block: a Workspace line and its Tabs, Panes and detail lines,
//! clipped to the terminal width.
use vstd::prelude::*;
use crate::text::{append_str, chars_of, extend, find, push_usize, decimal, string_of};
use crate::topology::{
    state_glyph, state_label, AgentModel, AgentState, ChildSelection, PaneModel, PaneNode, TabModel, WorkspaceModel,
    WorkspaceNode,
};

verus! {

/// The display width of a text in terminal cells, as ratatui measures a `Span`.
pub uninterp spec fn display_width(s: Seq<char>) -> usize;

/// Every character of `s` is printable ASCII (space to `~`).
pub open spec fn printable_ascii(s: Seq<char>) -> bool {
    forall|i: int| 0 <= i < s.len() ==> 0x20 <= (#[trigger] s[i] as u32) <= 0x7E
}

/// `Span::width` of ratatui (the Unicode display width of the text, `unicode-width`'s
/// `str::width`). The result is named by `display_width`; of printable ASCII text it is
/// the number of characters, since `unicode-width` counts each such character as one
/// column and none of them changes its neighbours' widths. Nothing more is claimed.
#[verifier::external_body]
pub(crate) fn span_width(s: &str) -> (r: usize)
    ensures
        r == display_width(s@),
        printable_ascii(s@) ==> r == s@.len(),
{
    ratatui::text::Span::raw(s).width()
}

/// The longest prefix of `s` from position `i` whose characters, measured one by one,
/// fit in `width` cells when `used` cells are already taken.
pub open spec fn clip_from(s: Seq<char>, width: int, i: int, used: int) -> Seq<char>
    decreases s.len() - i,
{
    if i < 0 || i >= s.len() {
        s
    } else if used + display_width(seq![s[i]]) > width {
        s.take(i)
    } else {
        clip_from(s, width, i + 1, used + display_width(seq![s[i]]))
    }
}

/// `s` clipped to `width` cells.
pub open spec fn clip_of(s: Seq<char>, width: int) -> Seq<char> {
    clip_from(s, width, 0, 0)
}

/// Clips `value` to `width` cells, character by character.
pub fn clip(value: &str, width: usize) -> (r: String)
    ensures
        r@ == clip_of(value@, width as int),
{
    let s = chars_of(value);
    let mut used: usize = 0;
    let mut i: usize = 0;
    while i < s.len()
        invariant
            i <= s@.len(),
            s@ == value@,
            used <= width,
            clip_of(value@, width as int) == clip_from(s@, width as int, i as int, used as int),
        decreases s.len() - i,
    {
        let one: Vec<char> = vec![s[i]];
        assert(one@ =~= seq![s@[i as int]]);
        let w = span_width(string_of(one.as_slice()).as_str());
        if w > width - used {
            return string_of(crate::text::slice_vec(s.as_slice(), 0, i).as_slice());
        }
        used = used + w;
        i = i + 1;
    }
    string_of(s.as_slice())
}

/// `value` when it fits in `width` cells; otherwise clipped, starting at the first
/// occurrence of `selected` when there is one.
pub open spec fn clip_for_hits(value: Seq<char>, width: int, selected: Option<Seq<char>>) -> Seq<char> {
    if display_width(value) <= width {
        value
    } else {
        match selected {
            Some(sel) => match find(value, sel) {
                Some(start) => clip_of(value.skip(start), width),
                None => clip_of(value, width),
            },
            None => clip_of(value, width),
        }
    }
}

/// Clips `value` to `width` cells, keeping the selected part in view.
pub fn clip_selected_for_hits(value: &str, width: usize, selected: Option<&str>) -> (r: String)
    ensures
        r@ == clip_for_hits(value@, width as int, crate::recent::opt_str_view(selected)),
{
    if span_width(value) <= width {
        return value.to_owned();
    }
    match selected {
        Some(sel) => {
            let v = chars_of(value);
            let sc = chars_of(sel);
            match crate::text::find_chars(v.as_slice(), sc.as_slice()) {
                Some(start) => {
                    proof {
                        crate::text::lemma_find(v@, sc@);
                    }
                    let suffix = string_of(crate::text::slice_vec(v.as_slice(), start, v.len()).as_slice());
                    assert(suffix@ =~= value@.skip(start as int));
                    clip(suffix.as_str(), width)
                },
                None => clip(value, width),
            }
        },
        None => clip(value, width),
    }
}

} // verus!

verus! {

/// How many of the first `n` Panes run an agent in state `s`.
pub open spec fn panes_in_state(ps: Seq<PaneModel>, s: AgentState, n: int) -> int
    decreases n,
{
    if n <= 0 {
        0
    } else {
        panes_in_state(ps, s, n - 1) + if ps[n - 1].agent matches Some(a) && a.state == s {
            1int
        } else {
            0int
        }
    }
}

/// How many Panes of the first `n` Tabs run an agent in state `s`.
pub open spec fn tabs_in_state(ts: Seq<TabModel>, s: AgentState, n: int) -> int
    decreases n,
{
    if n <= 0 {
        0
    } else {
        tabs_in_state(ts, s, n - 1) + panes_in_state(ts[n - 1].panes, s, ts[n - 1].panes.len() as int)
    }
}

/// How many agents of a Workspace are in state `s`.
pub open spec fn agents_in(w: WorkspaceModel, s: AgentState) -> int {
    tabs_in_state(w.tabs, s, w.tabs.len() as int)
}

/// The count of state `s` as a part of the summary, when there are any.
pub open spec fn count_part(w: WorkspaceModel, s: AgentState) -> Seq<Seq<char>> {
    if agents_in(w, s) > 0 {
        seq![decimal(agents_in(w, s)) + " "@ + state_label(s)]
    } else {
        seq![]
    }
}

/// The parts of a Workspace's agent summary: counts of blocked, done, working and idle
/// agents; only when every detected agent is of unknown state, their count.
pub open spec fn aggregate_parts(w: WorkspaceModel) -> Seq<Seq<char>> {
    let known = count_part(w, AgentState::Blocked) + count_part(w, AgentState::Done) + count_part(
        w,
        AgentState::Working,
    ) + count_part(w, AgentState::Idle);
    let detected = agents_in(w, AgentState::Blocked) + agents_in(w, AgentState::Done) + agents_in(
        w,
        AgentState::Working,
    ) + agents_in(w, AgentState::Idle) + agents_in(w, AgentState::Unknown);
    if detected > 0 && known.len() == 0 {
        seq![decimal(agents_in(w, AgentState::Unknown)) + " unknown"@]
    } else {
        known
    }
}

/// A Workspace's agent summary.
pub open spec fn aggregate_text(w: WorkspaceModel) -> Seq<char> {
    crate::text::join_sep(aggregate_parts(w), " · "@)
}

proof fn lemma_panes_in_state_bound(ps: Seq<PaneModel>, s: AgentState, n: int)
    requires
        0 <= n <= ps.len(),
    ensures
        0 <= panes_in_state(ps, s, n) <= n,
    decreases n,
{
    if n > 0 {
        lemma_panes_in_state_bound(ps, s, n - 1);
    }
}

/// How many agents of the Workspace are in state `s`.
fn count_agents(w: &WorkspaceNode, s: AgentState) -> (r: u128)
    ensures
        r as int == agents_in(w@, s),
{
    let mut total: u128 = 0;
    let mut i: usize = 0;
    while i < w.tabs.len()
        invariant
            i <= w.tabs@.len(),
            total as int == tabs_in_state(w@.tabs, s, i as int),
            total <= i * 0x1_0000_0000_0000_0000,
        decreases w.tabs.len() - i,
    {
        let tab = &w.tabs[i];
        let mut j: usize = 0;
        let mut here: u128 = 0;
        while j < tab.panes.len()
            invariant
                j <= tab.panes@.len(),
                here as int == panes_in_state(tab@.panes, s, j as int),
                here <= j,
            decreases tab.panes.len() - j,
        {
            match &tab.panes[j].agent {
                Some(a) => {
                    if a.state == s {
                        here = here + 1;
                    }
                },
                None => {},
            }
            j = j + 1;
        }
        assert(w@.tabs[i as int] == tab@);
        assert(total + here <= (i + 1) * 0x1_0000_0000_0000_0000) by (nonlinear_arith)
            requires
                total <= i * 0x1_0000_0000_0000_0000,
                here < 0x1_0000_0000_0000_0000,
        ;
        assert((i + 1) * 0x1_0000_0000_0000_0000 <= 0x1_0000_0000_0000_0000 * 0x1_0000_0000_0000_0000) by (nonlinear_arith)
            requires
                i + 1 <= 0x1_0000_0000_0000_0000,
        ;
        total = total + here;
        i = i + 1;
    }
    total
}

fn push_count_part(parts: &mut Vec<Vec<char>>, count: u128, s: AgentState)
    ensures
        final(parts)@.map_values(|p: Vec<char>| p@) == old(parts)@.map_values(|p: Vec<char>| p@) + if count > 0 {
            seq![decimal(count as int) + " "@ + state_label(s)]
        } else {
            seq![]
        },
{
    if count > 0 {
        let ghost before = parts@.map_values(|p: Vec<char>| p@);
        let mut part: Vec<char> = Vec::new();
        crate::text::push_u128(&mut part, count);
        append_str(&mut part, " ");
        append_str(&mut part, s.label());
        parts.push(part);
        assert(parts@.map_values(|p: Vec<char>| p@) =~= before + seq![decimal(count as int) + " "@ + state_label(s)]);
    } else {
        assert(parts@.map_values(|p: Vec<char>| p@) =~= old(parts)@.map_values(|p: Vec<char>| p@) + seq![]);
    }
}

/// A Workspace's agent summary, such as `1 blocked · 2 working`.
pub fn aggregate(workspace: &WorkspaceNode) -> (r: String)
    ensures
        r@ == aggregate_text(workspace@),
{
    let blocked = count_agents(workspace, AgentState::Blocked);
    let done = count_agents(workspace, AgentState::Done);
    let working = count_agents(workspace, AgentState::Working);
    let idle = count_agents(workspace, AgentState::Idle);
    let unknown = count_agents(workspace, AgentState::Unknown);
    let mut parts: Vec<Vec<char>> = Vec::new();
    assert(parts@.map_values(|p: Vec<char>| p@) =~= seq![]);
    push_count_part(&mut parts, blocked, AgentState::Blocked);
    push_count_part(&mut parts, done, AgentState::Done);
    push_count_part(&mut parts, working, AgentState::Working);
    push_count_part(&mut parts, idle, AgentState::Idle);
    let detected = blocked > 0 || done > 0 || working > 0 || idle > 0 || unknown > 0;
    if detected && parts.len() == 0 {
        let mut part: Vec<char> = Vec::new();
        crate::text::push_u128(&mut part, unknown);
        append_str(&mut part, " unknown");
        parts.push(part);
        assert(parts@.map_values(|p: Vec<char>| p@) =~= aggregate_parts(workspace@));
    } else {
        assert(parts@.map_values(|p: Vec<char>| p@) =~= aggregate_parts(workspace@));
    }
    string_of(crate::text::join_chars(&parts, " · ").as_slice())
}

/// A label, or `unnamed` when it is empty.
pub open spec fn or_unnamed(l: Seq<char>) -> Seq<char> {
    if l.len() == 0 {
        "unnamed"@
    } else {
        l
    }
}

/// The name an agent is shown by: its alias, else its name.
pub open spec fn agent_display(a: AgentModel) -> Seq<char> {
    match a.alias {
        Some(x) => x,
        None => a.name,
    }
}

/// How a Pane is shown in a Topology block: its agent's glyph and name, or its label.
pub open spec fn pane_text(p: PaneModel) -> Seq<char> {
    match p.agent {
        Some(a) => state_glyph(a.state) + " "@ + agent_display(a),
        None => or_unnamed(p.label),
    }
}

/// A label, or `unnamed` when it is empty.
pub fn or_unnamed_text(l: &str) -> (r: &str)
    ensures
        r@ == or_unnamed(l@),
{
    if l.is_empty() {
        "unnamed"
    } else {
        l
    }
}

/// How a Pane is shown in a Topology block.
pub fn pane_value(pane: &PaneNode) -> (r: String)
    ensures
        r@ == pane_text(pane@),
{
    match &pane.agent {
        Some(agent) => {
            let mut out: Vec<char> = Vec::new();
            append_str(&mut out, agent.state.glyph());
            append_str(&mut out, " ");
            match &agent.alias {
                Some(a) => append_str(&mut out, a.as_str()),
                None => append_str(&mut out, agent.name.as_str()),
            }
            assert(out@ =~= pane_text(pane@));
            string_of(out.as_slice())
        },
        None => or_unnamed_text(pane.label.as_str()).to_owned(),
    }
}

} // verus!

verus! {

/// `a - b`, or 0 when `b` exceeds `a`.
pub open spec fn sat_sub(a: int, b: int) -> int {
    if a > b {
        a - b
    } else {
        0
    }
}

/// How a Workspace is identified: its repository and head, else its label.
pub open spec fn identity_of(w: WorkspaceModel) -> Seq<char> {
    match w.git {
        Some(g) => g.label + " › "@ + g.head,
        None => w.label,
    }
}

/// The state column: `@` centred in five cells for the focused Workspace.
pub open spec fn state_cell(w: WorkspaceModel) -> Seq<char> {
    if w.focused {
        "  @  "@
    } else {
        "     "@
    }
}

/// The first line of a block: state column, identity and agent summary, clipped.
pub open spec fn first_line(w: WorkspaceModel, width: int) -> Seq<char> {
    let first = state_cell(w) + clip_of(identity_of(w), sat_sub(width, 5));
    first + clip_of(aggregate_text(w), sat_sub(width, display_width(first) as int))
}

/// The first focused item position at or after `from`.
pub open spec fn first_focused_tab(ts: Seq<TabModel>, from: int) -> Option<int>
    decreases ts.len() - from,
{
    if from < 0 || from >= ts.len() {
        None
    } else if ts[from].focused {
        Some(from)
    } else {
        first_focused_tab(ts, from + 1)
    }
}

/// The first focused Pane position at or after `from`.
pub open spec fn first_focused_pane(ps: Seq<PaneModel>, from: int) -> Option<int>
    decreases ps.len() - from,
{
    if from < 0 || from >= ps.len() {
        None
    } else if ps[from].focused {
        Some(from)
    } else {
        first_focused_pane(ps, from + 1)
    }
}

/// The Tab a block details: the selected one when it exists, else the focused one, else
/// the first.
pub open spec fn shown_tab(w: WorkspaceModel, sel: Option<ChildSelection>) -> Option<int> {
    if sel matches Some(s) && s.tab < w.tabs.len() {
        Some(sel->0.tab as int)
    } else {
        match first_focused_tab(w.tabs, 0) {
            Some(i) => Some(i),
            None => if w.tabs.len() > 0 {
                Some(0)
            } else {
                None
            },
        }
    }
}

/// `v` in its selection slot: bracketed when it is selected, between spaces otherwise,
/// so that moving the selection does not shift the other values.
pub open spec fn marked(v: Seq<char>, selected: bool) -> Seq<char> {
    if selected {
        "["@ + v + "]"@
    } else {
        " "@ + v + " "@
    }
}

/// The Tabs line value: every Tab label, the selected one bracketed.
pub open spec fn tabs_text(w: WorkspaceModel, sel: Option<ChildSelection>) -> Seq<char> {
    if w.tabs.len() == 0 {
        "no tabs"@
    } else {
        crate::text::join_sep(
            Seq::new(
                w.tabs.len(),
                |i: int| marked(or_unnamed(w.tabs[i].label), sel matches Some(s) && s.tab == i),
            ),
            " "@,
        )
    }
}

/// The Panes line value: every Pane of the shown Tab, the selected one bracketed.
pub open spec fn panes_text(w: WorkspaceModel, sel: Option<ChildSelection>) -> Seq<char> {
    match shown_tab(w, sel) {
        Some(ti) => {
            let t = w.tabs[ti];
            if t.panes.len() == 0 {
                "no panes"@
            } else {
                crate::text::join_sep(
                    Seq::new(
                        t.panes.len(),
                        |i: int| marked(pane_text(t.panes[i]), sel matches Some(s) && s.pane == i),
                    ),
                    " "@,
                )
            }
        },
        None => "no panes"@,
    }
}

/// The Pane a block details: the selected one of the shown Tab when it exists, else its
/// focused one, else its first.
pub open spec fn shown_pane(w: WorkspaceModel, sel: Option<ChildSelection>) -> Option<PaneModel> {
    match shown_tab(w, sel) {
        Some(ti) => {
            let ps = w.tabs[ti].panes;
            if sel matches Some(s) && s.pane < ps.len() {
                Some(ps[sel->0.pane as int])
            } else {
                match first_focused_pane(ps, 0) {
                    Some(i) => Some(ps[i]),
                    None => if ps.len() > 0 {
                        Some(ps[0])
                    } else {
                        None
                    },
                }
            }
        },
        None => None,
    }
}

/// The detail line's label and value: an agent's alias, title or name, or a Pane's label.
pub open spec fn detail_of(w: WorkspaceModel, sel: Option<ChildSelection>) -> (Seq<char>, Seq<char>) {
    match shown_pane(w, sel) {
        Some(p) => match p.agent {
            Some(a) => (
                "agent"@,
                match a.alias {
                    Some(x) => x,
                    None => match p.title {
                        Some(t) => t,
                        None => a.name,
                    },
                },
            ),
            None => ("pane"@, or_unnamed(p.label)),
        },
        None => ("pane"@, "no panes"@),
    }
}

/// `l` padded with spaces to eight characters.
pub open spec fn pad8(l: Seq<char>) -> Seq<char> {
    if l.len() < 8 {
        l + Seq::new((8 - l.len()) as nat, |i: int| ' ')
    } else {
        l
    }
}

/// A child line: a space, the label padded to eight, and the value clipped to the rest
/// of the width around its selected part.
pub open spec fn child_line(label: Seq<char>, value: Seq<char>, selected: Option<Seq<char>>, width: int) -> Seq<char> {
    let fixed = " "@ + pad8(label);
    fixed + clip_for_hits(value, sat_sub(width, display_width(fixed) as int), selected)
}

/// The bracketed selected Tab label, when the selection names an existing Tab.
pub open spec fn selected_tab_value(w: WorkspaceModel, sel: Option<ChildSelection>) -> Option<Seq<char>> {
    if sel matches Some(s) && s.tab < w.tabs.len() {
        Some("["@ + or_unnamed(w.tabs[sel->0.tab as int].label) + "]"@)
    } else {
        None
    }
}

/// The bracketed selected Pane, when the selection names an existing Pane of the shown
/// Tab.
pub open spec fn selected_pane_value(w: WorkspaceModel, sel: Option<ChildSelection>) -> Option<Seq<char>> {
    match sel {
        Some(s) => match shown_tab(w, sel) {
            Some(ti) => if s.pane < w.tabs[ti].panes.len() {
                Some("["@ + pane_text(w.tabs[ti].panes[s.pane as int]) + "]"@)
            } else {
                None
            },
            None => None,
        },
        None => None,
    }
}

/// The four lines of a Workspace's Topology block, joined by newlines.
pub open spec fn block_text(w: WorkspaceModel, width: int, sel: Option<ChildSelection>) -> Seq<char> {
    let d = detail_of(w, sel);
    first_line(w, width) + "\n"@ + child_line("tabs"@, tabs_text(w, sel), selected_tab_value(w, sel), width)
        + "\n"@ + child_line("panes"@, panes_text(w, sel), selected_pane_value(w, sel), width) + "\n"@
        + child_line(d.0, d.1, None, width)
}

} // verus!

verus! {

fn identity(w: &WorkspaceNode) -> (r: String)
    ensures
        r@ == identity_of(w@),
{
    match &w.git {
        Some(g) => {
            let mut out: Vec<char> = Vec::new();
            append_str(&mut out, g.label.as_str());
            append_str(&mut out, " › ");
            match &g.head {
                crate::topology::GitHead::Branch(b) => append_str(&mut out, b.as_str()),
                crate::topology::GitHead::Detached(h) => append_str(&mut out, h.as_str()),
            }
            string_of(out.as_slice())
        },
        None => w.label.clone(),
    }
}

fn first_line_exec(w: &WorkspaceNode, width: usize) -> (r: Vec<char>)
    ensures
        r@ == first_line(w@, width as int),
{
    let mut first: Vec<char> = Vec::new();
    if w.focused {
        append_str(&mut first, "  @  ");
    } else {
        append_str(&mut first, "     ");
    }
    let id = identity(w);
    let idw = if width > 5 {
        width - 5
    } else {
        0
    };
    let clipped = clip(id.as_str(), idw);
    append_str(&mut first, clipped.as_str());
    let fw = span_width(string_of(first.as_slice()).as_str());
    let available = if width > fw {
        width - fw
    } else {
        0
    };
    let agg = aggregate(w);
    let tail = clip(agg.as_str(), available);
    append_str(&mut first, tail.as_str());
    first
}

fn shown_tab_exec(w: &WorkspaceNode, sel: Option<ChildSelection>) -> (r: Option<usize>)
    ensures
        match r {
            Some(i) => shown_tab(w@, sel) == Some(i as int) && i < w.tabs@.len(),
            None => shown_tab(w@, sel) is None,
        },
{
    match sel {
        Some(s) => {
            if s.tab < w.tabs.len() {
                return Some(s.tab);
            }
        },
        None => {},
    }
    let mut i: usize = 0;
    while i < w.tabs.len()
        invariant
            i <= w.tabs@.len(),
            !(sel matches Some(s) && s.tab < w.tabs@.len()),
            first_focused_tab(w@.tabs, 0) == first_focused_tab(w@.tabs, i as int),
        decreases w.tabs.len() - i,
    {
        if w.tabs[i].focused {
            return Some(i);
        }
        i = i + 1;
    }
    if w.tabs.len() > 0 {
        Some(0)
    } else {
        None
    }
}

pub(crate) fn bracketed(v: &[char], selected: bool) -> (r: Vec<char>)
    ensures
        r@ == marked(v@, selected),
{
    let mut out: Vec<char> = Vec::new();
    if selected {
        out.push('[');
        extend(&mut out, v);
        out.push(']');
        proof {
            reveal_strlit("[");
            reveal_strlit("]");
        }
        assert(out@ =~= marked(v@, selected));
    } else {
        out.push(' ');
        extend(&mut out, v);
        out.push(' ');
        proof {
            reveal_strlit(" ");
        }
        assert(out@ =~= marked(v@, selected));
    }
    out
}

fn tabs_line(w: &WorkspaceNode, sel: Option<ChildSelection>) -> (r: Vec<char>)
    ensures
        r@ == tabs_text(w@, sel),
{
    if w.tabs.len() == 0 {
        return chars_of("no tabs");
    }
    let ghost want = Seq::new(
        w@.tabs.len(),
        |i: int| marked(or_unnamed(w@.tabs[i].label), sel matches Some(s) && s.tab == i),
    );
    let mut parts: Vec<Vec<char>> = Vec::new();
    let mut i: usize = 0;
    while i < w.tabs.len()
        invariant
            i <= w.tabs@.len(),
            want == Seq::new(
                w@.tabs.len(),
                |i: int| marked(or_unnamed(w@.tabs[i].label), sel matches Some(s) && s.tab == i),
            ),
            parts@.map_values(|p: Vec<char>| p@) == want.take(i as int),
        decreases w.tabs.len() - i,
    {
        let label = chars_of(or_unnamed_text(w.tabs[i].label.as_str()));
        let is_sel = match sel {
            Some(s) => s.tab == i,
            None => false,
        };
        let ghost before = parts@.map_values(|p: Vec<char>| p@);
        parts.push(bracketed(label.as_slice(), is_sel));
        assert(w@.tabs[i as int] == w.tabs@[i as int]@);
        assert(want.take(i + 1) =~= want.take(i as int).push(want[i as int]));
        assert(parts@.map_values(|p: Vec<char>| p@) =~= before.push(want[i as int]));
        i = i + 1;
    }
    assert(want.take(w.tabs@.len() as int) =~= want);
    crate::text::join_chars(&parts, " ")
}

fn panes_line(w: &WorkspaceNode, sel: Option<ChildSelection>) -> (r: Vec<char>)
    ensures
        r@ == panes_text(w@, sel),
{
    let ti = match shown_tab_exec(w, sel) {
        Some(t) => t,
        None => {
            return chars_of("no panes");
        },
    };
    let tab = &w.tabs[ti];
    if tab.panes.len() == 0 {
        return chars_of("no panes");
    }
    let ghost t = w@.tabs[ti as int];
    let ghost want = Seq::new(t.panes.len(), |i: int| marked(pane_text(t.panes[i]), sel matches Some(s) && s.pane == i));
    let mut parts: Vec<Vec<char>> = Vec::new();
    let mut i: usize = 0;
    while i < tab.panes.len()
        invariant
            i <= tab.panes@.len(),
            t == tab@,
            want == Seq::new(t.panes.len(), |i: int| marked(pane_text(t.panes[i]), sel matches Some(s) && s.pane == i)),
            parts@.map_values(|p: Vec<char>| p@) == want.take(i as int),
        decreases tab.panes.len() - i,
    {
        let v = chars_of(pane_value(&tab.panes[i]).as_str());
        let is_sel = match sel {
            Some(s) => s.pane == i,
            None => false,
        };
        let ghost before = parts@.map_values(|p: Vec<char>| p@);
        parts.push(bracketed(v.as_slice(), is_sel));
        assert(want.take(i + 1) =~= want.take(i as int).push(want[i as int]));
        assert(parts@.map_values(|p: Vec<char>| p@) =~= before.push(want[i as int]));
        i = i + 1;
    }
    assert(want.take(tab.panes@.len() as int) =~= want);
    crate::text::join_chars(&parts, " ")
}

fn shown_pane_exec<'a>(w: &'a WorkspaceNode, sel: Option<ChildSelection>) -> (r: Option<&'a PaneNode>)
    ensures
        match r {
            Some(p) => shown_pane(w@, sel) == Some(p@),
            None => shown_pane(w@, sel) is None,
        },
{
    let ti = match shown_tab_exec(w, sel) {
        Some(t) => t,
        None => {
            return None;
        },
    };
    let ps = &w.tabs[ti].panes;
    assert(w@.tabs[ti as int].panes == ps@.map_values(|p: PaneNode| p@));
    match sel {
        Some(s) => {
            if s.pane < ps.len() {
                return Some(&ps[s.pane]);
            }
        },
        None => {},
    }
    let mut i: usize = 0;
    while i < ps.len()
        invariant
            i <= ps@.len(),
            ti < w.tabs@.len(),
            shown_tab(w@, sel) == Some(ti as int),
            !(sel matches Some(s) && s.pane < ps@.len()),
            w@.tabs[ti as int].panes == ps@.map_values(|p: PaneNode| p@),
            first_focused_pane(w@.tabs[ti as int].panes, 0) == first_focused_pane(w@.tabs[ti as int].panes, i as int),
        decreases ps.len() - i,
    {
        if ps[i].focused {
            return Some(&ps[i]);
        }
        i = i + 1;
    }
    if ps.len() > 0 {
        Some(&ps[0])
    } else {
        None
    }
}

fn detail_exec(w: &WorkspaceNode, sel: Option<ChildSelection>) -> (r: (&'static str, String))
    ensures
        (r.0@, r.1@) == detail_of(w@, sel),
{
    match shown_pane_exec(w, sel) {
        Some(p) => match &p.agent {
            Some(a) => {
                let v = match &a.alias {
                    Some(x) => x.clone(),
                    None => match &p.title {
                        Some(t) => t.clone(),
                        None => a.name.clone(),
                    },
                };
                ("agent", v)
            },
            None => ("pane", or_unnamed_text(p.label.as_str()).to_owned()),
        },
        None => ("pane", "no panes".to_owned()),
    }
}

fn pad8_exec(l: &str) -> (r: Vec<char>)
    ensures
        r@ == pad8(l@),
{
    let mut out = chars_of(l);
    let n = out.len();
    if n < 8 {
        let mut k: usize = n;
        while k < 8
            invariant
                n <= k <= 8,
                n == l@.len(),
                out@ == l@ + Seq::new((k - n) as nat, |i: int| ' '),
            decreases 8 - k,
        {
            out.push(' ');
            assert(out@ =~= l@ + Seq::new((k + 1 - n) as nat, |i: int| ' '));
            k = k + 1;
        }
    }
    out
}

fn child_exec(label: &str, value: &str, selected: Option<&str>, width: usize) -> (r: Vec<char>)
    ensures
        r@ == child_line(label@, value@, crate::recent::opt_str_view(selected), width as int),
{
    let mut fixed: Vec<char> = vec![' '];
    let p = pad8_exec(label);
    extend(&mut fixed, p.as_slice());
    proof {
        reveal_strlit(" ");
    }
    assert(fixed@ =~= " "@ + pad8(label@));
    let fw = span_width(string_of(fixed.as_slice()).as_str());
    let rest = if width > fw {
        width - fw
    } else {
        0
    };
    let v = clip_selected_for_hits(value, rest, selected);
    append_str(&mut fixed, v.as_str());
    fixed
}

/// The text of a Workspace's Topology block (see `block_text`): its first line and its
/// Tabs, Panes and detail lines, with the given Tab and Pane selection marked.
pub fn render_workspace_block_selected(workspace: &WorkspaceNode, width: usize, selection: Option<ChildSelection>) -> (r:
    String)
    ensures
        r@ == block_text(workspace@, width as int, selection),
{
    let w = workspace;
    let mut out = first_line_exec(w, width);
    let tabs = string_of(tabs_line(w, selection).as_slice());
    let panes = string_of(panes_line(w, selection).as_slice());
    let sel_tab: Option<String> = match selection {
        Some(s) => {
            if s.tab < w.tabs.len() {
                let mut b: Vec<char> = Vec::new();
                append_str(&mut b, "[");
                append_str(&mut b, or_unnamed_text(w.tabs[s.tab].label.as_str()));
                append_str(&mut b, "]");
                assert(w@.tabs[s.tab as int] == w.tabs@[s.tab as int]@);
                Some(string_of(b.as_slice()))
            } else {
                None
            }
        },
        None => None,
    };
    let sel_pane: Option<String> = match selection {
        Some(s) => match shown_tab_exec(w, selection) {
            Some(ti) => {
                if s.pane < w.tabs[ti].panes.len() {
                    let mut b: Vec<char> = Vec::new();
                    append_str(&mut b, "[");
                    append_str(&mut b, pane_value(&w.tabs[ti].panes[s.pane]).as_str());
                    append_str(&mut b, "]");
                    Some(string_of(b.as_slice()))
                } else {
                    None
                }
            },
            None => None,
        },
        None => None,
    };
    let d = detail_exec(w, selection);
    append_str(&mut out, "\n");
    let tab_sel: Option<&str> = match &sel_tab {
        Some(x) => Some(x.as_str()),
        None => None,
    };
    let c1 = child_exec("tabs", tabs.as_str(), tab_sel, width);
    extend(&mut out, c1.as_slice());
    append_str(&mut out, "\n");
    let pane_sel: Option<&str> = match &sel_pane {
        Some(x) => Some(x.as_str()),
        None => None,
    };
    let c2 = child_exec("panes", panes.as_str(), pane_sel, width);
    extend(&mut out, c2.as_slice());
    append_str(&mut out, "\n");
    let c3 = child_exec(d.0, d.1.as_str(), None, width);
    extend(&mut out, c3.as_slice());
    assert(out@ =~= block_text(workspace@, width as int, selection));
    string_of(out.as_slice())
}

/// The text of a Workspace's Topology block with nothing selected.
pub fn render_workspace_block(workspace: &WorkspaceNode, width: usize) -> (r: String)
    ensures
        r@ == block_text(workspace@, width as int, None),
{
    render_workspace_block_selected(workspace, width, None)
}

} // verus!

verus! {

/// The pieces of `s` between newlines.
pub open spec fn split_newlines(s: Seq<char>) -> Seq<Seq<char>>
    decreases s.len(),
{
    match find(s, seq!['\n']) {
        Some(k) => {
            if 0 <= k < s.len() {
                seq![s.take(k)] + split_newlines(s.skip(k + 1))
            } else {
                seq![s]
            }
        },
        None => seq![s],
    }
}

/// A line without one trailing carriage return.
pub open spec fn without_cr(l: Seq<char>) -> Seq<char> {
    if l.len() > 0 && l.last() == '\r' {
        l.drop_last()
    } else {
        l
    }
}

/// The lines of `s` as `str::lines` gives them: split at newlines, a final newline
/// ending the last line, and a carriage return dropped where it stands right before a
/// newline.
pub open spec fn lines_of(s: Seq<char>) -> Seq<Seq<char>> {
    if s.len() == 0 {
        seq![]
    } else {
        let p = split_newlines(s);
        let ends = s.last() == '\n';
        let q = if ends {
            p.drop_last()
        } else {
            p
        };
        Seq::new(q.len(), |i: int| if ends || i + 1 < q.len() {
            without_cr(q[i])
        } else {
            q[i]
        })
    }
}

/// `n` spaces.
pub open spec fn spaces(n: int) -> Seq<char> {
    Seq::new(if n > 0 {
        n as nat
    } else {
        0
    }, |i: int| ' ')
}

/// A row padded with spaces, or clipped, to `width` cells.
pub open spec fn fitted(row: Seq<char>, width: int) -> Seq<char> {
    let current = display_width(row) as int;
    if current < width {
        row + spaces(width - current)
    } else if current > width {
        let c = clip_of(row, width);
        c + spaces(sat_sub(width, display_width(c) as int))
    } else {
        row
    }
}

/// The `k`th line of `s`, or the empty line.
pub open spec fn line_or_empty(s: Seq<char>, k: int) -> Seq<char> {
    if k < lines_of(s).len() {
        lines_of(s)[k]
    } else {
        seq![]
    }
}

pub(crate) fn push_spaces(out: &mut Vec<char>, n: usize)
    ensures
        final(out)@ == old(out)@ + spaces(n as int),
{
    let mut k: usize = 0;
    while k < n
        invariant
            k <= n,
            out@ == old(out)@ + spaces(k as int),
        decreases n - k,
    {
        out.push(' ');
        assert(out@ =~= old(out)@ + spaces(k + 1));
        k = k + 1;
    }
}

fn fit(row: &[char], width: usize) -> (r: String)
    ensures
        r@ == fitted(row@, width as int),
{
    let rs = string_of(row);
    let current = span_width(rs.as_str());
    let mut out: Vec<char> = Vec::new();
    if current < width {
        extend(&mut out, row);
        push_spaces(&mut out, width - current);
    } else if current > width {
        let c = clip(rs.as_str(), width);
        let used = span_width(c.as_str());
        append_str(&mut out, c.as_str());
        push_spaces(&mut out, if width > used {
            width - used
        } else {
            0
        });
        assert(spaces(sat_sub(width as int, used as int)) =~= spaces(if width > used {
            (width - used) as int
        } else {
            0
        }));
    } else {
        extend(&mut out, row);
    }
    string_of(out.as_slice())
}

proof fn lemma_split_newlines_nonempty(s: Seq<char>)
    ensures
        split_newlines(s).len() >= 1,
    decreases s.len(),
{
    crate::text::lemma_find(s, seq!['\n']);
    match find(s, seq!['\n']) {
        Some(k) => {
            if 0 <= k < s.len() {
                lemma_split_newlines_nonempty(s.skip(k + 1));
            }
        },
        None => {},
    }
}

/// The lines of `s`.
pub fn lines(s: &[char]) -> (r: Vec<Vec<char>>)
    ensures
        r@.map_values(|l: Vec<char>| l@) == lines_of(s@),
{
    let mut pieces: Vec<Vec<char>> = Vec::new();
    if s.len() == 0 {
        assert(pieces@.map_values(|l: Vec<char>| l@) =~= lines_of(s@));
        return pieces;
    }
    let nl: Vec<char> = vec!['\n'];
    assert(nl@ =~= seq!['\n']);
    let mut rest = crate::text::slice_vec(s, 0, s.len());
    assert(rest@ =~= s@);
    loop
        invariant_except_break
            nl@ == seq!['\n'],
            split_newlines(s@) == pieces@.map_values(|l: Vec<char>| l@) + split_newlines(rest@),
        ensures
            split_newlines(s@) == pieces@.map_values(|l: Vec<char>| l@),
        decreases rest@.len(),
    {
        let ghost before = pieces@.map_values(|l: Vec<char>| l@);
        match crate::text::find_chars(rest.as_slice(), nl.as_slice()) {
            Some(k) => {
                proof {
                    crate::text::lemma_find(rest@, nl@);
                }
                let rl = rest.len();
                assert(k + 1 <= rl);
                let k1 = k + 1;
                let head = crate::text::slice_vec(rest.as_slice(), 0, k);
                let tail = crate::text::slice_vec(rest.as_slice(), k1, rest.len());
                assert(head@ =~= rest@.take(k as int));
                assert(tail@ =~= rest@.skip(k + 1));
                pieces.push(head);
                assert(pieces@.map_values(|l: Vec<char>| l@) =~= before.push(rest@.take(k as int)));
                rest = tail;
            },
            None => {
                let ghost last = rest@;
                pieces.push(rest);
                assert(split_newlines(last) == seq![last]);
                assert(pieces@.map_values(|l: Vec<char>| l@) =~= before + split_newlines(last));
                break;
            },
        }
    }
    let ghost p = pieces@.map_values(|l: Vec<char>| l@);
    let ends = s[s.len() - 1] == '\n';
    if ends {
        proof {
            lemma_split_newlines_nonempty(s@);
        }
        pieces.pop();
        assert(pieces@.map_values(|l: Vec<char>| l@) =~= p.drop_last());
    }
    let ghost q = pieces@.map_values(|l: Vec<char>| l@);
    let mut out: Vec<Vec<char>> = Vec::new();
    let mut i: usize = 0;
    while i < pieces.len()
        invariant
            i <= pieces@.len(),
            q == pieces@.map_values(|l: Vec<char>| l@),
            ends == (s@.last() == '\n'),
            out@.len() == i,
            forall|j: int| 0 <= j < i ==> #[trigger] out@[j]@ == (if ends || j + 1 < q.len() {
                without_cr(q[j])
            } else {
                q[j]
            }),
        decreases pieces.len() - i,
    {
        let l = &pieces[i];
        let strip = ends || i + 1 < pieces.len();
        let trimmed = if strip && l.len() > 0 && l[l.len() - 1] == '\r' {
            crate::text::slice_vec(l.as_slice(), 0, l.len() - 1)
        } else {
            crate::text::slice_vec(l.as_slice(), 0, l.len())
        };
        assert(trimmed@ =~= (if ends || i + 1 < q.len() {
            without_cr(q[i as int])
        } else {
            q[i as int]
        }));
        out.push(trimmed);
        i = i + 1;
    }
    assert(out@.map_values(|l: Vec<char>| l@) =~= lines_of(s@));
    out
}

/// The four rows of a Workspace's Topology block, each fitted to `width` cells.
pub fn topology_rows_selected(workspace: &WorkspaceNode, width: usize, selection: Option<ChildSelection>) -> (r: [String; 4])
    ensures
        forall|k: int| 0 <= k < 4 ==> #[trigger] r@[k]@ == fitted(
            line_or_empty(block_text(workspace@, width as int, selection), k),
            width as int,
        ),
{
    let block = render_workspace_block_selected(workspace, width, selection);
    let b = chars_of(block.as_str());
    let ls = lines(b.as_slice());
    let empty: Vec<char> = Vec::new();
    let l0 = if ls.len() > 0 { &ls[0] } else { &empty };
    let l1 = if ls.len() > 1 { &ls[1] } else { &empty };
    let l2 = if ls.len() > 2 { &ls[2] } else { &empty };
    let l3 = if ls.len() > 3 { &ls[3] } else { &empty };
    let r = [fit(l0.as_slice(), width), fit(l1.as_slice(), width), fit(l2.as_slice(), width), fit(l3.as_slice(), width)];
    assert(empty@ =~= Seq::<char>::empty());
    r
}

/// The four rows of a Workspace's Topology block with nothing selected.
pub fn topology_rows(workspace: &WorkspaceNode, width: usize) -> (r: [String; 4])
    ensures
        forall|k: int| 0 <= k < 4 ==> #[trigger] r@[k]@ == fitted(
            line_or_empty(block_text(workspace@, width as int, None), k),
            width as int,
        ),
{
    topology_rows_selected(workspace, width, None)
}

} // verus!

verus! {

/// The repository accent colours.
pub open spec fn palette() -> Seq<Seq<char>> {
    seq!["mauve"@, "teal"@, "blue"@, "peach"@, "green"@, "red"@]
}

/// The 64-bit FNV-1a hash of the first `n` bytes.
pub open spec fn fnv_hash(bytes: Seq<u8>, n: int) -> u64
    decreases n,
{
    if n <= 0 {
        0xcbf29ce484222325u64
    } else {
        vstd::wrapping::u64_specs::wrapping_mul(fnv_hash(bytes, n - 1) ^ (bytes[n - 1] as u64), 0x100000001b3u64)
    }
}

/// The accent colour of a repository: one of the palette chosen by the FNV-1a hash of
/// its UTF-8 bytes; plain text for no repository, or when the panel background is itself
/// a palette colour.
pub open spec fn repo_color(repository: Seq<char>, background: Seq<char>) -> Seq<char> {
    let bytes = vstd::utf8::encode_utf8(repository);
    if repository.len() == 0 || palette().contains(background) {
        "text"@
    } else {
        let c = palette()[((fnv_hash(bytes, bytes.len() as int) as usize) % 6) as int];
        if c == background || c == "surface0"@ || c == "Reset"@ {
            "text"@
        } else {
            c
        }
    }
}

/// The accent colour of `repository` on a panel of colour `panel_background`.
pub fn repository_color(repository: &str, _repositories: &[String], panel_background: &str) -> (r: String)
    ensures
        r@ == repo_color(repository@, panel_background@),
{
    let colors: [&str; 6] = ["mauve", "teal", "blue", "peach", "green", "red"];
    assert(colors@.map_values(|c: &str| c@) =~= palette());
    let mut in_palette = false;
    let mut k: usize = 0;
    while k < 6
        invariant
            k <= 6,
            colors@.map_values(|c: &str| c@) == palette(),
            in_palette == exists|j: int| 0 <= j < k && palette()[j] == panel_background@,
        decreases 6 - k,
    {
        if eq_str_local(colors[k], panel_background) {
            in_palette = true;
        }
        assert(palette()[k as int] == colors@[k as int]@);
        k = k + 1;
    }
    assert(in_palette == palette().contains(panel_background@));
    if repository.is_empty() || in_palette {
        return "text".to_owned();
    }
    let bytes = repository.as_bytes();
    let mut hash: u64 = 0xcbf29ce484222325;
    let mut i: usize = 0;
    while i < bytes.len()
        invariant
            i <= bytes@.len(),
            bytes@ == vstd::utf8::encode_utf8(repository@),
            hash == fnv_hash(bytes@, i as int),
        decreases bytes.len() - i,
    {
        hash = (hash ^ (bytes[i] as u64)).wrapping_mul(0x100000001b3);
        i = i + 1;
    }
    let index = (hash as usize) % 6;
    let color = colors[index];
    assert(color@ == palette()[index as int]);
    if eq_str_local(color, panel_background) || eq_str_local(color, "surface0") || eq_str_local(color, "Reset") {
        "text".to_owned()
    } else {
        color.to_owned()
    }
}

fn eq_str_local(a: &str, b: &str) -> (r: bool)
    ensures
        r == (a@ == b@),
{
    crate::text::eq_str(a, b)
}

} // verus!
