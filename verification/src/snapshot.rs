//! The live topology read from Herdr's JSON replies: Workspaces, their Tabs and Panes,
//! and the agents detected in Panes.
use vstd::prelude::*;
use crate::text::{chars_of, find, is_control_char, slice_vec, string_of, trim};

verus! {

/// An ASCII letter.
pub open spec fn is_ascii_alpha(c: char) -> bool {
    ('a' <= c && c <= 'z') || ('A' <= c && c <= 'Z')
}

/// The end of an OSC payload starting at `i`: the first BEL, or ESC followed by `\`, or
/// the end of `t`.
pub open spec fn osc_end(t: Seq<char>, i: int) -> int
    decreases t.len() - i,
{
    if i < 0 || i >= t.len() {
        t.len() as int
    } else if t[i] == '\u{07}' || (t[i] == '\u{1b}' && i + 1 < t.len() && t[i + 1] == '\\') {
        i
    } else {
        osc_end(t, i + 1)
    }
}

/// Where reading resumes after an OSC payload ending at `j`: past its terminator.
pub open spec fn after_osc(t: Seq<char>, j: int) -> int {
    if j >= t.len() {
        t.len() as int
    } else if t[j] == '\u{07}' {
        j + 1
    } else {
        j + 2
    }
}

/// Where reading resumes after a CSI sequence whose parameters start at `i`: past its
/// first letter, or at the end.
pub open spec fn csi_end(t: Seq<char>, i: int) -> int
    decreases t.len() - i,
{
    if i < 0 || i >= t.len() {
        t.len() as int
    } else if is_ascii_alpha(t[i]) {
        i + 1
    } else {
        csi_end(t, i + 1)
    }
}

/// The text of an OSC payload: what follows its first `;` (nothing when there is none).
pub open spec fn osc_text(payload: Seq<char>) -> Seq<char> {
    match find(payload, seq![';']) {
        Some(k) => payload.skip(k + 1),
        None => seq![],
    }
}

pub proof fn lemma_osc_end(t: Seq<char>, i: int)
    requires
        0 <= i <= t.len(),
    ensures
        i <= osc_end(t, i) <= t.len(),
        osc_end(t, i) < t.len() ==> t[osc_end(t, i)] == '\u{07}' || (t[osc_end(t, i)] == '\u{1b}'
            && osc_end(t, i) + 1 < t.len()),
    decreases t.len() - i,
{
    if i < t.len() && !(t[i] == '\u{07}' || (t[i] == '\u{1b}' && i + 1 < t.len() && t[i + 1] == '\\')) {
        lemma_osc_end(t, i + 1);
    }
}

pub proof fn lemma_csi_end(t: Seq<char>, i: int)
    requires
        0 <= i <= t.len(),
    ensures
        i <= csi_end(t, i) <= t.len(),
    decreases t.len() - i,
{
    if i < t.len() && !is_ascii_alpha(t[i]) {
        lemma_csi_end(t, i + 1);
    }
}

/// The visible text of a terminal title from position `i`: control characters dropped,
/// CSI sequences skipped, and OSC sequences replaced by their text after `;`.
pub open spec fn stripped_from(s: Seq<char>, i: int) -> Seq<char>
    decreases s.len() - i,
{
    if i < 0 || i >= s.len() {
        seq![]
    } else if s[i] != '\u{1b}' {
        (if is_control_char(s[i]) {
            seq![]
        } else {
            seq![s[i]]
        }) + stripped_from(s, i + 1)
    } else if i + 1 >= s.len() {
        seq![]
    } else if s[i + 1] == ']' {
        proof {
            lemma_osc_end(s, i + 2);
        }
        let j = osc_end(s, i + 2);
        osc_text(s.subrange(i + 2, j)) + stripped_from(s, after_osc(s, j))
    } else if s[i + 1] == '[' {
        proof {
            lemma_csi_end(s, i + 2);
        }
        stripped_from(s, csi_end(s, i + 2))
    } else {
        stripped_from(s, i + 2)
    }
}

/// A terminal title without escape sequences and control characters, trimmed.
pub open spec fn strip_title(s: Seq<char>) -> Seq<char> {
    trim(stripped_from(s, 0))
}

/// Removes escape sequences and control characters from a terminal title and trims it.
pub fn strip_terminal_title(value: &str) -> (r: String)
    ensures
        r@ == strip_title(value@),
{
    let s = chars_of(value);
    let n = s.len();
    let mut out: Vec<char> = Vec::new();
    let mut i: usize = 0;
    while i < n
        invariant
            i <= n,
            n == s@.len(),
            s@ == value@,
            out@ + stripped_from(s@, i as int) == stripped_from(s@, 0),
        decreases n - i,
    {
        let ghost before = out@;
        let ghost at = i as int;
        let c = s[i];
        if c != '\u{1b}' {
            if !crate::text::is_control(c) {
                out.push(c);
            }
            i = i + 1;
            assert(out@ + stripped_from(s@, i as int) =~= before + stripped_from(s@, at));
        } else if i + 1 >= n {
            i = n;
            assert(out@ + stripped_from(s@, i as int) =~= before + stripped_from(s@, at));
        } else if s[i + 1] == ']' {
            let mut j = i + 2;
            while j < n && !(s[j] == '\u{07}' || (s[j] == '\u{1b}' && j + 1 < n && s[j + 1] == '\\'))
                invariant
                    at + 2 <= j <= n,
                    n == s@.len(),
                    osc_end(s@, at + 2) == osc_end(s@, j as int),
                decreases n - j,
            {
                j = j + 1;
            }
            proof {
                lemma_osc_end(s@, at + 2);
            }
            let payload = slice_vec(s.as_slice(), i + 2, j);
            let semi: Vec<char> = vec![';'];
            assert(semi@ =~= seq![';']);
            match crate::text::find_chars(payload.as_slice(), semi.as_slice()) {
                Some(k) => {
                    proof {
                        crate::text::lemma_find(payload@, semi@);
                    }
                    let tail = slice_vec(payload.as_slice(), k + 1, payload.len());
                    assert(tail@ =~= payload@.skip(k + 1));
                    crate::text::extend(&mut out, tail.as_slice());
                },
                None => {},
            }
            i = if j >= n {
                n
            } else if s[j] == '\u{07}' {
                j + 1
            } else {
                j + 2
            };
            assert(out@ + stripped_from(s@, i as int) =~= before + stripped_from(s@, at));
        } else if s[i + 1] == '[' {
            let mut j = i + 2;
            while j < n && !(('a' <= s[j] && s[j] <= 'z') || ('A' <= s[j] && s[j] <= 'Z'))
                invariant
                    at + 2 <= j <= n,
                    n == s@.len(),
                    csi_end(s@, at + 2) == csi_end(s@, j as int),
                decreases n - j,
            {
                j = j + 1;
            }
            i = if j < n {
                j + 1
            } else {
                n
            };
            assert(out@ + stripped_from(s@, i as int) =~= before + stripped_from(s@, at));
        } else {
            i = i + 2;
            assert(out@ + stripped_from(s@, i as int) =~= before + stripped_from(s@, at));
        }
    }
    assert(out@ =~= stripped_from(s@, 0));
    string_of(crate::text::trim_chars(out.as_slice()).as_slice())
}

} // verus!

verus! {

use crate::config::{alias_matches, AgentAliasConfig};
use crate::json::{bool_of, field, field_of, keep, str_field, str_of, value_string_of, Json};
use crate::order::sorted_positions;
use crate::topology::{state_named, AgentModel, AgentState, PaneModel, TabModel, WorkspaceModel};

/// The names under which an agent's state is reported.
pub open spec fn state_names() -> Seq<Seq<char>> {
    seq!["agent_status"@, "state"@, "status"@]
}

/// The agent name of a reported agent value: the value itself when it is a string, else
/// its non-empty `agent` or `name` member, else the `name` of its `agent` object.
pub open spec fn agent_name_of(v: Json) -> Option<Seq<char>> {
    match str_of(Some(v)) {
        Some(s) => Some(s),
        None => match value_string_of(v, seq!["agent"@, "name"@], 0) {
            Some(s) => Some(s),
            None => str_of(field_of(field(v, "agent"@), "name"@)),
        },
    }
}

/// The reported state of an agent value (`Unknown` when none is reported).
pub open spec fn state_of(v: Json) -> AgentState {
    match value_string_of(v, state_names(), 0) {
        Some(s) => state_named(s),
        None => AgentState::Unknown,
    }
}

/// The alias of the first configured alias, from `k`, that applies to the agent.
pub open spec fn alias_for_of(
    aliases: Seq<AgentAliasConfig>,
    agent: Seq<char>,
    workspace: Seq<char>,
    cwd: Seq<char>,
    k: int,
) -> Option<Seq<char>>
    decreases aliases.len() - k,
{
    if k < 0 || k >= aliases.len() {
        None
    } else if alias_matches(aliases[k], agent, workspace, cwd) {
        Some(aliases[k].alias@)
    } else {
        alias_for_of(aliases, agent, workspace, cwd, k + 1)
    }
}

/// The agent described by a reported agent value, in Workspace `workspace` working in
/// `cwd`.
pub open spec fn agent_from(v: Json, workspace: Seq<char>, cwd: Seq<char>, aliases: Seq<AgentAliasConfig>) -> Option<
    AgentModel,
> {
    match agent_name_of(v) {
        Some(n) => Some(AgentModel { name: n, state: state_of(v), alias: alias_for_of(aliases, n, workspace, cwd, 0) }),
        None => None,
    }
}

/// The last of the first `n` agents reported for Pane `id`.
pub open spec fn last_agent(agents: Seq<Json>, id: Seq<char>, n: int) -> Option<Json>
    decreases n,
{
    if n <= 0 {
        None
    } else if str_field(agents[n - 1], "pane_id"@) == Some(id) {
        Some(agents[n - 1])
    } else {
        last_agent(agents, id, n - 1)
    }
}

/// The agent reported separately for a Pane with ID `id`.
pub open spec fn external_agent(agents: Seq<Json>, id: Option<Seq<char>>) -> Option<Json> {
    match id {
        Some(i) => last_agent(agents, i, agents.len() as int),
        None => None,
    }
}

/// The state that an embedded agent value reports: its own, its `agent` object's, or the
/// Pane's.
pub open spec fn embedded_state(v: Json, pane: Json) -> Option<AgentState> {
    match value_string_of(v, state_names(), 0) {
        Some(s) => Some(state_named(s)),
        None => match (match field(v, "agent"@) {
            Some(a) => value_string_of(a, state_names(), 0),
            None => None,
        }) {
            Some(s) => Some(state_named(s)),
            None => match value_string_of(pane, state_names(), 0) {
                Some(s) => Some(state_named(s)),
                None => None,
            },
        },
    }
}

/// The agent of a Pane: an embedded (non-null) `agent` member completed by the agent
/// reported separately for the Pane, or else that separately reported agent.
pub open spec fn pane_agent_of(
    pane: Json,
    workspace: Seq<char>,
    cwd: Seq<char>,
    agents: Seq<Json>,
    aliases: Seq<AgentAliasConfig>,
) -> Option<AgentModel> {
    let external = external_agent(agents, str_field(pane, "pane_id"@));
    let external_meta = match external {
        Some(a) => agent_from(a, workspace, cwd, aliases),
        None => None,
    };
    match field(pane, "agent"@) {
        Some(v) => if v is Null {
            external_meta
        } else {
            let name = match agent_name_of(v) {
                Some(n) => Some(n),
                None => match external_meta {
                    Some(m) => Some(m.name),
                    None => None,
                },
            };
            match name {
                Some(n) => Some(
                    AgentModel {
                        name: n,
                        state: match embedded_state(v, pane) {
                            Some(s) => s,
                            None => match external_meta {
                                Some(m) => m.state,
                                None => AgentState::Unknown,
                            },
                        },
                        alias: alias_for_of(aliases, n, workspace, cwd, 0),
                    },
                ),
                None => None,
            }
        },
        None => external_meta,
    }
}

/// The visible title reported in `v`, when it is not empty.
pub open spec fn title_of(v: Json) -> Option<Seq<char>> {
    match value_string_of(v, seq!["terminal_title"@, "title"@], 0) {
        Some(t) => if strip_title(t).len() > 0 {
            Some(strip_title(t))
        } else {
            None
        },
        None => None,
    }
}

/// A string member chosen by `names`, or the empty text.
pub open spec fn named_or_empty(v: Json, names: Seq<Seq<char>>) -> Seq<char> {
    match value_string_of(v, names, 0) {
        Some(s) => s,
        None => seq![],
    }
}

/// The Pane read from a reported Pane of Workspace `workspace`.
pub open spec fn pane_model(pane: Json, workspace: Seq<char>, agents: Seq<Json>, aliases: Seq<AgentAliasConfig>) -> PaneModel {
    let id = named_or_empty(pane, seq!["pane_id"@, "id"@]);
    let external = last_agent(agents, id, agents.len() as int);
    let cwd = match value_string_of(pane, seq!["foreground_cwd"@, "cwd"@], 0) {
        Some(c) => c,
        None => match external {
            Some(a) => named_or_empty(a, seq!["foreground_cwd"@, "cwd"@]),
            None => seq![],
        },
    };
    PaneModel {
        id,
        label: named_or_empty(pane, seq!["label"@, "name"@]),
        cwd,
        focused: bool_of(field(pane, "focused"@)) == Some(true),
        title: match title_of(pane) {
            Some(t) => Some(t),
            None => match external {
                Some(a) => title_of(a),
                None => None,
            },
        },
        agent: pane_agent_of(pane, workspace, cwd, agents, aliases),
    }
}

/// The ordering key that puts focused items first.
pub open spec fn unfocused_key(v: Json) -> i64 {
    if bool_of(field(v, "focused"@)) == Some(true) {
        0
    } else {
        1
    }
}

/// `items` in stable order, focused ones first.
pub open spec fn focused_first(items: Seq<Json>) -> Seq<Json> {
    sorted_positions(items.map_values(|v: Json| unfocused_key(v)), items.len() as int).map_values(
        |k: usize| items[k as int],
    )
}

/// A reported item belongs to Workspace `ws` (and, when `tab` is given, to that Tab).
pub open spec fn belongs_to(v: Json, ws: Seq<char>, tab: Option<Seq<char>>) -> bool {
    &&& str_field(v, "workspace_id"@) == Some(ws)
    &&& (tab matches Some(t) ==> str_field(v, "tab_id"@) == Some(t))
}

/// The test `belongs_to(_, ws, tab)`.
pub open spec fn belongs_pred(ws: Seq<char>, tab: Option<Seq<char>>) -> spec_fn(Json) -> bool {
    |v: Json| belongs_to(v, ws, tab)
}

/// The Tab read from a reported Tab of Workspace (`ws_id`, `ws_label`).
pub open spec fn tab_model(
    tab: Json,
    ws_id: Seq<char>,
    ws_label: Seq<char>,
    panes: Seq<Json>,
    agents: Seq<Json>,
    aliases: Seq<AgentAliasConfig>,
) -> TabModel {
    let id = named_or_empty(tab, seq!["tab_id"@, "id"@]);
    let mine = keep(panes, belongs_pred(ws_id, Some(id)), panes.len() as int);
    TabModel {
        id,
        label: match value_string_of(tab, seq!["label"@, "name"@], 0) {
            Some(l) => l,
            None => id,
        },
        focused: bool_of(field(tab, "focused"@)) == Some(true),
        panes: focused_first(mine).map_values(|p: Json| pane_model(p, ws_label, agents, aliases)),
    }
}

/// The Workspace read from a reported Workspace; none when it has no ID.
pub open spec fn workspace_model(
    w: Json,
    tabs: Seq<Json>,
    panes: Seq<Json>,
    agents: Seq<Json>,
    session: Option<Seq<char>>,
    aliases: Seq<AgentAliasConfig>,
) -> Option<WorkspaceModel> {
    match value_string_of(w, seq!["workspace_id"@, "id"@], 0) {
        Some(id) => {
            let label = match value_string_of(w, seq!["label"@, "name"@], 0) {
                Some(l) => l,
                None => id,
            };
            let mine = keep(tabs, belongs_pred(id, None), tabs.len() as int);
            Some(
                WorkspaceModel {
                    id,
                    label,
                    session: match value_string_of(w, seq!["session"@, "session_name"@], 0) {
                        Some(s) => Some(s),
                        None => session,
                    },
                    focused: bool_of(field(w, "focused"@)) == Some(true),
                    tabs: focused_first(mine).map_values(|t: Json| tab_model(t, id, label, panes, agents, aliases)),
                    git: None,
                },
            )
        },
        None => None,
    }
}

/// The Workspaces read from the first `n` reported Workspaces.
pub open spec fn workspaces_model(
    ws: Seq<Json>,
    tabs: Seq<Json>,
    panes: Seq<Json>,
    agents: Seq<Json>,
    session: Option<Seq<char>>,
    aliases: Seq<AgentAliasConfig>,
    n: int,
) -> Seq<WorkspaceModel>
    decreases n,
{
    if n <= 0 {
        seq![]
    } else {
        let before = workspaces_model(ws, tabs, panes, agents, session, aliases, n - 1);
        match workspace_model(ws[n - 1], tabs, panes, agents, session, aliases) {
            Some(m) => before.push(m),
            None => before,
        }
    }
}

} // verus!

verus! {

use crate::json::{names_view, value_string};
use crate::model::opt_view;
use crate::topology::{AgentMeta, OpenTopology, PaneNode, TabNode, WorkspaceNode};

/// The alias of the first configured alias that applies to the agent.
pub fn alias_for(agent: &str, workspace: &str, cwd: &str, aliases: &[AgentAliasConfig]) -> (r: Option<String>)
    ensures
        opt_view(r) == alias_for_of(aliases@, agent@, workspace@, cwd@, 0),
{
    let mut k: usize = 0;
    while k < aliases.len()
        invariant
            k <= aliases@.len(),
            alias_for_of(aliases@, agent@, workspace@, cwd@, 0) == alias_for_of(aliases@, agent@, workspace@, cwd@, k as int),
        decreases aliases.len() - k,
    {
        if aliases[k].matches(agent, workspace, cwd) {
            return Some(aliases[k].alias.clone());
        }
        k = k + 1;
    }
    None
}

fn strings2(v: &Json, a: &str, b: &str) -> (r: Option<String>)
    ensures
        opt_view(r) == value_string_of(*v, seq![a@, b@], 0),
{
    let names = [a, b];
    let r = value_string(v, &names);
    assert(names_view(names@) =~= seq![a@, b@]);
    r
}

fn reported_state_name(v: &Json) -> (r: Option<String>)
    ensures
        opt_view(r) == value_string_of(*v, state_names(), 0),
{
    let names = ["agent_status", "state", "status"];
    let r = value_string(v, &names);
    assert(names_view(names@) =~= state_names());
    r
}

fn agent_name(v: &Json) -> (r: Option<String>)
    ensures
        opt_view(r) == agent_name_of(*v),
{
    match v.as_str() {
        Some(s) => Some(s.to_owned()),
        None => match strings2(v, "agent", "name") {
            Some(s) => Some(s),
            None => match crate::json::get_opt(v.get("agent"), "name") {
                Some(x) => match x.as_str() {
                    Some(s) => Some(s.to_owned()),
                    None => None,
                },
                None => None,
            },
        },
    }
}

/// The agent described by a reported agent value.
pub fn agent_from_value(value: &Json, workspace: &str, cwd: &str, aliases: &[AgentAliasConfig]) -> (r: Option<
    AgentMeta,
>)
    ensures
        match r {
            Some(a) => agent_from(*value, workspace@, cwd@, aliases@) == Some(a@),
            None => agent_from(*value, workspace@, cwd@, aliases@) is None,
        },
{
    let name = match agent_name(value) {
        Some(n) => n,
        None => {
            return None;
        },
    };
    let state = match reported_state_name(value) {
        Some(s) => AgentState::parse(s.as_str()),
        None => AgentState::Unknown,
    };
    let alias = alias_for(name.as_str(), workspace, cwd, aliases);
    Some(AgentMeta { name, state, alias })
}

fn find_last_agent<'a>(agents: &'a Vec<Json>, id: &str) -> (r: Option<&'a Json>)
    ensures
        match r {
            Some(a) => last_agent(agents@, id@, agents@.len() as int) == Some(*a),
            None => last_agent(agents@, id@, agents@.len() as int) is None,
        },
{
    let mut k: usize = agents.len();
    while k > 0
        invariant
            k <= agents@.len(),
            last_agent(agents@, id@, agents@.len() as int) == last_agent(agents@, id@, k as int),
        decreases k,
    {
        let a = &agents[k - 1];
        match crate::json::str_at(a, "pane_id") {
            Some(p) => {
                if crate::text::eq_str(p, id) {
                    return Some(a);
                }
            },
            None => {},
        }
        k = k - 1;
    }
    None
}

/// The agent of a Pane (see `pane_agent_of`).
pub fn pane_agent(pane: &Json, workspace: &str, cwd: &str, agents: &Vec<Json>, aliases: &[AgentAliasConfig]) -> (r:
    Option<AgentMeta>)
    ensures
        match r {
            Some(a) => pane_agent_of(*pane, workspace@, cwd@, agents@, aliases@) == Some(a@),
            None => pane_agent_of(*pane, workspace@, cwd@, agents@, aliases@) is None,
        },
{
    let external = match crate::json::str_at(pane, "pane_id") {
        Some(id) => find_last_agent(agents, id),
        None => None,
    };
    let external_meta = match external {
        Some(a) => agent_from_value(a, workspace, cwd, aliases),
        None => None,
    };
    let embedded = match pane.get("agent") {
        Some(v) => if v.is_null() {
            None
        } else {
            Some(v)
        },
        None => None,
    };
    match embedded {
        Some(v) => {
            let name = match agent_name(v) {
                Some(n) => n,
                None => match &external_meta {
                    Some(m) => m.name.clone(),
                    None => {
                        return None;
                    },
                },
            };
            let state_name = match reported_state_name(v) {
                Some(s) => Some(s),
                None => match v.get("agent") {
                    Some(a) => match reported_state_name(a) {
                        Some(s) => Some(s),
                        None => reported_state_name(pane),
                    },
                    None => reported_state_name(pane),
                },
            };
            let state = match state_name {
                Some(s) => AgentState::parse(s.as_str()),
                None => match &external_meta {
                    Some(m) => m.state,
                    None => AgentState::Unknown,
                },
            };
            let alias = alias_for(name.as_str(), workspace, cwd, aliases);
            Some(AgentMeta { name, state, alias })
        },
        None => external_meta,
    }
}

/// The visible title reported in `v`, when it is not empty.
pub fn pane_title(v: &Json) -> (r: Option<String>)
    ensures
        opt_view(r) == title_of(*v),
{
    match strings2(v, "terminal_title", "title") {
        Some(t) => {
            let s = strip_terminal_title(t.as_str());
            if s.as_str().is_empty() {
                None
            } else {
                Some(s)
            }
        },
        None => None,
    }
}

fn named_text(v: &Json, a: &str, b: &str) -> (r: String)
    ensures
        r@ == named_or_empty(*v, seq![a@, b@]),
{
    match strings2(v, a, b) {
        Some(s) => s,
        None => {
            proof {
                reveal_strlit("");
            }
            "".to_owned()
        },
    }
}

fn focused_flag(v: &Json) -> (r: bool)
    ensures
        r == (bool_of(field(*v, "focused"@)) == Some(true)),
{
    match v.get("focused") {
        Some(x) => x.as_bool() == Some(true),
        None => false,
    }
}

fn pane_node(pane: &Json, workspace: &str, agents: &Vec<Json>, aliases: &[AgentAliasConfig]) -> (r: PaneNode)
    ensures
        r@ == pane_model(*pane, workspace@, agents@, aliases@),
{
    let id = named_text(pane, "pane_id", "id");
    let external = find_last_agent(agents, id.as_str());
    let cwd = match strings2(pane, "foreground_cwd", "cwd") {
        Some(c) => c,
        None => match external {
            Some(a) => named_text(a, "foreground_cwd", "cwd"),
            None => {
                proof {
                    reveal_strlit("");
                }
                "".to_owned()
            },
        },
    };
    let agent = pane_agent(pane, workspace, cwd.as_str(), agents, aliases);
    let title = match pane_title(pane) {
        Some(t) => Some(t),
        None => match external {
            Some(a) => pane_title(a),
            None => None,
        },
    };
    let r = PaneNode { id, label: named_text(pane, "label", "name"), cwd, focused: focused_flag(pane), title, agent };
    let ghost m = pane_model(*pane, workspace@, agents@, aliases@);
    assert(r@.id == m.id);
    assert(r@.cwd == m.cwd);
    assert(r@.title == m.title);
    assert(r@.agent == m.agent);
    assert(r@.label == m.label);
    r
}

/// The positions of the items of `items` that belong to Workspace `ws` (and Tab `tab`).
fn pick(items: &Vec<Json>, ws: &str, tab: Option<&str>) -> (r: Vec<usize>)
    ensures
        forall|k: int| 0 <= k < r@.len() ==> #[trigger] r@[k] < items@.len(),
        r@.map_values(|k: usize| items@[k as int]) == keep(
            items@,
            belongs_pred(ws@, crate::recent::opt_str_view(tab)),
            items@.len() as int,
        ),
{
    let ghost p = belongs_pred(ws@, crate::recent::opt_str_view(tab));
    let mut out: Vec<usize> = Vec::new();
    let mut i: usize = 0;
    while i < items.len()
        invariant
            i <= items@.len(),
            p == belongs_pred(ws@, crate::recent::opt_str_view(tab)),
            forall|k: int| 0 <= k < out@.len() ==> #[trigger] out@[k] < items@.len(),
            out@.map_values(|k: usize| items@[k as int]) == keep(items@, p, i as int),
        decreases items.len() - i,
    {
        let v = &items[i];
        let in_ws = match crate::json::str_at(v, "workspace_id") {
            Some(x) => crate::text::eq_str(x, ws),
            None => false,
        };
        let in_tab = match tab {
            Some(t) => match crate::json::str_at(v, "tab_id") {
                Some(x) => crate::text::eq_str(x, t),
                None => false,
            },
            None => true,
        };
        let ghost before = out@;
        if in_ws && in_tab {
            out.push(i);
            assert(out@.map_values(|k: usize| items@[k as int]) =~= before.map_values(|k: usize| items@[k as int]).push(
                items@[i as int],
            ));
        }
        assert(p(items@[i as int]) == (in_ws && in_tab));
        i = i + 1;
    }
    out
}

/// The picked positions in stable order, focused items first.
fn focus_sorted(items: &Vec<Json>, picked: &Vec<usize>) -> (r: Vec<usize>)
    requires
        forall|k: int| 0 <= k < picked@.len() ==> #[trigger] picked@[k] < items@.len(),
    ensures
        forall|k: int| 0 <= k < r@.len() ==> #[trigger] r@[k] < items@.len(),
        r@.map_values(|k: usize| items@[k as int]) == focused_first(picked@.map_values(|k: usize| items@[k as int])),
{
    let ghost f = picked@.map_values(|k: usize| items@[k as int]);
    let mut keys: Vec<i64> = Vec::new();
    let mut i: usize = 0;
    while i < picked.len()
        invariant
            i <= picked@.len(),
            f == picked@.map_values(|k: usize| items@[k as int]),
            forall|k: int| 0 <= k < picked@.len() ==> #[trigger] picked@[k] < items@.len(),
            keys@ == f.take(i as int).map_values(|v: Json| unfocused_key(v)),
        decreases picked.len() - i,
    {
        let key: i64 = if focused_flag(&items[picked[i]]) {
            0
        } else {
            1
        };
        keys.push(key);
        assert(f.take(i + 1) =~= f.take(i as int).push(f[i as int]));
        assert(keys@ =~= f.take(i + 1).map_values(|v: Json| unfocused_key(v)));
        i = i + 1;
    }
    assert(f.take(picked@.len() as int) =~= f);
    let order = crate::order::stable_order(&keys);
    let mut out: Vec<usize> = Vec::new();
    let mut j: usize = 0;
    while j < order.len()
        invariant
            j <= order@.len(),
            order@ == sorted_positions(keys@, keys@.len() as int),
            crate::order::stable_order_of(keys@, order@),
            keys@.len() == picked@.len(),
            f == picked@.map_values(|k: usize| items@[k as int]),
            forall|k: int| 0 <= k < picked@.len() ==> #[trigger] picked@[k] < items@.len(),
            forall|k: int| 0 <= k < out@.len() ==> #[trigger] out@[k] < items@.len(),
            out@.map_values(|k: usize| items@[k as int]) == order@.take(j as int).map_values(|k: usize| f[k as int]),
        decreases order.len() - j,
    {
        let ghost before = out@;
        out.push(picked[order[j]]);
        assert(order@.take(j + 1) =~= order@.take(j as int).push(order@[j as int]));
        assert(out@.map_values(|k: usize| items@[k as int]) =~= before.map_values(|k: usize| items@[k as int]).push(
            f[order@[j as int] as int],
        ));
        j = j + 1;
    }
    assert(order@.take(order@.len() as int) =~= order@);
    out
}

} // verus!

verus! {

use crate::open_workspaces::{array_or_empty, result_array, result_array_of};

fn tab_node(
    tab: &Json,
    ws_id: &str,
    ws_label: &str,
    panes: &Vec<Json>,
    agents: &Vec<Json>,
    aliases: &[AgentAliasConfig],
) -> (r: TabNode)
    ensures
        r@ == tab_model(*tab, ws_id@, ws_label@, panes@, agents@, aliases@),
{
    let id = named_text(tab, "tab_id", "id");
    let label = match strings2(tab, "label", "name") {
        Some(l) => l,
        None => id.clone(),
    };
    let picked = pick(panes, ws_id, Some(id.as_str()));
    let order = focus_sorted(panes, &picked);
    let ghost sorted = order@.map_values(|k: usize| panes@[k as int]);
    let mut nodes: Vec<PaneNode> = Vec::new();
    let mut j: usize = 0;
    while j < order.len()
        invariant
            j <= order@.len(),
            forall|k: int| 0 <= k < order@.len() ==> #[trigger] order@[k] < panes@.len(),
            sorted == order@.map_values(|k: usize| panes@[k as int]),
            nodes@.map_values(|p: PaneNode| p@) == sorted.take(j as int).map_values(
                |p: Json| pane_model(p, ws_label@, agents@, aliases@),
            ),
        decreases order.len() - j,
    {
        let ghost before = nodes@;
        let node = pane_node(&panes[order[j]], ws_label, agents, aliases);
        nodes.push(node);
        assert(sorted.take(j + 1) =~= sorted.take(j as int).push(sorted[j as int]));
        assert(nodes@.map_values(|p: PaneNode| p@) =~= before.map_values(|p: PaneNode| p@).push(node@));
        j = j + 1;
    }
    assert(sorted.take(order@.len() as int) =~= sorted);
    let r = TabNode { id, label, focused: focused_flag(tab), panes: nodes };
    let ghost m = tab_model(*tab, ws_id@, ws_label@, panes@, agents@, aliases@);
    assert(r@.panes == m.panes);
    r
}

fn workspace_node(
    w: &Json,
    tabs: &Vec<Json>,
    panes: &Vec<Json>,
    agents: &Vec<Json>,
    session: &Option<String>,
    aliases: &[AgentAliasConfig],
) -> (r: Option<WorkspaceNode>)
    ensures
        match r {
            Some(n) => workspace_model(*w, tabs@, panes@, agents@, opt_view(*session), aliases@) == Some(n@),
            None => workspace_model(*w, tabs@, panes@, agents@, opt_view(*session), aliases@) is None,
        },
{
    let id = match strings2(w, "workspace_id", "id") {
        Some(i) => i,
        None => {
            return None;
        },
    };
    let label = match strings2(w, "label", "name") {
        Some(l) => l,
        None => id.clone(),
    };
    let ws_session = match strings2(w, "session", "session_name") {
        Some(s) => Some(s),
        None => crate::model::clone_opt(session),
    };
    let picked = pick(tabs, id.as_str(), None);
    let order = focus_sorted(tabs, &picked);
    let ghost sorted = order@.map_values(|k: usize| tabs@[k as int]);
    let mut nodes: Vec<TabNode> = Vec::new();
    let mut j: usize = 0;
    while j < order.len()
        invariant
            j <= order@.len(),
            forall|k: int| 0 <= k < order@.len() ==> #[trigger] order@[k] < tabs@.len(),
            sorted == order@.map_values(|k: usize| tabs@[k as int]),
            nodes@.map_values(|t: TabNode| t@) == sorted.take(j as int).map_values(
                |t: Json| tab_model(t, id@, label@, panes@, agents@, aliases@),
            ),
        decreases order.len() - j,
    {
        let ghost before = nodes@;
        let node = tab_node(&tabs[order[j]], id.as_str(), label.as_str(), panes, agents, aliases);
        nodes.push(node);
        assert(sorted.take(j + 1) =~= sorted.take(j as int).push(sorted[j as int]));
        assert(nodes@.map_values(|t: TabNode| t@) =~= before.map_values(|t: TabNode| t@).push(node@));
        j = j + 1;
    }
    assert(sorted.take(order@.len() as int) =~= sorted);
    let focused = focused_flag(w);
    let r = WorkspaceNode { id, label, session: ws_session, focused, tabs: nodes, git: None };
    let ghost m = workspace_model(*w, tabs@, panes@, agents@, opt_view(*session), aliases@);
    assert(m is Some);
    assert(r@.tabs == m->0.tabs);
    Some(r)
}

/// The Workspaces read from Herdr's reported Workspaces, Tabs, Panes and agents (see
/// `workspace_model`); Workspaces without an ID are skipped.
pub fn parse_workspaces(
    workspaces: &Vec<Json>,
    tabs: &Vec<Json>,
    panes: &Vec<Json>,
    agents: &Vec<Json>,
    session: Option<String>,
    aliases: &[AgentAliasConfig],
) -> (r: OpenTopology)
    ensures
        r@ == workspaces_model(
            workspaces@,
            tabs@,
            panes@,
            agents@,
            opt_view(session),
            aliases@,
            workspaces@.len() as int,
        ),
{
    let mut out: Vec<WorkspaceNode> = Vec::new();
    let mut i: usize = 0;
    while i < workspaces.len()
        invariant
            i <= workspaces@.len(),
            out@.map_values(|w: WorkspaceNode| w@) == workspaces_model(
                workspaces@,
                tabs@,
                panes@,
                agents@,
                opt_view(session),
                aliases@,
                i as int,
            ),
        decreases workspaces.len() - i,
    {
        let ghost before = out@;
        match workspace_node(&workspaces[i], tabs, panes, agents, &session, aliases) {
            Some(n) => {
                out.push(n);
                assert(out@.map_values(|w: WorkspaceNode| w@) =~= before.map_values(|w: WorkspaceNode| w@).push(
                    n@,
                ));
            },
            None => {},
        }
        i = i + 1;
    }
    OpenTopology { workspaces: out }
}

/// A snapshot reply can be read: it has Workspace, Tab and Pane arrays, and an agent
/// array when agents are wanted.
pub open spec fn snapshot_usable(v: Json, include_agents: bool) -> bool {
    &&& result_array_of(v, "workspaces"@) is Some
    &&& result_array_of(v, "tabs"@) is Some
    &&& result_array_of(v, "panes"@) is Some
    &&& (include_agents ==> result_array_of(v, "agents"@) is Some)
}

/// Whether a snapshot reply can be read.
pub fn snapshot_is_usable(value: &Json, include_agents: bool) -> (r: bool)
    ensures
        r == snapshot_usable(*value, include_agents),
{
    result_array(value, "workspaces").is_some() && result_array(value, "tabs").is_some() && result_array(
        value,
        "panes",
    ).is_some() && (!include_agents || result_array(value, "agents").is_some())
}

/// The topology that replies give: the Workspaces read from their arrays (missing arrays
/// read as empty).
pub open spec fn topology_of(
    ws: Json,
    tabs: Json,
    panes: Json,
    agents: Json,
    session: Option<Seq<char>>,
    aliases: Seq<AgentAliasConfig>,
) -> Seq<WorkspaceModel> {
    let w = array_or_empty(ws, "workspaces"@);
    workspaces_model(
        w,
        array_or_empty(tabs, "tabs"@),
        array_or_empty(panes, "panes"@),
        array_or_empty(agents, "agents"@),
        session,
        aliases,
        w.len() as int,
    )
}

/// The topology read from separate Workspace, Tab, Pane and agent list replies.
pub fn topology_from_values(
    workspace_list: &Json,
    tab_list: &Json,
    pane_list: &Json,
    agent_list: &Json,
    session: Option<String>,
    aliases: &[AgentAliasConfig],
) -> (r: OpenTopology)
    ensures
        r@ == topology_of(*workspace_list, *tab_list, *pane_list, *agent_list, opt_view(session), aliases@),
{
    let empty: Vec<Json> = Vec::new();
    let w = match result_array(workspace_list, "workspaces") {
        Some(a) => a,
        None => &empty,
    };
    let t = match result_array(tab_list, "tabs") {
        Some(a) => a,
        None => &empty,
    };
    let p = match result_array(pane_list, "panes") {
        Some(a) => a,
        None => &empty,
    };
    let a = match result_array(agent_list, "agents") {
        Some(a) => a,
        None => &empty,
    };
    parse_workspaces(w, t, p, a, session, aliases)
}

/// The topology read from a snapshot reply: empty when it cannot be read.
pub fn parse_snapshot_with(snapshot: &Json, session: Option<String>, aliases: &[AgentAliasConfig], include_agents: bool) -> (r:
    OpenTopology)
    ensures
        snapshot_usable(*snapshot, include_agents) ==> r@ == topology_of(
            *snapshot,
            *snapshot,
            *snapshot,
            *snapshot,
            opt_view(session),
            aliases@,
        ),
        !snapshot_usable(*snapshot, include_agents) ==> r@.len() == 0,
{
    if !snapshot_is_usable(snapshot, include_agents) {
        let r = OpenTopology { workspaces: Vec::new() };
        assert(r@ =~= seq![]);
        return r;
    }
    topology_from_values(snapshot, snapshot, snapshot, snapshot, session, aliases)
}

/// The topology read from a snapshot reply, with agents.
pub fn parse_snapshot(snapshot: &Json, session: Option<String>, aliases: &[AgentAliasConfig]) -> (r: OpenTopology)
    ensures
        snapshot_usable(*snapshot, true) ==> r@ == topology_of(
            *snapshot,
            *snapshot,
            *snapshot,
            *snapshot,
            opt_view(session),
            aliases@,
        ),
        !snapshot_usable(*snapshot, true) ==> r@.len() == 0,
{
    parse_snapshot_with(snapshot, session, aliases, true)
}

} // verus!

verus! {

/// A Pane without its agent.
pub open spec fn pane_without_agent(p: PaneModel) -> PaneModel {
    PaneModel { agent: None, ..p }
}

/// Workspaces whose Panes carry no agents.
pub open spec fn without_agents(ws: Seq<WorkspaceModel>) -> Seq<WorkspaceModel> {
    ws.map_values(
        |w: WorkspaceModel|
            WorkspaceModel {
                tabs: w.tabs.map_values(
                    |t: TabModel| TabModel { panes: t.panes.map_values(|p: PaneModel| pane_without_agent(p)), ..t },
                ),
                ..w
            },
    )
}

/// Removes every agent from the topology.
pub fn clear_agents(topology: &mut OpenTopology)
    ensures
        final(topology)@ == without_agents(old(topology)@),
{
    let ghost start = topology@;
    let mut i: usize = 0;
    while i < topology.workspaces.len()
        invariant
            i <= topology.workspaces@.len(),
            topology@.len() == start.len(),
            forall|k: int| 0 <= k < i ==> #[trigger] topology@[k] == without_agents(start)[k],
            forall|k: int| i <= k < start.len() ==> #[trigger] topology@[k] == start[k],
        decreases topology.workspaces.len() - i,
    {
        let mut j: usize = 0;
        while j < topology.workspaces[i].tabs.len()
            invariant
                i < topology.workspaces@.len(),
                j <= topology.workspaces@[i as int].tabs@.len(),
                topology@.len() == start.len(),
                forall|k: int| 0 <= k < i ==> #[trigger] topology@[k] == without_agents(start)[k],
                forall|k: int| i < k < start.len() ==> #[trigger] topology@[k] == start[k],
                topology@[i as int].tabs.len() == start[i as int].tabs.len(),
                topology@[i as int] == (WorkspaceModel { tabs: topology@[i as int].tabs, ..start[i as int] }),
                forall|t: int| 0 <= t < j ==> #[trigger] topology@[i as int].tabs[t] == without_agents(start)[i as int].tabs[t],
                forall|t: int| j <= t < start[i as int].tabs.len() ==> #[trigger] topology@[i as int].tabs[t] == start[i as int].tabs[t],
            decreases topology.workspaces@[i as int].tabs@.len() - j,
        {
            let mut k: usize = 0;
            while k < topology.workspaces[i].tabs[j].panes.len()
                invariant
                    i < topology.workspaces@.len(),
                    j < topology.workspaces@[i as int].tabs@.len(),
                    k <= topology.workspaces@[i as int].tabs@[j as int].panes@.len(),
                    topology@.len() == start.len(),
                    forall|x: int| 0 <= x < i ==> #[trigger] topology@[x] == without_agents(start)[x],
                    forall|x: int| i < x < start.len() ==> #[trigger] topology@[x] == start[x],
                    topology@[i as int].tabs.len() == start[i as int].tabs.len(),
                    topology@[i as int] == (WorkspaceModel { tabs: topology@[i as int].tabs, ..start[i as int] }),
                    forall|t: int| 0 <= t < j ==> #[trigger] topology@[i as int].tabs[t] == without_agents(start)[i as int].tabs[t],
                    forall|t: int| j < t < start[i as int].tabs.len() ==> #[trigger] topology@[i as int].tabs[t] == start[i as int].tabs[t],
                    topology@[i as int].tabs[j as int].panes.len() == start[i as int].tabs[j as int].panes.len(),
                    topology@[i as int].tabs[j as int] == (TabModel { panes: topology@[i as int].tabs[j as int].panes, ..start[i as int].tabs[j as int] }),
                    forall|p: int| 0 <= p < k ==> #[trigger] topology@[i as int].tabs[j as int].panes[p] == pane_without_agent(start[i as int].tabs[j as int].panes[p]),
                    forall|p: int| k <= p < start[i as int].tabs[j as int].panes.len() ==> #[trigger] topology@[i as int].tabs[j as int].panes[p] == start[i as int].tabs[j as int].panes[p],
                decreases topology.workspaces@[i as int].tabs@[j as int].panes@.len() - k,
            {
                let ghost before_ws = topology.workspaces@;
                let ghost before_view = topology@;
                topology.workspaces[i].tabs[j].panes[k].agent = None;
                assert(topology.workspaces@.len() == before_ws.len());
                assert forall|x: int| 0 <= x < before_ws.len() && x != i implies #[trigger] topology@[x] == before_view[x] by {
                    assert(topology.workspaces@[x] == before_ws[x]);
                }
                assert(topology.workspaces@[i as int].tabs@.len() == before_ws[i as int].tabs@.len());
                assert forall|t: int| 0 <= t < before_ws[i as int].tabs@.len() && t != j implies #[trigger] topology@[i as int].tabs[t] == before_view[i as int].tabs[t] by {
                    assert(topology.workspaces@[i as int].tabs@[t] == before_ws[i as int].tabs@[t]);
                }
                assert(topology.workspaces@[i as int].tabs@[j as int].panes@.len() == before_ws[i as int].tabs@[j as int].panes@.len());
                assert forall|p: int| 0 <= p < before_ws[i as int].tabs@[j as int].panes@.len() implies #[trigger] topology@[i as int].tabs[j as int].panes[p] == if p == k {
                    pane_without_agent(before_view[i as int].tabs[j as int].panes[p])
                } else {
                    before_view[i as int].tabs[j as int].panes[p]
                } by {
                    assert(topology.workspaces@[i as int].tabs@[j as int].panes@[p] == if p == k {
                        PaneNode { agent: None, ..before_ws[i as int].tabs@[j as int].panes@[p] }
                    } else {
                        before_ws[i as int].tabs@[j as int].panes@[p]
                    });
                }
                k = k + 1;
            }
            assert(topology@[i as int].tabs[j as int].panes =~= without_agents(start)[i as int].tabs[j as int].panes);
            j = j + 1;
        }
        assert(topology@[i as int].tabs =~= without_agents(start)[i as int].tabs);
        i = i + 1;
    }
    assert(topology@ =~= without_agents(start));
}

/// The topology read from a usable snapshot reply (its agents removed when agents are not
/// wanted); none when the snapshot is missing or cannot be read, and the separate list
/// replies must be read instead.
pub fn topology_from_snapshot(
    snapshot: Option<&Json>,
    session: Option<String>,
    aliases: &[AgentAliasConfig],
    include_agents: bool,
) -> (r: Option<OpenTopology>)
    ensures
        match snapshot {
            Some(s) => if snapshot_usable(*s, include_agents) {
                r matches Some(t) && t@ == if include_agents {
                    topology_of(*s, *s, *s, *s, opt_view(session), aliases@)
                } else {
                    without_agents(topology_of(*s, *s, *s, *s, opt_view(session), aliases@))
                }
            } else {
                r is None
            },
            None => r is None,
        },
{
    match snapshot {
        Some(s) => {
            if !snapshot_is_usable(s, include_agents) {
                return None;
            }
            let mut topology = parse_snapshot_with(s, session, aliases, include_agents);
            if !include_agents {
                clear_agents(&mut topology);
            }
            Some(topology)
        },
        None => None,
    }
}


/// Herdr reports the item as focused.
pub open spec fn reports_focused(v: Json) -> bool {
    bool_of(field(v, "focused"@)) == Some(true)
}

proof fn lemma_keep_len(s: Seq<Json>, p: spec_fn(Json) -> bool, n: int)
    ensures
        keep(s, p, n).len() <= if n > 0 {
            n
        } else {
            0
        },
    decreases n,
{
    if n > 0 {
        lemma_keep_len(s, p, n - 1);
    }
}

/// Law: putting focused items first moves every focused item before every unfocused one
/// and otherwise keeps the reported order: the result holds each item once, and two
/// items alike in focus keep their relative order.
pub proof fn law_focused_first(items: Seq<Json>)
    requires
        items.len() <= usize::MAX,
    ensures
        focused_first(items).len() == items.len(),
        forall|a: int, b: int|
            0 <= a < b < items.len() ==> reports_focused(#[trigger] focused_first(items)[a]) || !reports_focused(
                #[trigger] focused_first(items)[b],
            ),
        exists|perm: Seq<int>|
            #![trigger perm.len()]
            perm.len() == items.len() && (forall|k: int| 0 <= k < items.len() ==> 0 <= #[trigger] perm[k] < items.len()
                && focused_first(items)[k] == items[perm[k]]) && (forall|a: int, b: int|
                0 <= a < b < items.len() ==> #[trigger] perm[a] != #[trigger] perm[b]) && (forall|a: int, b: int|
                0 <= a < b < items.len() && reports_focused(items[#[trigger] perm[a]]) == reports_focused(
                    items[#[trigger] perm[b]],
                ) ==> perm[a] < perm[b]),
{
    let n = items.len() as int;
    let keys = items.map_values(|v: Json| unfocused_key(v));
    crate::order::lemma_sorted_positions(keys, n);
    let o = sorted_positions(keys, n);
    let r = focused_first(items);
    assert(r == o.map_values(|k: usize| items[k as int]));
    assert forall|k: int| 0 <= k < n implies #[trigger] keys[k] == (if reports_focused(items[k]) {
        0i64
    } else {
        1i64
    }) by {}
    assert forall|a: int, b: int| 0 <= a < b < n implies reports_focused(#[trigger] r[a]) || !reports_focused(
        #[trigger] r[b],
    ) by {
        assert(r[a] == items[o[a] as int] && r[b] == items[o[b] as int]);
        assert(keys[o[a] as int] < keys[o[b] as int] || keys[o[a] as int] == keys[o[b] as int]);
    }
    let perm = o.map_values(|k: usize| k as int);
    assert(perm.len() == n);
    assert forall|a: int, b: int|
        0 <= a < b < n && reports_focused(items[#[trigger] perm[a]]) == reports_focused(items[#[trigger] perm[b]])
        implies perm[a] < perm[b] by {
        assert(keys[o[a] as int] == keys[o[b] as int] || keys[o[a] as int] < keys[o[b] as int]);
    }
}

/// Law: in a parsed Workspace every focused Tab comes before every unfocused Tab, and in
/// each Tab every focused Pane before every unfocused Pane.
pub proof fn law_parsed_focus_comes_first(
    w: Json,
    tabs: Seq<Json>,
    panes: Seq<Json>,
    agents: Seq<Json>,
    session: Option<Seq<char>>,
    aliases: Seq<AgentAliasConfig>,
)
    requires
        tabs.len() <= usize::MAX,
        panes.len() <= usize::MAX,
        workspace_model(w, tabs, panes, agents, session, aliases) is Some,
    ensures
        ({
            let m = workspace_model(w, tabs, panes, agents, session, aliases)->0;
            &&& forall|a: int, b: int|
                0 <= a < b < m.tabs.len() ==> (#[trigger] m.tabs[a]).focused || !(#[trigger] m.tabs[b]).focused
            &&& forall|t: int, a: int, b: int|
                0 <= t < m.tabs.len() && 0 <= a < b < m.tabs[t].panes.len() ==> (#[trigger] m.tabs[t].panes[a]).focused
                    || !(#[trigger] m.tabs[t].panes[b]).focused
        }),
{
    let m = workspace_model(w, tabs, panes, agents, session, aliases)->0;
    let id = value_string_of(w, seq!["workspace_id"@, "id"@], 0)->0;
    let label = match value_string_of(w, seq!["label"@, "name"@], 0) {
        Some(l) => l,
        None => id,
    };
    let mine = keep(tabs, belongs_pred(id, None), tabs.len() as int);
    lemma_keep_len(tabs, belongs_pred(id, None), tabs.len() as int);
    law_focused_first(mine);
    assert(m.tabs == focused_first(mine).map_values(|t: Json| tab_model(t, id, label, panes, agents, aliases)));
    assert forall|a: int, b: int| 0 <= a < b < m.tabs.len() implies (#[trigger] m.tabs[a]).focused || !(
    #[trigger] m.tabs[b]).focused by {
        assert(m.tabs[a].focused == reports_focused(focused_first(mine)[a]));
        assert(m.tabs[b].focused == reports_focused(focused_first(mine)[b]));
    }
    assert forall|t: int, a: int, b: int|
        0 <= t < m.tabs.len() && 0 <= a < b < m.tabs[t].panes.len() implies (#[trigger] m.tabs[t].panes[a]).focused
            || !(#[trigger] m.tabs[t].panes[b]).focused by {
        let tab = focused_first(mine)[t];
        let tid = named_or_empty(tab, seq!["tab_id"@, "id"@]);
        let pm = keep(panes, belongs_pred(id, Some(tid)), panes.len() as int);
        lemma_keep_len(panes, belongs_pred(id, Some(tid)), panes.len() as int);
        law_focused_first(pm);
        assert(m.tabs[t] == tab_model(tab, id, label, panes, agents, aliases));
        assert(m.tabs[t].panes[a].focused == reports_focused(focused_first(pm)[a]));
        assert(m.tabs[t].panes[b].focused == reports_focused(focused_first(pm)[b]));
    }
}

} // verus!
