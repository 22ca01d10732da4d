//! Agent Entries read from Herdr's agent list, and the status icons of Entries.
use vstd::prelude::*;
use crate::config::{alias_matches, AgentAliasConfig};
use crate::json::{array_of, field, field_of, str_field, str_of, Json};
use crate::model::{entries_view, ActionModel, Entry, EntryAction, EntryModel, Source};
use crate::text::{append_str, chars_of, contains, lowercase_of, string_of, strings_view};

verus! {

/// `p` without its trailing slashes.
pub open spec fn without_trailing_slashes(p: Seq<char>) -> Seq<char>
    decreases p.len(),
{
    if p.len() > 0 && p.last() == '/' {
        without_trailing_slashes(p.drop_last())
    } else {
        p
    }
}

/// The part of `p` after its last slash, from position `n` back.
pub open spec fn last_component(p: Seq<char>, n: int) -> Seq<char>
    decreases n,
{
    if n <= 0 {
        p
    } else if p[n - 1] == '/' {
        p.skip(n)
    } else {
        last_component(p, n - 1)
    }
}

/// The last name of a path: its final component, or the whole path when it has no
/// final name (the root, `.` or `..`).
pub open spec fn basename_of(p: Seq<char>) -> Seq<char> {
    let t = without_trailing_slashes(p);
    let name = last_component(t, t.len() as int);
    if name.len() == 0 || name == "."@ || name == ".."@ {
        p
    } else {
        name
    }
}

/// The last name of a path.
pub fn basename(path: &str) -> (r: String)
    ensures
        r@ == basename_of(path@),
{
    let p = chars_of(path);
    let mut end = p.len();
    assert(p@.take(end as int) =~= p@);
    while end > 0 && p[end - 1] == '/'
        invariant
            end <= p@.len(),
            p@ == path@,
            without_trailing_slashes(path@) == without_trailing_slashes(p@.take(end as int)),
        decreases end,
    {
        assert(p@.take(end as int).drop_last() =~= p@.take(end - 1));
        end = end - 1;
    }
    let t = crate::text::slice_vec(p.as_slice(), 0, end);
    assert(t@ =~= p@.take(end as int));
    assert(without_trailing_slashes(t@) == t@);
    let mut start = end;
    while start > 0 && t[start - 1] != '/'
        invariant
            start <= end,
            t@.len() == end,
            last_component(t@, end as int) == last_component(t@, start as int),
        decreases start,
    {
        start = start - 1;
    }
    let name = crate::text::slice_vec(t.as_slice(), start, end);
    assert(name@ =~= last_component(t@, start as int)) by {
        if start > 0 {
            assert(t@.skip(start as int) =~= t@.subrange(start as int, end as int));
        } else {
            assert(t@ =~= t@.subrange(0, end as int));
        }
    }
    let ns = string_of(name.as_slice());
    if name.len() == 0 || crate::text::eq_str(ns.as_str(), ".") || crate::text::eq_str(ns.as_str(), "..") {
        path.to_owned()
    } else {
        ns
    }
}

/// The label of the last of the first `n` Entries that belongs to Workspace `id`.
pub open spec fn label_for(ws: Seq<Entry>, id: Seq<char>, n: int) -> Option<Seq<char>>
    decreases n,
{
    if n <= 0 {
        None
    } else if crate::model::opt_view(ws[n - 1].workspace_id) == Some(id) {
        Some(ws[n - 1].title@)
    } else {
        label_for(ws, id, n - 1)
    }
}

/// The aliases, among the first `n`, that apply to an agent.
pub open spec fn alias_terms(aliases: Seq<AgentAliasConfig>, agent: Seq<char>, workspace: Seq<char>, cwd: Seq<char>, n: int) -> Seq<Seq<char>>
    decreases n,
{
    if n <= 0 {
        seq![]
    } else if alias_matches(aliases[n - 1], agent, workspace, cwd) {
        alias_terms(aliases, agent, workspace, cwd, n - 1).push(aliases[n - 1].alias@)
    } else {
        alias_terms(aliases, agent, workspace, cwd, n - 1)
    }
}

/// A string member, or `default` when it is missing.
pub open spec fn str_or(v: Json, key: Seq<char>, default: Seq<char>) -> Seq<char> {
    match str_field(v, key) {
        Some(s) => s,
        None => default,
    }
}

/// The Entry of a reported agent (one with an `agent` name), labelled by the Workspace
/// Entries `ws`.
pub open spec fn agent_entry_model(p: Json, ws: Seq<Entry>, aliases: Seq<AgentAliasConfig>) -> EntryModel {
    let agent = str_field(p, "agent"@)->0;
    let pane = str_or(p, "pane_id"@, ""@);
    let tab = str_or(p, "tab_id"@, ""@);
    let term = str_or(p, "terminal_id"@, ""@);
    let cwd = str_or(p, "cwd"@, "/"@);
    let fg = str_or(p, "foreground_cwd"@, cwd);
    let status = str_or(p, "agent_status"@, "unknown"@);
    let wid = str_or(p, "workspace_id"@, ""@);
    let wlabel = match label_for(ws, wid, ws.len() as int) {
        Some(l) => l,
        None => wid,
    };
    let dir = basename_of(cwd);
    let base_terms = seq![agent, status, pane, tab, term, wid, wlabel, dir, basename_of(fg), fg];
    let with_session = match str_of(field_of(field(p, "agent_session"@), "value"@)) {
        Some(s) => base_terms.push(s),
        None => base_terms,
    };
    EntryModel {
        source: Source::Agent,
        title: agent + " · "@ + wlabel + " · "@ + dir,
        subtitle: status + " · "@ + pane + " · "@ + tab,
        path: cwd,
        workspace_id: if wid.len() > 0 {
            Some(wid)
        } else {
            None
        },
        workspace_label: Some(wlabel),
        agent_target: Some(pane),
        project: None,
        action: ActionModel::FocusAgent { target: pane },
        source_label: Some("pane"@),
        search_terms: with_session + alias_terms(aliases, agent, wlabel, cwd, aliases.len() as int),
    }
}

/// The agent Entries of the first `n` reported agents; agents without a name are skipped.
pub open spec fn agent_entries_of(agents: Seq<Json>, ws: Seq<Entry>, aliases: Seq<AgentAliasConfig>, n: int) -> Seq<EntryModel>
    decreases n,
{
    if n <= 0 {
        seq![]
    } else if str_field(agents[n - 1], "agent"@) is Some {
        agent_entries_of(agents, ws, aliases, n - 1).push(agent_entry_model(agents[n - 1], ws, aliases))
    } else {
        agent_entries_of(agents, ws, aliases, n - 1)
    }
}

/// The reported agents of an agent list reply (`result.agents`).
pub open spec fn reported_agents(v: Json) -> Seq<Json> {
    match array_of(field_of(field(v, "result"@), "agents"@)) {
        Some(a) => a,
        None => seq![],
    }
}

} // verus!

verus! {

fn text_or<'a>(p: &'a Json, key: &str, default: &'a str) -> (r: &'a str)
    ensures
        r@ == str_or(*p, key@, default@),
{
    match crate::json::str_at(p, key) {
        Some(s) => s,
        None => default,
    }
}

fn workspace_label_for<'a>(ws: &'a [Entry], id: &str) -> (r: Option<&'a str>)
    ensures
        match r {
            Some(l) => label_for(ws@, id@, ws@.len() as int) == Some(l@),
            None => label_for(ws@, id@, ws@.len() as int) is None,
        },
{
    let mut k: usize = ws.len();
    while k > 0
        invariant
            k <= ws@.len(),
            label_for(ws@, id@, ws@.len() as int) == label_for(ws@, id@, k as int),
        decreases k,
    {
        match &ws[k - 1].workspace_id {
            Some(w) => {
                if crate::text::eq_str(w.as_str(), id) {
                    return Some(ws[k - 1].title.as_str());
                }
            },
            None => {},
        }
        k = k - 1;
    }
    None
}

fn agent_entry(p: &Json, agent: &str, ws: &[Entry], aliases: &[AgentAliasConfig]) -> (r: Entry)
    requires
        str_field(*p, "agent"@) == Some(agent@),
    ensures
        r@ == agent_entry_model(*p, ws@, aliases@),
{
    proof {
        reveal_strlit("");
    }
    let pane = text_or(p, "pane_id", "");
    let tab = text_or(p, "tab_id", "");
    let term = text_or(p, "terminal_id", "");
    let cwd = text_or(p, "cwd", "/");
    let fg = text_or(p, "foreground_cwd", cwd);
    let status = text_or(p, "agent_status", "unknown");
    let wid = text_or(p, "workspace_id", "");
    let wlabel = match workspace_label_for(ws, wid) {
        Some(l) => l,
        None => wid,
    };
    let dir = basename(cwd);
    let mut title: Vec<char> = Vec::new();
    append_str(&mut title, agent);
    append_str(&mut title, " · ");
    append_str(&mut title, wlabel);
    append_str(&mut title, " · ");
    append_str(&mut title, dir.as_str());
    let mut subtitle: Vec<char> = Vec::new();
    append_str(&mut subtitle, status);
    append_str(&mut subtitle, " · ");
    append_str(&mut subtitle, pane);
    append_str(&mut subtitle, " · ");
    append_str(&mut subtitle, tab);
    let mut terms: Vec<String> = Vec::new();
    terms.push(agent.to_owned());
    terms.push(status.to_owned());
    terms.push(pane.to_owned());
    terms.push(tab.to_owned());
    terms.push(term.to_owned());
    terms.push(wid.to_owned());
    terms.push(wlabel.to_owned());
    terms.push(dir);
    terms.push(basename(fg));
    terms.push(fg.to_owned());
    match crate::json::get_opt(p.get("agent_session"), "value") {
        Some(v) => match v.as_str() {
            Some(s) => terms.push(s.to_owned()),
            None => {},
        },
        None => {},
    }
    let ghost with_session = strings_view(terms@);
    let mut k: usize = 0;
    while k < aliases.len()
        invariant
            k <= aliases@.len(),
            strings_view(terms@) == with_session + alias_terms(aliases@, agent@, wlabel@, cwd@, k as int),
        decreases aliases.len() - k,
    {
        if aliases[k].matches(agent, wlabel, cwd) {
            let ghost before = strings_view(terms@);
            terms.push(aliases[k].alias.clone());
            assert(strings_view(terms@) =~= before.push(aliases@[k as int].alias@));
        }
        k = k + 1;
    }
    let e = Entry {
        source: Source::Agent,
        title: string_of(title.as_slice()),
        subtitle: string_of(subtitle.as_slice()),
        path: cwd.to_owned(),
        workspace_id: if wid.is_empty() {
            None
        } else {
            Some(wid.to_owned())
        },
        workspace_label: Some(wlabel.to_owned()),
        agent_target: Some(pane.to_owned()),
        project: None,
        action: EntryAction::FocusAgent { target: pane.to_owned() },
        source_label: Some("pane".to_owned()),
        search_terms: terms,
    };
    let ghost m = agent_entry_model(*p, ws@, aliases@);
    assert(e@.title =~= m.title);
    assert(e@.subtitle =~= m.subtitle);
    assert(e@.search_terms =~= m.search_terms);
    e
}

/// The agent Entries of an agent list reply, labelled by the Workspace Entries (see
/// `agent_entry_model`); agents without a name are skipped.
pub fn agents_from_json(agent_json: &Json, workspaces: &[Entry], aliases: &[AgentAliasConfig]) -> (r: Vec<Entry>)
    ensures
        entries_view(r@) == agent_entries_of(
            reported_agents(*agent_json),
            workspaces@,
            aliases@,
            reported_agents(*agent_json).len() as int,
        ),
{
    let mut out: Vec<Entry> = Vec::new();
    let agents = match crate::json::get_opt(agent_json.get("result"), "agents") {
        Some(v) => match v.as_array() {
            Some(a) => a,
            None => {
                assert(entries_view(out@) =~= seq![]);
                return out;
            },
        },
        None => {
            assert(entries_view(out@) =~= seq![]);
            return out;
        },
    };
    let mut i: usize = 0;
    while i < agents.len()
        invariant
            i <= agents@.len(),
            agents@ == reported_agents(*agent_json),
            entries_view(out@) == agent_entries_of(agents@, workspaces@, aliases@, i as int),
        decreases agents.len() - i,
    {
        let p = &agents[i];
        match crate::json::str_at(p, "agent") {
            Some(name) => {
                let ghost before = entries_view(out@);
                let e = agent_entry(p, name, workspaces, aliases);
                out.push(e);
                assert(entries_view(out@) =~= before.push(e@));
            },
            None => {},
        }
        i = i + 1;
    }
    out
}

/// The braille frames of the working-agent spinner.
pub open spec fn spinner_frame(k: int) -> Seq<char> {
    if k == 0 {
        "⠋"@
    } else if k == 1 {
        "⠙"@
    } else if k == 2 {
        "⠹"@
    } else if k == 3 {
        "⠸"@
    } else if k == 4 {
        "⠼"@
    } else if k == 5 {
        "⠴"@
    } else if k == 6 {
        "⠦"@
    } else if k == 7 {
        "⠧"@
    } else if k == 8 {
        "⠇"@
    } else {
        "⠏"@
    }
}

/// The status icon of an Entry, as Herdr shows Workspace state dots and agent icons:
/// blocked or waiting `●`/`!`, working `●`/spinner frame `tick`, done `●`/`✓`, idle `○`,
/// otherwise `·` for Workspaces and nothing for agents.
pub open spec fn status_icon(source: Source, status: Seq<char>, tick: u32) -> Seq<char> {
    let workspace = source == Source::Workspace;
    let s = lowercase_of(status);
    if contains(s, "block"@) || contains(s, "error"@) || contains(s, "fail"@) || contains(s, "attention"@)
        || contains(s, "request"@) || contains(s, "wait"@) {
        if workspace {
            "●"@
        } else {
            "!"@
        }
    } else if contains(s, "work"@) || contains(s, "run"@) {
        if workspace {
            "●"@
        } else {
            spinner_frame((tick % 10) as int)
        }
    } else if contains(s, "done"@) || contains(s, "complete"@) {
        if workspace {
            "●"@
        } else {
            "✓"@
        }
    } else if contains(s, "idle"@) {
        "○"@
    } else if workspace {
        "·"@
    } else {
        ""@
    }
}

fn has(s: &[char], needle: &str) -> (r: bool)
    ensures
        r == contains(s@, needle@),
{
    let n = chars_of(needle);
    crate::text::contains_chars(s, n.as_slice())
}

fn spinner(k: u32) -> (r: &'static str)
    requires
        k < 10,
    ensures
        r@ == spinner_frame(k as int),
{
    if k == 0 {
        "⠋"
    } else if k == 1 {
        "⠙"
    } else if k == 2 {
        "⠹"
    } else if k == 3 {
        "⠸"
    } else if k == 4 {
        "⠼"
    } else if k == 5 {
        "⠴"
    } else if k == 6 {
        "⠦"
    } else if k == 7 {
        "⠧"
    } else if k == 8 {
        "⠇"
    } else {
        "⠏"
    }
}

/// The status icon of an Entry of `source` with status `status` at spinner tick `tick`.
pub fn status_icon_at(source: &Source, status: &str, tick: u32) -> (r: &'static str)
    ensures
        r@ == status_icon(*source, status@, tick),
{
    let workspace = *source == Source::Workspace;
    let lowered = crate::text::to_lowercase(status);
    let s = chars_of(lowered.as_str());
    let s = s.as_slice();
    if has(s, "block") || has(s, "error") || has(s, "fail") || has(s, "attention") || has(s, "request") || has(
        s,
        "wait",
    ) {
        if workspace {
            "●"
        } else {
            "!"
        }
    } else if has(s, "work") || has(s, "run") {
        if workspace {
            "●"
        } else {
            spinner(tick % 10)
        }
    } else if has(s, "done") || has(s, "complete") {
        if workspace {
            "●"
        } else {
            "✓"
        }
    } else if has(s, "idle") {
        "○"
    } else if workspace {
        "·"
    } else {
        ""
    }
}

} // verus!
