//! The open Workspaces and Tabs of a Herdr session as Entries, read from Herdr's JSON
//! replies, with linked git worktrees listed under their main Workspace.
use vstd::prelude::*;
use crate::json::{array_of, bool_of, field, field_of, get_opt, int_of, opt_json, str_field, str_of, Json};
use crate::model::{entries_view, ActionModel, Entry, EntryAction, EntryModel, Source, WorkspaceKind, WorkspaceRef};
use crate::keyed::KeyedList;
use crate::model::opt_view;
use crate::order::sorted_positions;
use crate::text::{ascii_lower, decimal, strings_view, trim};

verus! {

/// The Herdr session that replies are read from.
#[derive(Clone, Debug)]
pub struct SessionSpec {
    pub name: Option<String>,
}

/// The label of a session: its name, or `default`.
pub open spec fn session_label(name: Option<String>) -> Seq<char> {
    match name {
        Some(n) => n@,
        None => "default"@,
    }
}

/// The arguments of a Herdr command for a session: `--session NAME` when it is named,
/// then the command's two words.
pub open spec fn session_args(name: Option<String>, c0: Seq<char>, c1: Seq<char>) -> Seq<Seq<char>> {
    match name {
        Some(n) => seq!["--session"@, n@, c0, c1],
        None => seq![c0, c1],
    }
}

impl SessionSpec {
    /// The session's label.
    pub fn label(&self) -> (r: &str)
        ensures
            r@ == session_label(self.name),
    {
        match &self.name {
            Some(n) => n.as_str(),
            None => "default",
        }
    }

    /// The arguments of the Herdr command `c0 c1` for this session.
    pub fn args(&self, c0: &str, c1: &str) -> (r: Vec<String>)
        ensures
            strings_view(r@) == session_args(self.name, c0@, c1@),
    {
        let mut args: Vec<String> = Vec::new();
        match &self.name {
            Some(n) => {
                args.push("--session".to_owned());
                args.push(n.clone());
            },
            None => {},
        }
        args.push(c0.to_owned());
        args.push(c1.to_owned());
        assert(strings_view(args@) =~= session_args(self.name, c0@, c1@));
        args
    }
}

/// The array `name` of a reply: `result.snapshot.NAME` when present, else `result.NAME`.
pub open spec fn result_array_of(v: Json, name: Seq<char>) -> Option<Seq<Json>> {
    let result = field(v, "result"@);
    let in_snapshot = field_of(field_of(result, "snapshot"@), name);
    if in_snapshot is Some {
        array_of(in_snapshot)
    } else {
        array_of(field_of(result, name))
    }
}

/// The text of `j`, or the empty text when it is not a string.
pub open spec fn str_or_empty(j: Option<Json>) -> Seq<char> {
    match str_of(j) {
        Some(s) => s,
        None => seq![],
    }
}

/// The working directory of a Pane: `foreground_cwd` when present, else `cwd`.
pub open spec fn pane_cwd(p: Json) -> Seq<char> {
    if field(p, "foreground_cwd"@) is Some {
        str_or_empty(field(p, "foreground_cwd"@))
    } else {
        str_or_empty(field(p, "cwd"@))
    }
}

/// The first non-empty working directory among the Panes of Workspace `id`, from `from`.
pub open spec fn cwd_for(panes: Seq<Json>, id: Seq<char>, from: int) -> Option<Seq<char>>
    decreases panes.len() - from,
{
    if from < 0 || from >= panes.len() {
        None
    } else if str_field(panes[from], "workspace_id"@) == Some(id) && pane_cwd(panes[from]).len() > 0 {
        Some(pane_cwd(panes[from]))
    } else {
        cwd_for(panes, id, from + 1)
    }
}

/// A Workspace's ID (empty when missing).
pub open spec fn ws_id(w: Json) -> Seq<char> {
    str_or_empty(field(w, "workspace_id"@))
}

/// A Workspace's label, its ID when missing.
pub open spec fn ws_label(w: Json) -> Seq<char> {
    match str_field(w, "label"@) {
        Some(l) => l,
        None => ws_id(w),
    }
}

/// Whether a Workspace is a linked git worktree, as reported.
pub open spec fn linked_of(w: Json) -> Option<bool> {
    bool_of(field_of(field(w, "worktree"@), "is_linked_worktree"@))
}

/// A Workspace's worktree repository key, when reported and not empty.
pub open spec fn repo_key_of(w: Json) -> Option<Seq<char>> {
    match str_of(field_of(field(w, "worktree"@), "repo_key"@)) {
        Some(k) => if k.len() > 0 {
            Some(k)
        } else {
            None
        },
        None => None,
    }
}

/// The ID of the first main (not linked) Workspace of repository `repo`, from `from`.
pub open spec fn canonical_parent(ws: Seq<Json>, repo: Seq<char>, from: int) -> Option<Seq<char>>
    decreases ws.len() - from,
{
    if from < 0 || from >= ws.len() {
        None
    } else if ws_id(ws[from]).len() > 0 && linked_of(ws[from]) == Some(false) && repo_key_of(ws[from]) == Some(
        repo,
    ) {
        Some(ws_id(ws[from]))
    } else {
        canonical_parent(ws, repo, from + 1)
    }
}

/// The main Workspace a linked worktree Workspace is listed under.
pub open spec fn parent_of(ws: Seq<Json>, w: Json) -> Option<Seq<char>> {
    if linked_of(w) == Some(true) {
        match repo_key_of(w) {
            Some(r) => match canonical_parent(ws, r, 0) {
                Some(p) => if p != ws_id(w) {
                    Some(p)
                } else {
                    None
                },
                None => None,
            },
            None => None,
        }
    } else {
        None
    }
}

/// An integer member, 0 when missing.
pub open spec fn count_of(w: Json, key: Seq<char>) -> i64 {
    match int_of(field(w, key)) {
        Some(i) => i,
        None => 0,
    }
}

/// A Workspace's agent status, `unknown` when missing.
pub open spec fn agent_status_of(w: Json) -> Seq<char> {
    match str_field(w, "agent_status"@) {
        Some(s) => s,
        None => "unknown"@,
    }
}

/// Whether a reply marks the item focused.
pub open spec fn focused_of(w: Json) -> bool {
    bool_of(field(w, "focused"@)) == Some(true)
}

/// The search terms of a Workspace Entry.
pub open spec fn workspace_terms(session: Option<String>, w: Json) -> Seq<Seq<char>> {
    let base = seq![ws_id(w), ws_label(w), agent_status_of(w), session_label(session), "workspace"@];
    let with_repo = match repo_key_of(w) {
        Some(k) => base.push(k),
        None => base,
    };
    let with_linked = if linked_of(w) == Some(true) {
        with_repo.push("worktree"@)
    } else {
        with_repo
    };
    if focused_of(w) {
        with_linked.push("focused"@)
    } else {
        with_linked
    }
}

/// The Entry of an open Workspace whose directory is `path`.
pub open spec fn workspace_entry_model(session: Option<String>, w: Json, path: Seq<char>) -> EntryModel {
    EntryModel {
        source: Source::Workspace,
        title: ws_label(w),
        subtitle: "agent:"@ + agent_status_of(w) + " · "@ + ws_id(w) + " tabs:"@ + decimal(
            count_of(w, "tab_count"@) as int,
        ) + " panes:"@ + decimal(count_of(w, "pane_count"@) as int),
        path,
        workspace_id: Some(ws_id(w)),
        workspace_label: Some(ws_label(w)),
        agent_target: None,
        project: None,
        action: ActionModel::FocusWorkspace { session: crate::model::opt_view(session), id: ws_id(w) },
        source_label: None,
        search_terms: workspace_terms(session, w),
    }
}

/// A Tab's ID (empty when missing).
pub open spec fn tab_id(t: Json) -> Seq<char> {
    str_or_empty(field(t, "tab_id"@))
}

/// A Tab's label, its ID when missing.
pub open spec fn tab_label(t: Json) -> Seq<char> {
    match str_field(t, "label"@) {
        Some(l) => l,
        None => tab_id(t),
    }
}

/// The Entry of Tab `t` of the Workspace `w` whose directory is `path`.
pub open spec fn tab_entry_model(session: Option<String>, w: Json, path: Seq<char>, t: Json) -> EntryModel {
    EntryModel {
        source: Source::Workspace,
        title: tab_label(t),
        subtitle: tab_id(t) + " · "@ + decimal(count_of(t, "pane_count"@) as int) + " panes"@,
        path,
        workspace_id: Some(ws_id(w)),
        workspace_label: Some(ws_label(w)),
        agent_target: None,
        project: None,
        action: ActionModel::FocusTab { session: crate::model::opt_view(session), id: tab_id(t) },
        source_label: None,
        search_terms: seq![tab_id(t), tab_label(t), ws_label(w), session_label(session), "tab"@],
    }
}

/// The Tabs among the first `n` that belong to Workspace `id`.
pub open spec fn tabs_for(tabs: Seq<Json>, id: Seq<char>, n: int) -> Seq<Json>
    decreases n,
{
    if n <= 0 {
        seq![]
    } else if str_field(tabs[n - 1], "workspace_id"@) == Some(id) {
        tabs_for(tabs, id, n - 1).push(tabs[n - 1])
    } else {
        tabs_for(tabs, id, n - 1)
    }
}

/// A Tab's position number, `i64::MAX` when missing.
pub open spec fn tab_number(t: Json) -> i64 {
    match int_of(field(t, "number"@)) {
        Some(i) => i,
        None => i64::MAX,
    }
}

/// The Tabs of Workspace `id`, in stable order of their numbers.
pub open spec fn ordered_tabs(tabs: Seq<Json>, id: Seq<char>) -> Seq<Json> {
    let f = tabs_for(tabs, id, tabs.len() as int);
    sorted_positions(f.map_values(|t: Json| tab_number(t)), f.len() as int).map_values(|k: usize| f[k as int])
}

/// A Workspace's Entry, its Tab Entries and the main Workspace it is listed under.
pub struct BlockModel {
    pub entry: EntryModel,
    pub tabs: Seq<EntryModel>,
    pub parent: Option<Seq<char>>,
}

/// The directory of Workspace `w`: its first Pane directory, or `home`.
pub open spec fn ws_path(panes: Seq<Json>, w: Json, home: Seq<char>) -> Seq<char> {
    match cwd_for(panes, ws_id(w), 0) {
        Some(c) => c,
        None => home,
    }
}

/// The block of Workspace `w`.
pub open spec fn block_of(
    session: Option<String>,
    wss: Seq<Json>,
    tabs: Seq<Json>,
    panes: Seq<Json>,
    home: Seq<char>,
    w: Json,
) -> BlockModel {
    let path = ws_path(panes, w, home);
    BlockModel {
        entry: workspace_entry_model(session, w, path),
        tabs: ordered_tabs(tabs, ws_id(w)).map_values(|t: Json| tab_entry_model(session, w, path, t)),
        parent: parent_of(wss, w),
    }
}

/// A block's Entries: the Workspace, then its Tabs.
pub open spec fn block_entries(b: BlockModel) -> Seq<EntryModel> {
    seq![b.entry] + b.tabs
}

/// The Entries of the blocks among the first `n` that are listed under `parent`.
pub open spec fn children_of(blocks: Seq<BlockModel>, parent: Seq<char>, n: int) -> Seq<EntryModel>
    decreases n,
{
    if n <= 0 {
        seq![]
    } else if blocks[n - 1].parent == Some(parent) {
        children_of(blocks, parent, n - 1) + block_entries(blocks[n - 1])
    } else {
        children_of(blocks, parent, n - 1)
    }
}

/// The listing of the first `n` blocks: each main block followed by the blocks listed
/// under it.
pub open spec fn arranged(blocks: Seq<BlockModel>, n: int) -> Seq<EntryModel>
    decreases n,
{
    if n <= 0 {
        seq![]
    } else if blocks[n - 1].parent is None {
        arranged(blocks, n - 1) + block_entries(blocks[n - 1]) + children_of(
            blocks,
            blocks[n - 1].entry.workspace_id->0,
            blocks.len() as int,
        )
    } else {
        arranged(blocks, n - 1)
    }
}

/// The kind of an open Workspace by its label: `project:` and `dir:` prefixes, ignoring
/// case and surrounding white space.
pub open spec fn kind_of_label(label: Seq<char>) -> WorkspaceKind {
    let l = ascii_lower(trim(label));
    if "project:"@.is_prefix_of(l) {
        WorkspaceKind::Project
    } else if "dir:"@.is_prefix_of(l) {
        WorkspaceKind::Dir
    } else {
        WorkspaceKind::Unknown
    }
}

} // verus!

verus! {

/// The array `name` of a Herdr reply.
pub fn result_array<'a>(v: &'a Json, name: &str) -> (r: Option<&'a Vec<Json>>)
    ensures
        match r {
            Some(a) => result_array_of(*v, name@) == Some(a@),
            None => result_array_of(*v, name@) is None,
        },
{
    let result = v.get("result");
    let snapshot = crate::json::get_opt(result, "snapshot");
    match crate::json::get_opt(snapshot, name) {
        Some(x) => x.as_array(),
        None => match crate::json::get_opt(result, name) {
            Some(x) => x.as_array(),
            None => None,
        },
    }
}

/// The elements of a reply's array `name`, none when it has no such array.
pub open spec fn array_or_empty(v: Json, name: Seq<char>) -> Seq<Json> {
    match result_array_of(v, name) {
        Some(a) => a,
        None => seq![],
    }
}

fn text_or_empty<'a>(j: Option<&'a Json>) -> (r: &'a str)
    ensures
        r@ == str_or_empty(crate::json::opt_json(j)),
{
    proof {
        reveal_strlit("");
    }
    match j {
        Some(x) => match x.as_str() {
            Some(s) => s,
            None => "",
        },
        None => "",
    }
}

fn pane_cwd_str<'a>(p: &'a Json) -> (r: &'a str)
    ensures
        r@ == pane_cwd(*p),
{
    match p.get("foreground_cwd") {
        Some(x) => text_or_empty(Some(x)),
        None => text_or_empty(p.get("cwd")),
    }
}

fn cwd_lookup<'a>(panes: &'a Vec<Json>, id: &str) -> (r: Option<&'a str>)
    ensures
        match r {
            Some(c) => cwd_for(panes@, id@, 0) == Some(c@),
            None => cwd_for(panes@, id@, 0) is None,
        },
{
    let mut i: usize = 0;
    while i < panes.len()
        invariant
            i <= panes@.len(),
            cwd_for(panes@, id@, 0) == cwd_for(panes@, id@, i as int),
        decreases panes.len() - i,
    {
        let p = &panes[i];
        let matches_ws = match crate::json::str_at(p, "workspace_id") {
            Some(w) => crate::text::eq_str(w, id),
            None => false,
        };
        if matches_ws {
            let c = pane_cwd_str(p);
            if !c.is_empty() {
                return Some(c);
            }
        }
        i = i + 1;
    }
    None
}

fn ws_id_str<'a>(w: &'a Json) -> (r: &'a str)
    ensures
        r@ == ws_id(*w),
{
    text_or_empty(w.get("workspace_id"))
}

fn ws_label_str<'a>(w: &'a Json) -> (r: &'a str)
    ensures
        r@ == ws_label(*w),
{
    match crate::json::str_at(w, "label") {
        Some(l) => l,
        None => ws_id_str(w),
    }
}

/// Whether a Workspace is a linked git worktree, as reported.
pub fn is_linked_worktree(w: &Json) -> (r: Option<bool>)
    ensures
        r == linked_of(*w),
{
    match crate::json::get_opt(w.get("worktree"), "is_linked_worktree") {
        Some(x) => x.as_bool(),
        None => None,
    }
}

/// A Workspace's worktree repository key, when reported and not empty.
pub fn worktree_repo_key<'a>(w: &'a Json) -> (r: Option<&'a str>)
    ensures
        match r {
            Some(k) => repo_key_of(*w) == Some(k@),
            None => repo_key_of(*w) is None,
        },
{
    match crate::json::get_opt(w.get("worktree"), "repo_key") {
        Some(x) => match x.as_str() {
            Some(k) => if !k.is_empty() {
                Some(k)
            } else {
                None
            },
            None => None,
        },
        None => None,
    }
}

fn find_canonical_parent<'a>(wss: &'a Vec<Json>, repo: &str) -> (r: Option<&'a str>)
    ensures
        match r {
            Some(p) => canonical_parent(wss@, repo@, 0) == Some(p@),
            None => canonical_parent(wss@, repo@, 0) is None,
        },
{
    let mut i: usize = 0;
    while i < wss.len()
        invariant
            i <= wss@.len(),
            canonical_parent(wss@, repo@, 0) == canonical_parent(wss@, repo@, i as int),
        decreases wss.len() - i,
    {
        let w = &wss[i];
        let id = ws_id_str(w);
        if !id.is_empty() && is_linked_worktree(w) == Some(false) {
            match worktree_repo_key(w) {
                Some(k) => {
                    if crate::text::eq_str(k, repo) {
                        return Some(id);
                    }
                },
                None => {},
            }
        }
        i = i + 1;
    }
    None
}

fn parent_workspace(wss: &Vec<Json>, w: &Json) -> (r: Option<String>)
    ensures
        crate::model::opt_view(r) == parent_of(wss@, *w),
{
    if is_linked_worktree(w) == Some(true) {
        match worktree_repo_key(w) {
            Some(k) => match find_canonical_parent(wss, k) {
                Some(p) => if crate::text::eq_str(p, ws_id_str(w)) {
                    None
                } else {
                    Some(p.to_owned())
                },
                None => None,
            },
            None => None,
        }
    } else {
        None
    }
}

fn count_at(w: &Json, key: &str) -> (r: i64)
    ensures
        r == count_of(*w, key@),
{
    match w.get(key) {
        Some(x) => match x.as_i64() {
            Some(i) => i,
            None => 0,
        },
        None => 0,
    }
}

fn is_focused(w: &Json) -> (r: bool)
    ensures
        r == focused_of(*w),
{
    match w.get("focused") {
        Some(x) => x.as_bool() == Some(true),
        None => false,
    }
}

fn workspace_entry(session: &SessionSpec, w: &Json, path: &str) -> (r: Entry)
    ensures
        r@ == workspace_entry_model(session.name, *w, path@),
{
    let id = ws_id_str(w);
    let label = ws_label_str(w);
    let status = match crate::json::str_at(w, "agent_status") {
        Some(s) => s,
        None => "unknown",
    };
    let mut sub: Vec<char> = Vec::new();
    crate::text::append_str(&mut sub, "agent:");
    crate::text::append_str(&mut sub, status);
    crate::text::append_str(&mut sub, " · ");
    crate::text::append_str(&mut sub, id);
    crate::text::append_str(&mut sub, " tabs:");
    crate::text::push_decimal(&mut sub, count_at(w, "tab_count"));
    crate::text::append_str(&mut sub, " panes:");
    crate::text::push_decimal(&mut sub, count_at(w, "pane_count"));
    let mut terms: Vec<String> = Vec::new();
    terms.push(id.to_owned());
    terms.push(label.to_owned());
    terms.push(status.to_owned());
    terms.push(session.label().to_owned());
    terms.push("workspace".to_owned());
    let ghost base = strings_view(terms@);
    match worktree_repo_key(w) {
        Some(k) => terms.push(k.to_owned()),
        None => {},
    }
    if is_linked_worktree(w) == Some(true) {
        terms.push("worktree".to_owned());
    }
    if is_focused(w) {
        terms.push("focused".to_owned());
    }
    assert(strings_view(terms@) =~= workspace_terms(session.name, *w));
    let e = Entry {
        source: Source::Workspace,
        title: label.to_owned(),
        subtitle: crate::text::string_of(sub.as_slice()),
        path: path.to_owned(),
        workspace_id: Some(id.to_owned()),
        workspace_label: Some(label.to_owned()),
        agent_target: None,
        project: None,
        action: EntryAction::FocusWorkspace { session: crate::model::clone_opt(&session.name), id: id.to_owned() },
        source_label: None,
        search_terms: terms,
    };
    assert(e@.subtitle =~= workspace_entry_model(session.name, *w, path@).subtitle);
    e
}

fn tab_entry(session: &SessionSpec, w: &Json, path: &str, t: &Json) -> (r: Entry)
    ensures
        r@ == tab_entry_model(session.name, *w, path@, *t),
{
    let id = ws_id_str(w);
    let label = ws_label_str(w);
    let tid = text_or_empty(t.get("tab_id"));
    let tlabel = match crate::json::str_at(t, "label") {
        Some(l) => l,
        None => tid,
    };
    let mut sub: Vec<char> = Vec::new();
    crate::text::append_str(&mut sub, tid);
    crate::text::append_str(&mut sub, " · ");
    crate::text::push_decimal(&mut sub, count_at(t, "pane_count"));
    crate::text::append_str(&mut sub, " panes");
    let mut terms: Vec<String> = Vec::new();
    terms.push(tid.to_owned());
    terms.push(tlabel.to_owned());
    terms.push(label.to_owned());
    terms.push(session.label().to_owned());
    terms.push("tab".to_owned());
    assert(strings_view(terms@) =~= seq![tab_id(*t), tab_label(*t), ws_label(*w), session_label(session.name), "tab"@]);
    let e = Entry {
        source: Source::Workspace,
        title: tlabel.to_owned(),
        subtitle: crate::text::string_of(sub.as_slice()),
        path: path.to_owned(),
        workspace_id: Some(id.to_owned()),
        workspace_label: Some(label.to_owned()),
        agent_target: None,
        project: None,
        action: EntryAction::FocusTab { session: crate::model::clone_opt(&session.name), id: tid.to_owned() },
        source_label: None,
        search_terms: terms,
    };
    assert(e@.subtitle =~= tab_entry_model(session.name, *w, path@, *t).subtitle);
    e
}

fn tab_number_of(t: &Json) -> (r: i64)
    ensures
        r == tab_number(*t),
{
    match t.get("number") {
        Some(x) => match x.as_i64() {
            Some(i) => i,
            None => i64::MAX,
        },
        None => i64::MAX,
    }
}

fn tab_entries(session: &SessionSpec, w: &Json, path: &str, tabs: &Vec<Json>) -> (r: Vec<Entry>)
    ensures
        entries_view(r@) == ordered_tabs(tabs@, ws_id(*w)).map_values(
            |t: Json| tab_entry_model(session.name, *w, path@, t),
        ),
{
    let id = ws_id_str(w);
    let mut picked: Vec<usize> = Vec::new();
    let mut keys: Vec<i64> = Vec::new();
    let mut i: usize = 0;
    while i < tabs.len()
        invariant
            i <= tabs@.len(),
            picked@.len() == keys@.len(),
            id@ == ws_id(*w),
            forall|k: int| 0 <= k < picked@.len() ==> #[trigger] picked@[k] < tabs@.len(),
            picked@.map_values(|k: usize| tabs@[k as int]) == tabs_for(tabs@, id@, i as int),
            keys@ == tabs_for(tabs@, id@, i as int).map_values(|t: Json| tab_number(t)),
        decreases tabs.len() - i,
    {
        let t = &tabs[i];
        let belongs = match crate::json::str_at(t, "workspace_id") {
            Some(x) => crate::text::eq_str(x, id),
            None => false,
        };
        if belongs {
            let ghost before = tabs_for(tabs@, id@, i as int);
            picked.push(i);
            keys.push(tab_number_of(t));
            assert(picked@.map_values(|k: usize| tabs@[k as int]) =~= before.push(tabs@[i as int]));
            assert(keys@ =~= before.push(tabs@[i as int]).map_values(|t: Json| tab_number(t)));
        }
        i = i + 1;
    }
    let ghost f = tabs_for(tabs@, id@, tabs@.len() as int);
    let order = crate::order::stable_order(&keys);
    let mut out: Vec<Entry> = Vec::new();
    let mut j: usize = 0;
    while j < order.len()
        invariant
            j <= order@.len(),
            order@ == sorted_positions(keys@, keys@.len() as int),
            crate::order::stable_order_of(keys@, order@),
            keys@.len() == picked@.len(),
            f == picked@.map_values(|k: usize| tabs@[k as int]),
            id@ == ws_id(*w),
            forall|k: int| 0 <= k < picked@.len() ==> #[trigger] picked@[k] < tabs@.len(),
            entries_view(out@) == order@.take(j as int).map_values(|k: usize| f[k as int]).map_values(
                |t: Json| tab_entry_model(session.name, *w, path@, t),
            ),
        decreases order.len() - j,
    {
        let pos = order[j];
        let t = &tabs[picked[pos]];
        let ghost before = out@;
        let e = tab_entry(session, w, path, t);
        out.push(e);
        assert(f[pos as int] == *t);
        assert(entries_view(out@) =~= entries_view(before).push(e@));
        assert(order@.take(j + 1) =~= order@.take(j as int).push(order@[j as int]));
        assert(entries_view(out@) =~= order@.take(j + 1).map_values(|k: usize| f[k as int]).map_values(
            |t: Json| tab_entry_model(session.name, *w, path@, t),
        ));
        j = j + 1;
    }
    assert(order@.take(order@.len() as int) =~= order@);
    assert(f.map_values(|t: Json| tab_number(t)) == keys@);
    out
}

} // verus!

verus! {

/// A reference to Workspace `w` whose directory is `path`.
pub open spec fn ref_of(r: WorkspaceRef, w: Json, path: Seq<char>) -> bool {
    &&& r.id@ == ws_id(w)
    &&& r.label@ == ws_label(w)
    &&& r.kind == kind_of_label(ws_label(w))
    &&& r.path@ == path
    &&& r.tab_count == count_of(w, "tab_count"@)
    &&& r.pane_count == count_of(w, "pane_count"@)
}

/// The kind of an open Workspace by its label.
pub fn workspace_kind(label: &str) -> (r: WorkspaceKind)
    ensures
        r == kind_of_label(label@),
{
    let t = crate::text::trim_chars(crate::text::chars_of(label).as_slice());
    let ts = crate::text::string_of(t.as_slice());
    let l = crate::text::to_ascii_lowercase(ts.as_str());
    let project = crate::text::chars_of("project:");
    let dir = crate::text::chars_of("dir:");
    if crate::text::starts_with(l.as_slice(), project.as_slice()) {
        WorkspaceKind::Project
    } else if crate::text::starts_with(l.as_slice(), dir.as_slice()) {
        WorkspaceKind::Dir
    } else {
        WorkspaceKind::Unknown
    }
}

/// A block as built: the Workspace Entry, its Tab Entries and its main Workspace.
pub open spec fn block_view(b: (Entry, Vec<Entry>, Option<String>)) -> BlockModel {
    BlockModel { entry: b.0@, tabs: entries_view(b.1@), parent: crate::model::opt_view(b.2) }
}

fn push_block(out: &mut Vec<Entry>, b: &(Entry, Vec<Entry>, Option<String>))
    ensures
        entries_view(final(out)@) == entries_view(old(out)@) + block_entries(block_view(*b)),
{
    let ghost start = entries_view(out@);
    out.push(crate::model::clone_entry(&b.0));
    let mut i: usize = 0;
    while i < b.1.len()
        invariant
            i <= b.1@.len(),
            entries_view(out@) == start + seq![b.0@] + entries_view(b.1@).take(i as int),
        decreases b.1.len() - i,
    {
        let ghost before = out@;
        out.push(crate::model::clone_entry(&b.1[i]));
        assert(entries_view(out@) =~= entries_view(before).push(b.1@[i as int]@));
        assert(entries_view(b.1@).take(i + 1) =~= entries_view(b.1@).take(i as int).push(b.1@[i as int]@));
        i = i + 1;
    }
    assert(entries_view(b.1@).take(b.1@.len() as int) =~= entries_view(b.1@));
}

fn opt_matches(o: &Option<String>, s: &str) -> (r: bool)
    ensures
        r == (crate::model::opt_view(*o) == Some(s@)),
{
    match o {
        Some(x) => crate::text::eq_str(x.as_str(), s),
        None => false,
    }
}

/// The open Workspaces and Tabs of `session` read from Herdr's Workspace, Tab and Pane
/// replies: the listing of Workspace and Tab Entries (see `arranged`), the Workspace
/// Entries alone, and a reference per Workspace with its directory (the first Pane
/// directory, or `home`).
pub fn topology_from_json(session: &SessionSpec, ws_json: &Json, tab_json: &Json, pane_json: &Json, home: &str) -> (r: (
    Vec<Entry>,
    Vec<Entry>,
    Vec<WorkspaceRef>,
))
    ensures
        ({
            let wss = array_or_empty(*ws_json, "workspaces"@);
            let tabs = array_or_empty(*tab_json, "tabs"@);
            let panes = array_or_empty(*pane_json, "panes"@);
            let blocks = wss.map_values(|w: Json| block_of(session.name, wss, tabs, panes, home@, w));
            &&& entries_view(r.0@) == arranged(blocks, blocks.len() as int)
            &&& entries_view(r.1@) == blocks.map_values(|b: BlockModel| b.entry)
            &&& r.2@.len() == wss.len()
            &&& forall|k: int| 0 <= k < wss.len() ==> ref_of(#[trigger] r.2@[k], wss[k], ws_path(panes, wss[k], home@))
        }),
{
    let empty: Vec<Json> = Vec::new();
    let wss = match result_array(ws_json, "workspaces") {
        Some(a) => a,
        None => &empty,
    };
    let tabs = match result_array(tab_json, "tabs") {
        Some(a) => a,
        None => &empty,
    };
    let panes = match result_array(pane_json, "panes") {
        Some(a) => a,
        None => &empty,
    };
    let ghost bm = wss@.map_values(|w: Json| block_of(session.name, wss@, tabs@, panes@, home@, w));
    let mut blocks: Vec<(Entry, Vec<Entry>, Option<String>)> = Vec::new();
    let mut workspace_entries: Vec<Entry> = Vec::new();
    let mut refs: Vec<WorkspaceRef> = Vec::new();
    let mut i: usize = 0;
    while i < wss.len()
        invariant
            i <= wss@.len(),
            bm == wss@.map_values(|w: Json| block_of(session.name, wss@, tabs@, panes@, home@, w)),
            blocks@.map_values(|b: (Entry, Vec<Entry>, Option<String>)| block_view(b)) == bm.take(i as int),
            entries_view(workspace_entries@) == bm.take(i as int).map_values(|b: BlockModel| b.entry),
            refs@.len() == i,
            forall|k: int| 0 <= k < i ==> ref_of(#[trigger] refs@[k], wss@[k], ws_path(panes@, wss@[k], home@)),
        decreases wss.len() - i,
    {
        let w = &wss[i];
        let id = ws_id_str(w);
        let path = match cwd_lookup(panes, id) {
            Some(c) => c,
            None => home,
        };
        let entry = workspace_entry(session, w, path);
        let tab_list = tab_entries(session, w, path, tabs);
        let parent = parent_workspace(wss, w);
        let label = ws_label_str(w);
        refs.push(
            WorkspaceRef {
                id: id.to_owned(),
                label: label.to_owned(),
                kind: workspace_kind(label),
                path: path.to_owned(),
                tab_count: count_at(w, "tab_count"),
                pane_count: count_at(w, "pane_count"),
            },
        );
        let ghost wb = blocks@;
        let ghost we = workspace_entries@;
        workspace_entries.push(crate::model::clone_entry(&entry));
        blocks.push((entry, tab_list, parent));
        proof {
            assert(bm[i as int] == block_of(session.name, wss@, tabs@, panes@, home@, wss@[i as int]));
            assert(block_view(blocks@[i as int]) == bm[i as int]);
            assert(bm.take(i + 1) =~= bm.take(i as int).push(bm[i as int]));
            assert(blocks@.map_values(|b: (Entry, Vec<Entry>, Option<String>)| block_view(b)) =~= wb.map_values(
                |b: (Entry, Vec<Entry>, Option<String>)| block_view(b),
            ).push(bm[i as int]));
            assert(entries_view(workspace_entries@) =~= entries_view(we).push(bm[i as int].entry));
            assert(bm.take(i + 1).map_values(|b: BlockModel| b.entry) =~= bm.take(i as int).map_values(
                |b: BlockModel| b.entry,
            ).push(bm[i as int].entry));
        }
        i = i + 1;
    }
    assert(bm.take(wss@.len() as int) =~= bm);
    let n = blocks.len();
    let mut out: Vec<Entry> = Vec::new();
    let mut i: usize = 0;
    while i < n
        invariant
            i <= n,
            n == blocks@.len(),
            n == bm.len(),
            blocks@.map_values(|b: (Entry, Vec<Entry>, Option<String>)| block_view(b)) == bm,
            forall|k: int| 0 <= k < n ==> (#[trigger] bm[k]).entry.workspace_id is Some,
            entries_view(out@) == arranged(bm, i as int),
        decreases n - i,
    {
        assert(block_view(blocks@[i as int]) == bm[i as int]);
        if blocks[i].2.is_none() {
            push_block(&mut out, &blocks[i]);
            let pid: &str = match &blocks[i].0.workspace_id {
                Some(p) => p.as_str(),
                None => "",
            };
            let ghost head = entries_view(out@);
            let mut j: usize = 0;
            while j < n
                invariant
                    j <= n,
                    n == blocks@.len(),
                    n == bm.len(),
                    blocks@.map_values(|b: (Entry, Vec<Entry>, Option<String>)| block_view(b)) == bm,
                    entries_view(out@) == head + children_of(bm, pid@, j as int),
                decreases n - j,
            {
                assert(block_view(blocks@[j as int]) == bm[j as int]);
                if opt_matches(&blocks[j].2, pid) {
                    push_block(&mut out, &blocks[j]);
                }
                j = j + 1;
            }
        }
        i = i + 1;
    }
    (out, workspace_entries, refs)
}

/// A snapshot reply can stand for the separate lists: it holds Workspace and Pane arrays,
/// and a Tab array when Tabs are wanted.
pub open spec fn snapshot_lists(value: Json, include_tabs: bool) -> bool {
    let s = field_of(field(value, "result"@), "snapshot"@);
    &&& array_of(field_of(s, "workspaces"@)) is Some
    &&& array_of(field_of(s, "panes"@)) is Some
    &&& (include_tabs ==> array_of(field_of(s, "tabs"@)) is Some)
}

fn is_array_ref(j: Option<&Json>) -> (r: bool)
    ensures
        r == array_of(opt_json(j)) is Some,
{
    match j {
        Some(v) => v.as_array().is_some(),
        None => false,
    }
}

/// Whether a snapshot reply can stand for the separate Workspace, Tab and Pane lists
/// (see `snapshot_lists`); otherwise the lists are read one by one.
pub fn snapshot_is_usable(value: &Json, include_tabs: bool) -> (r: bool)
    ensures
        r == snapshot_lists(*value, include_tabs),
{
    let s = get_opt(value.get("result"), "snapshot");
    let workspaces = is_array_ref(get_opt(s, "workspaces"));
    let panes = is_array_ref(get_opt(s, "panes"));
    let tabs = !include_tabs || is_array_ref(get_opt(s, "tabs"));
    workspaces && panes && tabs
}

/// The references among the first `n` whose key is `k`, in order.
pub open spec fn refs_at(refs: Seq<WorkspaceRef>, keys: Seq<Option<Seq<char>>>, k: Seq<char>, n: int) -> Seq<
    WorkspaceRef,
>
    decreases n,
{
    if n <= 0 {
        seq![]
    } else if keys[n - 1] == Some(k) {
        refs_at(refs, keys, k, n - 1).push(refs[n - 1])
    } else {
        refs_at(refs, keys, k, n - 1)
    }
}

fn clone_ref(r: &WorkspaceRef) -> (c: WorkspaceRef)
    ensures
        c == *r,
{
    WorkspaceRef {
        id: r.id.clone(),
        label: r.label.clone(),
        kind: r.kind,
        path: r.path.clone(),
        tab_count: r.tab_count,
        pane_count: r.pane_count,
    }
}

/// The open Workspaces by directory key: each reference is listed under its key (the
/// canonical form of its directory, given in `keys`), in order; one without a key is
/// left out.
pub fn group_workspace_refs(refs: &Vec<WorkspaceRef>, keys: &Vec<Option<String>>) -> (r: KeyedList<
    Vec<WorkspaceRef>,
>)
    requires
        keys@.len() == refs@.len(),
    ensures
        forall|k: Seq<char>|
            #![trigger r.get_spec(k)]
            match r.get_spec(k) {
                Some(v) => v@ == refs_at(refs@, keys@.map_values(|o: Option<String>| opt_view(o)), k, refs@.len() as int)
                    && v@.len() > 0,
                None => refs_at(refs@, keys@.map_values(|o: Option<String>| opt_view(o)), k, refs@.len() as int).len()
                    == 0,
            },
{
    let ghost kv = keys@.map_values(|o: Option<String>| opt_view(o));
    let mut out: KeyedList<Vec<WorkspaceRef>> = KeyedList::new();
    let mut i: usize = 0;
    while i < refs.len()
        invariant
            i <= refs@.len(),
            keys@.len() == refs@.len(),
            kv == keys@.map_values(|o: Option<String>| opt_view(o)),
            forall|k: Seq<char>|
                #![trigger out.get_spec(k)]
                match out.get_spec(k) {
                    Some(v) => v@ == refs_at(refs@, kv, k, i as int) && v@.len() > 0,
                    None => refs_at(refs@, kv, k, i as int).len() == 0,
                },
        decreases refs.len() - i,
    {
        match &keys[i] {
            Some(key) => {
                assert(kv[i as int] == Some(key@));
                let mut group: Vec<WorkspaceRef> = Vec::new();
                match out.get(key.as_str()) {
                    Some(v) => {
                        let mut j: usize = 0;
                        while j < v.len()
                            invariant
                                j <= v@.len(),
                                group@ == v@.take(j as int),
                            decreases v.len() - j,
                        {
                            group.push(clone_ref(&v[j]));
                            assert(v@.take(j + 1) =~= v@.take(j as int).push(v@[j as int]));
                            j = j + 1;
                        }
                        assert(v@.take(v@.len() as int) =~= v@);
                    },
                    None => {
                        assert(group@ =~= refs_at(refs@, kv, key@, i as int));
                    },
                }
                group.push(clone_ref(&refs[i]));
                let ghost before = out;
                out.insert(key.clone(), group);
                assert forall|k: Seq<char>| #![trigger out.get_spec(k)]
                    match out.get_spec(k) {
                        Some(v) => v@ == refs_at(refs@, kv, k, i + 1) && v@.len() > 0,
                        None => refs_at(refs@, kv, k, i + 1).len() == 0,
                    } by {
                    if k != key@ {
                        assert(before.get_spec(k) == out.get_spec(k));
                    }
                }
            },
            None => {
                assert(kv[i as int] is None);
                assert forall|k: Seq<char>| #![trigger out.get_spec(k)]
                    match out.get_spec(k) {
                        Some(v) => v@ == refs_at(refs@, kv, k, i + 1) && v@.len() > 0,
                        None => refs_at(refs@, kv, k, i + 1).len() == 0,
                    } by {
                    assert(refs_at(refs@, kv, k, i + 1) == refs_at(refs@, kv, k, i as int));
                }
            },
        }
        i = i + 1;
    }
    out
}


/// A Herdr list that is read on its own when a snapshot cannot stand for it.
#[derive(Clone, Copy, Debug, PartialEq, Eq, Structural)]
pub enum ListKind {
    Workspaces,
    Tabs,
    Panes,
    Agents,
}

/// The lists read, in order, after an unusable snapshot: Workspaces, Tabs when wanted,
/// Panes, then agents when wanted.
pub open spec fn fallback_lists(include_tabs: bool, include_agents: bool) -> Seq<ListKind> {
    seq![ListKind::Workspaces] + (if include_tabs {
        seq![ListKind::Tabs]
    } else {
        seq![]
    }) + seq![ListKind::Panes] + (if include_agents {
        seq![ListKind::Agents]
    } else {
        seq![]
    })
}

/// The lists to read after an unusable snapshot (see `fallback_lists`).
pub fn fallback_fetches(include_tabs: bool, include_agents: bool) -> (r: Vec<ListKind>)
    ensures
        r@ == fallback_lists(include_tabs, include_agents),
{
    let mut r: Vec<ListKind> = Vec::new();
    r.push(ListKind::Workspaces);
    if include_tabs {
        r.push(ListKind::Tabs);
    }
    r.push(ListKind::Panes);
    if include_agents {
        r.push(ListKind::Agents);
    }
    assert(r@ =~= fallback_lists(include_tabs, include_agents));
    r
}

/// The Herdr command that reads a list: `workspace list`, `tab list`, `pane list` or
/// `agent list`.
pub fn list_command(kind: ListKind) -> (r: (&'static str, &'static str))
    ensures
        (r.0@, r.1@) == (match kind {
            ListKind::Workspaces => "workspace"@,
            ListKind::Tabs => "tab"@,
            ListKind::Panes => "pane"@,
            ListKind::Agents => "agent"@,
        }, "list"@),
{
    match kind {
        ListKind::Workspaces => ("workspace", "list"),
        ListKind::Tabs => ("tab", "list"),
        ListKind::Panes => ("pane", "list"),
        ListKind::Agents => ("agent", "list"),
    }
}

} // verus!
