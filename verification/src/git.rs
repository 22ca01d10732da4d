//! Git identities of open Workspaces: parsing `git worktree list --porcelain`, matching a
//! working directory to its worktree, and probing the Panes of each Workspace.
use vstd::prelude::*;
use crate::render::{lines, lines_of};
use crate::rows::{path_suffix, strip_path_prefix};
use crate::text::{chars_of, slice_vec, starts_with, string_of, strings_view};
use crate::topology::{
    GitHead, GitIdentity, GitModel, OpenTopology, PaneModel, TabModel, WorkspaceModel, WorkspaceNode,
};

verus! {

/// One record of `git worktree list --porcelain`.
#[derive(Clone, Debug)]
pub struct Worktree {
    pub path: String,
    pub head: String,
    pub branch: Option<String>,
    pub detached: bool,
}

/// What a worktree record holds.
pub struct WorktreeModel {
    pub path: Seq<char>,
    pub head: Seq<char>,
    pub branch: Option<Seq<char>>,
    pub detached: bool,
}

impl View for Worktree {
    type V = WorktreeModel;

    open spec fn view(&self) -> WorktreeModel {
        WorktreeModel {
            path: self.path@,
            head: self.head@,
            branch: crate::model::opt_view(self.branch),
            detached: self.detached,
        }
    }
}

/// The worktrees of a list, as values.
pub open spec fn worktrees_view(ws: Seq<Worktree>) -> Seq<WorktreeModel> {
    ws.map_values(|w: Worktree| w@)
}

/// The pieces of `s` between blank lines (`"\n\n"`), scanning from `i` with the current
/// piece starting at `start`: the pieces that splitting the string at each
/// non-overlapping `"\n\n"`, left to right, gives.
pub open spec fn records_from(s: Seq<char>, start: int, i: int) -> Seq<Seq<char>>
    decreases s.len() - i,
{
    if i + 1 >= s.len() {
        seq![s.subrange(start, s.len() as int)]
    } else if s[i] == '\n' && s[i + 1] == '\n' {
        seq![s.subrange(start, i)] + records_from(s, i + 2, i + 2)
    } else {
        records_from(s, start, i + 1)
    }
}

/// The records of a porcelain listing.
pub open spec fn records(s: Seq<char>) -> Seq<Seq<char>> {
    records_from(s, 0, 0)
}

/// The rest of `line` after `prefix`, when it starts with it.
pub open spec fn after_prefix(line: Seq<char>, prefix: Seq<char>) -> Option<Seq<char>> {
    if prefix.is_prefix_of(line) {
        Some(line.skip(prefix.len() as int))
    } else {
        None
    }
}

/// A branch reference without its `refs/heads/` prefix.
pub open spec fn branch_name(reference: Seq<char>) -> Seq<char> {
    match after_prefix(reference, "refs/heads/"@) {
        Some(name) => name,
        None => reference,
    }
}

/// The path, head, branch and detached flag that the lines of a record set; a later
/// line of a kind replaces an earlier one.
pub open spec fn fields_of(ls: Seq<Seq<char>>) -> (Option<Seq<char>>, Option<Seq<char>>, Option<Seq<char>>, bool)
    decreases ls.len(),
{
    if ls.len() == 0 {
        (None, None, None, false)
    } else {
        let (p, h, b, d) = fields_of(ls.drop_last());
        let l = ls.last();
        if after_prefix(l, "worktree "@) is Some {
            (after_prefix(l, "worktree "@), h, b, d)
        } else if after_prefix(l, "HEAD "@) is Some {
            (p, after_prefix(l, "HEAD "@), b, d)
        } else if after_prefix(l, "branch "@) is Some {
            (p, h, Some(branch_name(after_prefix(l, "branch "@)->0)), d)
        } else if l == "detached"@ {
            (p, h, b, true)
        } else {
            (p, h, b, d)
        }
    }
}

/// The worktree a record describes: none without a `worktree` line; an absent head is
/// empty.
pub open spec fn worktree_of(record: Seq<char>) -> Option<WorktreeModel> {
    let (p, h, b, d) = fields_of(lines_of(record));
    match p {
        Some(path) => Some(
            WorktreeModel {
                path,
                head: match h {
                    Some(x) => x,
                    None => seq![],
                },
                branch: b,
                detached: d,
            },
        ),
        None => None,
    }
}

/// The worktrees of the first `n` records, in order.
pub open spec fn worktrees_of(rs: Seq<Seq<char>>) -> Seq<WorktreeModel>
    decreases rs.len(),
{
    if rs.len() == 0 {
        seq![]
    } else {
        let before = worktrees_of(rs.drop_last());
        match worktree_of(rs.last()) {
            Some(w) => before.push(w),
            None => before,
        }
    }
}

/// The worktrees a porcelain listing describes.
pub open spec fn parsed_worktrees(value: Seq<char>) -> Seq<WorktreeModel> {
    worktrees_of(records(value))
}

fn split_records(s: &[char]) -> (r: Vec<Vec<char>>)
    ensures
        r@.map_values(|v: Vec<char>| v@) == records(s@),
{
    let mut out: Vec<Vec<char>> = Vec::new();
    let mut start: usize = 0;
    let mut i: usize = 0;
    loop
        invariant_except_break
            start <= i <= s.len(),
            records(s@) == out@.map_values(|v: Vec<char>| v@) + records_from(s@, start as int, i as int),
        ensures
            records(s@) == out@.map_values(|v: Vec<char>| v@),
        decreases s.len() - i,
    {
        let ghost before = out@.map_values(|v: Vec<char>| v@);
        if s.len() - i <= 1 {
            let piece = slice_vec(s, start, s.len());
            out.push(piece);
            assert(out@.map_values(|v: Vec<char>| v@) =~= before + records_from(
                s@,
                start as int,
                i as int,
            ));
            break;
        } else if s[i] == '\n' && s[i + 1] == '\n' {
            let piece = slice_vec(s, start, i);
            out.push(piece);
            assert(out@.map_values(|v: Vec<char>| v@) =~= before.push(s@.subrange(start as int, i as int)));
            i = i + 2;
            start = i;
        } else {
            i = i + 1;
        }
    }
    out
}

fn after(line: &[char], prefix: &str) -> (r: Option<Vec<char>>)
    ensures
        match r {
            Some(v) => after_prefix(line@, prefix@) == Some(v@),
            None => after_prefix(line@, prefix@) is None,
        },
{
    let p = chars_of(prefix);
    if starts_with(line, p.as_slice()) {
        Some(slice_vec(line, p.len(), line.len()))
    } else {
        None
    }
}

fn opt_string(v: &Option<Vec<char>>) -> (r: Option<String>)
    ensures
        crate::model::opt_view(r) == match v {
            Some(x) => Some(x@),
            None => None::<Seq<char>>,
        },
{
    match v {
        Some(x) => Some(string_of(x.as_slice())),
        None => None,
    }
}

fn parse_record(record: &[char]) -> (r: Option<Worktree>)
    ensures
        match r {
            Some(w) => worktree_of(record@) == Some(w@),
            None => worktree_of(record@) is None,
        },
{
    let ls = lines(record);
    let ghost lv = ls@.map_values(|l: Vec<char>| l@);
    let mut path: Option<Vec<char>> = None;
    let mut head: Option<Vec<char>> = None;
    let mut branch: Option<Vec<char>> = None;
    let mut detached = false;
    let detached_word = chars_of("detached");
    let mut i: usize = 0;
    while i < ls.len()
        invariant
            i <= ls@.len(),
            lv == ls@.map_values(|l: Vec<char>| l@),
            detached_word@ == "detached"@,
            ({
                let (p, h, b, d) = fields_of(lv.take(i as int));
                &&& p == match path {
                    Some(x) => Some(x@),
                    None => None::<Seq<char>>,
                }
                &&& h == match head {
                    Some(x) => Some(x@),
                    None => None::<Seq<char>>,
                }
                &&& b == match branch {
                    Some(x) => Some(x@),
                    None => None::<Seq<char>>,
                }
                &&& d == detached
            }),
        decreases ls.len() - i,
    {
        let line = ls[i].as_slice();
        assert(lv.take(i + 1).drop_last() =~= lv.take(i as int));
        assert(lv.take(i + 1).last() == line@);
        if let Some(v) = after(line, "worktree ") {
            path = Some(v);
        } else if let Some(v) = after(line, "HEAD ") {
            head = Some(v);
        } else if let Some(v) = after(line, "branch ") {
            let name = match after(v.as_slice(), "refs/heads/") {
                Some(n) => n,
                None => v,
            };
            branch = Some(name);
        } else if crate::text::eq_chars(line, detached_word.as_slice()) {
            detached = true;
        }
        i = i + 1;
    }
    assert(lv.take(ls.len() as int) =~= lv);
    match path {
        Some(p) => Some(
            Worktree {
                path: string_of(p.as_slice()),
                head: match head {
                    Some(h) => string_of(h.as_slice()),
                    None => String::new(),
                },
                branch: opt_string(&branch),
                detached,
            },
        ),
        None => None,
    }
}

/// The worktrees of a `git worktree list --porcelain` listing: one per blank-line
/// separated record that has a `worktree` line, with its `HEAD`, its branch (without
/// `refs/heads/`) and whether it is detached.
pub fn parse_worktrees(value: &str) -> (r: Vec<Worktree>)
    ensures
        worktrees_view(r@) == parsed_worktrees(value@),
{
    let cs = chars_of(value);
    let rs = split_records(cs.as_slice());
    let ghost rv = rs@.map_values(|v: Vec<char>| v@);
    let mut out: Vec<Worktree> = Vec::new();
    let mut i: usize = 0;
    while i < rs.len()
        invariant
            i <= rs@.len(),
            rv == rs@.map_values(|v: Vec<char>| v@),
            rv == records(value@),
            worktrees_view(out@) == worktrees_of(rv.take(i as int)),
        decreases rs.len() - i,
    {
        assert(rv.take(i + 1).drop_last() =~= rv.take(i as int));
        assert(rv.take(i + 1).last() == rs@[i as int]@);
        let ghost before = worktrees_view(out@);
        match parse_record(rs[i].as_slice()) {
            Some(w) => {
                out.push(w);
                assert(worktrees_view(out@) =~= before.push(out@.last()@));
            },
            None => {},
        }
        i = i + 1;
    }
    assert(rv.take(rs.len() as int) =~= rv);
    out
}

/// Whether `path` lies at or below `root`: the two are equal, or `Path::strip_prefix`
/// finds `root` among the leading components of `path`.
pub open spec fn is_path_prefix(path: Seq<char>, root: Seq<char>) -> bool {
    path == root || path_suffix(path, root) is Some
}

/// Whether `path` lies at or below `root`.
pub fn path_prefix(path: &str, root: &str) -> (r: bool)
    ensures
        r == is_path_prefix(path@, root@),
{
    crate::text::eq_str(path, root) || strip_path_prefix(path, root).is_some()
}

/// What `Path::components().count()` gives for a path.
pub uninterp spec fn component_count(path: Seq<char>) -> nat;

/// `Path::components` of std, counted. The result is named by `component_count`;
/// nothing more is claimed of it.
#[verifier::external_body]
fn path_component_count(path: &str) -> (r: usize)
    ensures
        r == component_count(path@),
{
    std::path::Path::new(path).components().count()
}

/// What `Path::file_name` gives for a path (its last normal component).
pub uninterp spec fn file_name(path: Seq<char>) -> Option<Seq<char>>;

/// `Path::file_name` of std, as text. The result is named by `file_name`; nothing more
/// is claimed of it.
#[verifier::external_body]
fn path_file_name(path: &str) -> (r: Option<String>)
    ensures
        crate::model::opt_view(r) == file_name(path@),
{
    std::path::Path::new(path).file_name().and_then(|n| n.to_str()).map(|n| n.to_owned())
}

/// What `Path::join` gives for a path and a relative name.
pub uninterp spec fn joined(path: Seq<char>, name: Seq<char>) -> Seq<char>;

/// `Path::join` of std, shown with `display`. The result is named by `joined`; joining
/// a relative name to a path that does not end in `/` puts one `/` between them, as std
/// documents. Nothing more is claimed.
#[verifier::external_body]
fn join_path(path: &str, name: &str) -> (r: String)
    ensures
        r@ == joined(path@, name@),
        path@.len() > 0 && path@.last() != '/' && name@.len() > 0 && name@[0] != '/' ==> r@ == path@ + seq!['/']
            + name@,
{
    std::path::Path::new(path).join(name).display().to_string()
}

/// The index of the worktree whose (canonical) path holds `cwd` with the most
/// components, among the first `n`; the last such one on a tie.
pub open spec fn matched_index(canonical: Seq<Seq<char>>, cwd: Seq<char>, n: int) -> Option<int>
    decreases n,
{
    if n <= 0 {
        None
    } else {
        let before = matched_index(canonical, cwd, n - 1);
        if is_path_prefix(cwd, canonical[n - 1]) {
            match before {
                Some(j) => if component_count(canonical[n - 1]) >= component_count(canonical[j]) {
                    Some(n - 1)
                } else {
                    Some(j)
                },
                None => Some(n - 1),
            }
        } else {
            before
        }
    }
}

/// The first eight characters of a commit.
pub open spec fn short_head(head: Seq<char>) -> Seq<char> {
    if head.len() > 8 {
        head.take(8)
    } else {
        head
    }
}

/// The identity of the worktree that holds `cwd`, given the canonical path of each
/// worktree and the canonical repository key: labelled by the file name of the first
/// (primary) worktree (`unnamed` when it has none), on its branch, or detached at its
/// short commit when it is detached or has no branch.
pub open spec fn identity_spec(
    ws: Seq<WorktreeModel>,
    canonical: Seq<Seq<char>>,
    cwd: Seq<char>,
    repo_key: Seq<char>,
) -> Option<GitModel> {
    match matched_index(canonical, cwd, ws.len() as int) {
        Some(m) => {
            let w = ws[m];
            let label = match file_name(canonical[0]) {
                Some(n) => n,
                None => "unnamed"@,
            };
            if w.detached || w.branch is None {
                Some(GitModel { repo_key, label, branch: false, head: short_head(w.head) })
            } else {
                Some(GitModel { repo_key, label, branch: true, head: w.branch->0 })
            }
        },
        None => None,
    }
}

proof fn lemma_matched_bound(canonical: Seq<Seq<char>>, cwd: Seq<char>, n: int)
    ensures
        matched_index(canonical, cwd, n) matches Some(m) ==> 0 <= m < n,
    decreases n,
{
    if n > 0 {
        lemma_matched_bound(canonical, cwd, n - 1);
    }
}

fn first_chars(s: &str, n: usize) -> (r: String)
    ensures
        r@ == (if s@.len() > n {
            s@.take(n as int)
        } else {
            s@
        }),
{
    let cs = chars_of(s);
    if cs.len() > n {
        string_of(slice_vec(cs.as_slice(), 0, n).as_slice())
    } else {
        string_of(cs.as_slice())
    }
}

/// The identity of the worktree that holds `cwd` (see `identity_spec`); `canonical`
/// holds the canonical path of each worktree.
pub fn identity_from(worktrees: &[Worktree], canonical: &[String], cwd: &str, repo_key: &str) -> (r: Option<
    GitIdentity,
>)
    requires
        canonical.len() == worktrees.len(),
    ensures
        match r {
            Some(g) => identity_spec(worktrees_view(worktrees@), strings_view(canonical@), cwd@, repo_key@)
                == Some(g@),
            None => identity_spec(worktrees_view(worktrees@), strings_view(canonical@), cwd@, repo_key@)
                is None,
        },
{
    let ghost cv = strings_view(canonical@);
    let mut best: Option<usize> = None;
    let mut best_count: usize = 0;
    let mut i: usize = 0;
    while i < canonical.len()
        invariant
            i <= canonical@.len(),
            cv == strings_view(canonical@),
            match best {
                Some(j) => matched_index(cv, cwd@, i as int) == Some(j as int) && best_count
                    == component_count(cv[j as int]),
                None => matched_index(cv, cwd@, i as int) is None,
            },
        decreases canonical.len() - i,
    {
        proof {
            lemma_matched_bound(cv, cwd@, i as int);
        }
        if path_prefix(cwd, canonical[i].as_str()) {
            let count = path_component_count(canonical[i].as_str());
            match best {
                Some(_) => {
                    if count >= best_count {
                        best = Some(i);
                        best_count = count;
                    }
                },
                None => {
                    best = Some(i);
                    best_count = count;
                },
            }
        }
        i = i + 1;
    }
    proof {
        lemma_matched_bound(cv, cwd@, canonical@.len() as int);
    }
    match best {
        Some(m) => {
            let label = match path_file_name(canonical[0].as_str()) {
                Some(n) => n,
                None => "unnamed".to_owned(),
            };
            let w = &worktrees[m];
            let head = if w.detached || w.branch.is_none() {
                GitHead::Detached(first_chars(w.head.as_str(), 8))
            } else {
                match &w.branch {
                    Some(b) => GitHead::Branch(b.clone()),
                    None => GitHead::Detached(String::new()),
                }
            };
            Some(GitIdentity { repo_key: repo_key.to_owned(), label, head })
        },
        None => None,
    }
}

/// Where git answers come from: the porcelain worktree listing of a directory, and the
/// canonical form of a path. Nothing is assumed of either answer.
pub trait GitProbe {
    /// The output of `git worktree list --porcelain` run in `cwd`, or why it failed.
    fn worktree_list(&self, cwd: &str) -> Result<String, String>;

    /// The canonical form of `path` (the path itself when it cannot be resolved).
    fn canonical_path(&self, path: &str) -> String;
}

/// The model of an optional identity.
pub open spec fn identity_view(r: Option<GitIdentity>) -> Option<GitModel> {
    match r {
        Some(g) => Some(g@),
        None => None,
    }
}

/// The identity of the worktree that holds `cwd`, with the probe's replies: the canonical
/// forms of `cwd`, of each worktree and of the primary worktree's `.git` are asked of
/// `probe`, each path once, and the rest is `identity_from` (see `canonical_identity`).
/// Without worktrees there is none and nothing is asked.
pub fn worktree_identity<P: GitProbe>(worktrees: &[Worktree], cwd: &str, probe: &P) -> (r: (
    Option<GitIdentity>,
    ProbeReplies,
))
    ensures
        worktrees@.len() == 0 ==> r.0 is None,
        identity_view(r.0) == canonical_identity(worktrees_view(worktrees@), cwd@, replied_canon(r.1)),
        keys_of(r.1.canonical@) == identity_asked(worktrees_view(worktrees@), cwd@, replied_canon(r.1)),
        replies_once(r.1),
        r.1.listings@.len() == 0,
{
    let mut memo = ProbeReplies { canonical: Vec::new(), listings: Vec::new() };
    proof {
        assert(keys_of(memo.canonical@) =~= Set::<Seq<char>>::empty());
    }
    let r = identity_of(worktrees, cwd, Some(probe), &mut memo);
    proof {
        let canon = replied_canon(memo);
        assert(agrees_canon(memo, canon));
        assert(Set::<Seq<char>>::empty() + identity_asked(worktrees_view(worktrees@), cwd@, canon) =~= identity_asked(
            worktrees_view(worktrees@),
            cwd@,
            canon,
        ));
    }
    (r, memo)
}

/// The Panes of a list of Tabs, Tab by Tab.
pub open spec fn all_panes(tabs: Seq<TabModel>) -> Seq<PaneModel>
    decreases tabs.len(),
{
    if tabs.len() == 0 {
        seq![]
    } else {
        all_panes(tabs.drop_last()) + tabs.last().panes
    }
}

/// The working directories of the Panes whose focus is `focused`, in order.
pub open spec fn cwds_with_focus(ps: Seq<PaneModel>, focused: bool) -> Seq<Seq<char>>
    decreases ps.len(),
{
    if ps.len() == 0 {
        seq![]
    } else {
        let before = cwds_with_focus(ps.drop_last(), focused);
        if ps.last().focused == focused {
            before.push(ps.last().cwd)
        } else {
            before
        }
    }
}

/// The directories probed for a Workspace, in order: those of its focused Panes first,
/// then those of the others.
pub open spec fn probe_candidates(w: WorkspaceModel) -> Seq<Seq<char>> {
    cwds_with_focus(all_panes(w.tabs), true) + cwds_with_focus(all_panes(w.tabs), false)
}

fn pane_cwds(workspace: &WorkspaceNode) -> (r: Vec<(String, bool)>)
    ensures
        r@.map_values(|x: (String, bool)| x.0@) == all_panes(workspace@.tabs).map_values(|p: PaneModel| p.cwd),
        r@.map_values(|x: (String, bool)| x.1) == all_panes(workspace@.tabs).map_values(|p: PaneModel| p.focused),
{
    let ghost tabs = workspace@.tabs;
    let mut out: Vec<(String, bool)> = Vec::new();
    let mut t: usize = 0;
    while t < workspace.tabs.len()
        invariant
            t <= workspace.tabs@.len(),
            tabs == workspace@.tabs,
            out@.map_values(|x: (String, bool)| x.0@) == all_panes(tabs.take(t as int)).map_values(|p: PaneModel| p.cwd),
            out@.map_values(|x: (String, bool)| x.1) == all_panes(tabs.take(t as int)).map_values(|p: PaneModel| p.focused),
        decreases workspace.tabs.len() - t,
    {
        let tab = &workspace.tabs[t];
        let ghost base = all_panes(tabs.take(t as int));
        let ghost ps = tab@.panes;
        assert(tabs.take(t + 1).drop_last() =~= tabs.take(t as int));
        assert(tabs.take(t + 1).last() == tab@);
        let mut p: usize = 0;
        while p < tab.panes.len()
            invariant
                p <= tab.panes@.len(),
                ps == tab@.panes,
                out@.map_values(|x: (String, bool)| x.0@) == (base + ps.take(p as int)).map_values(|q: PaneModel| q.cwd),
                out@.map_values(|x: (String, bool)| x.1) == (base + ps.take(p as int)).map_values(|q: PaneModel| q.focused),
            decreases tab.panes.len() - p,
        {
            let pane = &tab.panes[p];
            let ghost old_out = out@;
            let cwd = pane.cwd.clone();
            assert(cwd@ == pane.cwd@);
            out.push((cwd, pane.focused));
            assert(ps[p as int] == pane@);
            assert(out@.map_values(|x: (String, bool)| x.0@) =~= old_out.map_values(|x: (String, bool)| x.0@).push(pane@.cwd));
            assert(out@.map_values(|x: (String, bool)| x.1) =~= old_out.map_values(|x: (String, bool)| x.1).push(pane@.focused));
            assert((base + ps.take(p + 1)) =~= (base + ps.take(p as int)).push(pane@));
            assert(out@.map_values(|x: (String, bool)| x.0@) =~= (base + ps.take(p + 1)).map_values(|q: PaneModel| q.cwd));
            assert(out@.map_values(|x: (String, bool)| x.1) =~= (base + ps.take(p + 1)).map_values(|q: PaneModel| q.focused));
            p = p + 1;
        }
        assert(ps.take(ps.len() as int) =~= ps);
        t = t + 1;
    }
    assert(tabs.take(tabs.len() as int) =~= tabs);
    out
}

proof fn lemma_cwds_with_focus_step(ps: Seq<PaneModel>, i: int, focused: bool)
    requires
        0 <= i < ps.len(),
    ensures
        cwds_with_focus(ps.take(i + 1), focused) == if ps[i].focused == focused {
            cwds_with_focus(ps.take(i), focused).push(ps[i].cwd)
        } else {
            cwds_with_focus(ps.take(i), focused)
        },
{
    assert(ps.take(i + 1).drop_last() =~= ps.take(i));
}

/// The directories to probe for a Workspace: focused Panes first (see
/// `probe_candidates`).
pub fn probe_order(workspace: &WorkspaceNode) -> (r: Vec<String>)
    ensures
        strings_view(r@) == probe_candidates(workspace@),
{
    let flat = pane_cwds(workspace);
    let ghost ps = all_panes(workspace@.tabs);
    proof {
        assert(flat@.len() == ps.len()) by {
            assert(flat@.map_values(|x: (String, bool)| x.1).len() == ps.map_values(|p: PaneModel| p.focused).len());
        }
    }
    let mut out: Vec<String> = Vec::new();
    let mut pass: usize = 0;
    while pass < 2
        invariant
            pass <= 2,
            flat@.len() == ps.len(),
            flat@.map_values(|x: (String, bool)| x.0@) == ps.map_values(|p: PaneModel| p.cwd),
            flat@.map_values(|x: (String, bool)| x.1) == ps.map_values(|p: PaneModel| p.focused),
            ps == all_panes(workspace@.tabs),
            strings_view(out@) == if pass == 0 {
                seq![]
            } else if pass == 1 {
                cwds_with_focus(ps, true)
            } else {
                probe_candidates(workspace@)
            },
        decreases 2 - pass,
    {
        let want = pass == 0;
        let ghost base = strings_view(out@);
        let mut i: usize = 0;
        while i < flat.len()
            invariant
                i <= flat@.len(),
                flat@.len() == ps.len(),
                flat@.map_values(|x: (String, bool)| x.0@) == ps.map_values(|p: PaneModel| p.cwd),
                flat@.map_values(|x: (String, bool)| x.1) == ps.map_values(|p: PaneModel| p.focused),
                strings_view(out@) == base + cwds_with_focus(ps.take(i as int), want),
            decreases flat.len() - i,
        {
            proof {
                lemma_cwds_with_focus_step(ps, i as int, want);
                assert(flat@.map_values(|x: (String, bool)| x.0@)[i as int] == ps.map_values(|p: PaneModel| p.cwd)[i as int]);
                assert(flat@.map_values(|x: (String, bool)| x.1)[i as int] == ps.map_values(|p: PaneModel| p.focused)[i as int]);
            }
            let ghost before = strings_view(out@);
            if flat[i].1 == want {
                out.push(flat[i].0.clone());
                assert(strings_view(out@) =~= before.push(ps[i as int].cwd));
            }
            i = i + 1;
        }
        assert(ps.take(ps.len() as int) =~= ps);
        pass = pass + 1;
    }
    out
}

fn clone_worktrees(ws: &Vec<Worktree>) -> (r: Vec<Worktree>)
    ensures
        worktrees_view(r@) == worktrees_view(ws@),
{
    let mut out: Vec<Worktree> = Vec::new();
    let mut i: usize = 0;
    while i < ws.len()
        invariant
            i <= ws@.len(),
            worktrees_view(out@) == worktrees_view(ws@.take(i as int)),
        decreases ws.len() - i,
    {
        let w = &ws[i];
        let copy = Worktree {
            path: w.path.clone(),
            head: w.head.clone(),
            branch: crate::model::clone_opt(&w.branch),
            detached: w.detached,
        };
        let ghost before = worktrees_view(out@);
        out.push(copy);
        assert(worktrees_view(out@) =~= before.push(w@));
        assert(ws@.take(i + 1) =~= ws@.take(i as int).push(ws@[i as int]));
        assert(worktrees_view(ws@.take(i + 1)) =~= worktrees_view(ws@.take(i as int)).push(w@));
        i = i + 1;
    }
    assert(ws@.take(ws.len() as int) =~= ws@);
    out
}

fn has_key(cache: &Vec<(String, Vec<Worktree>)>, key: &str) -> (r: bool)
    ensures
        r == exists|i: int| 0 <= i < cache@.len() && #[trigger] cache@[i].0@ == key@,
{
    let mut j: usize = 0;
    while j < cache.len()
        invariant
            j <= cache@.len(),
            forall|i: int| 0 <= i < j ==> #[trigger] cache@[i].0@ != key@,
        decreases cache.len() - j,
    {
        if crate::text::eq_str(cache[j].0.as_str(), key) {
            return true;
        }
        j = j + 1;
    }
    false
}

/// Probe replies, each under the path it answers: canonical forms of paths, and porcelain
/// worktree listings of directories (`None` for a listing that failed). A path with no
/// reply is its own canonical form, and its listing fails.
pub struct ProbeReplies {
    pub canonical: Vec<(String, String)>,
    pub listings: Vec<(String, Option<String>)>,
}

/// The value of the first pair of `t` whose key is `k`.
pub open spec fn first_value<V>(t: Seq<(String, V)>, k: Seq<char>) -> Option<V>
    decreases t.len(),
{
    if t.len() == 0 {
        None
    } else {
        match first_value(t.drop_last(), k) {
            Some(v) => Some(v),
            None => if t.last().0@ == k {
                Some(t.last().1)
            } else {
                None
            },
        }
    }
}

/// `old` is the beginning of `new`.
pub open spec fn starts<V>(old: Seq<V>, new: Seq<V>) -> bool {
    old.len() <= new.len() && new.take(old.len() as int) == old
}

/// Replies are only ever added.
pub open spec fn replies_grow(old: ProbeReplies, new: ProbeReplies) -> bool {
    starts(old.canonical@, new.canonical@) && starts(old.listings@, new.listings@)
}

/// Every reply added after `old` is the default one: the path itself as its canonical
/// form, and a failed listing.
pub open spec fn defaults_added(old: ProbeReplies, new: ProbeReplies) -> bool {
    &&& forall|k: Seq<char>|
        first_value(old.canonical@, k) is None ==> (#[trigger] first_value(new.canonical@, k) matches Some(v)
            ==> v@ == k)
    &&& forall|k: Seq<char>|
        first_value(old.listings@, k) is None ==> (#[trigger] first_value(new.listings@, k) matches Some(v)
            ==> v is None)
}

/// `canon` gives the recorded canonical forms.
pub open spec fn agrees_canon(m: ProbeReplies, canon: spec_fn(Seq<char>) -> Seq<char>) -> bool {
    forall|k: Seq<char>| #[trigger] first_value(m.canonical@, k) matches Some(v) ==> canon(k) == v@
}

/// `listing` gives the recorded listings.
pub open spec fn agrees_listing(m: ProbeReplies, listing: spec_fn(Seq<char>) -> Option<Seq<char>>) -> bool {
    forall|k: Seq<char>|
        #[trigger] first_value(m.listings@, k) matches Some(v) ==> listing(k) == crate::model::opt_view(v)
}

/// The canonical forms that the replies give (a path without one is its own).
pub open spec fn replied_canon(m: ProbeReplies) -> spec_fn(Seq<char>) -> Seq<char> {
    |k: Seq<char>|
        match first_value(m.canonical@, k) {
            Some(v) => v@,
            None => k,
        }
}

/// The listings that the replies give (a directory without one fails).
pub open spec fn replied_listing(m: ProbeReplies) -> spec_fn(Seq<char>) -> Option<Seq<char>> {
    |k: Seq<char>|
        match first_value(m.listings@, k) {
            Some(v) => crate::model::opt_view(v),
            None => None,
        }
}

proof fn lemma_first_value_starts<V>(old: Seq<(String, V)>, new: Seq<(String, V)>, k: Seq<char>)
    requires
        starts(old, new),
        first_value(old, k) is Some,
    ensures
        first_value(new, k) == first_value(old, k),
    decreases new.len(),
{
    if new.len() == old.len() {
        assert(new =~= old);
    } else {
        assert(new.drop_last().take(old.len() as int) =~= new.take(old.len() as int));
        lemma_first_value_starts(old, new.drop_last(), k);
    }
}

proof fn lemma_starts_trans<V>(a: Seq<V>, b: Seq<V>, c: Seq<V>)
    requires
        starts(a, b),
        starts(b, c),
    ensures
        starts(a, c),
{
    assert(c.take(a.len() as int) =~= c.take(b.len() as int).take(a.len() as int));
}

proof fn lemma_agrees_shrink(
    old: ProbeReplies,
    new: ProbeReplies,
    canon: spec_fn(Seq<char>) -> Seq<char>,
    listing: spec_fn(Seq<char>) -> Option<Seq<char>>,
)
    requires
        replies_grow(old, new),
    ensures
        agrees_canon(new, canon) ==> agrees_canon(old, canon),
        agrees_listing(new, listing) ==> agrees_listing(old, listing),
{
    assert forall|k: Seq<char>| #[trigger] first_value(old.canonical@, k) is Some implies first_value(
        new.canonical@,
        k,
    ) == first_value(old.canonical@, k) by {
        lemma_first_value_starts(old.canonical@, new.canonical@, k);
    }
    assert forall|k: Seq<char>| #[trigger] first_value(old.listings@, k) is Some implies first_value(
        new.listings@,
        k,
    ) == first_value(old.listings@, k) by {
        lemma_first_value_starts(old.listings@, new.listings@, k);
    }
}

proof fn lemma_grow_trans(a: ProbeReplies, b: ProbeReplies, c: ProbeReplies)
    requires
        replies_grow(a, b),
        replies_grow(b, c),
    ensures
        replies_grow(a, c),
        defaults_added(a, b) && defaults_added(b, c) ==> defaults_added(a, c),
{
    lemma_starts_trans(a.canonical@, b.canonical@, c.canonical@);
    lemma_starts_trans(a.listings@, b.listings@, c.listings@);
    if defaults_added(a, b) && defaults_added(b, c) {
        assert forall|k: Seq<char>|
            first_value(a.canonical@, k) is None implies (#[trigger] first_value(c.canonical@, k) matches Some(v)
            ==> v@ == k) by {
            if first_value(b.canonical@, k) is Some {
                lemma_first_value_starts(b.canonical@, c.canonical@, k);
            }
        }
        assert forall|k: Seq<char>|
            first_value(a.listings@, k) is None implies (#[trigger] first_value(c.listings@, k) matches Some(v)
            ==> v is None) by {
            if first_value(b.listings@, k) is Some {
                lemma_first_value_starts(b.listings@, c.listings@, k);
            }
        }
    }
}

/// The position of the first pair of `t` whose key is `k`.
fn first_index<V>(t: &Vec<(String, V)>, k: &str) -> (r: Option<usize>)
    ensures
        match r {
            Some(i) => i < t@.len() && first_value(t@, k@) == Some(t@[i as int].1),
            None => first_value(t@, k@) is None,
        },
{
    let mut i: usize = 0;
    while i < t.len()
        invariant
            i <= t@.len(),
            first_value(t@.take(i as int), k@) is None,
        decreases t.len() - i,
    {
        assert(t@.take(i + 1).drop_last() =~= t@.take(i as int));
        if crate::text::eq_str(t[i].0.as_str(), k) {
            proof {
                assert(t@.take(i + 1).take(i + 1) =~= t@.take(i + 1));
                lemma_first_value_starts(t@.take(i + 1), t@, k@);
            }
            return Some(i);
        }
        i = i + 1;
    }
    assert(t@.take(t@.len() as int) =~= t@);
    None
}

/// The canonical form of `path`: the recorded one, else the probe's (or, with no probe,
/// the path itself), which is then recorded.
fn canonical_of<P: GitProbe>(memo: &mut ProbeReplies, probe: Option<&P>, path: &str) -> (r: String)
    ensures
        replies_grow(*old(memo), *final(memo)),
        final(memo).listings@ == old(memo).listings@,
        probe is None ==> defaults_added(*old(memo), *final(memo)),
        first_value(final(memo).canonical@, path@) matches Some(v) && v@ == r@,
        keys_of(final(memo).canonical@) == keys_of(old(memo).canonical@).insert(path@),
        replies_once(*old(memo)) ==> replies_once(*final(memo)),
{
    proof {
        lemma_first_value_keys(memo.canonical@, path@);
    }
    match first_index(&memo.canonical, path) {
        Some(i) => {
            assert(keys_of(memo.canonical@) =~= keys_of(memo.canonical@).insert(path@));
            let r = memo.canonical[i].1.clone();
            assert(memo.canonical@.take(memo.canonical@.len() as int) =~= memo.canonical@);
            assert(memo.listings@.take(memo.listings@.len() as int) =~= memo.listings@);
            r
        },
        None => {
            let r = match probe {
                Some(p) => p.canonical_path(path),
                None => path.to_owned(),
            };
            let ghost before = memo.canonical@;
            let entry = (path.to_owned(), r.clone());
            proof {
                lemma_keys_push(before, entry);
            }
            memo.canonical.push(entry);
            assert(memo.canonical@.drop_last() =~= before);
            assert(memo.canonical@.take(before.len() as int) =~= before);
            assert(memo.listings@.take(memo.listings@.len() as int) =~= memo.listings@);
            proof {
                assert forall|k: Seq<char>| first_value(old(memo).canonical@, k) is None implies (
                #[trigger] first_value(memo.canonical@, k) matches Some(v) ==> probe is None ==> v@ == k) by {}
            }
            r
        },
    }
}

/// The listing of directory `dir`: the recorded one, else the probe's (or, with no probe,
/// a failure), which is then recorded.
fn listing_of<P: GitProbe>(memo: &mut ProbeReplies, probe: Option<&P>, dir: &str) -> (r: Option<String>)
    ensures
        replies_grow(*old(memo), *final(memo)),
        final(memo).canonical@ == old(memo).canonical@,
        probe is None ==> defaults_added(*old(memo), *final(memo)),
        first_value(final(memo).listings@, dir@) matches Some(v) && crate::model::opt_view(v)
            == crate::model::opt_view(r),
        keys_of(final(memo).listings@) == keys_of(old(memo).listings@).insert(dir@),
        replies_once(*old(memo)) ==> replies_once(*final(memo)),
{
    proof {
        lemma_first_value_keys(memo.listings@, dir@);
    }
    match first_index(&memo.listings, dir) {
        Some(i) => {
            assert(keys_of(memo.listings@) =~= keys_of(memo.listings@).insert(dir@));
            let r = crate::model::clone_opt(&memo.listings[i].1);
            assert(memo.canonical@.take(memo.canonical@.len() as int) =~= memo.canonical@);
            assert(memo.listings@.take(memo.listings@.len() as int) =~= memo.listings@);
            r
        },
        None => {
            let r = match probe {
                Some(p) => match p.worktree_list(dir) {
                    Ok(s) => Some(s),
                    Err(_) => None,
                },
                None => None,
            };
            let ghost before = memo.listings@;
            let entry = (dir.to_owned(), crate::model::clone_opt(&r));
            proof {
                lemma_keys_push(before, entry);
            }
            memo.listings.push(entry);
            assert(memo.listings@.drop_last() =~= before);
            assert(memo.listings@.take(before.len() as int) =~= before);
            assert(memo.canonical@.take(memo.canonical@.len() as int) =~= memo.canonical@);
            proof {
                assert forall|k: Seq<char>| first_value(old(memo).listings@, k) is None implies (
                #[trigger] first_value(memo.listings@, k) matches Some(v) ==> probe is None ==> v is None) by {}
            }
            r
        },
    }
}


/// The cache of repository listings, each under its repository key.
pub open spec fn cache_view(c: Seq<(String, Vec<Worktree>)>) -> Seq<(Seq<char>, Seq<WorktreeModel>)> {
    c.map_values(|e: (String, Vec<Worktree>)| (e.0@, worktrees_view(e.1@)))
}

/// Some worktree of `ws` holds directory `cwd`, comparing canonical forms.
pub open spec fn holds_dir(ws: Seq<WorktreeModel>, cwd: Seq<char>, canon: spec_fn(Seq<char>) -> Seq<char>) -> bool {
    exists|k: int| 0 <= k < ws.len() && is_path_prefix(cwd, canon(#[trigger] ws[k].path))
}

/// The first cached listing with a worktree that holds `cwd`.
pub open spec fn first_cached(
    cache: Seq<(Seq<char>, Seq<WorktreeModel>)>,
    cwd: Seq<char>,
    canon: spec_fn(Seq<char>) -> Seq<char>,
) -> Option<int>
    decreases cache.len(),
{
    if cache.len() == 0 {
        None
    } else {
        match first_cached(cache.drop_last(), cwd, canon) {
            Some(j) => Some(j),
            None => if holds_dir(cache.last().1, cwd, canon) {
                Some(cache.len() - 1)
            } else {
                None
            },
        }
    }
}

/// The identity of the worktree of `ws` that holds `cwd` (see `identity_spec`), with the
/// canonical forms of `cwd`, of each worktree and of the primary worktree's `.git`.
pub open spec fn canonical_identity(
    ws: Seq<WorktreeModel>,
    cwd: Seq<char>,
    canon: spec_fn(Seq<char>) -> Seq<char>,
) -> Option<GitModel> {
    if ws.len() == 0 {
        None
    } else {
        identity_spec(
            ws,
            ws.map_values(|w: WorktreeModel| canon(w.path)),
            canon(cwd),
            canon(joined(canon(ws[0].path), ".git"@)),
        )
    }
}

/// Some cached listing is under `key`.
pub open spec fn cache_has(cache: Seq<(Seq<char>, Seq<WorktreeModel>)>, key: Seq<char>) -> bool {
    exists|i: int| 0 <= i < cache.len() && (#[trigger] cache[i]).0 == key
}

/// Probing one directory `raw`, given the cache and the failed directories: an empty path
/// or a directory whose canonical form failed before gives nothing; a cached listing with
/// a worktree holding it gives its identity; otherwise its listing is taken: a failed or
/// empty one marks the directory as failed, and a new repository is cached under the
/// canonical form of its primary worktree's `.git`.
pub open spec fn probe_dir(
    cache: Seq<(Seq<char>, Seq<WorktreeModel>)>,
    failed: Set<Seq<char>>,
    raw: Seq<char>,
    canon: spec_fn(Seq<char>) -> Seq<char>,
    listing: spec_fn(Seq<char>) -> Option<Seq<char>>,
) -> (Seq<(Seq<char>, Seq<WorktreeModel>)>, Set<Seq<char>>, Option<GitModel>) {
    let cwd = canon(raw);
    if raw.len() == 0 || failed.contains(cwd) {
        (cache, failed, None)
    } else {
        match first_cached(cache, cwd, canon) {
            Some(j) => (cache, failed, canonical_identity(cache[j].1, cwd, canon)),
            None => match listing(raw) {
                None => (cache, failed.insert(cwd), None),
                Some(text) => {
                    let ws = parsed_worktrees(text);
                    if ws.len() == 0 {
                        (cache, failed.insert(cwd), None)
                    } else {
                        let key = canon(joined(ws[0].path, ".git"@));
                        let next = if cache_has(cache, key) {
                            cache
                        } else {
                            cache.push((key, ws))
                        };
                        (next, failed, canonical_identity(ws, cwd, canon))
                    }
                },
            },
        }
    }
}

/// Probing `dirs` in order until one gives an identity.
pub open spec fn probe_dirs(
    cache: Seq<(Seq<char>, Seq<WorktreeModel>)>,
    failed: Set<Seq<char>>,
    dirs: Seq<Seq<char>>,
    canon: spec_fn(Seq<char>) -> Seq<char>,
    listing: spec_fn(Seq<char>) -> Option<Seq<char>>,
) -> (Seq<(Seq<char>, Seq<WorktreeModel>)>, Set<Seq<char>>, Option<GitModel>)
    decreases dirs.len(),
{
    if dirs.len() == 0 {
        (cache, failed, None)
    } else {
        let p = probe_dirs(cache, failed, dirs.drop_last(), canon, listing);
        if p.2 is Some {
            p
        } else {
            probe_dir(p.0, p.1, dirs.last(), canon, listing)
        }
    }
}

/// Probing each Workspace's directories in `probe_candidates` order, sharing the cache and
/// the failed directories: the final cache, failed directories and each identity.
pub open spec fn probe_workspaces(
    ws: Seq<WorkspaceModel>,
    canon: spec_fn(Seq<char>) -> Seq<char>,
    listing: spec_fn(Seq<char>) -> Option<Seq<char>>,
) -> (Seq<(Seq<char>, Seq<WorktreeModel>)>, Set<Seq<char>>, Seq<Option<GitModel>>)
    decreases ws.len(),
{
    if ws.len() == 0 {
        (seq![], Set::empty(), seq![])
    } else {
        let p = probe_workspaces(ws.drop_last(), canon, listing);
        let q = probe_dirs(p.0, p.1, probe_candidates(ws.last()), canon, listing);
        (q.0, q.1, p.2.push(q.2))
    }
}

/// The identity that each Workspace of `ws` gets when the probe gives the canonical forms
/// `canon` and the listings `listing`.
pub open spec fn enriched_gits(
    ws: Seq<WorkspaceModel>,
    canon: spec_fn(Seq<char>) -> Seq<char>,
    listing: spec_fn(Seq<char>) -> Option<Seq<char>>,
) -> Seq<Option<GitModel>> {
    probe_workspaces(ws, canon, listing).2
}

/// The models of Workspaces.
pub open spec fn workspace_models(ws: Seq<WorkspaceNode>) -> Seq<WorkspaceModel> {
    ws.map_values(|w: WorkspaceNode| w@)
}

/// The identity of each Workspace.
pub open spec fn gits_of(ws: Seq<WorkspaceNode>) -> Seq<Option<GitModel>> {
    ws.map_values(|w: WorkspaceNode| w@.git)
}

/// The position as an integer.
pub open spec fn index_view(r: Option<usize>) -> Option<int> {
    match r {
        Some(j) => Some(j as int),
        None => None,
    }
}

proof fn lemma_first_cached_take(s: Seq<(Seq<char>, Seq<WorktreeModel>)>, n: int, cwd: Seq<char>, canon: spec_fn(Seq<char>) -> Seq<char>)
    requires
        0 <= n <= s.len(),
        first_cached(s.take(n), cwd, canon) is Some,
    ensures
        first_cached(s, cwd, canon) == first_cached(s.take(n), cwd, canon),
    decreases s.len(),
{
    if n == s.len() {
        assert(s.take(n) =~= s);
    } else {
        assert(s.drop_last().take(n) =~= s.take(n));
        lemma_first_cached_take(s.drop_last(), n, cwd, canon);
    }
}

proof fn lemma_probe_dirs_take(
    cache: Seq<(Seq<char>, Seq<WorktreeModel>)>,
    failed: Set<Seq<char>>,
    dirs: Seq<Seq<char>>,
    n: int,
    canon: spec_fn(Seq<char>) -> Seq<char>,
    listing: spec_fn(Seq<char>) -> Option<Seq<char>>,
)
    requires
        0 <= n <= dirs.len(),
        probe_dirs(cache, failed, dirs.take(n), canon, listing).2 is Some,
    ensures
        probe_dirs(cache, failed, dirs, canon, listing) == probe_dirs(cache, failed, dirs.take(n), canon, listing),
    decreases dirs.len(),
{
    if n == dirs.len() {
        assert(dirs.take(n) =~= dirs);
    } else {
        assert(dirs.drop_last().take(n) =~= dirs.take(n));
        lemma_probe_dirs_take(cache, failed, dirs.drop_last(), n, canon, listing);
    }
}

/// What agreeing with grown replies keeps: agreeing with the replies before.
proof fn lemma_keep(old: ProbeReplies, new: ProbeReplies)
    requires
        replies_grow(old, new),
    ensures
        forall|canon: spec_fn(Seq<char>) -> Seq<char>|
            #[trigger] agrees_canon(new, canon) ==> agrees_canon(old, canon),
        forall|listing: spec_fn(Seq<char>) -> Option<Seq<char>>|
            #[trigger] agrees_listing(new, listing) ==> agrees_listing(old, listing),
{
    assert forall|canon: spec_fn(Seq<char>) -> Seq<char>| #[trigger] agrees_canon(new, canon) implies agrees_canon(
        old,
        canon,
    ) by {
        lemma_agrees_shrink(old, new, canon, |k: Seq<char>| None::<Seq<char>>);
    }
    assert forall|listing: spec_fn(Seq<char>) -> Option<Seq<char>>| #[trigger] agrees_listing(new, listing) implies agrees_listing(
        old,
        listing,
    ) by {
        lemma_agrees_shrink(old, new, |k: Seq<char>| k, listing);
    }
}


/// The position of the first cached listing with a worktree holding `cwd`, comparing
/// canonical forms.
fn find_cached<P: GitProbe>(
    cache: &Vec<(String, Vec<Worktree>)>,
    cwd: &str,
    probe: Option<&P>,
    memo: &mut ProbeReplies,
) -> (r: Option<usize>)
    ensures
        replies_grow(*old(memo), *final(memo)),
        final(memo).listings@ == old(memo).listings@,
        probe is None ==> defaults_added(*old(memo), *final(memo)),
        replies_once(*old(memo)) ==> replies_once(*final(memo)),
        r matches Some(j) ==> j < cache@.len(),
        forall|canon: spec_fn(Seq<char>) -> Seq<char>|
            #[trigger] agrees_canon(*final(memo), canon) ==> first_cached(cache_view(cache@), cwd@, canon)
                == index_view(r) && keys_of(final(memo).canonical@) == keys_of(old(memo).canonical@)
                + cache_asked(cache_view(cache@), cwd@, canon),
{
    let ghost m0 = *memo;
    let ghost k0 = keys_of(memo.canonical@);
    let ghost cv = cache_view(cache@);
    proof {
        assert(m0.canonical@.take(m0.canonical@.len() as int) =~= m0.canonical@);
        assert(m0.listings@.take(m0.listings@.len() as int) =~= m0.listings@);
        assert(cv.take(0) =~= Seq::<(Seq<char>, Seq<WorktreeModel>)>::empty());
        assert(k0 + Set::<Seq<char>>::empty() =~= k0);
    }
    let mut j: usize = 0;
    while j < cache.len()
        invariant
            j <= cache@.len(),
            cv == cache_view(cache@),
            m0 == *old(memo),
            k0 == keys_of(m0.canonical@),
            replies_grow(m0, *memo),
            memo.listings@ == m0.listings@,
            probe is None ==> defaults_added(m0, *memo),
            replies_once(m0) ==> replies_once(*memo),
            forall|canon: spec_fn(Seq<char>) -> Seq<char>|
                #[trigger] agrees_canon(*memo, canon) ==> first_cached(cv.take(j as int), cwd@, canon) is None
                    && keys_of(memo.canonical@) == k0 + cache_asked(cv.take(j as int), cwd@, canon),
        decreases cache.len() - j,
    {
        let ws = &cache[j].1;
        let ghost wsv = worktrees_view(ws@);
        assert(cv[j as int].1 == wsv);
        assert(wsv.take(0) =~= Seq::<WorktreeModel>::empty());
        let mut k: usize = 0;
        while k < ws.len()
            invariant
                j < cache@.len(),
                k <= ws@.len(),
                *ws == cache@[j as int].1,
                cv == cache_view(cache@),
                wsv == worktrees_view(ws@),
                cv[j as int].1 == wsv,
                m0 == *old(memo),
                k0 == keys_of(m0.canonical@),
                replies_grow(m0, *memo),
                memo.listings@ == m0.listings@,
                probe is None ==> defaults_added(m0, *memo),
                replies_once(m0) ==> replies_once(*memo),
                forall|canon: spec_fn(Seq<char>) -> Seq<char>|
                    #[trigger] agrees_canon(*memo, canon) ==> first_cached(cv.take(j as int), cwd@, canon) is None
                        && (forall|k2: int| 0 <= k2 < k ==> !is_path_prefix(cwd@, canon(#[trigger] ws@[k2].path@)))
                        && keys_of(memo.canonical@) == k0 + cache_asked(cv.take(j as int), cwd@, canon)
                        + scan_asked(wsv.take(k as int), cwd@, canon),
            decreases ws.len() - k,
        {
            let ghost before = *memo;
            let root = canonical_of(memo, probe, ws[k].path.as_str());
            proof {
                lemma_grow_trans(m0, before, *memo);
                lemma_keep(before, *memo);
                assert(wsv.take(k + 1).drop_last() =~= wsv.take(k as int));
                assert(wsv.take(k + 1).last() == wsv[k as int]);
                assert(wsv[k as int].path == ws@[k as int].path@);
                assert forall|canon: spec_fn(Seq<char>) -> Seq<char>| #[trigger] agrees_canon(*memo, canon) implies !holds_dir(
                    wsv.take(k as int),
                    cwd@,
                    canon,
                ) && keys_of(memo.canonical@) == k0 + cache_asked(cv.take(j as int), cwd@, canon) + scan_asked(
                    wsv.take(k + 1),
                    cwd@,
                    canon,
                ) by {
                    assert(agrees_canon(before, canon));
                    if holds_dir(wsv.take(k as int), cwd@, canon) {
                        let k2 = choose|k2: int| 0 <= k2 < wsv.take(k as int).len() && is_path_prefix(
                            cwd@,
                            canon(#[trigger] wsv.take(k as int)[k2].path),
                        );
                        assert(wsv.take(k as int)[k2].path == ws@[k2].path@);
                    }
                    assert(keys_of(memo.canonical@) =~= k0 + cache_asked(cv.take(j as int), cwd@, canon) + scan_asked(
                        wsv.take(k + 1),
                        cwd@,
                        canon,
                    ));
                }
            }
            if path_prefix(cwd, root.as_str()) {
                proof {
                    assert forall|canon: spec_fn(Seq<char>) -> Seq<char>| #[trigger] agrees_canon(*memo, canon) implies first_cached(
                        cv,
                        cwd@,
                        canon,
                    ) == Some(j as int) && keys_of(memo.canonical@) == k0 + cache_asked(cv, cwd@, canon) by {
                        assert(canon(ws@[k as int].path@) == root@);
                        assert(holds_dir(wsv.take(k + 1), cwd@, canon)) by {
                            assert(wsv.take(k + 1)[k as int].path == ws@[k as int].path@);
                        }
                        lemma_scan_asked_take(wsv, k + 1, cwd@, canon);
                        assert(holds_dir(cv[j as int].1, cwd@, canon));
                        assert(cv.take(j + 1).drop_last() =~= cv.take(j as int));
                        assert(cv.take(j + 1).last() == cv[j as int]);
                        lemma_first_cached_take(cv, j + 1, cwd@, canon);
                        lemma_cache_asked_take(cv, j + 1, cwd@, canon);
                        assert(keys_of(memo.canonical@) =~= k0 + cache_asked(cv, cwd@, canon));
                    }
                }
                return Some(j);
            }
            k = k + 1;
        }
        proof {
            assert(wsv.take(ws@.len() as int) =~= wsv);
            assert forall|canon: spec_fn(Seq<char>) -> Seq<char>| #[trigger] agrees_canon(*memo, canon) implies first_cached(
                cv.take(j + 1),
                cwd@,
                canon,
            ) is None && keys_of(memo.canonical@) == k0 + cache_asked(cv.take(j + 1), cwd@, canon) by {
                assert(cv.take(j + 1).drop_last() =~= cv.take(j as int));
                assert(cv.take(j + 1).last() == cv[j as int]);
                if holds_dir(cv[j as int].1, cwd@, canon) {
                    let k2 = choose|k2: int| 0 <= k2 < cv[j as int].1.len() && is_path_prefix(cwd@, canon(#[trigger] cv[j as int].1[k2].path));
                    assert(worktrees_view(ws@)[k2].path == ws@[k2].path@);
                }
                assert(keys_of(memo.canonical@) =~= k0 + cache_asked(cv.take(j + 1), cwd@, canon));
            }
        }
        j = j + 1;
    }
    assert(cv.take(cache@.len() as int) =~= cv);
    None
}


/// The identity of the worktree of `ws` that holds `cwd`, from the canonical forms of
/// `cwd`, of each worktree and of the primary worktree's `.git` (see `identity_from`).
fn identity_of<P: GitProbe>(ws: &[Worktree], cwd: &str, probe: Option<&P>, memo: &mut ProbeReplies) -> (r:
    Option<GitIdentity>)
    ensures
        replies_grow(*old(memo), *final(memo)),
        final(memo).listings@ == old(memo).listings@,
        probe is None ==> defaults_added(*old(memo), *final(memo)),
        replies_once(*old(memo)) ==> replies_once(*final(memo)),
        forall|canon: spec_fn(Seq<char>) -> Seq<char>|
            #[trigger] agrees_canon(*final(memo), canon) ==> identity_view(r) == canonical_identity(
                worktrees_view(ws@),
                cwd@,
                canon,
            ) && keys_of(final(memo).canonical@) == keys_of(old(memo).canonical@) + identity_asked(
                worktrees_view(ws@),
                cwd@,
                canon,
            ),
{
    let ghost m0 = *memo;
    proof {
        assert(m0.canonical@.take(m0.canonical@.len() as int) =~= m0.canonical@);
        assert(m0.listings@.take(m0.listings@.len() as int) =~= m0.listings@);
    }
    let ghost k0 = keys_of(memo.canonical@);
    let ghost wsv = worktrees_view(ws@);
    if ws.len() == 0 {
        assert(k0 + identity_asked(wsv, cwd@, |k: Seq<char>| k) =~= k0);
        assert forall|canon: spec_fn(Seq<char>) -> Seq<char>| #[trigger] agrees_canon(*memo, canon) implies keys_of(
            memo.canonical@,
        ) == k0 + identity_asked(wsv, cwd@, canon) by {
            assert(k0 + identity_asked(wsv, cwd@, canon) =~= k0);
        }
        return None;
    }
    let c = canonical_of(memo, probe, cwd);
    assert(wsv.take(0) =~= Seq::<WorktreeModel>::empty());
    assert(keys_of(memo.canonical@) =~= k0 + set![cwd@] + paths_of(wsv.take(0)));
    let mut canonical: Vec<String> = Vec::new();
    let mut i: usize = 0;
    while i < ws.len()
        invariant
            i <= ws@.len(),
            canonical@.len() == i,
            replies_grow(m0, *memo),
            memo.listings@ == m0.listings@,
            probe is None ==> defaults_added(m0, *memo),
            replies_once(m0) ==> replies_once(*memo),
            m0 == *old(memo),
            k0 == keys_of(m0.canonical@),
            wsv == worktrees_view(ws@),
            keys_of(memo.canonical@) == k0 + set![cwd@] + paths_of(wsv.take(i as int)),
            forall|canon: spec_fn(Seq<char>) -> Seq<char>|
                #[trigger] agrees_canon(*memo, canon) ==> canon(cwd@) == c@ && forall|i2: int|
                    0 <= i2 < i ==> canon(ws@[i2].path@) == (#[trigger] canonical@[i2])@,
        decreases ws.len() - i,
    {
        let ghost before = *memo;
        let p = canonical_of(memo, probe, ws[i].path.as_str());
        proof {
            lemma_grow_trans(m0, before, *memo);
            lemma_keep(before, *memo);
            assert(wsv[i as int].path == ws@[i as int].path@);
            assert forall|x: Seq<char>| #[trigger] paths_of(wsv.take(i + 1)).contains(x) <==> paths_of(wsv.take(i as int)).insert(
                wsv[i as int].path,
            ).contains(x) by {
                if paths_of(wsv.take(i + 1)).contains(x) {
                    let q = choose|q: int| 0 <= q < wsv.take(i + 1).len() && (#[trigger] wsv.take(i + 1)[q]).path == x;
                    if q < i {
                        assert(wsv.take(i as int)[q] == wsv.take(i + 1)[q]);
                    }
                }
                if paths_of(wsv.take(i as int)).contains(x) {
                    let q = choose|q: int| 0 <= q < wsv.take(i as int).len() && (#[trigger] wsv.take(i as int)[q]).path == x;
                    assert(wsv.take(i + 1)[q] == wsv.take(i as int)[q]);
                }
                if x == wsv[i as int].path {
                    assert(wsv.take(i + 1)[i as int] == wsv[i as int]);
                }
            }
            assert(keys_of(memo.canonical@) =~= k0 + set![cwd@] + paths_of(wsv.take(i + 1)));
        }
        canonical.push(p);
        i = i + 1;
    }
    let git_dir = join_path(canonical[0].as_str(), ".git");
    let ghost before = *memo;
    let key = canonical_of(memo, probe, git_dir.as_str());
    proof {
        lemma_grow_trans(m0, before, *memo);
        lemma_keep(before, *memo);
    }
    let r = identity_from(ws, canonical.as_slice(), c.as_str(), key.as_str());
    proof {
        assert forall|canon: spec_fn(Seq<char>) -> Seq<char>| #[trigger] agrees_canon(*memo, canon) implies identity_view(r)
            == canonical_identity(worktrees_view(ws@), cwd@, canon) && keys_of(memo.canonical@) == k0
            + identity_asked(wsv, cwd@, canon) by {
            let wv = worktrees_view(ws@);
            assert(strings_view(canonical@) =~= wv.map_values(|w: WorktreeModel| canon(w.path))) by {
                assert forall|i2: int| 0 <= i2 < wv.len() implies strings_view(canonical@)[i2] == canon(wv[i2].path) by {
                    assert(canonical@[i2]@ == canon(ws@[i2].path@));
                }
            }
            assert(canonical@[0]@ == canon(wv[0].path));
            assert(wsv.take(ws@.len() as int) =~= wsv);
            assert(keys_of(memo.canonical@) =~= k0 + identity_asked(wsv, cwd@, canon));
        }
    }
    r
}

/// Probes one directory `raw` (see `probe_dir`), updating the cache and the failed
/// directories.
fn probe_one<P: GitProbe>(
    raw: &str,
    probe: Option<&P>,
    cache: &mut Vec<(String, Vec<Worktree>)>,
    failed: &mut crate::keyset::KeySet,
    memo: &mut ProbeReplies,
) -> (r: Option<GitIdentity>)
    ensures
        replies_grow(*old(memo), *final(memo)),
        probe is None ==> defaults_added(*old(memo), *final(memo)),
        replies_once(*old(memo)) ==> replies_once(*final(memo)),
        forall|canon: spec_fn(Seq<char>) -> Seq<char>, listing: spec_fn(Seq<char>) -> Option<Seq<char>>|
            #![trigger agrees_canon(*final(memo), canon), agrees_listing(*final(memo), listing)]
            agrees_canon(*final(memo), canon) && agrees_listing(*final(memo), listing) ==> probe_dir(
                cache_view(old(cache)@),
                old(failed)@,
                raw@,
                canon,
                listing,
            ) == (cache_view(final(cache)@), final(failed)@, identity_view(r)) && keys_of(final(memo).canonical@)
                == keys_of(old(memo).canonical@) + probe_dir_asked(
                cache_view(old(cache)@),
                old(failed)@,
                raw@,
                canon,
                listing,
            ).0 && keys_of(final(memo).listings@) == keys_of(old(memo).listings@) + probe_dir_asked(
                cache_view(old(cache)@),
                old(failed)@,
                raw@,
                canon,
                listing,
            ).1,
{
    let ghost m0 = *memo;
    let ghost c0 = cache_view(cache@);
    let ghost f0 = failed@;
    let ghost kc = keys_of(m0.canonical@);
    let ghost kl = keys_of(m0.listings@);
    proof {
        assert(m0.canonical@.take(m0.canonical@.len() as int) =~= m0.canonical@);
        assert(m0.listings@.take(m0.listings@.len() as int) =~= m0.listings@);
    }
    if raw.is_empty() {
        assert(kc + Set::<Seq<char>>::empty() =~= kc);
        assert(kl + Set::<Seq<char>>::empty() =~= kl);
        return None;
    }
    let cwd = canonical_of(memo, probe, raw);
    proof {
        lemma_keep(m0, *memo);
    }
    let ghost m1 = *memo;
    if failed.contains(cwd.as_str()) {
        assert(kc + set![raw@] =~= kc.insert(raw@));
        assert(kl + Set::<Seq<char>>::empty() =~= kl);
        return None;
    }
    let found = find_cached(cache, cwd.as_str(), probe, memo);
    proof {
        lemma_grow_trans(m0, m1, *memo);
        lemma_keep(m1, *memo);
        lemma_keep(m0, *memo);
    }
    let ghost m2 = *memo;
    match found {
        Some(j) => {
            let r = identity_of(cache[j].1.as_slice(), cwd.as_str(), probe, memo);
            proof {
                lemma_grow_trans(m0, m2, *memo);
                lemma_keep(m2, *memo);
                lemma_keep(m0, *memo);
                assert(c0[j as int].1 == worktrees_view(cache@[j as int].1@));
                assert forall|canon: spec_fn(Seq<char>) -> Seq<char>, listing: spec_fn(Seq<char>) -> Option<Seq<char>>|
                    #![trigger agrees_canon(*memo, canon), agrees_listing(*memo, listing)]
                    agrees_canon(*memo, canon) && agrees_listing(*memo, listing) implies keys_of(memo.canonical@) == kc
                    + probe_dir_asked(c0, f0, raw@, canon, listing).0 && keys_of(memo.listings@) == kl
                    + probe_dir_asked(c0, f0, raw@, canon, listing).1 by {
                    assert(agrees_canon(m2, canon) && agrees_canon(m1, canon));
                    assert(keys_of(memo.canonical@) =~= kc + probe_dir_asked(c0, f0, raw@, canon, listing).0);
                    assert(keys_of(memo.listings@) =~= kl + probe_dir_asked(c0, f0, raw@, canon, listing).1);
                }
            }
            r
        },
        None => {
            let listed = listing_of(memo, probe, raw);
            proof {
                lemma_grow_trans(m0, m2, *memo);
                lemma_keep(m2, *memo);
                lemma_keep(m0, *memo);
            }
            let ghost m3 = *memo;
            match listed {
                None => {
                    failed.insert(cwd);
                    proof {
                        assert forall|canon: spec_fn(Seq<char>) -> Seq<char>, listing: spec_fn(Seq<char>) -> Option<Seq<char>>|
                            #![trigger agrees_canon(*memo, canon), agrees_listing(*memo, listing)]
                            agrees_canon(*memo, canon) && agrees_listing(*memo, listing) implies keys_of(memo.canonical@) == kc
                            + probe_dir_asked(c0, f0, raw@, canon, listing).0 && keys_of(memo.listings@) == kl
                            + probe_dir_asked(c0, f0, raw@, canon, listing).1 by {
                            assert(agrees_canon(m2, canon) && agrees_canon(m1, canon));
                            assert(keys_of(memo.canonical@) =~= kc + probe_dir_asked(c0, f0, raw@, canon, listing).0);
                            assert(keys_of(memo.listings@) =~= kl + probe_dir_asked(c0, f0, raw@, canon, listing).1);
                        }
                    }
                    None
                },
                Some(out) => {
                    let parsed = parse_worktrees(out.as_str());
                    if parsed.len() == 0 {
                        failed.insert(cwd);
                        proof {
                            assert forall|canon: spec_fn(Seq<char>) -> Seq<char>, listing: spec_fn(Seq<char>) -> Option<Seq<char>>|
                                #![trigger agrees_canon(*memo, canon), agrees_listing(*memo, listing)]
                                agrees_canon(*memo, canon) && agrees_listing(*memo, listing) implies keys_of(memo.canonical@) == kc
                                + probe_dir_asked(c0, f0, raw@, canon, listing).0 && keys_of(memo.listings@) == kl
                                + probe_dir_asked(c0, f0, raw@, canon, listing).1 by {
                                assert(agrees_canon(m2, canon) && agrees_canon(m1, canon));
                                assert(keys_of(memo.canonical@) =~= kc + probe_dir_asked(c0, f0, raw@, canon, listing).0);
                                assert(keys_of(memo.listings@) =~= kl + probe_dir_asked(c0, f0, raw@, canon, listing).1);
                            }
                        }
                        return None;
                    }
                    let git_dir = join_path(parsed[0].path.as_str(), ".git");
                    let key = canonical_of(memo, probe, git_dir.as_str());
                    proof {
                        lemma_grow_trans(m0, m3, *memo);
                        lemma_keep(m3, *memo);
                        lemma_keep(m0, *memo);
                    }
                    let ghost m4 = *memo;
                    let present = has_key(cache, key.as_str());
                    proof {
                        if present {
                            let i = choose|i: int| 0 <= i < cache@.len() && #[trigger] cache@[i].0@ == key@;
                            assert(c0[i].0 == key@);
                        } else {
                            assert forall|i: int| 0 <= i < c0.len() implies (#[trigger] c0[i]).0 != key@ by {
                                assert(c0[i].0 == cache@[i].0@);
                            }
                        }
                    }
                    if !present {
                        let copy = clone_worktrees(&parsed);
                        cache.push((key, copy));
                        assert(cache_view(cache@) =~= c0.push((key@, worktrees_view(parsed@))));
                    }
                    let r = identity_of(parsed.as_slice(), cwd.as_str(), probe, memo);
                    proof {
                        lemma_grow_trans(m0, m4, *memo);
                        lemma_keep(m4, *memo);
                        lemma_keep(m0, *memo);
                        assert forall|canon: spec_fn(Seq<char>) -> Seq<char>, listing: spec_fn(Seq<char>) -> Option<Seq<char>>|
                            #![trigger agrees_canon(*memo, canon), agrees_listing(*memo, listing)]
                            agrees_canon(*memo, canon) && agrees_listing(*memo, listing) implies keys_of(memo.canonical@) == kc
                            + probe_dir_asked(c0, f0, raw@, canon, listing).0 && keys_of(memo.listings@) == kl
                            + probe_dir_asked(c0, f0, raw@, canon, listing).1 by {
                            assert(agrees_canon(m4, canon) && agrees_canon(m2, canon) && agrees_canon(m1, canon));
                            assert(agrees_listing(m3, listing));
                            assert(keys_of(memo.canonical@) =~= kc + probe_dir_asked(c0, f0, raw@, canon, listing).0);
                            assert(keys_of(memo.listings@) =~= kl + probe_dir_asked(c0, f0, raw@, canon, listing).1);
                        }
                    }
                    r
                },
            }
        },
    }
}

/// The identity found by probing `candidates` in order (see `probe_dirs`), sharing the
/// cache and the failed directories.
fn identity_for<P: GitProbe>(
    candidates: &Vec<String>,
    probe: Option<&P>,
    cache: &mut Vec<(String, Vec<Worktree>)>,
    failed: &mut crate::keyset::KeySet,
    memo: &mut ProbeReplies,
) -> (r: Option<GitIdentity>)
    ensures
        replies_grow(*old(memo), *final(memo)),
        probe is None ==> defaults_added(*old(memo), *final(memo)),
        replies_once(*old(memo)) ==> replies_once(*final(memo)),
        forall|canon: spec_fn(Seq<char>) -> Seq<char>, listing: spec_fn(Seq<char>) -> Option<Seq<char>>|
            #![trigger agrees_canon(*final(memo), canon), agrees_listing(*final(memo), listing)]
            agrees_canon(*final(memo), canon) && agrees_listing(*final(memo), listing) ==> probe_dirs(
                cache_view(old(cache)@),
                old(failed)@,
                strings_view(candidates@),
                canon,
                listing,
            ) == (cache_view(final(cache)@), final(failed)@, identity_view(r)) && keys_of(final(memo).canonical@)
                == keys_of(old(memo).canonical@) + probe_dirs_asked(
                cache_view(old(cache)@),
                old(failed)@,
                strings_view(candidates@),
                canon,
                listing,
            ).0 && keys_of(final(memo).listings@) == keys_of(old(memo).listings@) + probe_dirs_asked(
                cache_view(old(cache)@),
                old(failed)@,
                strings_view(candidates@),
                canon,
                listing,
            ).1,
{
    let ghost m0 = *memo;
    let ghost c0 = cache_view(cache@);
    let ghost f0 = failed@;
    let ghost dirs = strings_view(candidates@);
    let ghost kc = keys_of(m0.canonical@);
    let ghost kl = keys_of(m0.listings@);
    proof {
        assert(kc + Set::<Seq<char>>::empty() =~= kc);
        assert(kl + Set::<Seq<char>>::empty() =~= kl);
        assert(m0.canonical@.take(m0.canonical@.len() as int) =~= m0.canonical@);
        assert(m0.listings@.take(m0.listings@.len() as int) =~= m0.listings@);
        assert(dirs.take(0) =~= Seq::<Seq<char>>::empty());
    }
    let mut k: usize = 0;
    while k < candidates.len()
        invariant
            k <= candidates@.len(),
            dirs == strings_view(candidates@),
            m0 == *old(memo),
            c0 == cache_view(old(cache)@),
            f0 == old(failed)@,
            replies_grow(m0, *memo),
            probe is None ==> defaults_added(m0, *memo),
            replies_once(m0) ==> replies_once(*memo),
            kc == keys_of(m0.canonical@),
            kl == keys_of(m0.listings@),
            forall|canon: spec_fn(Seq<char>) -> Seq<char>, listing: spec_fn(Seq<char>) -> Option<Seq<char>>|
                #![trigger agrees_canon(*memo, canon), agrees_listing(*memo, listing)]
                agrees_canon(*memo, canon) && agrees_listing(*memo, listing) ==> probe_dirs(
                    c0,
                    f0,
                    dirs.take(k as int),
                    canon,
                    listing,
                ) == (cache_view(cache@), failed@, None::<GitModel>) && keys_of(memo.canonical@) == kc
                    + probe_dirs_asked(c0, f0, dirs.take(k as int), canon, listing).0 && keys_of(memo.listings@)
                    == kl + probe_dirs_asked(c0, f0, dirs.take(k as int), canon, listing).1,
        decreases candidates.len() - k,
    {
        let ghost before = *memo;
        let ghost cb = cache_view(cache@);
        let ghost fb = failed@;
        let r = probe_one(candidates[k].as_str(), probe, cache, failed, memo);
        proof {
            lemma_grow_trans(m0, before, *memo);
            lemma_keep(before, *memo);
            assert(dirs.take(k + 1).drop_last() =~= dirs.take(k as int));
            assert(dirs.take(k + 1).last() == candidates@[k as int]@);
        }
        if r.is_some() {
            proof {
                assert forall|canon: spec_fn(Seq<char>) -> Seq<char>, listing: spec_fn(Seq<char>) -> Option<Seq<char>>|
                    #![trigger agrees_canon(*memo, canon), agrees_listing(*memo, listing)]
                    agrees_canon(*memo, canon) && agrees_listing(*memo, listing) implies probe_dirs(
                        c0,
                        f0,
                        dirs,
                        canon,
                        listing,
                    ) == (cache_view(cache@), failed@, identity_view(r)) && keys_of(memo.canonical@) == kc
                        + probe_dirs_asked(c0, f0, dirs, canon, listing).0 && keys_of(memo.listings@) == kl
                        + probe_dirs_asked(c0, f0, dirs, canon, listing).1 by {
                    assert(agrees_canon(before, canon) && agrees_listing(before, listing));
                    lemma_probe_dirs_take(c0, f0, dirs, k + 1, canon, listing);
                    lemma_probe_dirs_asked_take(c0, f0, dirs, k + 1, canon, listing);
                    assert(keys_of(memo.canonical@) =~= kc + probe_dirs_asked(c0, f0, dirs, canon, listing).0);
                    assert(keys_of(memo.listings@) =~= kl + probe_dirs_asked(c0, f0, dirs, canon, listing).1);
                }
            }
            return r;
        }
        proof {
            assert forall|canon: spec_fn(Seq<char>) -> Seq<char>, listing: spec_fn(Seq<char>) -> Option<Seq<char>>|
                #![trigger agrees_canon(*memo, canon), agrees_listing(*memo, listing)]
                agrees_canon(*memo, canon) && agrees_listing(*memo, listing) implies keys_of(memo.canonical@) == kc
                + probe_dirs_asked(c0, f0, dirs.take(k + 1), canon, listing).0 && keys_of(memo.listings@) == kl
                + probe_dirs_asked(c0, f0, dirs.take(k + 1), canon, listing).1 by {
                assert(agrees_canon(before, canon) && agrees_listing(before, listing));
                assert(keys_of(memo.canonical@) =~= kc + probe_dirs_asked(c0, f0, dirs.take(k + 1), canon, listing).0);
                assert(keys_of(memo.listings@) =~= kl + probe_dirs_asked(c0, f0, dirs.take(k + 1), canon, listing).1);
            }
        }
        k = k + 1;
    }
    proof {
        assert(dirs.take(candidates@.len() as int) =~= dirs);
    }
    None
}


/// Sets every Workspace's identity by probing its Panes' directories (see
/// `probe_workspaces`), asking the probe for each canonical form and listing not yet
/// replied to, and recording its reply in `memo`. Nothing but the identities changes.
fn enrich_with<P: GitProbe>(topology: &mut OpenTopology, probe: Option<&P>, memo: &mut ProbeReplies)
    ensures
        final(topology).workspaces@.len() == old(topology).workspaces@.len(),
        forall|i: int|
            0 <= i < old(topology).workspaces@.len() ==> (#[trigger] final(topology).workspaces@[i])@ == (
            WorkspaceModel { git: final(topology).workspaces@[i]@.git, ..old(topology).workspaces@[i]@ }),
        replies_grow(*old(memo), *final(memo)),
        probe is None ==> defaults_added(*old(memo), *final(memo)),
        replies_once(*old(memo)) ==> replies_once(*final(memo)),
        forall|canon: spec_fn(Seq<char>) -> Seq<char>, listing: spec_fn(Seq<char>) -> Option<Seq<char>>|
            #![trigger agrees_canon(*final(memo), canon), agrees_listing(*final(memo), listing)]
            agrees_canon(*final(memo), canon) && agrees_listing(*final(memo), listing) ==> gits_of(
                final(topology).workspaces@,
            ) == enriched_gits(workspace_models(old(topology).workspaces@), canon, listing) && keys_of(
                final(memo).canonical@,
            ) == keys_of(old(memo).canonical@) + probe_workspaces_asked(
                workspace_models(old(topology).workspaces@),
                canon,
                listing,
            ).0 && keys_of(final(memo).listings@) == keys_of(old(memo).listings@) + probe_workspaces_asked(
                workspace_models(old(topology).workspaces@),
                canon,
                listing,
            ).1,
{
    let ghost orig = topology.workspaces@;
    let ghost views = workspace_models(orig);
    let ghost m0 = *memo;
    let ghost kc = keys_of(m0.canonical@);
    let ghost kl = keys_of(m0.listings@);
    proof {
        assert(kc + Set::<Seq<char>>::empty() =~= kc);
        assert(kl + Set::<Seq<char>>::empty() =~= kl);
        assert(m0.canonical@.take(m0.canonical@.len() as int) =~= m0.canonical@);
        assert(m0.listings@.take(m0.listings@.len() as int) =~= m0.listings@);
        assert(views.take(0) =~= Seq::<WorkspaceModel>::empty());
        assert(gits_of(topology.workspaces@.take(0)) =~= Seq::<Option<GitModel>>::empty());
        assert(cache_view(Seq::<(String, Vec<Worktree>)>::empty()) =~= Seq::<(Seq<char>, Seq<WorktreeModel>)>::empty());
    }
    let mut cache: Vec<(String, Vec<Worktree>)> = Vec::new();
    let mut failed = crate::keyset::KeySet::new();
    let mut i: usize = 0;
    while i < topology.workspaces.len()
        invariant
            i <= topology.workspaces@.len(),
            topology.workspaces@.len() == orig.len(),
            views == workspace_models(orig),
            forall|j: int| i <= j < orig.len() ==> #[trigger] topology.workspaces@[j] == orig[j],
            forall|j: int|
                0 <= j < orig.len() ==> (#[trigger] topology.workspaces@[j])@ == (WorkspaceModel {
                    git: topology.workspaces@[j]@.git,
                    ..orig[j]@
                }),
            replies_grow(m0, *memo),
            probe is None ==> defaults_added(m0, *memo),
            replies_once(m0) ==> replies_once(*memo),
            m0 == *old(memo),
            kc == keys_of(m0.canonical@),
            kl == keys_of(m0.listings@),
            forall|canon: spec_fn(Seq<char>) -> Seq<char>, listing: spec_fn(Seq<char>) -> Option<Seq<char>>|
                #![trigger agrees_canon(*memo, canon), agrees_listing(*memo, listing)]
                agrees_canon(*memo, canon) && agrees_listing(*memo, listing) ==> probe_workspaces(
                    views.take(i as int),
                    canon,
                    listing,
                ) == (cache_view(cache@), failed@, gits_of(topology.workspaces@.take(i as int))) && keys_of(
                    memo.canonical@,
                ) == kc + probe_workspaces_asked(views.take(i as int), canon, listing).0 && keys_of(memo.listings@)
                    == kl + probe_workspaces_asked(views.take(i as int), canon, listing).1,
        decreases orig.len() - i,
    {
        let candidates = probe_order(&topology.workspaces[i]);
        let ghost before = *memo;
        let ghost cb = cache_view(cache@);
        let ghost fb = failed@;
        let identity = identity_for(&candidates, probe, &mut cache, &mut failed, memo);
        proof {
            lemma_grow_trans(m0, before, *memo);
            lemma_keep(before, *memo);
        }
        let ghost mid = topology.workspaces@;
        let mut w = topology.workspaces.remove(i);
        w.git = identity;
        topology.workspaces.insert(i, w);
        proof {
            assert forall|j: int| 0 <= j < orig.len() && j != i implies topology.workspaces@[j] == mid[j] by {}
            assert(topology.workspaces@[i as int]@ == (WorkspaceModel { git: topology.workspaces@[i as int]@.git, ..orig[i as int]@ }));
            assert(topology.workspaces@[i as int]@.git == identity_view(identity));
            assert(topology.workspaces@.take(i + 1).drop_last() =~= mid.take(i as int));
            assert(gits_of(topology.workspaces@.take(i + 1)) =~= gits_of(mid.take(i as int)).push(identity_view(identity)));
            assert(views.take(i + 1).drop_last() =~= views.take(i as int));
            assert(views.take(i + 1).last() == orig[i as int]@);
            assert(mid[i as int] == orig[i as int]);
            assert forall|canon: spec_fn(Seq<char>) -> Seq<char>, listing: spec_fn(Seq<char>) -> Option<Seq<char>>|
                #![trigger agrees_canon(*memo, canon), agrees_listing(*memo, listing)]
                agrees_canon(*memo, canon) && agrees_listing(*memo, listing) implies keys_of(memo.canonical@) == kc
                + probe_workspaces_asked(views.take(i + 1), canon, listing).0 && keys_of(memo.listings@) == kl
                + probe_workspaces_asked(views.take(i + 1), canon, listing).1 by {
                assert(agrees_canon(before, canon) && agrees_listing(before, listing));
                assert(keys_of(memo.canonical@) =~= kc + probe_workspaces_asked(views.take(i + 1), canon, listing).0);
                assert(keys_of(memo.listings@) =~= kl + probe_workspaces_asked(views.take(i + 1), canon, listing).1);
            }
        }
        i = i + 1;
    }
    proof {
        assert(views.take(orig.len() as int) =~= views);
        assert(topology.workspaces@.take(orig.len() as int) =~= topology.workspaces@);
    }
}

/// Replays recorded replies: answers from the replies, a path without a recorded
/// canonical form being its own, and a directory without a recorded listing failing.
impl GitProbe for ProbeReplies {
    fn worktree_list(&self, cwd: &str) -> Result<String, String> {
        match first_index(&self.listings, cwd) {
            Some(i) => match &self.listings[i].1 {
                Some(s) => Ok(s.clone()),
                None => Err("recorded listing failed".to_owned()),
            },
            None => Err("no recorded listing".to_owned()),
        }
    }

    fn canonical_path(&self, path: &str) -> String {
        match first_index(&self.canonical, path) {
            Some(i) => self.canonical[i].1.clone(),
            None => path.to_owned(),
        }
    }
}

/// Sets every Workspace's repository identity from its Panes' directories, probed in
/// `probe_order` with `probe`: the identity of the first directory that a cached or newly
/// listed repository's worktree holds, none when no directory is (see
/// `probe_workspaces`). Each path is canonicalized and each directory listed at most once;
/// listings are shared between Workspaces, and a directory that failed is not probed
/// again. Returns the replies the probe gave, which determine the identities: one reply
/// for each path canonicalized and each directory listed, exactly those that
/// `probe_workspaces_asked` gives. Nothing else changes.
pub fn enrich_git<P: GitProbe>(topology: &mut OpenTopology, probe: &P) -> (replies: ProbeReplies)
    ensures
        final(topology).workspaces@.len() == old(topology).workspaces@.len(),
        forall|i: int|
            0 <= i < old(topology).workspaces@.len() ==> (#[trigger] final(topology).workspaces@[i])@ == (
            WorkspaceModel { git: final(topology).workspaces@[i]@.git, ..old(topology).workspaces@[i]@ }),
        gits_of(final(topology).workspaces@) == enriched_gits(
            workspace_models(old(topology).workspaces@),
            replied_canon(replies),
            replied_listing(replies),
        ),
        replies_once(replies),
        keys_of(replies.canonical@) == probe_workspaces_asked(
            workspace_models(old(topology).workspaces@),
            replied_canon(replies),
            replied_listing(replies),
        ).0,
        keys_of(replies.listings@) == probe_workspaces_asked(
            workspace_models(old(topology).workspaces@),
            replied_canon(replies),
            replied_listing(replies),
        ).1,
{
    let mut memo = ProbeReplies { canonical: Vec::new(), listings: Vec::new() };
    proof {
        assert(keys_of(memo.canonical@) =~= Set::<Seq<char>>::empty());
        assert(keys_of(memo.listings@) =~= Set::<Seq<char>>::empty());
    }
    enrich_with(topology, Some(probe), &mut memo);
    proof {
        let canon = replied_canon(memo);
        let listing = replied_listing(memo);
        assert(agrees_canon(memo, canon));
        assert(agrees_listing(memo, listing));
        let asked = probe_workspaces_asked(workspace_models(old(topology).workspaces@), canon, listing);
        assert(Set::<Seq<char>>::empty() + asked.0 =~= asked.0);
        assert(Set::<Seq<char>>::empty() + asked.1 =~= asked.1);
    }
    memo
}

/// Sets every Workspace's repository identity as `enrich_git` does, with the probe's
/// replies given as values: canonical forms and listings are looked up in `replies`.
pub fn enrich_git_with(topology: &mut OpenTopology, replies: ProbeReplies)
    ensures
        final(topology).workspaces@.len() == old(topology).workspaces@.len(),
        forall|i: int|
            0 <= i < old(topology).workspaces@.len() ==> (#[trigger] final(topology).workspaces@[i])@ == (
            WorkspaceModel { git: final(topology).workspaces@[i]@.git, ..old(topology).workspaces@[i]@ }),
        gits_of(final(topology).workspaces@) == enriched_gits(
            workspace_models(old(topology).workspaces@),
            replied_canon(replies),
            replied_listing(replies),
        ),
{
    let ghost m0 = replies;
    let mut memo = replies;
    enrich_with::<ProbeReplies>(topology, None, &mut memo);
    proof {
        let canon = replied_canon(m0);
        let listing = replied_listing(m0);
        assert forall|k: Seq<char>| #[trigger] first_value(memo.canonical@, k) is Some implies canon(k) == first_value(
            memo.canonical@,
            k,
        )->0@ by {
            if first_value(m0.canonical@, k) is Some {
                lemma_first_value_starts(m0.canonical@, memo.canonical@, k);
            }
        }
        assert forall|k: Seq<char>| #[trigger] first_value(memo.listings@, k) is Some implies listing(k)
            == crate::model::opt_view(first_value(memo.listings@, k)->0) by {
            if first_value(m0.listings@, k) is Some {
                lemma_first_value_starts(m0.listings@, memo.listings@, k);
            }
        }
        assert(agrees_canon(memo, canon));
        assert(agrees_listing(memo, listing));
    }
}


/// The paths that `t` holds replies for.
pub open spec fn keys_of<V>(t: Seq<(String, V)>) -> Set<Seq<char>> {
    Set::new(|k: Seq<char>| exists|i: int| 0 <= i < t.len() && (#[trigger] t[i]).0@ == k)
}

/// No path has two replies in `t`.
pub open spec fn keys_once<V>(t: Seq<(String, V)>) -> bool {
    forall|i: int, j: int| 0 <= i < j < t.len() ==> (#[trigger] t[i]).0@ != (#[trigger] t[j]).0@
}

/// No path has two replies of a kind.
pub open spec fn replies_once(m: ProbeReplies) -> bool {
    keys_once(m.canonical@) && keys_once(m.listings@)
}

proof fn lemma_first_value_keys<V>(t: Seq<(String, V)>, k: Seq<char>)
    ensures
        first_value(t, k) is None <==> !keys_of(t).contains(k),
    decreases t.len(),
{
    if t.len() > 0 {
        lemma_first_value_keys(t.drop_last(), k);
        if keys_of(t.drop_last()).contains(k) {
            let i = choose|i: int| 0 <= i < t.drop_last().len() && (#[trigger] t.drop_last()[i]).0@ == k;
            assert(t[i].0@ == k);
        }
        if keys_of(t).contains(k) {
            let i = choose|i: int| 0 <= i < t.len() && (#[trigger] t[i]).0@ == k;
            if i < t.len() - 1 {
                assert(t.drop_last()[i].0@ == k);
            }
        }
    }
}

proof fn lemma_keys_push<V>(t: Seq<(String, V)>, e: (String, V))
    ensures
        keys_of(t.push(e)) == keys_of(t).insert(e.0@),
        keys_once(t) && !keys_of(t).contains(e.0@) ==> keys_once(t.push(e)),
{
    let u = t.push(e);
    assert forall|k: Seq<char>| keys_of(u).contains(k) <==> keys_of(t).insert(e.0@).contains(k) by {
        if keys_of(u).contains(k) {
            let i = choose|i: int| 0 <= i < u.len() && (#[trigger] u[i]).0@ == k;
            if i < t.len() {
                assert(t[i].0@ == k);
            }
        }
        if keys_of(t).contains(k) {
            let i = choose|i: int| 0 <= i < t.len() && (#[trigger] t[i]).0@ == k;
            assert(u[i].0@ == k);
        }
        if k == e.0@ {
            assert(u[t.len() as int].0@ == k);
        }
    }
    assert(keys_of(u) =~= keys_of(t).insert(e.0@));
    if keys_once(t) && !keys_of(t).contains(e.0@) {
        assert forall|i: int, j: int| 0 <= i < j < u.len() implies (#[trigger] u[i]).0@ != (#[trigger] u[j]).0@ by {
            if j == t.len() {
                assert(u[i] == t[i]);
            } else {
                assert(u[i] == t[i] && u[j] == t[j]);
            }
        }
    }
}

/// The worktree paths of `ws`.
pub open spec fn paths_of(ws: Seq<WorktreeModel>) -> Set<Seq<char>> {
    Set::new(|p: Seq<char>| exists|k: int| 0 <= k < ws.len() && (#[trigger] ws[k]).path == p)
}

/// The worktree paths canonicalized while looking for one that holds `cwd`: each in
/// order, up to the first that holds it.
pub open spec fn scan_asked(ws: Seq<WorktreeModel>, cwd: Seq<char>, canon: spec_fn(Seq<char>) -> Seq<char>) -> Set<
    Seq<char>,
>
    decreases ws.len(),
{
    if ws.len() == 0 {
        Set::empty()
    } else {
        let a = scan_asked(ws.drop_last(), cwd, canon);
        if holds_dir(ws.drop_last(), cwd, canon) {
            a
        } else {
            a.insert(ws.last().path)
        }
    }
}

/// The paths canonicalized while looking through the cache for `cwd` (see `first_cached`).
pub open spec fn cache_asked(
    cache: Seq<(Seq<char>, Seq<WorktreeModel>)>,
    cwd: Seq<char>,
    canon: spec_fn(Seq<char>) -> Seq<char>,
) -> Set<Seq<char>>
    decreases cache.len(),
{
    if cache.len() == 0 {
        Set::empty()
    } else {
        let a = cache_asked(cache.drop_last(), cwd, canon);
        if first_cached(cache.drop_last(), cwd, canon) is Some {
            a
        } else {
            a + scan_asked(cache.last().1, cwd, canon)
        }
    }
}

/// The paths canonicalized to identify the worktree of `ws` holding `cwd` (see
/// `canonical_identity`).
pub open spec fn identity_asked(ws: Seq<WorktreeModel>, cwd: Seq<char>, canon: spec_fn(Seq<char>) -> Seq<char>) -> Set<
    Seq<char>,
> {
    if ws.len() == 0 {
        Set::empty()
    } else {
        set![cwd] + paths_of(ws) + set![joined(canon(ws[0].path), ".git"@)]
    }
}

/// What probing directory `raw` asks (see `probe_dir`): the paths canonicalized and the
/// directories listed.
pub open spec fn probe_dir_asked(
    cache: Seq<(Seq<char>, Seq<WorktreeModel>)>,
    failed: Set<Seq<char>>,
    raw: Seq<char>,
    canon: spec_fn(Seq<char>) -> Seq<char>,
    listing: spec_fn(Seq<char>) -> Option<Seq<char>>,
) -> (Set<Seq<char>>, Set<Seq<char>>) {
    let cwd = canon(raw);
    if raw.len() == 0 {
        (Set::empty(), Set::empty())
    } else if failed.contains(cwd) {
        (set![raw], Set::empty())
    } else {
        let seen = set![raw] + cache_asked(cache, cwd, canon);
        match first_cached(cache, cwd, canon) {
            Some(j) => (seen + identity_asked(cache[j].1, cwd, canon), Set::empty()),
            None => match listing(raw) {
                None => (seen, set![raw]),
                Some(text) => {
                    let ws = parsed_worktrees(text);
                    if ws.len() == 0 {
                        (seen, set![raw])
                    } else {
                        (seen + set![joined(ws[0].path, ".git"@)] + identity_asked(ws, cwd, canon), set![raw])
                    }
                },
            },
        }
    }
}

/// What probing `dirs` in order asks (see `probe_dirs`).
pub open spec fn probe_dirs_asked(
    cache: Seq<(Seq<char>, Seq<WorktreeModel>)>,
    failed: Set<Seq<char>>,
    dirs: Seq<Seq<char>>,
    canon: spec_fn(Seq<char>) -> Seq<char>,
    listing: spec_fn(Seq<char>) -> Option<Seq<char>>,
) -> (Set<Seq<char>>, Set<Seq<char>>)
    decreases dirs.len(),
{
    if dirs.len() == 0 {
        (Set::empty(), Set::empty())
    } else {
        let p = probe_dirs(cache, failed, dirs.drop_last(), canon, listing);
        let a = probe_dirs_asked(cache, failed, dirs.drop_last(), canon, listing);
        if p.2 is Some {
            a
        } else {
            let b = probe_dir_asked(p.0, p.1, dirs.last(), canon, listing);
            (a.0 + b.0, a.1 + b.1)
        }
    }
}

/// What probing every Workspace asks (see `probe_workspaces`): the paths canonicalized and
/// the directories listed.
pub open spec fn probe_workspaces_asked(
    ws: Seq<WorkspaceModel>,
    canon: spec_fn(Seq<char>) -> Seq<char>,
    listing: spec_fn(Seq<char>) -> Option<Seq<char>>,
) -> (Set<Seq<char>>, Set<Seq<char>>)
    decreases ws.len(),
{
    if ws.len() == 0 {
        (Set::empty(), Set::empty())
    } else {
        let p = probe_workspaces(ws.drop_last(), canon, listing);
        let a = probe_workspaces_asked(ws.drop_last(), canon, listing);
        let b = probe_dirs_asked(p.0, p.1, probe_candidates(ws.last()), canon, listing);
        (a.0 + b.0, a.1 + b.1)
    }
}

proof fn lemma_scan_asked_take(ws: Seq<WorktreeModel>, n: int, cwd: Seq<char>, canon: spec_fn(Seq<char>) -> Seq<char>)
    requires
        0 <= n <= ws.len(),
        holds_dir(ws.take(n), cwd, canon),
    ensures
        scan_asked(ws, cwd, canon) == scan_asked(ws.take(n), cwd, canon),
        holds_dir(ws, cwd, canon),
    decreases ws.len(),
{
    if n == ws.len() {
        assert(ws.take(n) =~= ws);
    } else {
        assert(ws.drop_last().take(n) =~= ws.take(n));
        lemma_scan_asked_take(ws.drop_last(), n, cwd, canon);
        let k = choose|k: int| 0 <= k < ws.drop_last().len() && is_path_prefix(cwd, canon(#[trigger] ws.drop_last()[k].path));
        assert(ws[k] == ws.drop_last()[k]);
    }
}

proof fn lemma_cache_asked_take(
    s: Seq<(Seq<char>, Seq<WorktreeModel>)>,
    n: int,
    cwd: Seq<char>,
    canon: spec_fn(Seq<char>) -> Seq<char>,
)
    requires
        0 <= n <= s.len(),
        first_cached(s.take(n), cwd, canon) is Some,
    ensures
        cache_asked(s, cwd, canon) == cache_asked(s.take(n), cwd, canon),
    decreases s.len(),
{
    if n == s.len() {
        assert(s.take(n) =~= s);
    } else {
        assert(s.drop_last().take(n) =~= s.take(n));
        lemma_cache_asked_take(s.drop_last(), n, cwd, canon);
        lemma_first_cached_take(s.drop_last(), n, cwd, canon);
    }
}

proof fn lemma_probe_dirs_asked_take(
    cache: Seq<(Seq<char>, Seq<WorktreeModel>)>,
    failed: Set<Seq<char>>,
    dirs: Seq<Seq<char>>,
    n: int,
    canon: spec_fn(Seq<char>) -> Seq<char>,
    listing: spec_fn(Seq<char>) -> Option<Seq<char>>,
)
    requires
        0 <= n <= dirs.len(),
        probe_dirs(cache, failed, dirs.take(n), canon, listing).2 is Some,
    ensures
        probe_dirs_asked(cache, failed, dirs, canon, listing) == probe_dirs_asked(cache, failed, dirs.take(n), canon, listing),
    decreases dirs.len(),
{
    if n == dirs.len() {
        assert(dirs.take(n) =~= dirs);
    } else {
        assert(dirs.drop_last().take(n) =~= dirs.take(n));
        lemma_probe_dirs_asked_take(cache, failed, dirs.drop_last(), n, canon, listing);
        lemma_probe_dirs_take(cache, failed, dirs.drop_last(), n, canon, listing);
    }
}

} // verus!
