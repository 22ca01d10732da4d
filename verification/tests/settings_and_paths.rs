use std::cell::RefCell;

use helm_herdr::directories::{directory_entry, zoxide_entries};
use helm_herdr::git::{identity_from, path_prefix, worktree_identity, GitProbe, Worktree};
use helm_herdr::herdr::herdr_agent_panel_sort;
use helm_herdr::model::{Entry, EntryAction, Source};
use helm_herdr::ranking::agent_sort;
use helm_herdr::rows::display_path;
use helm_herdr::topology::GitHead;

struct Canonical {
    asked: RefCell<Vec<String>>,
}

impl GitProbe for Canonical {
    fn worktree_list(&self, _cwd: &str) -> Result<String, String> {
        Err("unused".into())
    }

    fn canonical_path(&self, path: &str) -> String {
        self.asked.borrow_mut().push(path.to_string());
        path.trim_end_matches('/').to_string()
    }
}

fn worktree(path: &str, head: &str, branch: Option<&str>, detached: bool) -> Worktree {
    Worktree {
        path: path.into(),
        head: head.into(),
        branch: branch.map(String::from),
        detached,
    }
}

fn dir(path: &str) -> Entry {
    directory_entry(Source::Root, path)
}

#[test]
fn herdr_panel_sort_prefers_the_ui_table() {
    assert_eq!(herdr_agent_panel_sort("[ui]\nagent_panel_sort = \"priority\"\n"), "priority");
    assert_eq!(herdr_agent_panel_sort("agent_panel_sort = \"priority\"\n"), "priority");
    assert_eq!(
        herdr_agent_panel_sort("agent_panel_sort = \"spaces\"\n[ui]\nagent_panel_sort = \"priority\"\n"),
        "priority"
    );
    assert_eq!(herdr_agent_panel_sort("[ui]\nagent_panel_sort = 3\n"), "spaces");
    assert_eq!(herdr_agent_panel_sort("not toml ["), "spaces");
    assert_eq!(herdr_agent_panel_sort(""), "spaces");
}

#[test]
fn configured_agent_sort_overrides_herdr_setting() {
    assert_eq!(agent_sort("Priority", "spaces"), "priority");
    assert_eq!(agent_sort("spaces", "priority"), "spaces");
    assert_eq!(agent_sort("herdr", "priority"), "priority");
}

#[test]
fn zoxide_lines_become_directory_entries() {
    let entries = zoxide_entries("/home/me/src/helm\n\n   \n/tmp/scratch\n");
    assert_eq!(entries.len(), 2);
    assert_eq!(entries[0].source, Source::Zoxide);
    assert_eq!(entries[0].title, "helm");
    assert_eq!(entries[0].subtitle, "/home/me/src/helm");
    assert_eq!(entries[0].path, "/home/me/src/helm");
    assert!(matches!(entries[0].action, EntryAction::FocusOrCreateDir));
    assert_eq!(entries[1].title, "scratch");
    assert!(zoxide_entries("").is_empty());
}

#[test]
fn home_paths_are_shown_with_a_tilde() {
    assert_eq!(display_path(&dir("/home/me/src/helm"), "/home/me"), "~/src/helm");
    assert_eq!(display_path(&dir("/home/me"), "/home/me"), "~");
    assert_eq!(display_path(&dir("/opt/tools"), "/home/me"), "/opt/tools");
    assert_eq!(display_path(&dir("/home/meow"), "/home/me"), "/home/meow");
}

#[test]
fn path_prefix_works_by_components() {
    assert!(path_prefix("/repo/src", "/repo"));
    assert!(path_prefix("/repo", "/repo"));
    assert!(path_prefix("/repo/", "/repo"));
    assert!(!path_prefix("/repo-feature", "/repo"));
    assert!(!path_prefix("/", "/repo"));
}

#[test]
fn deepest_matching_worktree_wins_and_label_comes_from_the_primary() {
    let worktrees = [
        worktree("/work/main", "aaaaaaaaaaaa", Some("main"), false),
        worktree("/work/main/nested", "bbbbbbbbbbbb", None, false),
    ];
    let canonical: Vec<String> = worktrees.iter().map(|w| w.path.clone()).collect();
    let identity =
        identity_from(&worktrees, &canonical, "/work/main/nested/src", "/work/main/.git").unwrap();
    assert_eq!(identity.label, "main");
    assert_eq!(identity.repo_key, "/work/main/.git");
    assert!(matches!(identity.head, GitHead::Detached(ref h) if h == "bbbbbbbb"));

    let outside = identity_from(&worktrees, &canonical, "/elsewhere", "/work/main/.git");
    assert!(outside.is_none());
}

#[test]
fn worktree_identity_canonicalizes_and_keys_by_the_primary_git_dir() {
    let probe = Canonical {
        asked: RefCell::new(Vec::new()),
    };
    let worktrees = [worktree("/work/repo/", "0123456789", Some("dev"), false)];
    let (identity, replies) = worktree_identity(&worktrees, "/work/repo/src/", &probe);
    let identity = identity.unwrap();
    assert_eq!(identity.repo_key, "/work/repo/.git");
    assert_eq!(identity.label, "repo");
    assert!(matches!(identity.head, GitHead::Branch(ref b) if b == "dev"));
    assert!(probe.asked.borrow().iter().any(|p| p == "/work/repo/src/"));
    assert!(replies.canonical.iter().any(|(path, _)| path == "/work/repo/src/"));
    assert!(replies.canonical.iter().any(|(path, _)| path == "/work/repo/.git"));
    assert_eq!(replies.canonical.len(), 3);
    let (none, asked) = worktree_identity(&[], "/work/repo", &probe);
    assert!(none.is_none());
    assert!(asked.canonical.is_empty());
}
