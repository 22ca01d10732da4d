use helm_herdr::model::{Entry, EntryAction, Source};
use helm_herdr::app::App;
use helm_herdr::config::Config;
use helm_herdr::repos::repository_keys;
use helm_herdr::rows::{flat_row, DetailedLayout, Tone};
use helm_herdr::topology::{GitHead, GitIdentity, OpenTopology, WorkspaceNode};

fn entry(source: Source, title: &str, path: &str) -> Entry {
    Entry {
        source,
        title: title.into(),
        subtitle: String::new(),
        path: path.into(),
        workspace_id: None,
        workspace_label: None,
        agent_target: None,
        project: None,
        action: EntryAction::FocusOrCreateDir,
        source_label: None,
        search_terms: vec![],
    }
}

const LAYOUT: DetailedLayout = DetailedLayout {
    status_width: 9,
    title_width: 24,
    right_width: 28,
};

#[test]
fn agent_rows_lead_with_their_status() {
    let mut agent = entry(Source::Agent, "builder", "/home/me/src");
    agent.search_terms.push("agent-status:blocked".into());
    let row = flat_row(&agent, LAYOUT, 97, 9, "/home/me", 0);
    assert_eq!(row.source, "agent");
    assert_eq!(row.status_text, "! blocked");
    assert_eq!(row.tone, Tone::Red);
    assert!(!row.topology);
    assert_eq!(row.title, "builder");
    assert_eq!(row.destination, "builder");
    assert_eq!(row.path, "~/src");
    assert_eq!(row.path_width, 97 - 10 - 9 - 24 - 2 - 28 - 1);
    assert_eq!(row.metadata, "");
}

#[test]
fn topology_rows_show_their_breadcrumb_across_title_and_path() {
    let mut tab = entry(Source::Workspace, "Code", "/repo");
    tab.subtitle = "repo › main › Code".into();
    tab.action = EntryAction::FocusTab {
        session: None,
        id: "w1:t1".into(),
    };
    let row = flat_row(&tab, LAYOUT, 97, 9, "/home/me", 0);
    assert!(row.topology);
    assert_eq!(row.destination, "repo › main › Code");
    assert_eq!(row.destination_width, 24 + 2 + row.path_width);
    assert_eq!(row.status_text, "");
    assert_eq!(row.tone, Tone::Green);
}

#[test]
fn metadata_is_shown_only_when_it_adds_something() {
    let mut remote = entry(Source::Server, "prod", "remote:prod-box");
    remote.subtitle = "remote Herdr · prod-box".into();
    let row = flat_row(&remote, LAYOUT, 97, 9, "/home/me", 0);
    assert_eq!(row.metadata, "remote Herdr · prod-box");

    let mut dir = entry(Source::Zoxide, "src", "/home/me/src");
    dir.subtitle = "/home/me/src".into();
    let row = flat_row(&dir, LAYOUT, 97, 9, "/home/me", 0);
    assert_eq!(row.metadata, "");

    let narrow = DetailedLayout {
        status_width: 2,
        title_width: 4,
        right_width: 0,
    };
    let row = flat_row(&remote, narrow, 20, 9, "/home/me", 0);
    assert_eq!(row.metadata, "");
    assert_eq!(row.title, "prod");
}

fn repo_workspace(id: &str, repo_key: Option<&str>) -> WorkspaceNode {
    WorkspaceNode {
        id: id.into(),
        label: id.into(),
        session: None,
        focused: false,
        tabs: vec![],
        git: repo_key.map(|key| GitIdentity {
            repo_key: key.into(),
            label: "repo".into(),
            head: GitHead::Branch("main".into()),
        }),
    }
}

#[test]
fn repository_keys_are_sorted_and_listed_once() {
    let mut app = App::new(Config::default());
    app.topology = OpenTopology {
        workspaces: vec![
            repo_workspace("w1", Some("zeta")),
            repo_workspace("w2", None),
            repo_workspace("w3", Some("alpha")),
            repo_workspace("w4", Some("zeta")),
            repo_workspace("w5", Some("Beta")),
        ],
    };
    let mut e = entry(Source::Workspace, "w", "/tmp");
    e.search_terms.push("repo-key:mid".into());
    assert_eq!(repository_keys(&app, &e), vec!["Beta", "alpha", "mid", "zeta"]);
    let plain = entry(Source::Workspace, "w", "/tmp");
    assert_eq!(repository_keys(&app, &plain), vec!["Beta", "alpha", "zeta"]);
    e.search_terms = vec!["repo-key:alpha".into()];
    assert_eq!(repository_keys(&app, &e), vec!["Beta", "alpha", "zeta"]);
}
