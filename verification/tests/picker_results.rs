use helm_herdr::actions::{focused_workspace_id, workspace_label};
use helm_herdr::app::App;
use helm_herdr::config::Config;
use helm_herdr::json::Json;
use helm_herdr::model::{Entry, EntryAction, Project, Source, WorkspaceKind, WorkspaceRef};
use helm_herdr::pins::{decode_previous_workspace, pin_key, JumpBackState};
use helm_herdr::topology::{OpenTopology, PaneNode, TabNode, TopologyDepth, WorkspaceNode};
use helm_herdr::topology_entries::query_entries;

fn entry(source: Source, path: &str, title: &str) -> Entry {
    Entry {
        source,
        title: title.into(),
        subtitle: String::new(),
        path: path.into(),
        workspace_id: None,
        workspace_label: None,
        agent_target: None,
        project: None,
        action: EntryAction::FocusOrCreateDir,
        source_label: None,
        search_terms: vec![],
    }
}

fn workspace(id: &str, label: &str, kind: WorkspaceKind, path: &str) -> WorkspaceRef {
    WorkspaceRef {
        id: id.into(),
        label: label.into(),
        kind,
        path: path.into(),
        tab_count: 1,
        pane_count: 1,
    }
}

fn tmp_project() -> Entry {
    let mut project = entry(Source::Project, "/tmp", "tmp");
    project.project = Some(Project {
        name: "tmp".into(),
        description: String::new(),
        working_dir: "/tmp".into(),
        tabs: vec![],
    });
    project
}

fn obj(members: Vec<(&str, Json)>) -> Json {
    Json::Object(members.into_iter().map(|(k, v)| (k.to_string(), v)).collect())
}

/// The persisted jump-back state as the app writes it: a JSON object with the session
/// and the Workspace.
fn encode_jump_back(session: &str, workspace_id: &str) -> String {
    let mut map = serde_json::Map::new();
    map.insert("session".to_string(), serde_json::Value::String(session.to_string()));
    map.insert(
        "workspace_id".to_string(),
        serde_json::Value::String(workspace_id.to_string()),
    );
    serde_json::to_string(&serde_json::Value::Object(map)).unwrap()
}

/// A persisted value read back as a jump-back state, when it is one.
fn parse_jump_back(value: &str) -> Option<JumpBackState> {
    let parsed: serde_json::Value = serde_json::from_str(value.trim()).ok()?;
    Some(JumpBackState {
        session: parsed.get("session")?.as_str()?.to_string(),
        workspace_id: parsed.get("workspace_id")?.as_str()?.to_string(),
    })
}

#[test]
fn initial_topology_selection_starts_at_workspace_depth() {
    let mut app = App::new(Config::default());
    app.topology = OpenTopology {
        workspaces: vec![
            WorkspaceNode {
                id: "w1".into(),
                label: "web-ui".into(),
                session: Some("dev".into()),
                focused: true,
                tabs: vec![
                    TabNode {
                        id: "t1".into(),
                        label: "Code".into(),
                        focused: false,
                        panes: vec![],
                    },
                    TabNode {
                        id: "t2".into(),
                        label: "Edit".into(),
                        focused: true,
                        panes: vec![],
                    },
                ],
                git: None,
            },
            WorkspaceNode {
                id: "w2".into(),
                label: "api".into(),
                session: Some("dev".into()),
                focused: false,
                tabs: vec![],
                git: None,
            },
        ],
    };

    app.sync_topology_cursor();

    assert_eq!(app.topology_cursor.depth, TopologyDepth::Workspace);
    assert_eq!(app.topology_cursor.selection[0].tab, 1);
    app.topology_move_vertical(1);
    assert_eq!(app.topology_cursor.workspace, 1);
}

#[test]
fn first_query_character_projects_flat_direct_destinations() {
    let mut app = App::new(Config::default());
    app.topology = OpenTopology {
        workspaces: vec![WorkspaceNode {
            id: "w1".into(),
            label: "web-ui".into(),
            session: Some("dev".into()),
            focused: true,
            tabs: vec![TabNode {
                id: "t1".into(),
                label: "Code".into(),
                focused: true,
                panes: vec![PaneNode {
                    id: "p1".into(),
                    label: "Shell".into(),
                    cwd: "/repo".into(),
                    focused: true,
                    title: None,
                    agent: None,
                }],
            }],
            git: None,
        }],
    };
    app.topology_entries = query_entries(&app.topology, false);
    app.entries = app.topology_entries.clone();
    app.query = "s".into();
    app.apply_filter();

    assert!(!app.topology_view());
    let selected = app.selected_entry().expect("flat result");
    assert_eq!(selected.source_name(), "pane");
    assert!(matches!(selected.action, EntryAction::FocusPane { .. }));
}

#[test]
fn exact_agent_token_is_a_trait_predicate_and_agents_is_plain_text() {
    let mut app = App::new(Config::default());
    let mut agent = entry(Source::Agent, "/tmp", "Codex");
    agent.agent_target = Some("p1".into());
    let tab = entry(Source::Workspace, "/tmp", "Agents");
    app.entries = vec![agent, tab];

    app.query = "agent".into();
    app.apply_filter();
    assert_eq!(app.filtered.len(), 1);
    assert_eq!(app.selected_entry().unwrap().title, "Codex");

    app.query = "agents".into();
    app.apply_filter();
    assert_eq!(app.selected_entry().unwrap().title, "Agents");
}

#[test]
fn marked_flat_destinations_use_bookmark_source_without_duplicates() {
    let mut app = App::new(Config::default());
    app.entries = vec![entry(Source::Root, "/tmp/project", "Project")];
    let key = pin_key(&app.entries[0]);
    app.pinned_entries.insert(key);
    app.apply_filter();

    assert_eq!(app.filtered.len(), 1);
    assert_eq!(app.selected_entry().unwrap().source_name(), "bookmark");
}

#[test]
fn previous_workspace_is_pinned_only_on_initial_unfiltered_view() {
    let mut app = App::new(Config::default());
    let mut alpha = entry(Source::Workspace, "/alpha", "alpha");
    alpha.workspace_id = Some("w1".into());
    alpha.action = EntryAction::FocusWorkspace {
        session: None,
        id: "w1".into(),
    };
    let mut zulu = entry(Source::Workspace, "/zulu", "zulu");
    zulu.workspace_id = Some("w2".into());
    zulu.action = EntryAction::FocusWorkspace {
        session: None,
        id: "w2".into(),
    };
    app.entries = vec![alpha, zulu];
    app.previous_workspace_id = Some("w2".into());

    app.apply_filter();
    assert_eq!(
        app.selected_entry().unwrap().workspace_id.as_deref(),
        Some("w2")
    );

    app.source_filter = Some(Source::Workspace);
    app.apply_filter();
    assert_eq!(
        app.selected_entry().unwrap().workspace_id.as_deref(),
        Some("w1")
    );

    app.source_filter = None;
    app.config.jump_back.pin_previous = false;
    app.apply_filter();
    assert_eq!(
        app.selected_entry().unwrap().workspace_id.as_deref(),
        Some("w1")
    );
}

#[test]
fn equal_score_ties_preserve_insertion_order() {
    let mut app = App::new(Config::default());
    app.entries = vec![
        entry(Source::Zoxide, "/zulu", "zulu"),
        entry(Source::Zoxide, "/alpha", "alpha"),
    ];

    app.apply_filter();

    assert_eq!(app.selected_entry().unwrap().title, "zulu");
}

#[test]
fn pinned_entries_sort_first_and_persist() {
    let mut app = App::new(Config::default());
    app.entries = vec![
        entry(Source::Root, "/alpha", "alpha"),
        entry(Source::Root, "/zulu", "zulu"),
    ];
    let key = pin_key(&app.entries[1]);
    app.pinned_entries.insert(key);

    app.apply_filter();

    assert_eq!(app.selected_entry().unwrap().title, "zulu");
}

#[test]
fn previous_workspace_sorts_before_marked_entries() {
    let mut app = App::new(Config::default());
    let marked = entry(Source::Root, "/marked", "marked");
    let mut previous = entry(Source::Workspace, "/previous", "previous");
    previous.workspace_id = Some("w2".into());
    previous.action = EntryAction::FocusWorkspace {
        session: None,
        id: "w2".into(),
    };
    app.entries = vec![marked, previous];
    let key = pin_key(&app.entries[0]);
    app.pinned_entries.insert(key);
    app.previous_workspace_id = Some("w2".into());

    app.apply_filter();

    assert_eq!(
        app.selected_entry().unwrap().workspace_id.as_deref(),
        Some("w2")
    );
}

#[test]
fn source_specific_reuse_distinguishes_same_path_workspaces() {
    let mut app = App::new(Config::default());
    let project = tmp_project();
    let dir = entry(Source::Zoxide, "/tmp", "tmp");
    app.path_to_workspaces.insert(
        project.key(),
        vec![
            workspace("w1", "project: tmp", WorkspaceKind::Project, "/tmp"),
            workspace("w2", "dir: tmp", WorkspaceKind::Dir, "/tmp"),
        ],
    );

    assert_eq!(app.matching_project_workspace(&project).unwrap().id, "w1");
    assert_eq!(app.matching_dir_workspace(&dir).unwrap().id, "w2");
}

#[test]
fn plain_workspace_is_shared_by_project_and_directory_entries() {
    let mut app = App::new(Config::default());
    let project = tmp_project();
    let dir = entry(Source::Zoxide, "/tmp", "tmp");
    app.path_to_workspaces.insert(
        project.key(),
        vec![workspace("w1", "tmp", WorkspaceKind::Unknown, "/tmp")],
    );

    assert_eq!(app.matching_project_workspace(&project).unwrap().id, "w1");
    assert_eq!(app.matching_dir_workspace(&dir).unwrap().id, "w1");
    assert_eq!(app.workspace_to_close(&project), Some("w1".into()));
    assert_eq!(app.workspace_to_close(&dir), Some("w1".into()));
}

#[test]
fn offers_directory_template_for_new_and_existing_directory_workspaces() {
    let mut config = Config::default();
    config.picker.directory_template = Some("default.toml".into());
    let mut app = App::new(config);
    app.entries = vec![entry(Source::Zoxide, "/tmp", "tmp")];
    app.apply_filter();

    assert_eq!(app.directory_template_for_selected().as_deref(), Some("default.toml"));

    app.path_to_workspaces.insert(
        "/tmp".into(),
        vec![workspace("w2", "dir: tmp", WorkspaceKind::Dir, "/tmp")],
    );
    assert_eq!(app.directory_template_for_selected().as_deref(), Some("default.toml"));

    app.config.picker.create_missing = false;
    assert_eq!(app.directory_template_for_selected().as_deref(), Some("default.toml"));

    app.path_to_workspaces.insert(
        "/tmp".into(),
        vec![workspace(
            "w1",
            "project: tmp",
            WorkspaceKind::Project,
            "/tmp",
        )],
    );
    assert!(app.matching_template_workspace_by_key("/tmp").is_none());
}

#[test]
fn close_target_matches_entry_kind() {
    let mut app = App::new(Config::default());
    let project = tmp_project();
    let dir = entry(Source::Root, "/tmp", "tmp");
    app.path_to_workspaces.insert(
        project.key(),
        vec![
            workspace("w1", "project: tmp", WorkspaceKind::Project, "/tmp"),
            workspace("w2", "dir: tmp", WorkspaceKind::Dir, "/tmp"),
        ],
    );

    assert_eq!(app.workspace_to_close(&project), Some("w1".into()));
    assert_eq!(app.workspace_to_close(&dir), Some("w2".into()));
}

#[test]
fn jump_back_state_rejects_cross_session_id_collisions() {
    let encoded = encode_jump_back("work", "same-id");
    let parsed = parse_jump_back(&encoded);
    assert!(parsed.is_some());
    assert!(decode_previous_workspace(&encoded, parsed, "personal", false).is_err());
    assert!(decode_previous_workspace("same-id", None, "personal", false).is_err());
    assert_eq!(
        decode_previous_workspace("legacy-w1", None, "default", true).unwrap(),
        "legacy-w1"
    );
}

#[test]
fn jump_back_state_round_trips_only_in_the_same_session() {
    let encoded = encode_jump_back("work", "w1");
    let parsed = parse_jump_back(&encoded);
    assert_eq!(
        decode_previous_workspace(&encoded, parsed, "work", false).unwrap(),
        "w1"
    );
    assert!(parse_jump_back("w1").is_none());
}

#[test]
fn jump_back_resolves_focused_and_previous_workspaces() {
    let json = obj(vec![(
        "result",
        obj(vec![(
            "workspaces",
            Json::Array(vec![
                obj(vec![
                    ("workspace_id", Json::Str("w1".into())),
                    ("label", Json::Str("one".into())),
                    ("focused", Json::Bool(false)),
                ]),
                obj(vec![
                    ("workspace_id", Json::Str("w2".into())),
                    ("label", Json::Str("two".into())),
                    ("focused", Json::Bool(true)),
                ]),
            ]),
        )]),
    )]);

    assert_eq!(focused_workspace_id(&json), Some("w2"));
    assert_eq!(workspace_label(&json, "w1"), Some("one"));
    assert_eq!(workspace_label(&json, "missing"), None);
}
