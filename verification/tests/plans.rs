use helm_herdr::actions::{open_plan, plan_jump_back, JumpBackStep, OpenStep, ReuseStep};
use helm_herdr::app::App;
use helm_herdr::config::Config;
use helm_herdr::json::Json;
use helm_herdr::model::{Entry, EntryAction, Source, WorkspaceKind, WorkspaceRef};

fn workspace_entry(id: &str, title: &str) -> Entry {
    Entry {
        source: Source::Workspace,
        title: title.into(),
        subtitle: String::new(),
        path: format!("/tmp/{title}"),
        workspace_id: Some(id.into()),
        workspace_label: Some(title.into()),
        agent_target: None,
        project: None,
        action: EntryAction::FocusWorkspace {
            session: None,
            id: id.into(),
        },
        source_label: None,
        search_terms: vec![],
    }
}

fn dir_entry(path: &str) -> Entry {
    Entry {
        source: Source::Zoxide,
        title: "tmp".into(),
        subtitle: String::new(),
        path: path.into(),
        workspace_id: None,
        workspace_label: None,
        agent_target: None,
        project: None,
        action: EntryAction::FocusOrCreateDir,
        source_label: None,
        search_terms: vec![],
    }
}

fn listed(focused: &str, others: &[(&str, &str)]) -> Json {
    let mut workspaces = vec![Json::Object(vec![
        ("workspace_id".to_string(), Json::Str(focused.into())),
        ("label".to_string(), Json::Str("current".into())),
        ("focused".to_string(), Json::Bool(true)),
    ])];
    for (id, label) in others {
        workspaces.push(Json::Object(vec![
            ("workspace_id".to_string(), Json::Str(id.to_string())),
            ("label".to_string(), Json::Str(label.to_string())),
            ("focused".to_string(), Json::Bool(false)),
        ]));
    }
    Json::Object(vec![(
        "result".to_string(),
        Json::Object(vec![("workspaces".to_string(), Json::Array(workspaces))]),
    )])
}

fn selected(entry: Entry) -> App {
    let mut app = App::new(Config::default());
    app.entries = vec![entry];
    app.filtered = vec![0];
    app.filtered_scores = vec![0];
    app.selected = 0;
    app.query = "x".into();
    app
}

#[test]
fn closing_focuses_the_launching_workspace_first() {
    let mut app = selected(workspace_entry("w1", "one"));
    app.previous_workspace_id = Some("w0".into());
    let plan = app.plan_close(Some("w9")).unwrap();
    assert_eq!(plan.id, "w1");
    assert_eq!(plan.title, "one");
    assert_eq!(plan.focus_first.as_deref(), Some("w9"));

    let plan = app.plan_close(None).unwrap();
    assert_eq!(plan.focus_first, None);
}

#[test]
fn closing_the_workspace_that_owns_the_picker_is_refused() {
    let mut app = selected(workspace_entry("w1", "one"));
    app.previous_workspace_id = Some("w0".into());
    assert_eq!(
        app.plan_close(Some("w1")).unwrap_err(),
        "refusing to close the workspace that owns the picker; switch away first"
    );
    app.previous_workspace_id = None;
    assert!(app.plan_close(Some("w1")).is_err());
}

#[test]
fn closing_needs_a_selection_and_an_open_workspace() {
    let mut app = selected(dir_entry("/nowhere"));
    assert_eq!(
        app.plan_close(None).unwrap_err(),
        "no open workspace for selected item"
    );
    app.filtered.clear();
    assert_eq!(app.plan_close(None).unwrap_err(), "nothing selected");
}

#[test]
fn jump_back_goes_to_the_listed_previous_workspace() {
    let list = listed("w1", &[("w2", "two")]);
    match plan_jump_back(true, &list, Ok("w2".into())) {
        JumpBackStep::Go { previous, label } => {
            assert_eq!(previous, "w2");
            assert_eq!(label, "two");
        }
        other => panic!("unexpected {other:?}"),
    }
    assert!(matches!(
        plan_jump_back(true, &list, Ok("w1".into())),
        JumpBackStep::Refuse(ref m) if m == "no previous workspace yet"
    ));
    assert!(matches!(
        plan_jump_back(true, &list, Ok("gone".into())),
        JumpBackStep::Forget(ref m) if m == "previous workspace no longer exists"
    ));
    assert!(matches!(
        plan_jump_back(false, &list, Ok("w2".into())),
        JumpBackStep::Refuse(ref m) if m == "jump back is disabled in config"
    ));
    assert!(matches!(
        plan_jump_back(true, &Json::Null, Ok("w2".into())),
        JumpBackStep::Refuse(ref m) if m == "can't determine the current workspace"
    ));
    assert!(matches!(
        plan_jump_back(true, &list, Err("no previous workspace yet".into())),
        JumpBackStep::Refuse(ref m) if m == "no previous workspace yet"
    ));
}

#[test]
fn marking_twice_restores_the_marks() {
    let mut app = selected(dir_entry("/tmp/project"));
    let once = app.toggled_pins().unwrap();
    assert_eq!(once.len(), 1);
    app.pinned_entries = once;
    let twice = app.toggled_pins().unwrap();
    assert_eq!(twice.len(), 0);
    app.filtered.clear();
    assert_eq!(app.toggled_pins().unwrap_err(), "nothing selected");
}

#[test]
fn opening_plans_name_the_herdr_command() {
    let (step, success, failure) = open_plan(&EntryAction::FocusTab {
        session: None,
        id: "w1:t2".into(),
    });
    assert!(matches!(step, OpenStep::Herdr(ref args) if args == &["tab", "focus", "w1:t2"]));
    assert!(success && failure);
    let (step, success, failure) = open_plan(&EntryAction::OpenRemote {
        target: "box".into(),
    });
    assert!(matches!(step, OpenStep::OpenRemote(ref t) if t == "box"));
    assert!(!success && failure);
}

#[test]
fn directories_reuse_open_workspaces_or_create_one() {
    let mut app = selected(dir_entry("/tmp"));
    match app.plan_open_dir("/tmp", "/tmp", "tmp") {
        ReuseStep::Create(args) => assert_eq!(
            args,
            ["workspace", "create", "--cwd", "/tmp", "--label", "tmp", "--focus"]
        ),
        other => panic!("unexpected {other:?}"),
    }
    app.path_to_workspaces.insert(
        "/tmp".into(),
        vec![WorkspaceRef {
            id: "w7".into(),
            label: "dir: tmp".into(),
            kind: WorkspaceKind::Dir,
            path: "/tmp".into(),
            tab_count: 1,
            pane_count: 1,
        }],
    );
    assert!(matches!(app.plan_open_dir("/tmp", "/tmp", "tmp"), ReuseStep::Focus(ref id) if id == "w7"));
    app.config.picker.reuse_existing = false;
    app.config.picker.create_missing = false;
    assert!(matches!(
        app.plan_open_dir("/tmp", "/tmp", "tmp"),
        ReuseStep::Refuse(ref m) if m == "create_missing=false and no workspace exists"
    ));
}
