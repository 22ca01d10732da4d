use helm_herdr::json::Json;
use helm_herdr::launch::{popup_request, side_pane_decision, SideDecision, SIDE_PANE_LABEL};
use helm_herdr::open_workspaces::{topology_from_json, SessionSpec};
use helm_herdr::open_workspaces::snapshot_is_usable;

fn text(s: &str) -> Json {
    Json::Str(s.to_string())
}

fn obj(members: Vec<(&str, Json)>) -> Json {
    Json::Object(members.into_iter().map(|(k, v)| (k.to_string(), v)).collect())
}

fn member<'a>(value: &'a Json, key: &str) -> Option<&'a Json> {
    match value {
        Json::Object(members) => members.iter().find(|(k, _)| k == key).map(|(_, v)| v),
        _ => None,
    }
}

fn str_member<'a>(value: &'a Json, key: &str) -> Option<&'a str> {
    match member(value, key) {
        Some(Json::Str(s)) => Some(s.as_str()),
        _ => None,
    }
}

fn pane(id: &str, ws: &str, label: Option<&str>, focused: bool) -> Json {
    let mut members = vec![
        ("pane_id", text(id)),
        ("workspace_id", text(ws)),
        ("focused", Json::Bool(focused)),
    ];
    if let Some(label) = label {
        members.push(("label", text(label)));
    }
    obj(members)
}

fn pane_list(panes: Vec<Json>) -> Json {
    obj(vec![
        ("id", text("cli:pane:list")),
        (
            "result",
            obj(vec![("type", text("pane_list")), ("panes", Json::Array(panes))]),
        ),
    ])
}

#[test]
fn popup_request_uses_validated_percentage_dimensions() {
    let request = popup_request("helm-herdr", "picker", 90, 80, "request-1");
    assert_eq!(str_member(&request, "id"), Some("request-1"));
    assert_eq!(str_member(&request, "method"), Some("plugin.pane.open"));
    let params = member(&request, "params").unwrap();
    assert_eq!(str_member(params, "plugin_id"), Some("helm-herdr"));
    assert_eq!(str_member(params, "entrypoint"), Some("picker"));
    assert_eq!(str_member(params, "placement"), Some("popup"));
    assert_eq!(str_member(params, "width"), Some("90%"));
    assert_eq!(str_member(params, "height"), Some("80%"));
    match (&request, params) {
        (Json::Object(top), Json::Object(inner)) => {
            assert_eq!(top.len(), 3);
            assert_eq!(inner.len(), 5);
        }
        _ => panic!("request and params are objects"),
    }
}

#[test]
fn side_pane_toggles_open_focus_close() {
    let no_side = pane_list(vec![pane("w1:p1", "w1", None, true)]);
    assert!(matches!(side_pane_decision(&no_side), SideDecision::Open));

    let unfocused_side = pane_list(vec![
        pane("w1:p1", "w1", None, true),
        pane("w1:p2", "w1", Some(SIDE_PANE_LABEL), false),
    ]);
    assert!(
        matches!(side_pane_decision(&unfocused_side), SideDecision::Focus(id) if id == "w1:p2")
    );

    let focused_side = pane_list(vec![
        pane("w1:p1", "w1", None, false),
        pane("w1:p2", "w1", Some(SIDE_PANE_LABEL), true),
    ]);
    assert!(
        matches!(side_pane_decision(&focused_side), SideDecision::Close(id) if id == "w1:p2")
    );

    let other_workspace = pane_list(vec![
        pane("w1:p1", "w1", None, true),
        pane("w2:p2", "w2", Some(SIDE_PANE_LABEL), false),
    ]);
    assert!(matches!(
        side_pane_decision(&other_workspace),
        SideDecision::Open
    ));

    assert!(matches!(side_pane_decision(&Json::Null), SideDecision::Open));
}

#[test]
fn snapshot_supplies_workspace_tab_and_pane_topology_in_one_read() {
    let session = SessionSpec {
        name: Some("work".into()),
    };
    let snapshot = obj(vec![(
        "result",
        obj(vec![(
            "snapshot",
            obj(vec![
                (
                    "workspaces",
                    Json::Array(vec![obj(vec![
                        ("workspace_id", text("w1")),
                        ("label", text("Project")),
                        ("focused", Json::Bool(true)),
                        ("tab_count", Json::Int(1)),
                        ("pane_count", Json::Int(1)),
                    ])]),
                ),
                (
                    "tabs",
                    Json::Array(vec![obj(vec![
                        ("workspace_id", text("w1")),
                        ("tab_id", text("w1:t1")),
                        ("label", text("Code")),
                        ("number", Json::Int(1)),
                        ("focused", Json::Bool(true)),
                        ("pane_count", Json::Int(1)),
                    ])]),
                ),
                (
                    "panes",
                    Json::Array(vec![obj(vec![
                        ("workspace_id", text("w1")),
                        ("foreground_cwd", text("/tmp/project")),
                    ])]),
                ),
            ]),
        )]),
    )]);
    assert!(snapshot_is_usable(&snapshot, true));
    assert_eq!(
        session.args("api", "snapshot"),
        vec!["--session", "work", "api", "snapshot"]
    );
    let (topology, current, _) =
        topology_from_json(&session, &snapshot, &snapshot, &snapshot, "/home/user");
    assert_eq!(topology.len(), 2);
    assert_eq!(current[0].path, "/tmp/project");
    assert_eq!(topology[1].title, "Code");
}

#[test]
fn malformed_snapshot_arrays_are_not_usable() {
    for (workspaces, tabs, panes) in [
        (Json::Null, Json::Array(vec![]), Json::Array(vec![])),
        (Json::Array(vec![]), Json::Array(vec![]), Json::Object(vec![])),
        (Json::Array(vec![]), Json::Null, Json::Array(vec![])),
    ] {
        let snapshot = obj(vec![(
            "result",
            obj(vec![(
                "snapshot",
                obj(vec![("workspaces", workspaces), ("tabs", tabs), ("panes", panes)]),
            )]),
        )]);
        assert!(!snapshot_is_usable(&snapshot, true));
    }
}
