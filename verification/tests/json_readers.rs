use helm_herdr::json::Json;
use helm_herdr::json_text::{herdr_output, launch_workspace_of, pins_from_text, socket_response};

#[test]
fn socket_lines_are_read_then_checked() {
    let ok = socket_response("req-1", "{\"id\":\"req-1\",\"result\":{\"type\":\"ok\"}}\n").unwrap();
    assert!(matches!(ok, Json::Object(ref m) if m.len() == 1 && m[0].0 == "type"));
    assert_eq!(
        socket_response("req-1", "{\"id\":\"req-1\",\"error\":{\"code\":\"ui_busy\",\"message\":\"busy\"}}")
            .unwrap_err(),
        "Herdr API error (ui_busy): busy"
    );
    assert!(socket_response("req-1", "not json\n")
        .unwrap_err()
        .starts_with("malformed Herdr response"));
    assert_eq!(
        socket_response("req-1", "{\"id\":\"other\",\"result\":1}").unwrap_err(),
        "Herdr response ID did not match request"
    );
    assert_eq!(
        socket_response("req-1", "{\"id\":\"req-1\"}").unwrap_err(),
        "malformed Herdr success response"
    );
}

#[test]
fn command_output_is_stderr_on_failure_and_json_otherwise() {
    assert_eq!(
        herdr_output(false, b"{}", "no such session".to_string()).unwrap_err(),
        "no such session"
    );
    let value = herdr_output(true, b"{\"result\":[1,2,true,null,\"x\",1.5]}", String::new()).unwrap();
    match value {
        Json::Object(members) => {
            assert_eq!(members[0].0, "result");
            assert!(matches!(
                &members[0].1,
                Json::Array(items) if matches!(items.as_slice(),
                    [Json::Int(1), Json::Int(2), Json::Bool(true), Json::Null, Json::Str(_), Json::Number])
            ));
        }
        _ => panic!("expected an object"),
    }
    assert!(herdr_output(true, b"{", String::new()).is_err());
}

#[test]
fn plugin_context_names_a_non_empty_workspace() {
    assert_eq!(
        launch_workspace_of("{\"workspace_id\":\"w7\",\"pane_id\":\"p1\"}").as_deref(),
        Some("w7")
    );
    assert_eq!(launch_workspace_of("{\"workspace_id\":\"\"}"), None);
    assert_eq!(launch_workspace_of("{\"workspace_id\":3}"), None);
    assert_eq!(launch_workspace_of("not json"), None);
}

#[test]
fn stored_marks_are_a_json_list_of_strings() {
    let pins = pins_from_text("[\"pane:s:p1\", \"dir:/tmp\", \"pane:s:p1\"]").unwrap();
    assert!(pins.contains("pane:s:p1") && pins.contains("dir:/tmp"));
    assert_eq!(pins.len(), 2);
    assert_eq!(pins.sorted_keys(), vec!["dir:/tmp".to_string(), "pane:s:p1".to_string()]);
    assert!(pins_from_text("{}")
        .unwrap_err()
        .starts_with("failed to parse pinned entries: "));
}
