use helm_herdr::herdr::socket_reply;
use helm_herdr::json::Json;

fn obj(members: Vec<(&str, Json)>) -> Json {
    Json::Object(members.into_iter().map(|(k, v)| (k.to_string(), v)).collect())
}

fn text(s: &str) -> Json {
    Json::Str(s.to_string())
}

#[test]
fn matching_success_replies_give_their_result() {
    let reply = obj(vec![
        ("id", text("req-1")),
        ("result", obj(vec![("type", text("ok"))])),
    ]);
    let result = socket_reply("req-1", &reply).unwrap();
    assert!(matches!(result, Json::Object(m) if m.len() == 1 && m[0].0 == "type"));
}

#[test]
fn api_errors_keep_their_code_and_message() {
    let reply = obj(vec![
        ("id", text("req-1")),
        ("error", obj(vec![("code", text("ui_busy")), ("message", text("busy"))])),
    ]);
    assert_eq!(
        socket_reply("req-1", &reply).unwrap_err(),
        "Herdr API error (ui_busy): busy"
    );
    let malformed = obj(vec![("id", text("req-1")), ("error", obj(vec![("code", text("x"))]))]);
    assert_eq!(
        socket_reply("req-1", &malformed).unwrap_err(),
        "malformed Herdr API error response"
    );
}

#[test]
fn replies_to_other_requests_or_without_result_are_refused() {
    let wrong = obj(vec![("id", text("wrong")), ("result", obj(vec![]))]);
    assert_eq!(
        socket_reply("req-1", &wrong).unwrap_err(),
        "Herdr response ID did not match request"
    );
    let empty = obj(vec![("id", text("req-1"))]);
    assert_eq!(
        socket_reply("req-1", &empty).unwrap_err(),
        "malformed Herdr success response"
    );
    assert_eq!(
        socket_reply("req-1", &Json::Null).unwrap_err(),
        "Herdr response ID did not match request"
    );
}
