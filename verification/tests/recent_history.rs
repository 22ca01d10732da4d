use helm_herdr::recent::{session_key, RecentState, DEFAULT_SESSION_KEY};

#[test]
fn default_session_sentinel_does_not_collide_with_named_default() {
    let mut state = RecentState::default();
    state.record(None, "default-workspace");
    state.record(Some("default"), "named-default-workspace");

    assert_eq!(state.recent_ids(None), &["default-workspace"]);
    assert_eq!(
        state.recent_ids(Some("default")),
        &["named-default-workspace"]
    );
    assert_eq!(session_key(None), DEFAULT_SESSION_KEY);
    assert_ne!(session_key(None), session_key(Some("default")));
}

#[test]
fn record_moves_to_front_and_removes_duplicates() {
    let mut state = RecentState::default();
    state.sessions.insert(
        DEFAULT_SESSION_KEY.into(),
        vec!["a".into(), "b".into(), "a".into()],
    );

    state.record(None, "a");

    assert_eq!(state.recent_ids(None), &["a", "b"]);
}

#[test]
fn normalize_prunes_stale_and_duplicate_ids_and_appends_live_api_order() {
    let mut state = RecentState::default();
    state.sessions.insert(
        DEFAULT_SESSION_KEY.into(),
        vec!["stale".into(), "b".into(), "b".into(), "a".into()],
    );
    let live: Vec<String> = vec!["a".into(), "b".into(), "c".into()];

    let normalized = state.normalize(None, &live, Some("b"));

    assert_eq!(normalized, vec!["b", "a", "c"]);
    assert_eq!(state.recent_ids(None), normalized.as_slice());
}

#[test]
fn normalize_keeps_current_first_even_when_it_was_not_recorded() {
    let mut state = RecentState::default();
    state.record(Some("work"), "a");
    let live: Vec<String> = vec!["a".into(), "b".into()];

    assert_eq!(
        state.normalize(Some("work"), &live, Some("b")),
        vec!["b", "a"]
    );
}

#[test]
fn record_keeps_sessions_apart() {
    let mut state = RecentState::default();
    state.record(Some("work"), "w1");
    state.record(Some("home"), "h1");
    state.record(Some("work"), "w2");

    assert_eq!(state.recent_ids(Some("work")), &["w2", "w1"]);
    assert_eq!(state.recent_ids(Some("home")), &["h1"]);
    assert!(state.recent_ids(None).is_empty());
}

#[test]
fn empty_session_name_uses_the_default_key() {
    assert_eq!(session_key(Some("")), DEFAULT_SESSION_KEY);
    assert_eq!(session_key(Some("work")), "work");
}

#[test]
fn persisted_parts_round_trip() {
    let mut state = RecentState::default();
    state.record(None, "default-workspace");
    state.record(Some("work"), "named-workspace");
    let (version, pairs) = state.to_parts();
    assert_eq!(version, 1);

    let restored = RecentState::from_parts(version, pairs.clone()).expect("supported version");
    assert_eq!(restored.to_parts().1.len(), pairs.len());
    assert_eq!(restored.recent_ids(None), &["default-workspace"]);
    assert_eq!(restored.recent_ids(Some("work")), &["named-workspace"]);
    assert!(RecentState::from_parts(2, pairs).is_none());
}
