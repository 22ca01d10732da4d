use helm_herdr::keyset::KeySet;
use helm_herdr::model::{Entry, EntryAction, Source};
use helm_herdr::pins::{
    migrate_legacy_topology_pins, pin_key, previous_workspace_to_record, push_unique,
    recent_destination_after_indirect_success, recent_destination_for_entry,
    tracks_workspace_transition,
};
use helm_herdr::recent::RecentState;

fn entry(source: Source, path: &str, title: &str) -> Entry {
    Entry {
        source,
        title: title.into(),
        subtitle: String::new(),
        path: path.into(),
        workspace_id: None,
        workspace_label: None,
        agent_target: None,
        project: None,
        action: EntryAction::FocusOrCreateDir,
        source_label: None,
        search_terms: vec![],
    }
}

fn open_workspace(session: &str, id: &str, title: &str) -> Entry {
    Entry {
        source: Source::Workspace,
        title: title.into(),
        subtitle: format!("agent:unknown · {id} tabs:2 panes:2"),
        path: format!("/tmp/{title}"),
        workspace_id: Some(id.into()),
        workspace_label: Some(title.into()),
        agent_target: None,
        project: None,
        action: EntryAction::FocusWorkspace {
            session: Some(session.into()),
            id: id.into(),
        },
        source_label: None,
        search_terms: vec![session.into(), id.into(), title.into()],
    }
}

fn open_tab(session: &str, workspace_id: &str, id: &str, title: &str) -> Entry {
    Entry {
        source: Source::Workspace,
        title: title.into(),
        subtitle: format!("{id} · 1 panes"),
        path: format!("/tmp/{workspace_id}"),
        workspace_id: Some(workspace_id.into()),
        workspace_label: None,
        agent_target: None,
        project: None,
        action: EntryAction::FocusTab {
            session: Some(session.into()),
            id: id.into(),
        },
        source_label: None,
        search_terms: vec![session.into(), workspace_id.into(), id.into(), title.into()],
    }
}

fn sorted_keys(set: &KeySet) -> Vec<String> {
    let mut keys = set.keys().clone();
    keys.sort();
    keys
}

#[test]
fn legacy_agent_marks_migrate_to_session_qualified_pane_keys() {
    let mut pane = entry(Source::Agent, "/tmp", "Shell");
    pane.agent_target = Some("p1".into());
    pane.action = EntryAction::FocusPane {
        session: Some("dev".into()),
        id: "p1".into(),
    };
    let mut pins = KeySet::from_keys(vec!["agent:p1".to_string()]);

    assert!(migrate_legacy_topology_pins(&[pane], &mut pins));
    assert_eq!(sorted_keys(&pins), vec!["pane:dev:p1".to_string()]);
}

#[test]
fn workspace_rows_are_not_deduped_by_path() {
    let mut entries = Vec::new();
    let mut seen = KeySet::new();
    let mut first = entry(Source::Workspace, "/tmp", "project: tmp");
    first.workspace_id = Some("w1".into());
    first.action = EntryAction::FocusWorkspace {
        session: None,
        id: "w1".into(),
    };
    let mut second = entry(Source::Workspace, "/tmp", "dir: tmp");
    second.workspace_id = Some("w2".into());
    second.action = EntryAction::FocusWorkspace {
        session: None,
        id: "w2".into(),
    };
    push_unique(&mut entries, &mut seen, vec![first, second]);

    assert_eq!(entries.len(), 2);
}

#[test]
fn path_entries_deduplicate_across_sources_and_root_wins() {
    let mut entries = Vec::new();
    let mut seen = KeySet::new();
    push_unique(
        &mut entries,
        &mut seen,
        vec![
            entry(Source::Project, "/tmp/project", "project"),
            entry(Source::Root, "/tmp/project", "root"),
            entry(Source::Zoxide, "/tmp/project", "zoxide"),
        ],
    );

    assert_eq!(entries.len(), 1);
    assert_eq!(entries[0].source, Source::Root);
    assert_eq!(entries[0].title, "root");
}

#[test]
fn successful_focus_actions_resolve_workspace_destinations() {
    let workspace = open_workspace("work", "w1", "Workspace");
    assert_eq!(
        recent_destination_for_entry(&workspace, None),
        Some((Some("work".into()), "w1".into()))
    );

    let tab = open_tab("work", "w2", "w2:t1", "Tab");
    assert_eq!(
        recent_destination_for_entry(&tab, None),
        Some((Some("work".into()), "w2".into()))
    );

    let mut agent = entry(Source::Agent, "/tmp", "agent");
    agent.workspace_id = Some("w3".into());
    agent.action = EntryAction::FocusAgent {
        target: "pane-1".into(),
    };
    assert_eq!(
        recent_destination_for_entry(&agent, Some("work".into())).map(|(_, workspace_id)| workspace_id),
        Some("w3".into())
    );

    let mut pane = entry(Source::Workspace, "/tmp/pane", "Shell");
    pane.workspace_id = Some("w4".into());
    pane.action = EntryAction::FocusPane {
        session: Some("work".into()),
        id: "w4:p1".into(),
    };
    assert_eq!(
        recent_destination_for_entry(&pane, None),
        Some((Some("work".into()), "w4".into()))
    );
    assert!(tracks_workspace_transition(&pane.action));
}

#[test]
fn indirect_success_uses_resulting_workspace_and_failure_has_no_destination() {
    let action = EntryAction::OpenProject;
    let destination = recent_destination_after_indirect_success(&action, Some("w4"), None);
    assert_eq!(
        destination
            .as_ref()
            .map(|(_, workspace_id)| workspace_id.as_str()),
        Some("w4")
    );

    let destination_session = destination
        .as_ref()
        .and_then(|(session, _)| session.clone());
    let mut state = RecentState::default();
    if let Some((session, workspace_id)) = destination {
        state.record(session.as_deref(), &workspace_id);
    }
    assert_eq!(state.sessions.len(), 1);
    assert_eq!(state.recent_ids(destination_session.as_deref()), &["w4"]);
    let unchanged = state.to_parts();
    assert!(recent_destination_after_indirect_success(&action, None, None).is_none());
    assert_eq!(state.to_parts(), unchanged);
}

#[test]
fn jump_back_records_only_real_workspace_transitions() {
    assert_eq!(
        previous_workspace_to_record(Some("w1"), Some("w2")),
        Some("w1")
    );
    assert_eq!(previous_workspace_to_record(Some("w1"), Some("w1")), None);
    assert_eq!(previous_workspace_to_record(None, Some("w2")), None);
    assert_eq!(previous_workspace_to_record(Some("w1"), None), None);
}

#[test]
fn pin_keys_name_the_destination_kind() {
    let pane = Entry {
        action: EntryAction::FocusPane {
            session: Some("dev".into()),
            id: "p1".into(),
        },
        ..entry(Source::Workspace, "/tmp", "Shell")
    };
    assert_eq!(pin_key(&pane), "pane:dev:p1");
}
