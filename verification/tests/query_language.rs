use helm_herdr::model::{Entry, EntryAction, Source};
use helm_herdr::query::Query;

fn agent(name: &str, workspace: &str, status: &str, path: &str) -> Entry {
    Entry {
        source: Source::Agent,
        title: name.into(),
        subtitle: format!("{status} · {workspace}"),
        path: path.into(),
        workspace_id: Some("w1".into()),
        workspace_label: Some(workspace.into()),
        agent_target: Some("p1".into()),
        project: None,
        action: EntryAction::FocusAgent {
            target: "p1".into(),
        },
        source_label: None,
        search_terms: vec![format!("agent-status:{status}")],
    }
}

#[test]
fn tokens_are_filed_by_their_prefix() {
    let q = Query::parse("Helm !Builder @Dotfiles /src #idle agent");
    assert_eq!(q.plain, "helm");
    assert_eq!(q.agent, vec!["builder"]);
    assert_eq!(q.workspace_or_status, vec!["dotfiles"]);
    assert_eq!(q.path, vec!["src"]);
    assert_eq!(q.status, vec!["idle"]);
    assert!(q.agent_only);
    assert!(!q.all_agents);

    let lone = Query::parse("@");
    assert!(lone.all_agents);
    assert!(lone.plain.is_empty());
}

#[test]
fn agent_tokens_only_match_agents_with_those_traits() {
    let builder = agent("builder", "Dotfiles", "idle", "/home/me/dotfiles");
    let mut plain = builder.clone();
    plain.source = Source::Root;
    plain.agent_target = None;
    plain.action = EntryAction::FocusOrCreateDir;
    plain.search_terms.clear();

    assert!(Query::parse("!build").filters_match(&builder));
    assert!(!Query::parse("!other").filters_match(&builder));
    assert!(Query::parse("@dotfiles").filters_match(&builder));
    assert!(Query::parse("@idle").filters_match(&builder));
    assert!(Query::parse("/dotfiles").filters_match(&builder));
    assert!(!Query::parse("/elsewhere").filters_match(&builder));
    assert!(!Query::parse("!build").filters_match(&plain));
    assert!(Query::parse("/dotfiles").filters_match(&plain));
}
