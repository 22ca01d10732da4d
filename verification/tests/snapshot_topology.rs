use std::cell::RefCell;
use std::collections::HashMap;

use helm_herdr::config::AgentAliasConfig;
use helm_herdr::git::{enrich_git, enrich_git_with, parse_worktrees, GitProbe, ProbeReplies};
use helm_herdr::json::Json;
use helm_herdr::model::EntryAction;
use helm_herdr::render::render_workspace_block;
use helm_herdr::snapshot::{parse_snapshot, topology_from_snapshot, topology_from_values};
use helm_herdr::topology::{AgentState, GitHead};
use helm_herdr::topology_entries::query_entries;

fn convert(value: &serde_json::Value) -> Json {
    match value {
        serde_json::Value::Null => Json::Null,
        serde_json::Value::Bool(b) => Json::Bool(*b),
        serde_json::Value::Number(n) => match n.as_i64() {
            Some(i) => Json::Int(i),
            None => Json::Number,
        },
        serde_json::Value::String(s) => Json::Str(s.clone()),
        serde_json::Value::Array(items) => Json::Array(items.iter().map(convert).collect()),
        serde_json::Value::Object(members) => Json::Object(
            members
                .iter()
                .map(|(k, v)| (k.clone(), convert(v)))
                .collect(),
        ),
    }
}

fn json(text: &str) -> Json {
    convert(&serde_json::from_str::<serde_json::Value>(text).expect("test JSON"))
}

fn snapshot(workspaces: &str, tabs: &str, panes: &str, agents: &str) -> Json {
    json(&format!(
        r#"{{"result":{{"snapshot":{{"workspaces":{workspaces},"tabs":{tabs},"panes":{panes},"agents":{agents}}}}}}}"#
    ))
}

struct FakeGit {
    porcelain: String,
    calls: RefCell<Vec<String>>,
}

impl GitProbe for FakeGit {
    fn worktree_list(&self, cwd: &str) -> Result<String, String> {
        self.calls.borrow_mut().push(cwd.to_string());
        Ok(self.porcelain.clone())
    }

    fn canonical_path(&self, path: &str) -> String {
        path.to_string()
    }
}

struct MappingGit {
    responses: HashMap<String, Result<String, String>>,
    calls: RefCell<Vec<String>>,
}

impl GitProbe for MappingGit {
    fn worktree_list(&self, cwd: &str) -> Result<String, String> {
        self.calls.borrow_mut().push(cwd.to_string());
        self.responses
            .get(cwd)
            .cloned()
            .unwrap_or_else(|| Err("not configured".into()))
    }

    fn canonical_path(&self, path: &str) -> String {
        path.to_string()
    }
}

#[test]
fn fixture_snapshot_renders_four_line_workspace_block() {
    let snapshot = json(
        r#"{"result": {"snapshot": {
            "workspaces": [{"workspace_id":"w1","label":"web-ui","focused":true}],
            "tabs": [{"workspace_id":"w1","tab_id":"w1:t1","label":"Code","focused":true}],
            "panes": [{"workspace_id":"w1","tab_id":"w1:t1","pane_id":"w1:p1","label":"Shell","cwd":"/tmp/web-ui","focused":true}],
            "agents": []
        }}}"#,
    );
    let topology = parse_snapshot(&snapshot, None, &[]);
    let rendered = render_workspace_block(&topology.workspaces[0], 120);
    let lines = rendered.lines().collect::<Vec<_>>();
    assert_eq!(lines.len(), 4);
    assert!(lines[0].contains("web-ui"));
    assert!(lines[1].contains("tabs"));
    assert!(lines[2].contains("panes"));
    assert!(lines[3].contains("pane"));
    assert!(lines
        .iter()
        .all(|line| !line.contains('├') && !line.contains('└')));
    assert_eq!(topology.workspaces[0].id, "w1");
    assert_eq!(topology.workspaces[0].tabs[0].panes[0].id, "w1:p1");
}

#[test]
fn pane_fields_win_over_agent_join_and_agent_only_fields_fill_gaps() {
    let value = snapshot(
        r#"[{"workspace_id":"w1","label":"Project"}]"#,
        r#"[{"workspace_id":"w1","tab_id":"t1","label":"Code"}]"#,
        r#"[
            {"workspace_id":"w1","tab_id":"t1","pane_id":"p1","label":"Shell","cwd":"/shell","terminal_title":"embedded","agent":{"name":"embedded","state":"done"}},
            {"workspace_id":"w1","tab_id":"t1","pane_id":"p2"}
        ]"#,
        r#"[
            {"pane_id":"p1","agent":"external","agent_status":"blocked","cwd":"/external","title":"external"},
            {"pane_id":"p2","agent":"helper","agent_status":"working","cwd":"/agent","title":"\u001b]0;Helper\u0007"}
        ]"#,
    );
    let topology = parse_snapshot(&value, Some("work".into()), &[]);
    let panes = &topology.workspaces[0].tabs[0].panes;
    assert_eq!(panes[0].cwd, "/shell");
    assert_eq!(panes[0].title.as_deref(), Some("embedded"));
    assert_eq!(panes[0].agent.as_ref().unwrap().name, "embedded");
    assert_eq!(panes[0].agent.as_ref().unwrap().state, AgentState::Done);
    assert_eq!(panes[1].cwd, "/agent");
    assert_eq!(panes[1].title.as_deref(), Some("Helper"));
    assert_eq!(panes[1].agent.as_ref().unwrap().state, AgentState::Working);
}

#[test]
fn aliases_use_first_matching_alias_and_all_states_have_ordered_aggregate() {
    let aliases = [
        AgentAliasConfig {
            alias: "first".into(),
            agent: Some("helper".into()),
            workspace: None,
            path: None,
        },
        AgentAliasConfig {
            alias: "second".into(),
            agent: Some("helper".into()),
            workspace: None,
            path: None,
        },
    ];
    let value = snapshot(
        r#"[{"workspace_id":"w1","label":"Project"}]"#,
        r#"[{"workspace_id":"w1","tab_id":"t1","label":"Code","focused":true}]"#,
        r#"[
            {"workspace_id":"w1","tab_id":"t1","pane_id":"blocked","label":"B","agent":"helper","agent_status":"blocked"},
            {"workspace_id":"w1","tab_id":"t1","pane_id":"done","label":"D","agent":"helper","agent_status":"done"},
            {"workspace_id":"w1","tab_id":"t1","pane_id":"working","label":"W","agent":"helper","agent_status":"working"},
            {"workspace_id":"w1","tab_id":"t1","pane_id":"idle","label":"I","agent":"helper","agent_status":"idle"}
        ]"#,
        "[]",
    );
    let topology = parse_snapshot(&value, None, &aliases);
    let workspace = &topology.workspaces[0];
    assert_eq!(
        workspace.tabs[0].panes[0]
            .agent
            .as_ref()
            .unwrap()
            .alias
            .as_deref(),
        Some("first")
    );
    assert!(render_workspace_block(workspace, 120)
        .contains("1 blocked · 1 done · 1 working · 1 idle"));
}

#[test]
fn embedded_agent_fields_are_completed_by_exact_pane_join() {
    let value = snapshot(
        r#"[{"workspace_id":"w1","label":"Project"}]"#,
        r#"[{"workspace_id":"w1","tab_id":"t1","label":"Code"}]"#,
        r#"[{"workspace_id":"w1","tab_id":"t1","pane_id":"p1","agent":{"state":"working"}}]"#,
        r#"[{"pane_id":"p1","agent":"helper","agent_status":"done"}]"#,
    );
    let topology = parse_snapshot(&value, None, &[]);
    let pane = &topology.workspaces[0].tabs[0].panes[0];
    assert_eq!(pane.agent.as_ref().unwrap().name, "helper");
    assert_eq!(pane.agent.as_ref().unwrap().state, AgentState::Working);
}

#[test]
fn embedded_nested_agent_object_retains_agent_metadata() {
    let value = snapshot(
        r#"[{"workspace_id":"w1","label":"Project"}]"#,
        r#"[{"workspace_id":"w1","tab_id":"t1","label":"Code"}]"#,
        r#"[{"workspace_id":"w1","tab_id":"t1","pane_id":"p1","agent":{"agent":{"name":"nested"}}}]"#,
        "[]",
    );
    let topology = parse_snapshot(&value, None, &[]);
    let pane = &topology.workspaces[0].tabs[0].panes[0];
    assert_eq!(pane.agent.as_ref().unwrap().name, "nested");
}

#[test]
fn unknown_agents_are_rendered_only_when_all_detected_agents_are_unknown() {
    let value = snapshot(
        r#"[{"workspace_id":"w1","label":"Project"}]"#,
        r#"[{"workspace_id":"w1","tab_id":"t1","label":"Code"}]"#,
        r#"[{"workspace_id":"w1","tab_id":"t1","pane_id":"p1","agent":"helper","label":"Agent"}]"#,
        "[]",
    );
    let topology = parse_snapshot(&value, None, &[]);
    let workspace = &topology.workspaces[0];
    assert_eq!(
        workspace.tabs[0].panes[0].agent.as_ref().unwrap().state,
        AgentState::Unknown
    );
    assert!(render_workspace_block(workspace, 120).contains("1 unknown"));
    assert_eq!(AgentState::parse("blocked"), AgentState::Blocked);
    assert_eq!(AgentState::parse("working"), AgentState::Working);
    assert_eq!(AgentState::parse("done"), AgentState::Done);
    assert_eq!(AgentState::parse("idle"), AgentState::Idle);
    assert_eq!(AgentState::parse("unknown"), AgentState::Unknown);
}

#[test]
fn external_empty_terminal_title_is_ordinary_missing_title() {
    let value = snapshot(
        r#"[{"workspace_id":"w1","label":"Project"}]"#,
        r#"[{"workspace_id":"w1","tab_id":"t1","label":"Code"}]"#,
        r#"[{"workspace_id":"w1","tab_id":"t1","pane_id":"p1"}]"#,
        r#"[{"pane_id":"p1","agent":"helper","title":"\u001b]0;\u0007"}]"#,
    );
    let topology = parse_snapshot(&value, None, &[]);
    let pane = &topology.workspaces[0].tabs[0].panes[0];
    assert_eq!(pane.title, None);
}

#[test]
fn malformed_snapshot_falls_back_and_disabled_agents_skip_collection() {
    let malformed = json(r#"{"result":{"snapshot":{"workspaces":[],"tabs":[],"panes":[]}}}"#);
    assert!(topology_from_snapshot(Some(&malformed), None, &[], true).is_none());
    let topology = topology_from_values(
        &json(r#"{"result":{"workspaces":[{"workspace_id":"w1"}]}}"#),
        &json(r#"{"result":{"tabs":[]}}"#),
        &json(r#"{"result":{"panes":[]}}"#),
        &json(r#"{"result":{"agents":[]}}"#),
        None,
        &[],
    );
    assert_eq!(topology.workspaces[0].id, "w1");

    let with_agent = snapshot(
        r#"[{"workspace_id":"w1","label":"Project"}]"#,
        r#"[{"workspace_id":"w1","tab_id":"t1","label":"Code"}]"#,
        r#"[{"workspace_id":"w1","tab_id":"t1","pane_id":"p1","agent":"helper"}]"#,
        "[]",
    );
    let disabled = topology_from_snapshot(Some(&with_agent), None, &[], false).unwrap();
    assert!(disabled.workspaces[0].tabs[0].panes[0].agent.is_none());
}

#[test]
fn git_identity_matches_nested_cwd_and_detached_head() {
    let value = snapshot(
        r#"[{"workspace_id":"w1","label":"Herdr"},{"workspace_id":"w2","label":"Detached"}]"#,
        r#"[{"workspace_id":"w1","tab_id":"t1"},{"workspace_id":"w2","tab_id":"t2"}]"#,
        r#"[
            {"workspace_id":"w1","tab_id":"t1","pane_id":"p1","cwd":"/repo/src/lib","focused":true},
            {"workspace_id":"w2","tab_id":"t2","pane_id":"p2","cwd":"/repo-feature"}
        ]"#,
        "[]",
    );
    let mut topology = parse_snapshot(&value, None, &[]);
    let git = FakeGit {
        porcelain: "worktree /repo\nHEAD 1234567890abcdef\nbranch refs/heads/main\n\nworktree /repo-feature\nHEAD deadbeefcafebabe\ndetached\n".into(),
        calls: RefCell::new(Vec::new()),
    };
    enrich_git(&mut topology, &git);
    assert_eq!(topology.workspaces[0].git.as_ref().unwrap().label, "repo");
    assert!(matches!(
        topology.workspaces[0].git.as_ref().unwrap().head,
        GitHead::Branch(ref b) if b == "main"
    ));
    assert!(matches!(
        topology.workspaces[1].git.as_ref().unwrap().head,
        GitHead::Detached(ref h) if h == "deadbeef"
    ));
    assert_eq!(git.calls.borrow().len(), 1);
}

#[test]
fn git_probe_tries_remaining_pane_after_focused_non_git_pane() {
    let value = snapshot(
        r#"[{"workspace_id":"w1","label":"Project"}]"#,
        r#"[{"workspace_id":"w1","tab_id":"t1"}]"#,
        r#"[
            {"workspace_id":"w1","tab_id":"t1","pane_id":"focused","cwd":"/not-git","focused":true},
            {"workspace_id":"w1","tab_id":"t1","pane_id":"other","cwd":"/repo/src"}
        ]"#,
        "[]",
    );
    let mut topology = parse_snapshot(&value, None, &[]);
    let mut responses = HashMap::new();
    responses.insert("/not-git".to_string(), Err("not a repository".into()));
    responses.insert(
        "/repo/src".to_string(),
        Ok("worktree /repo\nHEAD 12345678\nbranch refs/heads/main\n".into()),
    );
    let git = MappingGit {
        responses,
        calls: RefCell::new(Vec::new()),
    };
    enrich_git(&mut topology, &git);
    assert_eq!(
        git.calls.borrow().as_slice(),
        ["/not-git".to_string(), "/repo/src".to_string()]
    );
    assert_eq!(topology.workspaces[0].git.as_ref().unwrap().label, "repo");
}

#[test]
fn non_git_probe_degrades_only_that_workspace() {
    let value = snapshot(
        r#"[{"workspace_id":"w1","label":"Plain"}]"#,
        r#"[{"workspace_id":"w1","tab_id":"t1"}]"#,
        r#"[{"workspace_id":"w1","tab_id":"t1","pane_id":"p1","cwd":"/plain"}]"#,
        "[]",
    );
    let mut topology = parse_snapshot(&value, None, &[]);
    let mut responses = HashMap::new();
    responses.insert("/plain".to_string(), Err("not a repository".into()));
    enrich_git(
        &mut topology,
        &MappingGit {
            responses,
            calls: RefCell::new(Vec::new()),
        },
    );
    assert!(topology.workspaces[0].git.is_none());
    assert_eq!(
        render_workspace_block(&topology.workspaces[0], 120)
            .lines()
            .next(),
        Some("     Plain")
    );
}

#[test]
fn porcelain_records_keep_branch_head_and_detached_state() {
    let worktrees = parse_worktrees(
        "worktree /repo\nHEAD abc\nbranch refs/heads/feature/x\n\nworktree /other\nHEAD def\ndetached\n\nHEAD orphan\n",
    );
    assert_eq!(worktrees.len(), 2);
    assert_eq!(worktrees[0].path, "/repo");
    assert_eq!(worktrees[0].head, "abc");
    assert_eq!(worktrees[0].branch.as_deref(), Some("feature/x"));
    assert!(!worktrees[0].detached);
    assert_eq!(worktrees[1].path, "/other");
    assert!(worktrees[1].detached);
    assert_eq!(worktrees[1].branch, None);
    assert!(parse_worktrees("").is_empty());
}

#[test]
fn pane_query_entries_use_exact_session_qualified_keys() {
    let value = snapshot(
        r#"[{"workspace_id":"w1","label":"Project"}]"#,
        r#"[{"workspace_id":"w1","tab_id":"t1","label":"Code"}]"#,
        r#"[{"workspace_id":"w1","tab_id":"t1","pane_id":"p1","label":"Shell","cwd":"/tmp"}]"#,
        "[]",
    );
    let entries = query_entries(&parse_snapshot(&value, Some("session".into()), &[]), true);
    assert!(entries.iter().any(|entry| entry.key() == "pane:session:p1"));
    assert!(
        matches!(entries.last().unwrap().action, EntryAction::FocusPane { ref id, .. } if id == "p1")
    );
}

#[test]
fn recorded_replies_give_each_workspace_its_identity() {
    let value = snapshot(
        r#"[{"workspace_id":"w1","label":"Herdr"},{"workspace_id":"w2","label":"Detached"},{"workspace_id":"w3","label":"Plain"}]"#,
        r#"[{"workspace_id":"w1","tab_id":"t1"},{"workspace_id":"w2","tab_id":"t2"},{"workspace_id":"w3","tab_id":"t3"}]"#,
        r#"[
            {"workspace_id":"w1","tab_id":"t1","pane_id":"p1","cwd":"/repo/src/lib","focused":true},
            {"workspace_id":"w2","tab_id":"t2","pane_id":"p2","cwd":"/links/feature"},
            {"workspace_id":"w3","tab_id":"t3","pane_id":"p3","cwd":"/plain"}
        ]"#,
        "[]",
    );
    let mut topology = parse_snapshot(&value, None, &[]);
    let replies = ProbeReplies {
        canonical: vec![("/links/feature".to_string(), "/repo-feature".to_string())],
        listings: vec![
            (
                "/repo/src/lib".to_string(),
                Some("worktree /repo\nHEAD 1234567890abcdef\nbranch refs/heads/main\n\nworktree /repo-feature\nHEAD deadbeefcafebabe\ndetached\n".to_string()),
            ),
            ("/plain".to_string(), None),
        ],
    };
    enrich_git_with(&mut topology, replies);
    let w1 = topology.workspaces[0].git.as_ref().unwrap();
    assert_eq!(w1.repo_key, "/repo/.git");
    assert_eq!(w1.label, "repo");
    assert!(matches!(w1.head, GitHead::Branch(ref b) if b == "main"));
    let w2 = topology.workspaces[1].git.as_ref().unwrap();
    assert_eq!(w2.repo_key, "/repo/.git");
    assert!(matches!(w2.head, GitHead::Detached(ref h) if h == "deadbeef"));
    assert!(topology.workspaces[2].git.is_none());
    assert_eq!(topology.workspaces[1].label, "Detached");
}

#[test]
fn replaying_the_probe_replies_gives_the_same_identities() {
    let value = snapshot(
        r#"[{"workspace_id":"w1","label":"Herdr"},{"workspace_id":"w2","label":"Detached"}]"#,
        r#"[{"workspace_id":"w1","tab_id":"t1"},{"workspace_id":"w2","tab_id":"t2"}]"#,
        r#"[
            {"workspace_id":"w1","tab_id":"t1","pane_id":"p1","cwd":"/repo/src/lib","focused":true},
            {"workspace_id":"w2","tab_id":"t2","pane_id":"p2","cwd":"/repo-feature"}
        ]"#,
        "[]",
    );
    let mut probed = parse_snapshot(&value, None, &[]);
    let git = FakeGit {
        porcelain: "worktree /repo\nHEAD 1234567890abcdef\nbranch refs/heads/main\n\nworktree /repo-feature\nHEAD deadbeefcafebabe\ndetached\n".into(),
        calls: RefCell::new(Vec::new()),
    };
    let replies = enrich_git(&mut probed, &git);
    assert_eq!(replies.listings.len(), 1);
    let mut replayed = parse_snapshot(&value, None, &[]);
    enrich_git_with(&mut replayed, replies);
    for (a, b) in probed.workspaces.iter().zip(replayed.workspaces.iter()) {
        assert_eq!(a.git.as_ref().map(|g| g.repo_key.clone()), b.git.as_ref().map(|g| g.repo_key.clone()));
        assert_eq!(a.git.as_ref().map(|g| g.label.clone()), b.git.as_ref().map(|g| g.label.clone()));
    }
    assert!(replayed.workspaces[1].git.is_some());
}
