use helm_herdr::topology::{
    OpenTopology, PaneNode, TabNode, TopologyCursor, TopologyDepth, WorkspaceNode,
};

fn pane(id: &str, focused: bool) -> PaneNode {
    PaneNode {
        id: id.into(),
        label: "Pane".into(),
        cwd: String::new(),
        focused,
        title: None,
        agent: None,
    }
}

fn tab(id: &str, focused: bool, panes: Vec<PaneNode>) -> TabNode {
    TabNode {
        id: id.into(),
        label: "Tab".into(),
        focused,
        panes,
    }
}

fn workspace(id: &str, focused: bool, tabs: Vec<TabNode>) -> WorkspaceNode {
    WorkspaceNode {
        id: id.into(),
        label: "Workspace".into(),
        session: Some("session".into()),
        focused,
        tabs,
        git: None,
    }
}

#[test]
fn topology_navigation_restores_workspace_child_memory() {
    let topology = OpenTopology {
        workspaces: vec![workspace(
            "w1",
            true,
            vec![tab("t1", true, vec![pane("p1", true)])],
        )],
    };
    let mut cursor = TopologyCursor::new(&topology);
    cursor.enter_tab(&topology);
    cursor.enter_pane(&topology);
    assert_eq!(cursor.depth, TopologyDepth::Pane);
    cursor.leave_to_workspace();
    cursor.enter_tab(&topology);
    assert_eq!(cursor.depth, TopologyDepth::Tab);
}

#[test]
fn new_cursor_starts_at_first_workspace_with_focused_children() {
    let topology = OpenTopology {
        workspaces: vec![
            workspace("w1", false, vec![tab("t1", false, vec![pane("p1", false)])]),
            workspace(
                "w2",
                true,
                vec![
                    tab("t1", false, vec![pane("p1", false)]),
                    tab("t2", true, vec![pane("p1", false), pane("p2", true)]),
                ],
            ),
        ],
    };
    let cursor = TopologyCursor::new(&topology);
    assert_eq!(cursor.depth, TopologyDepth::Workspace);
    assert_eq!(cursor.workspace, 0);
    assert_eq!(cursor.selection.len(), 2);
    assert_eq!(cursor.selection[0].tab, 0);
    assert_eq!(cursor.selection[1].tab, 1);
    assert_eq!(cursor.selection[1].pane, 1);
}

#[test]
fn moves_stop_at_the_ends() {
    let topology = OpenTopology {
        workspaces: vec![
            workspace("w1", true, vec![tab("t1", true, vec![pane("p1", true)])]),
            workspace("w2", false, vec![]),
        ],
    };
    let mut cursor = TopologyCursor::new(&topology);
    cursor.move_workspace(&topology, -1);
    assert_eq!(cursor.workspace, 0);
    cursor.move_workspace(&topology, 5);
    assert_eq!(cursor.workspace, 1);
    cursor.enter_tab(&topology);
    assert_eq!(cursor.depth, TopologyDepth::Workspace);
}

#[test]
fn clamp_pulls_the_cursor_back_into_a_shrunken_topology() {
    let big = OpenTopology {
        workspaces: vec![
            workspace("w1", false, vec![tab("t1", true, vec![pane("p1", true)])]),
            workspace("w2", true, vec![tab("t1", true, vec![pane("p1", true), pane("p2", false)])]),
        ],
    };
    let mut cursor = TopologyCursor::new(&big);
    cursor.move_workspace(&big, 1);
    cursor.enter_tab(&big);
    cursor.enter_pane(&big);
    cursor.move_pane(&big, 1);
    assert_eq!(cursor.selection[1].pane, 1);

    let small = OpenTopology {
        workspaces: vec![workspace("w1", true, vec![tab("t1", true, vec![])])],
    };
    cursor.clamp(&small);
    assert_eq!(cursor.workspace, 0);
    assert_eq!(cursor.depth, TopologyDepth::Tab);
}
