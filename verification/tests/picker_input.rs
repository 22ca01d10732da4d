use helm_herdr::agents::status_icon_at;
use helm_herdr::app::{App, InputMode};
use helm_herdr::bindings::keybindings;
use helm_herdr::config::Config;
use helm_herdr::hits::{topology_child_ranges, topology_hits};
use helm_herdr::input::{Action, Command, Key, KeyCode};
use helm_herdr::model::{Entry, EntryAction, Source};
use helm_herdr::mouse::{Area, ListHits, MouseInput, MouseKind, Span16, TopologyHit};
use helm_herdr::render::topology_rows_selected;
use helm_herdr::rows::{
    agent_status_color, detailed_layout, entry_status, flat_row, line_emphasis, marks_previous, row_pieces,
    source_color, LineEmphasis, PieceRole, Tone,
};
use helm_herdr::topology::{
    ChildSelection, OpenTopology, PaneNode, TabNode, TopologyCursor, TopologyDepth, WorkspaceNode,
};
use helm_herdr::topology_entries::query_entries;

fn key(code: KeyCode) -> Key {
    Key {
        code,
        shift: false,
        control: false,
        alt: false,
        other: false,
    }
}

fn ctrl(code: KeyCode) -> Key {
    Key {
        control: true,
        ..key(code)
    }
}

fn alt(code: KeyCode) -> Key {
    Key {
        alt: true,
        ..key(code)
    }
}

fn shift(code: KeyCode) -> Key {
    Key {
        shift: true,
        ..key(code)
    }
}

fn entry(source: Source, title: &str) -> Entry {
    Entry {
        source,
        title: title.into(),
        subtitle: String::new(),
        path: title.into(),
        workspace_id: None,
        workspace_label: None,
        agent_target: None,
        project: None,
        action: EntryAction::FocusOrCreateDir,
        source_label: None,
        search_terms: vec![],
    }
}

fn pane(id: &str, label: &str, focused: bool) -> PaneNode {
    PaneNode {
        id: id.into(),
        label: label.into(),
        cwd: String::new(),
        focused,
        title: None,
        agent: None,
    }
}

fn topology_test_app() -> App {
    let topology = OpenTopology {
        workspaces: vec![WorkspaceNode {
            id: "w1".into(),
            label: "Workspace".into(),
            session: Some("s".into()),
            focused: true,
            tabs: vec![TabNode {
                id: "t1".into(),
                label: "Tab".into(),
                focused: true,
                panes: vec![pane("p1", "One", true), pane("p2", "Two", false)],
            }],
            git: None,
        }],
    };
    let mut app = App::new(Config::default());
    app.topology_entries = query_entries(&topology, false);
    app.topology = topology;
    app.topology_cursor = TopologyCursor::new(&app.topology);
    app
}

/// The hits of one child line of a block drawn at `top`, `width` cells wide.
fn line_hits(app: &App, workspace: usize, top: u16, line: usize, width: usize) -> Vec<TopologyHit> {
    let node = &app.topology.workspaces[workspace];
    let selection = app.topology_cursor.selection[workspace];
    let child = if line == 1 {
        Some(selection.tab)
    } else {
        Some(selection.pane)
    };
    let tab = if line == 1 {
        selection.tab
    } else {
        let focused = node.tabs.iter().position(|t| t.focused).unwrap_or(0);
        if workspace == app.topology_cursor.workspace {
            selection.tab
        } else {
            focused
        }
    };
    topology_child_ranges(node, line, tab, child, width, 9)
        .into_iter()
        .map(|(x, index)| TopologyHit {
            y: Span16 {
                start: top + line as u16,
                end: top + line as u16 + 1,
            },
            x,
            workspace,
            line,
            tab,
            child: Some(index),
        })
        .collect()
}

#[test]
fn ctrl_w_filters_to_workspaces_tabs_and_panes() {
    let mut app = App::new(Config::default());
    assert!(matches!(
        app.handle_key(ctrl(KeyCode::Char('w'))),
        Action::Continue
    ));
    assert_eq!(app.source_filter, Some(Source::Workspace));
    assert!(app.topology_view());
}

#[test]
fn collapse_and_expand_keep_topology_depth_navigation() {
    let mut app = topology_test_app();
    app.topology_cursor.enter_tab(&app.topology);
    assert_eq!(app.topology_cursor.depth, TopologyDepth::Tab);

    app.execute_command(Command::Collapse, false, false);
    assert_eq!(app.topology_cursor.depth, TopologyDepth::Workspace);
    app.execute_command(Command::Expand, false, false);
    assert_eq!(app.topology_cursor.depth, TopologyDepth::Tab);
}

#[test]
fn vertical_navigation_crosses_workspace_boundaries() {
    let mut app = topology_test_app();
    let mut other = app.topology.workspaces[0].clone();
    other.id = "w2".into();
    other.label = "Other".into();
    app.topology.workspaces.push(other);
    app.topology_cursor.depth = TopologyDepth::Pane;

    app.handle_key(key(KeyCode::Char('j')));
    assert_eq!(app.topology_cursor.workspace, 1);
    assert_eq!(app.topology_cursor.depth, TopologyDepth::Pane);

    app.topology_cursor.depth = TopologyDepth::Workspace;
    app.handle_key(key(KeyCode::Char('k')));
    assert_eq!(app.topology_cursor.workspace, 0);
}

#[test]
fn uppercase_j_and_k_switch_workspaces_at_nested_depth() {
    let mut app = topology_test_app();
    let mut other = app.topology.workspaces[0].clone();
    other.id = "w2".into();
    other.label = "Other".into();
    app.topology.workspaces.push(other);
    app.topology_cursor.depth = TopologyDepth::Pane;

    app.handle_key(shift(KeyCode::Char('J')));
    assert_eq!(app.topology_cursor.workspace, 1);

    app.handle_key(shift(KeyCode::Char('K')));
    assert_eq!(app.topology_cursor.workspace, 0);
}

#[test]
fn topology_cursor_clamps_to_deepest_existing_target() {
    let mut app = topology_test_app();
    app.topology.workspaces[0].tabs[0].panes.clear();
    app.topology_cursor.depth = TopologyDepth::Pane;
    app.topology_cursor.clamp(&app.topology);
    assert_eq!(app.topology_cursor.depth, TopologyDepth::Tab);
    app.topology.workspaces[0].tabs.clear();
    app.topology_cursor.clamp(&app.topology);
    assert_eq!(app.topology_cursor.depth, TopologyDepth::Workspace);
}

#[test]
fn topology_actions_keep_exact_workspace_tab_and_pane_ids() {
    let mut app = topology_test_app();
    assert!(
        matches!(app.topology_selected_entry().unwrap().action, EntryAction::FocusWorkspace { ref id, .. } if id == "w1")
    );
    app.topology_cursor.enter_tab(&app.topology);
    assert!(
        matches!(app.topology_selected_entry().unwrap().action, EntryAction::FocusTab { ref id, .. } if id == "t1")
    );
    app.topology_cursor.enter_pane(&app.topology);
    assert!(
        matches!(app.topology_selected_entry().unwrap().action, EntryAction::FocusPane { ref id, .. } if id == "p1")
    );
}

#[test]
fn alt_enter_opens_selected_directory_with_configured_template() {
    let mut config = Config::default();
    config.picker.directory_template = Some("default.toml".into());
    let mut app = App::new(config);
    app.entries = vec![entry(Source::Zoxide, "/tmp")];
    app.apply_filter();

    assert!(matches!(app.handle_key(key(KeyCode::Enter)), Action::Open));
    assert!(matches!(
        app.handle_key(alt(KeyCode::Enter)),
        Action::OpenTemplate
    ));

    app.config.picker.directory_template_key = "ctrl-g".into();
    assert!(matches!(
        app.handle_key(ctrl(KeyCode::Char('g'))),
        Action::OpenTemplate
    ));
}

#[test]
fn update_badge_renders_action_and_f5_triggers_it() {
    let mut app = App::new(Config::default());
    assert!(matches!(app.handle_key(key(KeyCode::F(5))), Action::Continue));
    app.update_available = Some("0.3.2".into());
    assert!(matches!(app.handle_key(key(KeyCode::F(5))), Action::Update));
}

#[test]
fn herdr_plus_sources_share_color() {
    assert_eq!(source_color(&Source::Project), source_color(&Source::QuickAction));
}

#[test]
fn status_colors_match_herdr() {
    assert_eq!(agent_status_color("blocked"), Tone::Red);
    assert_eq!(agent_status_color("working"), Tone::Yellow);
    assert_eq!(agent_status_color("done"), Tone::Teal);
    assert_eq!(agent_status_color("idle"), Tone::Green);
    assert_eq!(agent_status_color("unknown"), Tone::Overlay);
}

#[test]
fn modified_chords_never_insert_text() {
    let mut app = App::new(Config::default());

    app.handle_key(ctrl(KeyCode::Char('h')));
    assert_eq!(app.query, "");

    for code in ['d', 'f', 'k'] {
        app.handle_key(ctrl(KeyCode::Char(code)));
        app.handle_key(alt(KeyCode::Char(code)));
    }
    assert_eq!(app.query, "");

    app.handle_key(key(KeyCode::Char('/')));
    app.handle_key(key(KeyCode::Char('a')));
    app.handle_key(shift(KeyCode::Char('B')));
    assert_eq!(app.query, "aB");
}

#[test]
fn ctrl_backspace_deletes_a_word_in_both_encodings() {
    for chord in [ctrl(KeyCode::Char('h')), ctrl(KeyCode::Backspace)] {
        let mut app = App::new(Config::default());
        app.query = "foo bar".into();

        app.handle_key(chord);
        assert_eq!(app.query, "foo ");

        app.handle_key(chord);
        assert_eq!(app.query, "");

        app.handle_key(chord);
        assert_eq!(app.query, "");
    }
}

#[test]
fn delete_word_handles_trailing_space_and_multibyte() {
    let mut app = App::new(Config::default());

    app.query = "foo bar  ".into();
    app.delete_query_word();
    assert_eq!(app.query, "foo ");

    app.query = "café naïve".into();
    app.delete_query_word();
    assert_eq!(app.query, "café ");

    app.query = "solo".into();
    app.delete_query_word();
    assert_eq!(app.query, "");
}

#[test]
fn normal_navigation_aliases_move_and_query_editing_keeps_hjkl() {
    let mut app = App::new(Config::default());
    app.entries = vec![entry(Source::Root, "one"), entry(Source::Root, "two")];
    app.source_filter = Some(Source::Root);
    app.apply_filter();
    app.handle_key(key(KeyCode::Char('j')));
    assert_eq!(app.selected, 1);
    app.handle_key(key(KeyCode::Char('k')));
    assert_eq!(app.selected, 0);
    app.handle_key(key(KeyCode::Char('/')));
    app.handle_key(key(KeyCode::Char('h')));
    app.handle_key(key(KeyCode::Char('j')));
    app.handle_key(key(KeyCode::Char('l')));
    app.handle_key(key(KeyCode::Char('k')));
    assert_eq!(app.query, "hjlk");
}

#[test]
fn question_mark_toggles_registry_help_overlay() {
    let mut app = App::new(Config::default());
    app.handle_key(key(KeyCode::Char('?')));
    assert_eq!(app.input_mode, InputMode::Help);
    app.handle_key(key(KeyCode::Char('?')));
    assert_eq!(app.input_mode, InputMode::Normal);
}

#[test]
fn mouse_ignores_input_outside_results() {
    let mut app = App::new(Config::default());
    app.entries = vec![entry(Source::Workspace, "one"), entry(Source::Workspace, "two")];
    app.filtered = vec![0, 1];
    app.source_filter = Some(Source::Root);
    let hits = ListHits {
        area: Area {
            x: 0,
            y: 3,
            width: 40,
            height: 10,
        },
        rows: vec![(Span16 { start: 4, end: 5 }, 0), (Span16 { start: 5, end: 6 }, 1)],
        topology: Vec::new(),
    };

    app.handle_mouse(
        MouseInput {
            kind: MouseKind::ScrollDown,
            column: 50,
            row: 4,
        },
        &hits,
    );
    assert_eq!(app.selected, 0);
}

#[test]
fn normal_mode_letters_wait_for_the_search_trigger() {
    let mut app = App::new(Config::default());

    app.handle_key(key(KeyCode::Char('x')));
    assert_eq!(app.query, "");

    app.handle_key(key(KeyCode::Char('/')));
    app.handle_key(key(KeyCode::Char('x')));
    assert_eq!(app.query, "x");
    assert_eq!(app.input_mode, InputMode::Search);
}

#[test]
fn input_modes_transition_exclusively() {
    let mut app = App::new(Config::default());
    assert_eq!(app.input_mode, InputMode::Normal);

    app.handle_key(key(KeyCode::Char('/')));
    assert_eq!(app.input_mode, InputMode::Search);

    app.handle_key(key(KeyCode::Char('?')));
    assert_eq!(app.input_mode, InputMode::Help);

    app.handle_key(key(KeyCode::Esc));
    assert_eq!(app.input_mode, InputMode::Normal);
}

#[test]
fn topology_mouse_selects_and_remembers_exact_pane_span() {
    let mut app = topology_test_app();
    let hits = ListHits {
        area: Area {
            x: 0,
            y: 0,
            width: 80,
            height: 8,
        },
        rows: Vec::new(),
        topology: line_hits(&app, 0, 0, 2, 79),
    };
    let hit = *hits
        .topology
        .iter()
        .find(|hit| hit.line == 2 && hit.child == Some(1))
        .unwrap();
    let action = app.handle_mouse(
        MouseInput {
            kind: MouseKind::LeftDown,
            column: hit.x.start,
            row: hit.y.start,
        },
        &hits,
    );
    assert!(matches!(action, Action::Continue));
    assert_eq!(app.topology_cursor.depth, TopologyDepth::Pane);
    assert_eq!(app.topology_cursor.selection[0].pane, 1);
    app.sync_topology_cursor();
    assert_eq!(app.topology_cursor.selection[0].pane, 1);
}

#[test]
fn topology_mouse_keeps_non_selected_workspace_tab_context() {
    let mut app = topology_test_app();
    app.topology.workspaces.push(WorkspaceNode {
        id: "w2".into(),
        label: "Other".into(),
        session: Some("s".into()),
        focused: false,
        tabs: vec![
            TabNode {
                id: "t2a".into(),
                label: "First".into(),
                focused: false,
                panes: vec![pane("p2a", "Wrong", false)],
            },
            TabNode {
                id: "t2b".into(),
                label: "Focused".into(),
                focused: true,
                panes: vec![pane("p2b", "Right", true)],
            },
        ],
        git: None,
    });
    app.topology_entries = query_entries(&app.topology, false);
    app.topology_cursor = TopologyCursor::new(&app.topology);
    let hits = ListHits {
        area: Area {
            x: 0,
            y: 0,
            width: 80,
            height: 12,
        },
        rows: Vec::new(),
        topology: line_hits(&app, 1, 4, 2, 79),
    };
    let hit = *hits
        .topology
        .iter()
        .find(|hit| hit.workspace == 1 && hit.line == 2 && hit.child == Some(0))
        .unwrap();
    let _ = app.handle_mouse(
        MouseInput {
            kind: MouseKind::LeftDown,
            column: hit.x.start,
            row: hit.y.start,
        },
        &hits,
    );
    assert_eq!(app.topology_cursor.selection[1].tab, 1);
    assert_eq!(app.topology_cursor.selection[1].pane, 0);
}

#[test]
fn topology_rows_reserve_selection_slots_for_tabs_and_panes() {
    let mut app = topology_test_app();
    app.topology.workspaces[0].tabs.push(TabNode {
        id: "t2".into(),
        label: "Other".into(),
        focused: false,
        panes: vec![pane("p3", "Three", false)],
    });
    let rows = topology_rows_selected(
        &app.topology.workspaces[0],
        80,
        Some(ChildSelection { tab: 0, pane: 1 }),
    );

    assert!(rows[1].contains("[Tab]  Other"));
    assert!(rows[2].contains(" One  [Two] "));
}

#[test]
fn topology_rows_keep_exact_terminal_widths() {
    let app = topology_test_app();
    for width in [44, 60, 110] {
        let rows = topology_rows_selected(
            &app.topology.workspaces[0],
            width,
            Some(app.topology_cursor.selection[0]),
        );
        assert!(rows
            .iter()
            .all(|row| ratatui::text::Span::raw(row.as_str()).width() == width));
        assert!(rows.iter().all(|row| !row.contains('\n')));
    }
}

#[test]
fn topology_rows_keep_selected_far_right_child_visible() {
    let mut app = topology_test_app();
    for index in 0..10 {
        app.topology.workspaces[0].tabs.push(TabNode {
            id: format!("t{index}"),
            label: format!("Tab-{index}"),
            focused: false,
            panes: vec![pane(&format!("p{index}"), &format!("Pane-{index}"), false)],
        });
    }
    app.topology_cursor.selection[0].tab = 10;
    app.topology_cursor.selection[0].pane = 0;
    let rows = topology_rows_selected(
        &app.topology.workspaces[0],
        44,
        Some(app.topology_cursor.selection[0]),
    );
    assert!(rows[1].contains("[Tab-9]") || rows[1].contains("[Tab-10]"));
    assert!(rows[2].contains("[Pane-9]") || rows[2].contains("[Pane-10]"));
}

#[test]
fn topology_mouse_hits_selected_child_when_value_exceeds_span() {
    let mut app = topology_test_app();
    app.topology.workspaces[0].tabs[0].label = "A selected tab label 123456789012".into();
    let ranges = topology_child_ranges(&app.topology.workspaces[0], 1, 0, Some(0), 43, 9);
    assert!(ranges.iter().any(|(_, index)| *index == 0));
}

#[test]
fn flat_rows_put_status_before_aligned_destinations() {
    let mut app = App::new(Config::default());
    let mut idle = entry(Source::Agent, "first-destination");
    idle.search_terms.push("agent-status:idle".into());
    let mut blocked = entry(Source::Agent, "second-destination");
    blocked.search_terms.push("agent-status:blocked".into());
    let mut working = entry(Source::Agent, "third-destination");
    working.search_terms.push("agent-status:working".into());
    let mut ordinary = entry(Source::Workspace, "ordinary");
    ordinary.subtitle = "remaining metadata".into();
    app.entries = vec![idle, blocked, working, ordinary];

    let layout = detailed_layout(&app, 97, 9);
    assert_eq!(layout.status_width, 9);
    assert_eq!(layout.title_width, 24);
    assert_eq!(layout.right_width, 28);

    let expected = [
        ("idle", "○", Tone::Green),
        ("blocked", "!", Tone::Red),
        ("working", "⠋", Tone::Yellow),
    ];
    let line_of = |entry: &Entry| -> String {
        let parts = flat_row(entry, layout, 97, 9, "/home/me", 0);
        row_pieces(&parts, layout, 9).into_iter().map(|piece| piece.text).collect()
    };
    let destinations = ["first-destination", "second-destination", "third-destination"];
    for ((entry, (status, symbol, tone)), destination) in app.entries.iter().zip(expected).zip(destinations) {
        assert_eq!(entry_status(entry).as_deref(), Some(status));
        assert_eq!(status_icon_at(&entry.source, status, 0), symbol);
        assert_eq!(agent_status_color(status), tone);
        let line = line_of(entry);
        assert_eq!(line.matches(status).count(), 1);
        assert_eq!(line.chars().take(5).collect::<String>(), "agent");
        assert_eq!(line.chars().nth(9), symbol.chars().next());
        assert_eq!(
            line.chars().skip(11).take(status.len()).collect::<String>(),
            status
        );
        assert_eq!(line.chars().nth(18), destination.chars().next());
        let parts = flat_row(entry, layout, 97, 9, "/home/me", 0);
        assert_eq!(parts.tone, tone);
        let pieces = row_pieces(&parts, layout, 9);
        assert!(pieces[2].role == PieceRole::Status && pieces[2].text.starts_with(symbol));
    }
    assert_eq!(entry_status(&app.entries[3]), None);
    let ordinary_line = line_of(&app.entries[3]);
    assert!(ordinary_line.chars().skip(9).take(9).all(|c| c == ' '));
    assert_eq!(ordinary_line.chars().nth(18), Some('o'));
    assert!(ordinary_line.contains("remaining metadata"));
}

#[test]
fn topology_hits_cover_every_line_of_each_visible_block() {
    let app = topology_test_app();
    let hits = topology_hits(
        &app,
        Area {
            x: 0,
            y: 1,
            width: 79,
            height: 6,
        },
    );
    assert_eq!(hits.rows.len(), 1);
    assert_eq!(hits.rows[0].0, Span16 { start: 1, end: 5 });
    let lines: Vec<usize> = hits.topology.iter().map(|h| h.line).collect();
    assert!(lines.contains(&0) && lines.contains(&1) && lines.contains(&2) && lines.contains(&3));
    let panes: Vec<&TopologyHit> = hits.topology.iter().filter(|h| h.line == 2).collect();
    assert_eq!(panes.len(), 2);
    assert_eq!(panes[0].child, Some(0));
    assert_eq!(panes[1].child, Some(1));
    assert!(panes[0].x.end <= panes[1].x.start);
    assert!(hits.topology.iter().all(|h| h.workspace == 0));
    let first = hits.topology.iter().find(|h| h.line == 0).unwrap();
    assert_eq!(first.child, None);
    assert_eq!(first.x, Span16 { start: 0, end: 79 });
    assert_eq!(first.y, Span16 { start: 1, end: 2 });
}

#[test]
fn registry_maps_ctrl_b_to_mark_without_stealing_enter() {
    let app = App::new(Config::default());
    let mark = keybindings(&app)
        .into_iter()
        .find(|binding| binding.command == Command::ToggleMark)
        .unwrap();

    assert!(mark.label.contains("mark"));
    assert!(mark.matches(&app, ctrl(KeyCode::Char('b'))));
    assert!(!mark.matches(&app, key(KeyCode::Enter)));
    assert!(keybindings(&app)
        .into_iter()
        .find(|binding| binding.command == Command::Open)
        .unwrap()
        .matches(&app, key(KeyCode::Enter)));
}

#[test]
fn disabled_sources_have_no_filter_binding() {
    let mut app = App::new(Config::default());
    app.config.sources.servers = false;
    let filters: Vec<Command> = keybindings(&app)
        .into_iter()
        .map(|binding| binding.command)
        .filter(|command| matches!(command, Command::Filter(_)))
        .collect();
    assert!(!filters.contains(&Command::Filter(Source::Server)));
    assert!(filters.contains(&Command::Filter(Source::Workspace)));
}

#[test]
fn topology_lines_emphasise_the_selected_level_and_mark_the_previous_workspace() {
    let mut app = topology_test_app();
    assert_eq!(line_emphasis(&app, 0, 0), LineEmphasis::Strong);
    assert_eq!(line_emphasis(&app, 0, 1), LineEmphasis::Selected);
    assert_eq!(line_emphasis(&app, 1, 0), LineEmphasis::Plain);
    app.topology_cursor.depth = TopologyDepth::Pane;
    assert_eq!(line_emphasis(&app, 0, 2), LineEmphasis::Strong);
    assert_eq!(line_emphasis(&app, 0, 0), LineEmphasis::Selected);
    assert!(!marks_previous(&app, "w1"));
    app.previous_workspace_id = Some("w1".into());
    assert!(marks_previous(&app, "w1"));
    assert!(!marks_previous(&app, "w2"));
}
