use helm_herdr::open_workspaces::{fallback_fetches, list_command, ListKind};
use helm_herdr::config::popup_percentage;
use helm_herdr::directories::{root_visit, walks_into};
use helm_herdr::model::EntryAction;
use helm_herdr::pins::after_open;

#[test]
fn popup_sizes_outside_one_to_a_hundred_keep_the_default() {
    assert_eq!(popup_percentage(0, 80), 80);
    assert_eq!(popup_percentage(1, 80), 1);
    assert_eq!(popup_percentage(100, 80), 100);
    assert_eq!(popup_percentage(101, 80), 80);
}

#[test]
fn root_walk_lists_marked_directories_and_skips_hidden_ones() {
    let v = root_visit(2, true, true);
    assert!(v.list && v.descend);
    let v = root_visit(2, true, false);
    assert!(!v.list && v.descend);
    let v = root_visit(0, true, true);
    assert!(!v.list && !v.descend);
    let v = root_visit(3, false, true);
    assert!(!v.list && !v.descend);
    assert!(walks_into("/home/me/src/project"));
    assert!(!walks_into("/home/me/.cache"));
}

#[test]
fn only_a_successful_open_is_remembered() {
    let named = Some((Some("s".to_string()), "w2".to_string()));
    let action = EntryAction::FocusWorkspace { session: Some("s".into()), id: "w2".into() };
    let after = after_open(false, true, Some("w1"), Some("w2"), named.clone(), &action, Some("s".into()));
    assert!(after.previous.is_none() && after.visited.is_none());

    let after = after_open(true, true, Some("w1"), Some("w2"), named.clone(), &action, Some("s".into()));
    assert_eq!(after.previous.as_deref(), Some("w1"));
    assert_eq!(after.visited, named);

    let after = after_open(true, true, Some("w2"), Some("w2"), None, &EntryAction::OpenProject, Some("s".into()));
    assert!(after.previous.is_none());
    assert_eq!(after.visited, Some((Some("s".to_string()), "w2".to_string())));

    let after = after_open(true, false, Some("w1"), Some("w3"), None, &EntryAction::OpenRemote { target: "t".into() }, None);
    assert!(after.previous.is_none() && after.visited.is_none());
}

#[test]
fn fallback_reads_each_list_once_in_order() {
    assert_eq!(
        fallback_fetches(true, false),
        vec![ListKind::Workspaces, ListKind::Tabs, ListKind::Panes]
    );
    assert_eq!(
        fallback_fetches(false, true),
        vec![ListKind::Workspaces, ListKind::Panes, ListKind::Agents]
    );
    assert_eq!(list_command(ListKind::Agents), ("agent", "list"));
}
