use helm_herdr::agents::status_icon_at;
use helm_herdr::config::{Config, NotificationsConfig, SessionEntryConfig};
use helm_herdr::herdr::{notification_audio, truncate};
use helm_herdr::model::{EntryAction, Source};
use helm_herdr::remotes::{collect_remotes, remote_entry};

#[test]
fn local_session_entries_are_ignored() {
    let mut config = Config::default();
    config.sessions.entries.push(SessionEntryConfig {
        name: "work".into(),
        remote: None,
        tags: vec![],
    });

    assert!(collect_remotes(&config).is_empty());
}

#[test]
fn manual_remote_entry_opens_remote_target() {
    let entry = remote_entry(&SessionEntryConfig {
        name: "prod".into(),
        remote: Some("prod-box".into()),
        tags: vec!["api".into()],
    })
    .unwrap();

    assert_eq!(entry.source, Source::Server);
    assert!(entry.haystack().contains("prod-box"));
    assert!(matches!(
        entry.action,
        EntryAction::OpenRemote { ref target } if target == "prod-box"
    ));
}

#[test]
fn notification_audio_resolves_silent_default_herdr_and_custom() {
    let silent = NotificationsConfig::default();
    assert_eq!(notification_audio(&silent, "request"), ("none", None));

    let herdr = NotificationsConfig {
        enabled: true,
        audio: true,
        sound: "default".into(),
        custom_sound: None,
    };
    assert_eq!(notification_audio(&herdr, "done"), ("done", None));

    let custom = NotificationsConfig {
        enabled: true,
        audio: true,
        sound: "custom".into(),
        custom_sound: Some("~/sounds/navigator.wav".into()),
    };
    assert_eq!(
        notification_audio(&custom, "done"),
        ("none", Some("~/sounds/navigator.wav"))
    );
}

#[test]
fn status_icons_match_herdr() {
    assert_eq!(status_icon_at(&Source::Workspace, "blocked", 0), "●");
    assert_eq!(status_icon_at(&Source::Workspace, "working", 0), "●");
    assert_eq!(status_icon_at(&Source::Workspace, "done", 0), "●");
    assert_eq!(status_icon_at(&Source::Workspace, "idle", 0), "○");
    assert_eq!(status_icon_at(&Source::Workspace, "unknown", 0), "·");

    assert_eq!(status_icon_at(&Source::Agent, "blocked", 0), "!");
    assert_eq!(status_icon_at(&Source::Agent, "working", 0), "⠋");
    assert_eq!(status_icon_at(&Source::Agent, "working", 1), "⠙");
    assert_eq!(status_icon_at(&Source::Agent, "done", 0), "✓");
    assert_eq!(status_icon_at(&Source::Agent, "idle", 0), "○");
    assert_eq!(status_icon_at(&Source::Agent, "unknown", 0), "");
}

#[test]
fn status_icons_ignore_letter_case() {
    assert_eq!(status_icon_at(&Source::Agent, "BLOCKED", 0), "!");
    assert_eq!(status_icon_at(&Source::Workspace, "Idle", 0), "○");
}

#[test]
fn truncate_keeps_short_text_and_marks_cut_text() {
    assert_eq!(truncate("short", 10), "short");
    assert_eq!(truncate("abcdefghij", 5), "abcde…");
    assert_eq!(truncate("abcde", 5), "abcde");
}

#[test]
fn remotes_keep_configured_order() {
    let mut config = Config::default();
    for (name, remote) in [("a", Some("host-a")), ("b", None), ("c", Some("host-c"))] {
        config.sessions.entries.push(SessionEntryConfig {
            name: name.into(),
            remote: remote.map(String::from),
            tags: vec![],
        });
    }
    let remotes = collect_remotes(&config);
    assert_eq!(remotes.len(), 2);
    assert!(matches!(remotes[0].action, EntryAction::OpenRemote { ref target } if target == "host-a"));
    assert!(matches!(remotes[1].action, EntryAction::OpenRemote { ref target } if target == "host-c"));
}
