//! Server destinations: configured session entries with a remote target.
use vstd::prelude::*;
use crate::config::{Config, SessionEntryConfig};
use crate::model::{entries_view, ActionModel, Entry, EntryAction, EntryModel, Source};
use crate::text::{append_str, chars_of, string_of, strings_view};

verus! {

/// The Server Entry of a configured session entry with a remote target.
pub open spec fn remote_entry_model(c: SessionEntryConfig) -> Option<EntryModel> {
    match c.remote {
        Some(t) => Some(
            EntryModel {
                source: Source::Server,
                title: c.name@,
                subtitle: "remote Herdr · "@ + t@,
                path: "remote:"@ + t@,
                workspace_id: None,
                workspace_label: None,
                agent_target: None,
                project: None,
                action: ActionModel::OpenRemote { target: t@ },
                source_label: None,
                search_terms: seq!["server"@, "remote"@, t@] + strings_view(c.tags@),
            },
        ),
        None => None,
    }
}

/// The Server Entry of a configured session entry; none for a local one.
pub fn remote_entry(config: &SessionEntryConfig) -> (r: Option<Entry>)
    ensures
        match r {
            Some(e) => remote_entry_model(*config) == Some(e@),
            None => remote_entry_model(*config) is None,
        },
{
    let target = match &config.remote {
        Some(t) => t,
        None => {
            return None;
        },
    };
    let mut terms: Vec<String> = Vec::new();
    terms.push("server".to_owned());
    terms.push("remote".to_owned());
    terms.push(target.clone());
    let ghost head = strings_view(terms@);
    let mut i: usize = 0;
    while i < config.tags.len()
        invariant
            i <= config.tags@.len(),
            strings_view(terms@) == head + strings_view(config.tags@).take(i as int),
        decreases config.tags.len() - i,
    {
        let ghost before = terms@;
        let tag = config.tags[i].clone();
        assert(tag@ == config.tags@[i as int]@);
        terms.push(tag);
        assert(strings_view(terms@) =~= strings_view(before).push(tag@));
        assert(strings_view(config.tags@).take(i + 1) =~= strings_view(config.tags@).take(i as int).push(config.tags@[i as int]@));
        assert(strings_view(terms@) =~= head + strings_view(config.tags@).take(i + 1));
        i = i + 1;
    }
    assert(strings_view(config.tags@).take(config.tags@.len() as int) =~= strings_view(config.tags@));
    let mut sub = chars_of("remote Herdr · ");
    append_str(&mut sub, target.as_str());
    let mut path = chars_of("remote:");
    append_str(&mut path, target.as_str());
    let e = Entry {
        source: Source::Server,
        title: config.name.clone(),
        subtitle: string_of(sub.as_slice()),
        path: string_of(path.as_slice()),
        workspace_id: None,
        workspace_label: None,
        agent_target: None,
        project: None,
        action: EntryAction::OpenRemote { target: target.clone() },
        source_label: None,
        search_terms: terms,
    };
    assert(e@.search_terms =~= remote_entry_model(*config)->0.search_terms);
    Some(e)
}

/// The Server Entries of the first `n` configured session entries.
pub open spec fn remotes_of(entries: Seq<SessionEntryConfig>, n: int) -> Seq<EntryModel>
    decreases n,
{
    if n <= 0 {
        seq![]
    } else {
        match remote_entry_model(entries[n - 1]) {
            Some(e) => remotes_of(entries, n - 1).push(e),
            None => remotes_of(entries, n - 1),
        }
    }
}

/// The Server Entries of the configured session entries, in order.
pub fn collect_remotes(config: &Config) -> (r: Vec<Entry>)
    ensures
        entries_view(r@) == remotes_of(config.sessions.entries@, config.sessions.entries@.len() as int),
{
    let mut out: Vec<Entry> = Vec::new();
    let mut i: usize = 0;
    while i < config.sessions.entries.len()
        invariant
            i <= config.sessions.entries@.len(),
            entries_view(out@) == remotes_of(config.sessions.entries@, i as int),
        decreases config.sessions.entries.len() - i,
    {
        let ghost before = entries_view(out@);
        match remote_entry(&config.sessions.entries[i]) {
            Some(e) => {
                out.push(e);
                assert(entries_view(out@) =~= before.push(e@));
            },
            None => {},
        }
        i = i + 1;
    }
    out
}

} // verus!
