//! Entry identities: the keys that mark Entries, deduplicate collected Entries and
//! track where a successful action leads.
use vstd::prelude::*;
use crate::keyset::KeySet;
use crate::model::{
    clone_opt, opt_view,
    entry_key, session_or_default, source_label, source_name_of, Entry, EntryAction, Source,
};
use crate::text::{append_str, chars_of, string_of, strings_view};

verus! {

broadcast use vstd::seq::Seq::lemma_push_to_set_commute;

/// The session name used in keys (`<default>` for the unnamed session).
pub fn session_key(name: Option<&str>) -> (r: String)
    ensures
        r@ == match name {
            Some(n) => n@,
            None => "<default>"@,
        },
{
    match name {
        Some(n) => n.to_owned(),
        None => "<default>".to_owned(),
    }
}

fn session_part(session: &Option<String>) -> (r: &str)
    ensures
        r@ == session_or_default(*session),
{
    match session {
        Some(s) => s.as_str(),
        None => "<default>",
    }
}

/// The mark key of an open Workspace.
pub open spec fn workspace_pin_key(session: Option<String>, id: Seq<char>) -> Seq<char> {
    "workspace:"@ + session_or_default(session) + ":"@ + id
}

/// The key under which an Entry is marked.
pub open spec fn pin_key_of(e: Entry) -> Seq<char> {
    pin_key_named(e, source_name_of(e))
}

/// The mark key of an Entry shown under the Source name `name`.
pub open spec fn pin_key_named(e: Entry, name: Seq<char>) -> Seq<char> {
    match e.action {
        EntryAction::FocusWorkspace { session, id } => workspace_pin_key(session, id@),
        EntryAction::FocusTab { session, id } => "tab:"@ + session_or_default(session) + ":"@ + id@,
        EntryAction::FocusAgent { target } => "agent:"@ + target@,
        EntryAction::FocusPane { session, id } => "pane:"@ + session_or_default(session) + ":"@ + id@,
        EntryAction::OpenProject => "project:"@ + entry_key(e),
        EntryAction::OpenRemote { target } => "remote:"@ + target@,
        EntryAction::InvokePluginAction { action } => "plugin:"@ + name + ":"@ + action@,
        EntryAction::FocusOrCreateDir => source_label(e.source) + ":"@ + entry_key(e),
        EntryAction::RunCommand { command, .. } => name + ":"@ + command@,
    }
}

/// The key under which collected Entries are deduplicated: open Workspaces and Tabs by
/// their session-qualified ID, remotes by target, commands by Source and command, and
/// project, zoxide and root directories by one shared path key.
pub open spec fn dedup_key_of(e: Entry) -> Seq<char> {
    match e.action {
        EntryAction::FocusWorkspace { session, id } => "open:workspace:"@ + session_or_default(session)
            + ":"@ + id@,
        EntryAction::FocusTab { session, id } => "open:tab:"@ + session_or_default(session) + ":"@
            + id@,
        EntryAction::OpenRemote { target } => "remote:"@ + target@,
        EntryAction::RunCommand { command, .. } => source_name_of(e) + ":"@ + command@,
        _ => if is_directory_source(e.source) {
            "directory:"@ + entry_key(e)
        } else {
            source_name_of(e) + ":"@ + entry_key(e)
        },
    }
}

/// Project, zoxide and root Entries name directories.
pub open spec fn is_directory_source(s: Source) -> bool {
    s == Source::Project || s == Source::Zoxide || s == Source::Root
}

/// The mark key of an open Workspace.
pub fn topology_workspace_pin_key(session: &Option<String>, id: &str) -> (r: String)
    ensures
        r@ == workspace_pin_key(*session, id@),
{
    let mut k = chars_of("workspace:");
    append_str(&mut k, session_part(session));
    append_str(&mut k, ":");
    append_str(&mut k, id);
    string_of(k.as_slice())
}

/// The key under which an Entry is marked.
pub fn pin_key(entry: &Entry) -> (r: String)
    ensures
        r@ == pin_key_of(*entry),
{
    let mut k: Vec<char> = Vec::new();
    match &entry.action {
        EntryAction::FocusWorkspace { session, id } => {
            return topology_workspace_pin_key(session, id.as_str());
        },
        EntryAction::FocusTab { session, id } => {
            append_str(&mut k, "tab:");
            append_str(&mut k, session_part(session));
            append_str(&mut k, ":");
            append_str(&mut k, id.as_str());
        },
        EntryAction::FocusAgent { target } => {
            append_str(&mut k, "agent:");
            append_str(&mut k, target.as_str());
        },
        EntryAction::FocusPane { session, id } => {
            append_str(&mut k, "pane:");
            append_str(&mut k, session_part(session));
            append_str(&mut k, ":");
            append_str(&mut k, id.as_str());
        },
        EntryAction::OpenProject => {
            append_str(&mut k, "project:");
            let key = entry.key();
            append_str(&mut k, key.as_str());
        },
        EntryAction::OpenRemote { target } => {
            append_str(&mut k, "remote:");
            append_str(&mut k, target.as_str());
        },
        EntryAction::InvokePluginAction { action } => {
            append_str(&mut k, "plugin:");
            let name = entry.source_name();
            append_str(&mut k, name.as_str());
            append_str(&mut k, ":");
            append_str(&mut k, action.as_str());
        },
        EntryAction::FocusOrCreateDir => {
            append_str(&mut k, entry.source.label());
            append_str(&mut k, ":");
            let key = entry.key();
            append_str(&mut k, key.as_str());
        },
        EntryAction::RunCommand { command, .. } => {
            let name = entry.source_name();
            append_str(&mut k, name.as_str());
            append_str(&mut k, ":");
            append_str(&mut k, command.as_str());
        },
    }
    assert(k@ =~= pin_key_of(*entry));
    string_of(k.as_slice())
}

/// The key under which collected Entries are deduplicated.
pub fn dedup_key(e: &Entry) -> (r: String)
    ensures
        r@ == dedup_key_of(*e),
{
    let mut k: Vec<char> = Vec::new();
    match &e.action {
        EntryAction::FocusWorkspace { session, id } => {
            append_str(&mut k, "open:workspace:");
            append_str(&mut k, session_part(session));
            append_str(&mut k, ":");
            append_str(&mut k, id.as_str());
        },
        EntryAction::FocusTab { session, id } => {
            append_str(&mut k, "open:tab:");
            append_str(&mut k, session_part(session));
            append_str(&mut k, ":");
            append_str(&mut k, id.as_str());
        },
        EntryAction::OpenRemote { target } => {
            append_str(&mut k, "remote:");
            append_str(&mut k, target.as_str());
        },
        EntryAction::RunCommand { command, .. } => {
            let name = e.source_name();
            append_str(&mut k, name.as_str());
            append_str(&mut k, ":");
            append_str(&mut k, command.as_str());
        },
        _ => {
            let key = e.key();
            if matches!(e.source, Source::Project | Source::Zoxide | Source::Root) {
                append_str(&mut k, "directory:");
            } else {
                let name = e.source_name();
                append_str(&mut k, name.as_str());
                append_str(&mut k, ":");
            }
            append_str(&mut k, key.as_str());
        },
    }
    assert(k@ =~= dedup_key_of(*e));
    string_of(k.as_slice())
}

} // verus!

verus! {

/// The directory entry of `entries` at or after `from` whose path key is `k`: the first
/// project, zoxide or root Entry with that key.
pub open spec fn dir_match_from(entries: Seq<Entry>, k: Seq<char>, from: int) -> Option<int>
    decreases entries.len() - from,
{
    if from < 0 || from >= entries.len() {
        None
    } else if is_directory_source(entries[from].source) && entry_key(entries[from]) == k {
        Some(from)
    } else {
        dir_match_from(entries, k, from + 1)
    }
}

/// `entries` and `seen` after adding `incoming` in order: an Entry whose dedup key is new
/// is appended and its key recorded; a root Entry whose key was seen replaces the first
/// directory Entry with its path; any other repeated Entry is dropped.
pub open spec fn pushed_unique(entries: Seq<Entry>, seen: Set<Seq<char>>, incoming: Seq<Entry>) -> (
    Seq<Entry>,
    Set<Seq<char>>,
)
    decreases incoming.len(),
{
    if incoming.len() == 0 {
        (entries, seen)
    } else {
        let prev = pushed_unique(entries, seen, incoming.drop_last());
        let e = incoming.last();
        let k = dedup_key_of(e);
        if !prev.1.contains(k) {
            (prev.0.push(e), prev.1.insert(k))
        } else if e.source == Source::Root {
            match dir_match_from(prev.0, entry_key(e), 0) {
                Some(j) => (prev.0.update(j, e), prev.1),
                None => prev,
            }
        } else {
            prev
        }
    }
}

proof fn lemma_dir_match_in_range(entries: Seq<Entry>, k: Seq<char>, from: int)
    ensures
        dir_match_from(entries, k, from) matches Some(j) ==> 0 <= from <= j < entries.len(),
    decreases entries.len() - from,
{
    if 0 <= from < entries.len() {
        lemma_dir_match_in_range(entries, k, from + 1);
    }
}

fn find_dir_match(entries: &Vec<Entry>, key: &str) -> (r: Option<usize>)
    ensures
        r matches Some(j) ==> dir_match_from(entries@, key@, 0) == Some(j as int),
        r is None ==> dir_match_from(entries@, key@, 0) is None,
{
    let mut i: usize = 0;
    while i < entries.len()
        invariant
            i <= entries.len(),
            dir_match_from(entries@, key@, 0) == dir_match_from(entries@, key@, i as int),
        decreases entries.len() - i,
    {
        let e = &entries[i];
        if matches!(e.source, Source::Project | Source::Zoxide | Source::Root) {
            let k = e.key();
            if crate::text::eq_str(k.as_str(), key) {
                return Some(i);
            }
        }
        i = i + 1;
    }
    None
}

/// Adds collected Entries, dropping those whose destination is already listed; a root
/// Entry replaces the project or zoxide Entry of the same directory.
pub fn push_unique(entries: &mut Vec<Entry>, seen: &mut KeySet, incoming: Vec<Entry>)
    ensures
        (final(entries)@, final(seen)@) == pushed_unique(old(entries)@, old(seen)@, incoming@),
{
    let ghost e0 = entries@;
    let ghost s0 = seen@;
    let ghost inc = incoming@;
    let mut rest = incoming;
    let total = rest.len();
    assert(total == inc.len());
    let mut i: usize = 0;
    assert(inc.take(0) =~= Seq::<Entry>::empty());
    while rest.len() > 0
        invariant
            i <= inc.len(),
            inc.len() <= usize::MAX,
            rest@ == inc.skip(i as int),
            (entries@, seen@) == pushed_unique(e0, s0, inc.take(i as int)),
        decreases rest.len(),
    {
        let e = rest.remove(0);
        assert(inc.take(i + 1).drop_last() =~= inc.take(i as int));
        assert(inc.take(i + 1).last() == e);
        assert(rest@ =~= inc.skip(i + 1));
        let key = dedup_key(&e);
        if !seen.contains(key.as_str()) {
            seen.insert(key);
            entries.push(e);
        } else if e.source == Source::Root {
            let path_key = e.key();
            match find_dir_match(entries, path_key.as_str()) {
                Some(j) => {
                    proof {
                        lemma_dir_match_in_range(entries@, path_key@, 0);
                    }
                    entries.set(j, e);
                },
                None => {},
            }
        }
        i = i + 1;
    }
    assert(inc.take(i as int) =~= inc);
}

/// Law: deduplication adds one Entry per new destination key: the number of Entries
/// grows exactly as the set of seen keys does.
pub proof fn law_push_unique_one_entry_per_new_key(
    entries: Seq<Entry>,
    seen: Set<Seq<char>>,
    incoming: Seq<Entry>,
)
    requires
        seen.finite(),
    ensures
        pushed_unique(entries, seen, incoming).1.finite(),
        pushed_unique(entries, seen, incoming).0.len() - entries.len() == pushed_unique(
            entries,
            seen,
            incoming,
        ).1.len() - seen.len(),
        seen.subset_of(pushed_unique(entries, seen, incoming).1),
    decreases incoming.len(),
{
    if incoming.len() > 0 {
        law_push_unique_one_entry_per_new_key(entries, seen, incoming.drop_last());
        let prev = pushed_unique(entries, seen, incoming.drop_last());
        let e = incoming.last();
        let k = dedup_key_of(e);
        if !prev.1.contains(k) {
            assert(prev.1.insert(k).len() == prev.1.len() + 1);
        } else if e.source == Source::Root {
            match dir_match_from(prev.0, entry_key(e), 0) {
                Some(j) => {
                    lemma_dir_match_in_range(prev.0, entry_key(e), 0);
                    assert(prev.0.update(j, e).len() == prev.0.len());
                },
                None => {},
            }
        }
    }
}

} // verus!

verus! {

/// The agent target of a legacy `agent:` mark key.
pub open spec fn legacy_target(k: Seq<char>) -> Option<Seq<char>> {
    if "agent:"@.is_prefix_of(k) {
        Some(k.skip(6))
    } else {
        None
    }
}

/// The first Pane Entry at or after `from` whose agent target is `target`.
pub open spec fn pane_match_from(entries: Seq<Entry>, target: Seq<char>, from: int) -> Option<int>
    decreases entries.len() - from,
{
    if from < 0 || from >= entries.len() {
        None
    } else if opt_view(entries[from].agent_target) == Some(target) && entries[from].action is FocusPane {
        Some(from)
    } else {
        pane_match_from(entries, target, from + 1)
    }
}

/// A legacy mark key that names the agent target of some Pane Entry.
pub open spec fn migrates(entries: Seq<Entry>, k: Seq<char>) -> bool {
    legacy_target(k) is Some && pane_match_from(entries, legacy_target(k)->0, 0) is Some
}

/// The session-qualified Pane key that a migrating legacy key becomes.
pub open spec fn migrated_key(entries: Seq<Entry>, k: Seq<char>) -> Seq<char> {
    pin_key_of(entries[pane_match_from(entries, legacy_target(k)->0, 0)->0])
}

/// The marks after migrating the legacy keys in `done`: each migrating key is replaced by
/// the Pane key of its agent's Pane Entry.
pub open spec fn partially_migrated(entries: Seq<Entry>, pins: Set<Seq<char>>, done: Set<Seq<char>>) -> Set<
    Seq<char>,
> {
    Set::new(
        |k: Seq<char>|
            (pins.contains(k) && !(done.contains(k) && migrates(entries, k))) || exists|l: Seq<char>|
                pins.contains(l) && done.contains(l) && migrates(entries, l) && #[trigger] migrated_key(
                    entries,
                    l,
                ) == k,
    )
}

/// The marks after migrating every legacy `agent:` key that names a Pane Entry.
pub open spec fn migrated(entries: Seq<Entry>, pins: Set<Seq<char>>) -> Set<Seq<char>> {
    partially_migrated(entries, pins, pins)
}

fn find_pane_match(entries: &[Entry], target: &str) -> (r: Option<usize>)
    ensures
        r matches Some(j) ==> pane_match_from(entries@, target@, 0) == Some(j as int) && j < entries@.len(),
        r is None ==> pane_match_from(entries@, target@, 0) is None,
{
    let mut i: usize = 0;
    while i < entries.len()
        invariant
            i <= entries.len(),
            pane_match_from(entries@, target@, 0) == pane_match_from(entries@, target@, i as int),
        decreases entries.len() - i,
    {
        let e = &entries[i];
        if let Some(t) = &e.agent_target {
            if crate::text::eq_str(t.as_str(), target) && matches!(e.action, EntryAction::FocusPane { .. }) {
                return Some(i);
            }
        }
        i = i + 1;
    }
    None
}

proof fn lemma_pane_key_not_legacy(e: Entry)
    requires
        e.action is FocusPane,
    ensures
        legacy_target(pin_key_of(e)) is None,
{
    reveal_strlit("pane:");
    reveal_strlit("agent:");
    let k = pin_key_of(e);
    assert(k[0] == 'p');
    assert("agent:"@[0] == 'a');
}

proof fn lemma_pane_match_in_range(entries: Seq<Entry>, t: Seq<char>, from: int)
    ensures
        pane_match_from(entries, t, from) matches Some(j) ==> 0 <= from <= j < entries.len()
            && entries[j].action is FocusPane,
    decreases entries.len() - from,
{
    if 0 <= from < entries.len() {
        lemma_pane_match_in_range(entries, t, from + 1);
    }
}

proof fn lemma_migrated_key_not_legacy(entries: Seq<Entry>, l: Seq<char>)
    requires
        migrates(entries, l),
    ensures
        legacy_target(migrated_key(entries, l)) is None,
{
    lemma_pane_match_in_range(entries, legacy_target(l)->0, 0);
    lemma_pane_key_not_legacy(entries[pane_match_from(entries, legacy_target(l)->0, 0)->0]);
}

/// Rewrites legacy `agent:` marks as the session-qualified keys of the Panes their agents
/// run in; true when some mark changed.
pub fn migrate_legacy_topology_pins(entries: &[Entry], pins: &mut KeySet) -> (changed: bool)
    ensures
        final(pins)@ == migrated(entries@, old(pins)@),
        changed == exists|l: Seq<char>| old(pins)@.contains(l) && #[trigger] migrates(entries@, l),
{
    let ghost orig = pins@;
    let keys = {
        let ks = pins.keys();
        crate::model::clone_strings(ks)
    };
    let ghost ks = strings_view(keys@);
    assert(ks.to_set() == orig);
    assert(ks.no_duplicates());
    let mut changed = false;
    let mut i: usize = 0;
    assert(ks.take(0).to_set() =~= Set::<Seq<char>>::empty());
    assert(pins@ =~= partially_migrated(entries@, orig, Set::<Seq<char>>::empty()));
    while i < keys.len()
        invariant
            i <= keys.len(),
            ks == strings_view(keys@),
            ks.to_set() == orig,
            ks.no_duplicates(),
            pins@ == partially_migrated(entries@, orig, ks.take(i as int).to_set()),
            changed == exists|l: Seq<char>| ks.take(i as int).to_set().contains(l) && orig.contains(l)
                && #[trigger] migrates(entries@, l),
        decreases keys.len() - i,
    {
        let ghost done = ks.take(i as int).to_set();
        let ghost k = ks[i as int];
        let ghost before = pins@;
        assert(ks.take(i + 1) =~= ks.take(i as int).push(k));
        assert(ks.take(i + 1).to_set() =~= done.insert(k));
        assert(orig.contains(k)) by {
            assert(ks.contains(k));
        }
        assert(!done.contains(k)) by {
            if done.contains(k) {
                let j = choose|j: int| 0 <= j < ks.take(i as int).len() && ks.take(i as int)[j] == k;
                assert(ks[j] == ks[i as int]);
            }
        }
        let kc = crate::text::chars_of(keys[i].as_str());
        let prefix = crate::text::chars_of("agent:");
        if crate::text::starts_with(kc.as_slice(), prefix.as_slice()) {
            proof {
                reveal_strlit("agent:");
            }
            let target_chars = crate::text::slice_vec(kc.as_slice(), 6, kc.len());
            let target = string_of(target_chars.as_slice());
            assert(target@ == legacy_target(k)->0);
            match find_pane_match(entries, target.as_str()) {
                Some(j) => {
                    pins.remove(keys[i].as_str());
                    let pk = pin_key(&entries[j]);
                    pins.insert(pk);
                    changed = true;
                    proof {
                        assert(migrates(entries@, k));
                        assert(migrated_key(entries@, k) == pk@);
                        lemma_migrated_key_not_legacy(entries@, k);
                        assert forall|x: Seq<char>| #[trigger] pins@.contains(x) == partially_migrated(
                            entries@,
                            orig,
                            done.insert(k),
                        ).contains(x) by {
                            if x == k {
                                if exists|l: Seq<char>| orig.contains(l) && done.insert(k).contains(l) && migrates(entries@, l)
                                    && #[trigger] migrated_key(entries@, l) == x {
                                    let l = choose|l: Seq<char>| orig.contains(l) && done.insert(k).contains(l) && migrates(entries@, l)
                                        && #[trigger] migrated_key(entries@, l) == x;
                                    lemma_migrated_key_not_legacy(entries@, l);
                                }
                                if before.contains(x) && x != pk@ {
                                    if exists|l: Seq<char>| orig.contains(l) && done.contains(l) && migrates(entries@, l)
                                        && #[trigger] migrated_key(entries@, l) == x {
                                        let l = choose|l: Seq<char>| orig.contains(l) && done.contains(l) && migrates(entries@, l)
                                            && #[trigger] migrated_key(entries@, l) == x;
                                        lemma_migrated_key_not_legacy(entries@, l);
                                    }
                                }
                            } else if x == pk@ {
                                assert(migrated_key(entries@, k) == x);
                            } else {
                                if partially_migrated(entries@, orig, done.insert(k)).contains(x) {
                                    if !(orig.contains(x) && !(done.insert(k).contains(x) && migrates(entries@, x))) {
                                        let l = choose|l: Seq<char>| orig.contains(l) && done.insert(k).contains(l) && migrates(entries@, l)
                                            && #[trigger] migrated_key(entries@, l) == x;
                                        assert(l != k);
                                        assert(done.contains(l));
                                    }
                                }
                                if before.contains(x) {
                                    if !(orig.contains(x) && !(done.contains(x) && migrates(entries@, x))) {
                                        let l = choose|l: Seq<char>| orig.contains(l) && done.contains(l) && migrates(entries@, l)
                                            && #[trigger] migrated_key(entries@, l) == x;
                                        assert(done.insert(k).contains(l));
                                    }
                                }
                            }
                        }
                        assert(pins@ =~= partially_migrated(entries@, orig, done.insert(k)));
                        assert(ks.take(i + 1).to_set().contains(k));
                    }
                },
                None => {
                    proof {
                        assert(!migrates(entries@, k));
                        assert(partially_migrated(entries@, orig, done.insert(k)) =~= partially_migrated(
                            entries@,
                            orig,
                            done,
                        ));
                    }
                },
            }
        } else {
            proof {
                assert(legacy_target(k) is None);
                assert(!migrates(entries@, k));
                assert(partially_migrated(entries@, orig, done.insert(k)) =~= partially_migrated(
                    entries@,
                    orig,
                    done,
                ));
            }
        }
        proof {
            let ghost next = ks.take(i + 1).to_set();
            assert(changed == exists|l: Seq<char>| next.contains(l) && orig.contains(l) && #[trigger] migrates(entries@, l)) by {
                if exists|l: Seq<char>| next.contains(l) && orig.contains(l) && #[trigger] migrates(entries@, l) {
                    let l = choose|l: Seq<char>| next.contains(l) && orig.contains(l) && #[trigger] migrates(entries@, l);
                    if l != k {
                        assert(done.contains(l));
                    }
                }
            }
        }
        i = i + 1;
    }
    assert(ks.take(keys.len() as int) =~= ks);
    changed
}

} // verus!

verus! {

/// Actions whose success moves the User to another local Workspace.
pub open spec fn tracks_transition(a: EntryAction) -> bool {
    a is FocusAgent || a is FocusPane || a is FocusWorkspace || a is FocusTab || a is OpenProject
        || a is FocusOrCreateDir
}

/// Whether a successful `action` is a Workspace transition that Jump Back records.
pub fn tracks_workspace_transition(action: &EntryAction) -> (r: bool)
    ensures
        r == tracks_transition(*action),
{
    matches!(
        action,
        EntryAction::FocusAgent { .. } | EntryAction::FocusPane { .. } | EntryAction::FocusWorkspace { .. }
            | EntryAction::FocusTab { .. } | EntryAction::OpenProject | EntryAction::FocusOrCreateDir
    )
}

/// The (session, Workspace) that a successful action on `e` leads to when the Entry
/// itself names it: a Workspace's own ID, and for a Tab, Pane or agent the Entry's
/// Workspace (an agent in the current session).
pub open spec fn destination_of(e: Entry, current_session: Option<String>) -> Option<
    (Option<String>, String),
> {
    match e.action {
        EntryAction::FocusWorkspace { session, id } => Some((session, id)),
        EntryAction::FocusTab { session, .. } => match e.workspace_id {
            Some(w) => Some((session, w)),
            None => None,
        },
        EntryAction::FocusAgent { .. } => match e.workspace_id {
            Some(w) => Some((current_session, w)),
            None => None,
        },
        EntryAction::FocusPane { session, .. } => match e.workspace_id {
            Some(w) => Some((session, w)),
            None => None,
        },
        _ => None,
    }
}

/// The (session, Workspace) that a successful action on `e` leads to, when the Entry
/// names it; `current_session` is the session the Picker runs in.
pub fn recent_destination_for_entry(e: &Entry, current_session: Option<String>) -> (r: Option<
    (Option<String>, String),
>)
    ensures
        r == destination_of(*e, current_session),
{
    match &e.action {
        EntryAction::FocusWorkspace { session, id } => Some((clone_opt(session), id.clone())),
        EntryAction::FocusTab { session, .. } => match &e.workspace_id {
            Some(w) => Some((clone_opt(session), w.clone())),
            None => None,
        },
        EntryAction::FocusAgent { .. } => match &e.workspace_id {
            Some(w) => Some((current_session, w.clone())),
            None => None,
        },
        EntryAction::FocusPane { session, .. } => match &e.workspace_id {
            Some(w) => Some((clone_opt(session), w.clone())),
            None => None,
        },
        _ => None,
    }
}

/// After an agent, project or directory action succeeded, the Workspace it resulted in,
/// in the current session; no destination otherwise.
pub fn recent_destination_after_indirect_success(
    action: &EntryAction,
    resulting_workspace_id: Option<&str>,
    current_session: Option<String>,
) -> (r: Option<(Option<String>, String)>)
    ensures
        (action is FocusAgent || action is OpenProject || action is FocusOrCreateDir)
            && resulting_workspace_id is Some ==> r is Some && (r->0).0 == current_session
            && (r->0).1@ == resulting_workspace_id->0@,
        !((action is FocusAgent || action is OpenProject || action is FocusOrCreateDir)
            && resulting_workspace_id is Some) ==> r is None,
{
    if matches!(action, EntryAction::FocusAgent { .. } | EntryAction::OpenProject | EntryAction::FocusOrCreateDir) {
        match resulting_workspace_id {
            Some(w) => Some((current_session, w.to_owned())),
            None => None,
        }
    } else {
        None
    }
}

/// The Workspace to remember as previous after a transition: the origin, when both ends
/// are known and differ.
pub fn previous_workspace_to_record<'a>(origin: Option<&'a str>, destination: Option<&str>) -> (r:
    Option<&'a str>)
    ensures
        r == (match (origin, destination) {
            (Some(o), Some(d)) => if o@ != d@ {
                Some(o)
            } else {
                None
            },
            _ => None,
        }),
{
    match (origin, destination) {
        (Some(o), Some(d)) => {
            if crate::text::eq_str(o, d) {
                None
            } else {
                Some(o)
            }
        },
        _ => None,
    }
}

/// Whether an Entry is the focused Workspace (it carries the `focused` search term).
pub fn is_focused_workspace_entry(entry: &Entry) -> (r: bool)
    ensures
        r == strings_view(entry.search_terms@).contains("focused"@),
{
    crate::text::contains_string(entry.search_terms.as_slice(), "focused")
}

/// The mark key an Entry had before Pane keys were session-qualified: none remains.
pub fn legacy_current_workspace_pin_key(_entry: &Entry) -> (r: Option<String>)
    ensures
        r is None,
{
    None
}

/// The label of an Entry's Source when no explicit label is set.
pub fn ordinary_source_label(entry: &Entry) -> (r: &'static str)
    ensures
        r@ == crate::model::ordinary_label(*entry),
{
    entry.ordinary_label()
}

/// The persisted Jump Back target: a Workspace of a session.
#[derive(Debug, Clone)]
pub struct JumpBackState {
    pub session: String,
    pub workspace_id: String,
}

/// What decoding a persisted Jump Back value gives.
pub open spec fn decoded_previous(
    value: Seq<char>,
    parsed: Option<JumpBackState>,
    current_session: Seq<char>,
    allow_legacy_default: bool,
) -> Result<Seq<char>, Seq<char>> {
    let v = crate::text::trim(value);
    if v.len() == 0 {
        Err("no previous workspace yet"@)
    } else if parsed is Some {
        if parsed->0.session@ == current_session {
            Ok(parsed->0.workspace_id@)
        } else {
            Err("previous workspace belongs to another session"@)
        }
    } else if allow_legacy_default && current_session == "default"@ {
        Ok(v)
    } else {
        Err("legacy jump-back state has no safe session identity"@)
    }
}

/// The characters of a string result.
pub open spec fn result_view(r: Result<String, String>) -> Result<Seq<char>, Seq<char>> {
    match r {
        Ok(s) => Ok(s@),
        Err(s) => Err(s@),
    }
}

/// Decodes a persisted Jump Back value. `parsed` is the value, trimmed, read as a
/// session-qualified state (`None` when it is not one). A state of another session is
/// refused; a bare legacy ID is accepted only for the `default` session when allowed.
pub fn decode_previous_workspace(
    value: &str,
    parsed: Option<JumpBackState>,
    current_session: &str,
    allow_legacy_default: bool,
) -> (r: Result<String, String>)
    ensures
        result_view(r) == decoded_previous(value@, parsed, current_session@, allow_legacy_default),
{
    let v = crate::text::trim_chars(crate::text::chars_of(value).as_slice());
    if v.len() == 0 {
        return Err("no previous workspace yet".to_owned());
    }
    match parsed {
        Some(state) => {
            if crate::text::eq_str(state.session.as_str(), current_session) {
                Ok(state.workspace_id)
            } else {
                Err("previous workspace belongs to another session".to_owned())
            }
        },
        None => {
            if allow_legacy_default && crate::text::eq_str(current_session, "default") {
                Ok(string_of(v.as_slice()))
            } else {
                Err("legacy jump-back state has no safe session identity".to_owned())
            }
        },
    }
}


/// What is remembered after opening an Entry: the Workspace to save as previous for Jump
/// Back, and the (session, Workspace) to record as visited.
pub struct AfterOpen {
    pub previous: Option<String>,
    pub visited: Option<(Option<String>, String)>,
}

/// What opening `action` leaves to remember, given whether it succeeded, whether the
/// Workspace transition is tracked, the origin Workspace, the Workspace current after it,
/// the destination that the Entry names and the current session: nothing after a failure;
/// after a success, the origin as previous when tracked and it differs from the current
/// Workspace, and as visited the named destination, else the resulting Workspace of an
/// agent, project or directory action.
pub fn after_open(
    succeeded: bool,
    tracks: bool,
    origin: Option<&str>,
    current: Option<&str>,
    named: Option<(Option<String>, String)>,
    action: &EntryAction,
    session: Option<String>,
) -> (r: AfterOpen)
    ensures
        !succeeded ==> r.previous is None && r.visited is None,
        succeeded ==> crate::model::opt_view(r.previous) == (if tracks {
            match (origin, current) {
                (Some(o), Some(d)) => if o@ != d@ {
                    Some(o@)
                } else {
                    None
                },
                _ => None,
            }
        } else {
            None
        }),
        succeeded && named is Some ==> r.visited == named,
        succeeded && named is None ==> match r.visited {
            Some(v) => (action is FocusAgent || action is OpenProject || action is FocusOrCreateDir)
                && current is Some && v.0 == session && v.1@ == current->0@,
            None => !((action is FocusAgent || action is OpenProject || action is FocusOrCreateDir)
                && current is Some),
        },
{
    if !succeeded {
        return AfterOpen { previous: None, visited: None };
    }
    let previous = if tracks {
        match previous_workspace_to_record(origin, current) {
            Some(p) => Some(p.to_owned()),
            None => None,
        }
    } else {
        None
    };
    let visited = match named {
        Some(d) => Some(d),
        None => recent_destination_after_indirect_success(action, current, session),
    };
    AfterOpen { previous, visited }
}

} // verus!
