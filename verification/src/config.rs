//! Plugin configuration: enabled Sources, Picker ranking, Jump Back, notifications,
//! remote targets, agent aliases and roots.
use vstd::prelude::*;
use crate::model::{source_label, Source};
use crate::text::{chars_of, eq_str, starts_with, strings_view};

verus! {

/// Which Sources are collected.
#[derive(Clone, Debug)]
pub struct SourcesConfig {
    pub open_workspaces: bool,
    pub agents: bool,
    pub herdr_plus_projects: bool,
    pub herdr_plus_quick_actions: bool,
    pub sessions: bool,
    pub servers: bool,
    pub zoxide: bool,
    pub roots: bool,
}

/// Whether a Source is enabled by the Sources configuration.
pub open spec fn source_enabled(c: SourcesConfig, s: Source) -> bool {
    match s {
        Source::Workspace => c.open_workspaces,
        Source::Agent => c.agents,
        Source::Project => c.herdr_plus_projects,
        Source::QuickAction => c.herdr_plus_quick_actions,
        Source::Session => c.sessions,
        Source::Server => c.servers,
        Source::Zoxide => c.zoxide,
        Source::Root => c.roots,
        Source::Integration => true,
    }
}

impl SourcesConfig {
    /// Whether `source` is enabled (integrations always are).
    pub fn enabled(&self, source: &Source) -> (r: bool)
        ensures
            r == source_enabled(*self, *source),
    {
        match source {
            Source::Workspace => self.open_workspaces,
            Source::Agent => self.agents,
            Source::Project => self.herdr_plus_projects,
            Source::QuickAction => self.herdr_plus_quick_actions,
            Source::Session => self.sessions,
            Source::Server => self.servers,
            Source::Zoxide => self.zoxide,
            Source::Root => self.roots,
            Source::Integration => true,
        }
    }
}

/// Picker behaviour and ranking.
#[derive(Clone, Debug)]
pub struct PickerConfig {
    pub reuse_existing: bool,
    pub create_missing: bool,
    pub engine: String,
    pub source_order: Vec<String>,
    pub source_priority_boost: i64,
    pub agent_sort: String,
    pub popup_width: u8,
    pub popup_height: u8,
    pub check_updates: bool,
    pub directory_template: Option<String>,
    pub directory_template_key: String,
}

/// The position of the first entry of `order` that names `s`, or `order.len()` when none
/// does.
pub open spec fn rank_from(order: Seq<Seq<char>>, s: Source, from: int) -> int
    decreases order.len() - from,
{
    if from < 0 || from >= order.len() {
        order.len() as int
    } else if order[from] == source_label(s) {
        from
    } else {
        rank_from(order, s, from + 1)
    }
}

/// The rank of a Source in the configured order.
pub open spec fn source_rank_of(c: PickerConfig, s: Source) -> int {
    rank_from(strings_view(c.source_order@), s, 0)
}

/// `x` limited to the `i64` range.
pub open spec fn clamp_i64(x: int) -> int {
    if x > i64::MAX {
        i64::MAX as int
    } else if x < i64::MIN {
        i64::MIN as int
    } else {
        x
    }
}

/// The ranking bonus of a Source: the priority boost times the number of positions it
/// stands from the end of the configured order (0 when it is not listed).
pub open spec fn source_bonus_of(c: PickerConfig, s: Source) -> int {
    let n = c.source_order@.len() as int;
    let rank = source_rank_of(c, s);
    if rank < n {
        clamp_i64(c.source_priority_boost * (n - rank))
    } else {
        0
    }
}

proof fn lemma_rank_bound(order: Seq<Seq<char>>, s: Source, from: int)
    requires
        0 <= from,
    ensures
        from <= rank_from(order, s, from) <= order.len() || order.len() < from,
        rank_from(order, s, from) <= order.len(),
    decreases order.len() - from,
{
    if from < order.len() && order[from] != source_label(s) {
        lemma_rank_bound(order, s, from + 1);
    }
}

impl PickerConfig {
    /// The rank of a Source in the configured order.
    pub fn source_rank(&self, source: &Source) -> (r: usize)
        ensures
            r == source_rank_of(*self, *source),
    {
        let label = source.label();
        let mut i: usize = 0;
        while i < self.source_order.len()
            invariant
                i <= self.source_order@.len(),
                label@ == source_label(*source),
                source_rank_of(*self, *source) == rank_from(strings_view(self.source_order@), *source, i as int),
            decreases self.source_order.len() - i,
        {
            if eq_str(self.source_order[i].as_str(), label) {
                return i;
            }
            i = i + 1;
        }
        i
    }

    /// The ranking bonus of a Source.
    pub fn source_bonus(&self, source: &Source) -> (r: i64)
        ensures
            r == source_bonus_of(*self, *source),
    {
        let rank = self.source_rank(source);
        let n = self.source_order.len();
        proof {
            lemma_rank_bound(strings_view(self.source_order@), *source, 0);
        }
        if rank < n {
            let steps = (n - rank) as i128;
            let boost = self.source_priority_boost as i128;
            assert(boost * steps <= 0x8000_0000_0000_0000 * 0xFFFF_FFFF_FFFF_FFFF) by (nonlinear_arith)
                requires
                    -0x8000_0000_0000_0000 <= boost <= 0x7FFF_FFFF_FFFF_FFFF,
                    0 < steps <= 0xFFFF_FFFF_FFFF_FFFF,
            ;
            assert(boost * steps >= -0x8000_0000_0000_0000 * 0xFFFF_FFFF_FFFF_FFFF) by (nonlinear_arith)
                requires
                    -0x8000_0000_0000_0000 <= boost <= 0x7FFF_FFFF_FFFF_FFFF,
                    0 < steps <= 0xFFFF_FFFF_FFFF_FFFF,
            ;
            let product = boost * steps;
            if product > i64::MAX as i128 {
                i64::MAX
            } else if product < i64::MIN as i128 {
                i64::MIN
            } else {
                product as i64
            }
        } else {
            0
        }
    }
}

/// Jump Back settings.
#[derive(Clone, Debug)]
pub struct JumpBackConfig {
    pub enabled: bool,
    pub pin_previous: bool,
}

/// Notification settings.
#[derive(Clone, Debug)]
pub struct NotificationsConfig {
    pub enabled: bool,
    pub audio: bool,
    pub sound: String,
    pub custom_sound: Option<String>,
}

impl Default for NotificationsConfig {
    fn default() -> (r: NotificationsConfig)
        ensures
            r.enabled,
            !r.audio,
            r.sound@ == "default"@,
            r.custom_sound is None,
    {
        NotificationsConfig {
            enabled: true,
            audio: false,
            sound: "default".to_owned(),
            custom_sound: None,
        }
    }
}

/// A configured session entry; one with a remote target is a Server destination.
#[derive(Clone, Debug)]
pub struct SessionEntryConfig {
    pub name: String,
    pub remote: Option<String>,
    pub tags: Vec<String>,
}

/// The configured session entries.
#[derive(Clone, Debug)]
pub struct SessionsConfig {
    pub entries: Vec<SessionEntryConfig>,
}

/// A memorable search term for agents, given when every criterion that is set matches.
#[derive(Clone, Debug)]
pub struct AgentAliasConfig {
    pub alias: String,
    pub agent: Option<String>,
    pub workspace: Option<String>,
    pub path: Option<String>,
}

/// An alias applies when its agent name and Workspace label, where set, are equal to the
/// agent's, and its path, where set, begins the agent's working directory.
pub open spec fn alias_matches(a: AgentAliasConfig, agent: Seq<char>, workspace: Seq<char>, cwd: Seq<char>) -> bool {
    &&& (a.agent matches Some(x) ==> x@ == agent)
    &&& (a.workspace matches Some(x) ==> x@ == workspace)
    &&& (a.path matches Some(x) ==> x@.is_prefix_of(cwd))
}

impl AgentAliasConfig {
    /// Whether the alias applies to an agent in `workspace` working in `cwd`.
    pub fn matches(&self, agent: &str, workspace: &str, cwd: &str) -> (r: bool)
        ensures
            r == alias_matches(*self, agent@, workspace@, cwd@),
    {
        let agent_ok = match &self.agent {
            Some(x) => eq_str(x.as_str(), agent),
            None => true,
        };
        let workspace_ok = match &self.workspace {
            Some(x) => eq_str(x.as_str(), workspace),
            None => true,
        };
        let path_ok = match &self.path {
            Some(x) => {
                let c = chars_of(cwd);
                let p = chars_of(x.as_str());
                starts_with(c.as_slice(), p.as_slice())
            },
            None => true,
        };
        agent_ok && workspace_ok && path_ok
    }
}

/// A filesystem root scanned for project directories.
#[derive(Clone, Debug)]
pub struct RootConfig {
    pub path: String,
    pub max_depth: usize,
}

/// The plugin configuration.
#[derive(Clone, Debug)]
pub struct Config {
    pub picker: PickerConfig,
    pub sources: SourcesConfig,
    pub jump_back: JumpBackConfig,
    pub notifications: NotificationsConfig,
    pub sessions: SessionsConfig,
    pub agent_aliases: Vec<AgentAliasConfig>,
    pub roots: Vec<RootConfig>,
}

/// The default Source order.
pub open spec fn default_source_order() -> Seq<Seq<char>> {
    seq![
        "workspace"@,
        "agent"@,
        "project"@,
        "session"@,
        "zoxide"@,
        "root"@,
        "server"@,
        "quick"@,
        "plugin"@,
    ]
}

fn default_source_order_vec() -> (r: Vec<String>)
    ensures
        strings_view(r@) == default_source_order(),
{
    let mut v: Vec<String> = Vec::new();
    v.push("workspace".to_owned());
    v.push("agent".to_owned());
    v.push("project".to_owned());
    v.push("session".to_owned());
    v.push("zoxide".to_owned());
    v.push("root".to_owned());
    v.push("server".to_owned());
    v.push("quick".to_owned());
    v.push("plugin".to_owned());
    assert(strings_view(v@) =~= default_source_order());
    v
}

impl Default for Config {
    /// The documented defaults: reuse and create Workspaces, every Source but sessions
    /// enabled, Jump Back enabled and pinned, notifications on without sound.
    fn default() -> (r: Config)
        ensures
            r.picker.reuse_existing && r.picker.create_missing,
            r.picker.engine@ == "nucleo"@,
            strings_view(r.picker.source_order@) == default_source_order(),
            r.picker.source_priority_boost == 5,
            r.picker.agent_sort@ == "herdr"@,
            r.picker.popup_width == 90 && r.picker.popup_height == 90,
            r.picker.check_updates,
            r.picker.directory_template is None,
            r.picker.directory_template_key@ == "alt-enter"@,
            r.sources.open_workspaces && r.sources.agents && r.sources.herdr_plus_projects
                && r.sources.herdr_plus_quick_actions && !r.sources.sessions && r.sources.servers
                && r.sources.zoxide && r.sources.roots,
            r.jump_back.enabled && r.jump_back.pin_previous,
            r.notifications.enabled && !r.notifications.audio,
            r.notifications.sound@ == "default"@,
            r.notifications.custom_sound is None,
            r.sessions.entries@.len() == 0,
            r.agent_aliases@.len() == 0,
            r.roots@.len() == 0,
    {
        Config {
            picker: PickerConfig {
                reuse_existing: true,
                create_missing: true,
                engine: "nucleo".to_owned(),
                source_order: default_source_order_vec(),
                source_priority_boost: 5,
                agent_sort: "herdr".to_owned(),
                popup_width: 90,
                popup_height: 90,
                check_updates: true,
                directory_template: None,
                directory_template_key: "alt-enter".to_owned(),
            },
            sources: SourcesConfig {
                open_workspaces: true,
                agents: true,
                herdr_plus_projects: true,
                herdr_plus_quick_actions: true,
                sessions: false,
                servers: true,
                zoxide: true,
                roots: true,
            },
            jump_back: JumpBackConfig { enabled: true, pin_previous: true },
            notifications: NotificationsConfig::default(),
            sessions: SessionsConfig { entries: Vec::new() },
            agent_aliases: Vec::new(),
            roots: Vec::new(),
        }
    }
}


/// A popup dimension from the settings: a percentage from 1 to 100 is kept, anything else
/// gives `default`.
pub fn popup_percentage(value: u8, default: u8) -> (r: u8)
    ensures
        r == if 1 <= value <= 100 {
            value
        } else {
            default
        },
{
    if 1 <= value && value <= 100 {
        value
    } else {
        default
    }
}

} // verus!
