//! The text of Result rows: titles, statuses, metadata, paths, truncation to a width,
//! and the palette roles of statuses and Sources.
use vstd::prelude::*;
use crate::app::App;
use crate::model::{Entry, EntryAction, Source};
use crate::query::first_stripped;
use crate::render::display_width;
use crate::text::{append_str, chars_of, contains, find, lowercase_of, string_of, strings_view, words};

verus! {

/// The palette roles that rows are drawn in.
#[derive(Clone, Copy, Debug, PartialEq, Eq, Structural)]
pub enum Tone {
    Red,
    Yellow,
    Teal,
    Green,
    Blue,
    Mauve,
    Overlay,
}

/// Workspace, Tab and Pane Entries belong to the topology.
pub open spec fn is_topology(e: Entry) -> bool {
    e.action is FocusWorkspace || e.action is FocusTab || e.action is FocusPane
}

/// Whether an Entry belongs to the topology.
pub fn is_topology_entry(entry: &Entry) -> (r: bool)
    ensures
        r == is_topology(*entry),
{
    matches!(
        entry.action,
        EntryAction::FocusWorkspace { .. } | EntryAction::FocusTab { .. } | EntryAction::FocusPane { .. }
    )
}

/// `s` without the prefix `p`, when it has it.
pub open spec fn strip(s: Seq<char>, p: Seq<char>) -> Option<Seq<char>> {
    if p.is_prefix_of(s) {
        Some(s.skip(p.len() as int))
    } else {
        None
    }
}

fn strip_exec(s: &str, p: &str) -> (r: Option<String>)
    ensures
        crate::model::opt_view(r) == strip(s@, p@),
{
    let sc = chars_of(s);
    let pc = chars_of(p);
    if crate::text::starts_with(sc.as_slice(), pc.as_slice()) {
        let rest = crate::text::slice_vec(sc.as_slice(), pc.len(), sc.len());
        assert(rest@ =~= s@.skip(p@.len() as int));
        Some(string_of(rest.as_slice()))
    } else {
        None
    }
}

/// The title a row shows: a Workspace title without its `dir: ` or `project: ` prefix.
pub open spec fn display_title_of(e: Entry) -> Seq<char> {
    if e.source == Source::Workspace {
        match strip(e.title@, "dir: "@) {
            Some(t) => t,
            None => match strip(e.title@, "project: "@) {
                Some(t) => t,
                None => e.title@,
            },
        }
    } else {
        e.title@
    }
}

/// The title a row shows.
pub fn display_title(entry: &Entry) -> (r: String)
    ensures
        r@ == display_title_of(*entry),
{
    if entry.source == Source::Workspace {
        match strip_exec(entry.title.as_str(), "dir: ") {
            Some(t) => t,
            None => match strip_exec(entry.title.as_str(), "project: ") {
                Some(t) => t,
                None => entry.title.clone(),
            },
        }
    } else {
        entry.title.clone()
    }
}

/// The part of `s` before the first `sep`, or none when `sep` does not occur.
pub open spec fn before_sep(s: Seq<char>, sep: Seq<char>) -> Option<Seq<char>> {
    match find(s, sep) {
        Some(i) => Some(s.take(i)),
        None => None,
    }
}

/// The part of `s` after the first `sep`, or none when `sep` does not occur.
pub open spec fn after_sep(s: Seq<char>, sep: Seq<char>) -> Option<Seq<char>> {
    match find(s, sep) {
        Some(i) => Some(s.skip(i + sep.len())),
        None => None,
    }
}

fn split_once(s: &str, sep: &str) -> (r: Option<(String, String)>)
    ensures
        match r {
            Some((a, b)) => before_sep(s@, sep@) == Some(a@) && after_sep(s@, sep@) == Some(b@),
            None => before_sep(s@, sep@) is None && after_sep(s@, sep@) is None,
        },
{
    let sc = chars_of(s);
    let pc = chars_of(sep);
    match crate::text::find_chars(sc.as_slice(), pc.as_slice()) {
        Some(i) => {
            proof {
                crate::text::lemma_find(sc@, pc@);
            }
            let sl = sc.len();
            assert(i + pc@.len() <= sl);
            let j = i + pc.len();
            let a = crate::text::slice_vec(sc.as_slice(), 0, i);
            let b = crate::text::slice_vec(sc.as_slice(), j, sl);
            assert(a@ =~= s@.take(i as int));
            assert(b@ =~= s@.skip(i + sep@.len()));
            Some((string_of(a.as_slice()), string_of(b.as_slice())))
        },
        None => None,
    }
}

/// The status a row shows: an `agent-status:` search term, the part of an agent's
/// subtitle before ` · ` (`unknown` when empty or missing), or the part of an
/// `agent:` subtitle before ` · `.
pub open spec fn entry_status_of(e: Entry) -> Option<Seq<char>> {
    match first_stripped(strings_view(e.search_terms@), "agent-status:"@, 0) {
        Some(s) => Some(s),
        None => if e.source == Source::Agent {
            match before_sep(e.subtitle@, " · "@) {
                Some(s) => if s.len() > 0 {
                    Some(s)
                } else {
                    Some("unknown"@)
                },
                None => Some("unknown"@),
            }
        } else {
            match strip(e.subtitle@, "agent:"@) {
                Some(rest) => match before_sep(rest, " · "@) {
                    Some(s) => Some(s),
                    None => Some(rest),
                },
                None => None,
            }
        },
    }
}

/// The status a row shows.
pub fn entry_status(entry: &Entry) -> (r: Option<String>)
    ensures
        crate::model::opt_view(r) == entry_status_of(*entry),
{
    match crate::query::first_stripped_exec(entry.search_terms.as_slice(), "agent-status:") {
        Some(s) => {
            return Some(string_of(s.as_slice()));
        },
        None => {},
    }
    if entry.source == Source::Agent {
        match split_once(entry.subtitle.as_str(), " · ") {
            Some((s, _)) => if s.as_str().is_empty() {
                Some("unknown".to_owned())
            } else {
                Some(s)
            },
            None => Some("unknown".to_owned()),
        }
    } else {
        match strip_exec(entry.subtitle.as_str(), "agent:") {
            Some(rest) => match split_once(rest.as_str(), " · ") {
                Some((s, _)) => Some(s),
                None => Some(rest),
            },
            None => None,
        }
    }
}

/// The metadata a row shows: for a Workspace, its `tabs:` and `panes:` counts as
/// `N tabs · M panes` (else its subtitle after the agent status); the subtitle otherwise.
pub open spec fn entry_metadata_of(e: Entry) -> Seq<char> {
    if e.source == Source::Workspace {
        let metadata = match strip(e.subtitle@, "agent:"@) {
            Some(rest) => match after_sep(rest, " · "@) {
                Some(m) => m,
                None => e.subtitle@,
            },
            None => e.subtitle@,
        };
        let ws = words(metadata);
        if ws.len() >= 3 {
            match (strip(ws[1], "tabs:"@), strip(ws[2], "panes:"@)) {
                (Some(t), Some(p)) => t + " tabs · "@ + p + " panes"@,
                _ => metadata,
            }
        } else {
            metadata
        }
    } else {
        e.subtitle@
    }
}

/// The metadata a row shows.
pub fn entry_metadata(entry: &Entry) -> (r: String)
    ensures
        r@ == entry_metadata_of(*entry),
{
    if entry.source != Source::Workspace {
        return entry.subtitle.clone();
    }
    let metadata = match strip_exec(entry.subtitle.as_str(), "agent:") {
        Some(rest) => match split_once(rest.as_str(), " · ") {
            Some((_, m)) => m,
            None => entry.subtitle.clone(),
        },
        None => entry.subtitle.clone(),
    };
    let mc = chars_of(metadata.as_str());
    let ws = crate::text::split_whitespace(mc.as_slice());
    assert(ws@.map_values(|w: Vec<char>| w@) == words(metadata@));
    if ws.len() >= 3 {
        let tabs = string_of(ws[1].as_slice());
        let panes = string_of(ws[2].as_slice());
        assert(tabs@ == words(metadata@)[1]);
        assert(panes@ == words(metadata@)[2]);
        match (strip_exec(tabs.as_str(), "tabs:"), strip_exec(panes.as_str(), "panes:")) {
            (Some(t), Some(p)) => {
                let mut out: Vec<char> = Vec::new();
                append_str(&mut out, t.as_str());
                append_str(&mut out, " tabs · ");
                append_str(&mut out, p.as_str());
                append_str(&mut out, " panes");
                string_of(out.as_slice())
            },
            _ => metadata,
        }
    } else {
        metadata
    }
}

/// The width of the metadata column for a row `width` cells wide.
pub open spec fn metadata_width_of(width: u16) -> usize {
    if width >= 90 {
        28
    } else if width >= 68 {
        20
    } else if width >= 52 {
        14
    } else {
        0
    }
}

/// The width of the metadata column.
pub fn metadata_width(width: u16) -> (r: usize)
    ensures
        r == metadata_width_of(width),
{
    if width >= 90 {
        28
    } else if width >= 68 {
        20
    } else if width >= 52 {
        14
    } else {
        0
    }
}

/// `value` cut to `max` characters, the last replaced by `…` when cut.
pub open spec fn truncated_end(value: Seq<char>, max: int) -> Seq<char> {
    if value.len() <= max {
        value
    } else if max <= 0 {
        seq![]
    } else {
        value.take(max - 1) + seq!['…']
    }
}

/// `value` cut to `max_chars` characters, ending in `…` when cut.
pub fn truncate_end(value: &str, max_chars: usize) -> (r: String)
    ensures
        r@ == truncated_end(value@, max_chars as int),
{
    let v = chars_of(value);
    if v.len() <= max_chars {
        return value.to_owned();
    }
    if max_chars == 0 {
        return String::new();
    }
    let mut out = crate::text::slice_vec(v.as_slice(), 0, max_chars - 1);
    out.push('…');
    assert(out@ =~= truncated_end(value@, max_chars as int));
    string_of(out.as_slice())
}

/// The pieces of `s` between the separators `sep` (which is not empty).
pub open spec fn split_on(s: Seq<char>, sep: Seq<char>) -> Seq<Seq<char>>
    decreases s.len(),
{
    match find(s, sep) {
        Some(i) => if 0 <= i && sep.len() > 0 && i + sep.len() <= s.len() {
            seq![s.take(i)] + split_on(s.skip(i + sep.len()), sep)
        } else {
            seq![s]
        },
        None => seq![s],
    }
}

/// A breadcrumb cut to `max` characters: whole when it fits; else its first and last
/// parts around `…` when that fits; else cut at the end.
pub open spec fn truncated_breadcrumb(value: Seq<char>, max: int) -> Seq<char> {
    if value.len() <= max {
        value
    } else {
        let parts = split_on(value, " › "@);
        let endpoint = parts[0] + " › … › "@ + parts.last();
        if parts.len() >= 3 && endpoint.len() <= max {
            endpoint
        } else {
            truncated_end(value, max)
        }
    }
}

fn split_parts(s: &[char], sep: &[char]) -> (r: Vec<Vec<char>>)
    requires
        sep@.len() > 0,
    ensures
        r@.map_values(|p: Vec<char>| p@) == split_on(s@, sep@),
{
    let mut pieces: Vec<Vec<char>> = Vec::new();
    let mut rest = crate::text::slice_vec(s, 0, s.len());
    assert(rest@ =~= s@);
    loop
        invariant_except_break
            sep@.len() > 0,
            split_on(s@, sep@) == pieces@.map_values(|p: Vec<char>| p@) + split_on(rest@, sep@),
        ensures
            split_on(s@, sep@) == pieces@.map_values(|p: Vec<char>| p@),
        decreases rest@.len(),
    {
        let ghost before = pieces@.map_values(|p: Vec<char>| p@);
        match crate::text::find_chars(rest.as_slice(), sep) {
            Some(k) => {
                proof {
                    crate::text::lemma_find(rest@, sep@);
                }
                let rl = rest.len();
                assert(k + sep@.len() <= rl);
                let k2 = k + sep.len();
                let head = crate::text::slice_vec(rest.as_slice(), 0, k);
                let tail = crate::text::slice_vec(rest.as_slice(), k2, rl);
                assert(head@ =~= rest@.take(k as int));
                assert(tail@ =~= rest@.skip(k + sep@.len()));
                pieces.push(head);
                assert(pieces@.map_values(|p: Vec<char>| p@) =~= before.push(rest@.take(k as int)));
                rest = tail;
            },
            None => {
                let ghost last = rest@;
                pieces.push(rest);
                assert(pieces@.map_values(|p: Vec<char>| p@) =~= before + split_on(last, sep@));
                break;
            },
        }
    }
    pieces
}

proof fn lemma_split_on_nonempty(s: Seq<char>, sep: Seq<char>)
    ensures
        split_on(s, sep).len() >= 1,
    decreases s.len(),
{
    match find(s, sep) {
        Some(i) => if 0 <= i && sep.len() > 0 && i + sep.len() <= s.len() {
            lemma_split_on_nonempty(s.skip(i + sep.len()), sep);
        },
        None => {},
    }
}

/// A breadcrumb cut to `max_chars` characters (see `truncated_breadcrumb`).
pub fn truncate_breadcrumb(value: &str, max_chars: usize) -> (r: String)
    ensures
        r@ == truncated_breadcrumb(value@, max_chars as int),
{
    let v = chars_of(value);
    if v.len() <= max_chars {
        return value.to_owned();
    }
    let sep = chars_of(" › ");
    proof {
        reveal_strlit(" › ");
        lemma_split_on_nonempty(v@, sep@);
    }
    let parts = split_parts(v.as_slice(), sep.as_slice());
    if parts.len() >= 3 {
        let mut endpoint: Vec<char> = Vec::new();
        crate::text::extend(&mut endpoint, parts[0].as_slice());
        append_str(&mut endpoint, " › … › ");
        crate::text::extend(&mut endpoint, parts[parts.len() - 1].as_slice());
        if endpoint.len() <= max_chars {
            return string_of(endpoint.as_slice());
        }
    }
    truncate_end(value, max_chars)
}

/// The text of the first search term with prefix `p`, without the prefix.
pub open spec fn term_after(e: Entry, p: Seq<char>) -> Option<Seq<char>> {
    first_stripped(strings_view(e.search_terms@), p, 0)
}

/// The repository key of an Entry: its `repo-key:` search term.
pub fn entry_repository_key(entry: &Entry) -> (r: Option<String>)
    ensures
        crate::model::opt_view(r) == term_after(*entry, "repo-key:"@),
{
    match crate::query::first_stripped_exec(entry.search_terms.as_slice(), "repo-key:") {
        Some(s) => Some(string_of(s.as_slice())),
        None => None,
    }
}

/// The palette role of an agent status: red for blocked or waiting, yellow for working,
/// teal for done, green for idle, overlay otherwise.
pub open spec fn status_tone(status: Seq<char>) -> Tone {
    let s = lowercase_of(status);
    if contains(s, "block"@) || contains(s, "error"@) || contains(s, "fail"@) || contains(s, "attention"@)
        || contains(s, "request"@) || contains(s, "wait"@) {
        Tone::Red
    } else if contains(s, "work"@) || contains(s, "run"@) {
        Tone::Yellow
    } else if contains(s, "done"@) || contains(s, "complete"@) {
        Tone::Teal
    } else if contains(s, "idle"@) {
        Tone::Green
    } else {
        Tone::Overlay
    }
}

fn has(s: &[char], needle: &str) -> (r: bool)
    ensures
        r == contains(s@, needle@),
{
    crate::text::contains_chars(s, chars_of(needle).as_slice())
}

/// The palette role of an agent status.
pub fn agent_status_color(status: &str) -> (r: Tone)
    ensures
        r == status_tone(status@),
{
    let l = crate::text::to_lowercase(status);
    let c = chars_of(l.as_str());
    let s = c.as_slice();
    if has(s, "block") || has(s, "error") || has(s, "fail") || has(s, "attention") || has(s, "request") || has(
        s,
        "wait",
    ) {
        Tone::Red
    } else if has(s, "work") || has(s, "run") {
        Tone::Yellow
    } else if has(s, "done") || has(s, "complete") {
        Tone::Teal
    } else if has(s, "idle") {
        Tone::Green
    } else {
        Tone::Overlay
    }
}

/// The palette role of a Source.
pub open spec fn source_tone(s: Source) -> Tone {
    match s {
        Source::Workspace => Tone::Green,
        Source::Project => Tone::Mauve,
        Source::Zoxide => Tone::Blue,
        Source::Root => Tone::Teal,
        Source::Agent => Tone::Yellow,
        Source::Server => Tone::Green,
        Source::Session => Tone::Green,
        Source::QuickAction => Tone::Mauve,
        Source::Integration => Tone::Red,
    }
}

/// The palette role of a Source.
pub fn source_color(source: &Source) -> (r: Tone)
    ensures
        r == source_tone(*source),
{
    match source {
        Source::Workspace => Tone::Green,
        Source::Project => Tone::Mauve,
        Source::Zoxide => Tone::Blue,
        Source::Root => Tone::Teal,
        Source::Agent => Tone::Yellow,
        Source::Server => Tone::Green,
        Source::Session => Tone::Green,
        Source::QuickAction => Tone::Mauve,
        Source::Integration => Tone::Red,
    }
}

/// An Entry shows a working or running status.
pub open spec fn working_status(e: Entry) -> bool {
    match entry_status_of(e) {
        Some(s) => contains(lowercase_of(s), "work"@) || contains(lowercase_of(s), "run"@),
        None => false,
    }
}

/// Some Entry shows a working or running status (the spinner then animates).
pub open spec fn has_working(es: Seq<Entry>) -> bool {
    exists|i: int| 0 <= i < es.len() && #[trigger] working_status(es[i])
}

/// Whether some Entry shows a working or running status.
pub fn has_working_entry(app: &App) -> (r: bool)
    ensures
        r == has_working(app.entries@),
{
    let mut i: usize = 0;
    while i < app.entries.len()
        invariant
            i <= app.entries@.len(),
            forall|j: int| 0 <= j < i ==> !#[trigger] working_status(app.entries@[j]),
        decreases app.entries.len() - i,
    {
        match entry_status(&app.entries[i]) {
            Some(s) => {
                let l = crate::text::to_lowercase(s.as_str());
                let c = chars_of(l.as_str());
                if has(c.as_slice(), "work") || has(c.as_slice(), "run") {
                    assert(working_status(app.entries@[i as int]));
                    return true;
                }
            },
            None => {},
        }
        i = i + 1;
    }
    false
}

} // verus!

verus! {

use crate::render::{clip, clip_of, sat_sub, spaces, span_width};

/// `value` fitted to `max` cells: whole when it fits, else clipped to leave room for a
/// final `…` (nothing at all for no room).
pub open spec fn truncated_terminal(value: Seq<char>, max: int) -> Seq<char> {
    if display_width(value) <= max {
        value
    } else if max == 0 {
        seq![]
    } else {
        clip_of(value, sat_sub(max, display_width("…"@) as int)) + "…"@
    }
}

/// `value` fitted to `max_width` cells, ending in `…` when cut.
pub fn truncate_terminal(value: &str, max_width: usize) -> (r: String)
    ensures
        r@ == truncated_terminal(value@, max_width as int),
{
    if span_width(value) <= max_width {
        return value.to_owned();
    }
    if max_width == 0 {
        return String::new();
    }
    let ew = span_width("…");
    let budget = if max_width > ew {
        max_width - ew
    } else {
        0
    };
    let c = clip(value, budget);
    let mut out = chars_of(c.as_str());
    append_str(&mut out, "…");
    string_of(out.as_slice())
}

/// The part of `path` below `base`, as `Path::strip_prefix` finds it (component by
/// component).
pub uninterp spec fn path_suffix(path: Seq<char>, base: Seq<char>) -> Option<Seq<char>>;

/// `Path::strip_prefix` of std, shown with `display`. The result is named by
/// `path_suffix`; nothing more is claimed of it.
#[verifier::external_body]
pub(crate) fn strip_path_prefix(path: &str, base: &str) -> (r: Option<String>)
    ensures
        crate::model::opt_view(r) == path_suffix(path@, base@),
{
    std::path::Path::new(path).strip_prefix(base).ok().map(|p| p.display().to_string())
}

/// The path a row shows: below the home directory as `~` or `~/…`, otherwise whole.
pub open spec fn display_path_of(path: Seq<char>, home: Seq<char>) -> Seq<char> {
    match path_suffix(path, home) {
        Some(rest) => if rest.len() == 0 {
            "~"@
        } else {
            "~/"@ + rest
        },
        None => path,
    }
}

/// The path a row shows for an Entry, given the home directory.
pub fn display_path(entry: &Entry, home: &str) -> (r: String)
    ensures
        r@ == display_path_of(entry.path@, home@),
{
    match strip_path_prefix(entry.path.as_str(), home) {
        Some(rest) => {
            if rest.as_str().is_empty() {
                "~".to_owned()
            } else {
                let mut out = chars_of("~/");
                append_str(&mut out, rest.as_str());
                string_of(out.as_slice())
            }
        },
        None => entry.path.clone(),
    }
}

/// The column widths of a detailed row.
#[derive(Clone, Copy, Debug, PartialEq, Eq, Structural)]
pub struct DetailedLayout {
    pub status_width: usize,
    pub title_width: usize,
    pub right_width: usize,
}

/// `a + b`, limited to `usize`.
pub open spec fn sat_add_usize(a: int, b: int) -> int {
    if a + b > usize::MAX {
        usize::MAX as int
    } else {
        a + b
    }
}

/// The widest known status among the first `n` Entries (0 when there is none).
pub open spec fn widest_status(es: Seq<Entry>, n: int) -> int
    decreases n,
{
    if n <= 0 {
        0
    } else {
        let w = match entry_status_of(es[n - 1]) {
            Some(s) => if s != "unknown"@ {
                display_width(s) as int
            } else {
                0
            },
            None => 0,
        };
        let before = widest_status(es, n - 1);
        if w > before {
            w
        } else {
            before
        }
    }
}

/// The column widths of detailed rows `row_width` cells wide with a Source column
/// `source_width` cells wide: the status column fits the widest known status and two
/// cells; the metadata column (see `metadata_width_of`) takes what is left after the
/// others; the title takes half the rest, at most 24 cells.
pub open spec fn layout_of(es: Seq<Entry>, row_width: int, source_width: int) -> DetailedLayout {
    let status_width = sat_add_usize(widest_status(es, es.len() as int), 2);
    let source_budget = sat_add_usize(source_width, 1);
    let meta = metadata_width_of((sat_add_usize(row_width, 3) as usize) as u16) as int;
    let room = sat_sub(row_width, sat_add_usize(sat_add_usize(source_budget, status_width), 4));
    let right_width = if meta < room {
        meta
    } else {
        room
    };
    let separator = if right_width > 0 {
        1int
    } else {
        0int
    };
    let content = sat_sub(sat_sub(sat_sub(sat_sub(row_width, source_budget), status_width), right_width), separator);
    DetailedLayout {
        status_width: status_width as usize,
        title_width: ((if content < 48 {
            content
        } else {
            48
        }) / 2) as usize,
        right_width: right_width as usize,
    }
}

fn sadd(a: usize, b: usize) -> (r: usize)
    ensures
        r as int == sat_add_usize(a as int, b as int),
{
    if a > usize::MAX - b {
        usize::MAX
    } else {
        a + b
    }
}

fn ssub(a: usize, b: usize) -> (r: usize)
    ensures
        r as int == sat_sub(a as int, b as int),
{
    if a > b {
        a - b
    } else {
        0
    }
}

/// The column widths of detailed rows (see `layout_of`).
pub fn detailed_layout(app: &App, row_width: usize, source_width: usize) -> (r: DetailedLayout)
    ensures
        r == layout_of(app.entries@, row_width as int, source_width as int),
{
    let mut state_width: usize = 0;
    let mut i: usize = 0;
    while i < app.entries.len()
        invariant
            i <= app.entries@.len(),
            state_width as int == widest_status(app.entries@, i as int),
        decreases app.entries.len() - i,
    {
        let w: usize = match entry_status(&app.entries[i]) {
            Some(s) => {
                if crate::text::eq_str(s.as_str(), "unknown") {
                    0
                } else {
                    span_width(s.as_str())
                }
            },
            None => 0,
        };
        if w > state_width {
            state_width = w;
        }
        i = i + 1;
    }
    let status_width = sadd(state_width, 2);
    let source_budget = sadd(source_width, 1);
    let meta = metadata_width(sadd(row_width, 3) as u16);
    let room = ssub(row_width, sadd(sadd(source_budget, status_width), 4));
    let right_width = if meta < room {
        meta
    } else {
        room
    };
    let separator: usize = if right_width > 0 {
        1
    } else {
        0
    };
    let content = ssub(ssub(ssub(ssub(row_width, source_budget), status_width), right_width), separator);
    let capped = if content < 48 {
        content
    } else {
        48
    };
    DetailedLayout { status_width, title_width: capped / 2, right_width }
}

/// What a flat Result row shows, part by part.
pub struct FlatRowModel {
    pub source: Seq<char>,
    pub status_text: Seq<char>,
    pub tone: Tone,
    pub topology: bool,
    pub destination: Seq<char>,
    pub destination_width: int,
    pub title: Seq<char>,
    pub path: Seq<char>,
    pub path_width: int,
    pub metadata: Seq<char>,
}

/// The text of a flat Result row for `e` laid out by `l` in `row_width` cells with a
/// Source column of `source_width` cells: the Source name fitted to its column; a known
/// status as its icon and its name cut to the status column less two; for Workspace, Tab
/// and Pane Entries the breadcrumb fitted to the title, gap and path columns together,
/// for others the title and the path (shown against `home`) each cut to its column; the
/// metadata, cut to its column, when the column exists and the metadata is something
/// other than the path (never for agents, zoxide and root Entries); the row's colour
/// role from the status, else from the Source.
pub open spec fn flat_row_of(
    e: Entry,
    l: DetailedLayout,
    row_width: int,
    source_width: int,
    home: Seq<char>,
    tick: u32,
) -> FlatRowModel {
    let status = match entry_status_of(e) {
        Some(s) => if s != "unknown"@ {
            Some(s)
        } else {
            None
        },
        None => None,
    };
    let status_text = match status {
        Some(s) => crate::agents::status_icon(e.source, s, tick) + " "@ + truncated_end(
            s,
            sat_sub(l.status_width as int, 2),
        ),
        None => seq![],
    };
    let topo = is_topology(e);
    let raw_metadata = if topo || e.source == Source::Agent {
        seq![]
    } else {
        entry_metadata_of(e)
    };
    let show = !(e.source == Source::Zoxide || e.source == Source::Root) && l.right_width > 0
        && raw_metadata.len() > 0 && raw_metadata != e.path@;
    let path_width = sat_sub(
        sat_sub(
            sat_sub(
                sat_sub(
                    sat_sub(sat_sub(row_width, sat_add_usize(source_width, 1)), l.status_width as int),
                    l.title_width as int,
                ),
                2,
            ),
            l.right_width as int,
        ),
        if l.right_width > 0 {
            1
        } else {
            0
        },
    );
    let destination_width = sat_add_usize(sat_add_usize(l.title_width as int, 2), path_width);
    let title = truncated_end(display_title_of(e), l.title_width as int);
    FlatRowModel {
        source: truncated_terminal(crate::model::source_name_of(e), source_width),
        status_text,
        tone: match status {
            Some(s) => status_tone(s),
            None => source_tone(e.source),
        },
        topology: topo,
        destination: if topo {
            truncated_breadcrumb(e.subtitle@, destination_width)
        } else {
            title
        },
        destination_width,
        title,
        path: truncated_end(display_path_of(e.path@, home), path_width),
        path_width,
        metadata: if show {
            truncated_breadcrumb(raw_metadata, l.right_width as int)
        } else {
            seq![]
        },
    }
}

/// The parts of a flat Result row.
#[derive(Debug)]
pub struct FlatRow {
    pub source: String,
    pub status_text: String,
    pub tone: Tone,
    pub topology: bool,
    pub destination: String,
    pub destination_width: usize,
    pub title: String,
    pub path: String,
    pub path_width: usize,
    pub metadata: String,
}

impl View for FlatRow {
    type V = FlatRowModel;

    open spec fn view(&self) -> FlatRowModel {
        FlatRowModel {
            source: self.source@,
            status_text: self.status_text@,
            tone: self.tone,
            topology: self.topology,
            destination: self.destination@,
            destination_width: self.destination_width as int,
            title: self.title@,
            path: self.path@,
            path_width: self.path_width as int,
            metadata: self.metadata@,
        }
    }
}

/// The text of a flat Result row (see `flat_row_of`).
pub fn flat_row(
    e: &Entry,
    l: DetailedLayout,
    row_width: usize,
    source_width: usize,
    home: &str,
    tick: u32,
) -> (r: FlatRow)
    ensures
        r@ == flat_row_of(*e, l, row_width as int, source_width as int, home@, tick),
{
    let status: Option<String> = match entry_status(e) {
        Some(s) => if crate::text::eq_str(s.as_str(), "unknown") {
            None
        } else {
            Some(s)
        },
        None => None,
    };
    let status_text = match &status {
        Some(s) => {
            let mut out = chars_of(crate::agents::status_icon_at(&e.source, s.as_str(), tick));
            append_str(&mut out, " ");
            let cut = truncate_end(s.as_str(), ssub(l.status_width, 2));
            append_str(&mut out, cut.as_str());
            string_of(out.as_slice())
        },
        None => String::new(),
    };
    let topo = is_topology_entry(e);
    let raw_metadata = if topo || e.source == Source::Agent {
        String::new()
    } else {
        entry_metadata(e)
    };
    let differs = !crate::text::eq_str(raw_metadata.as_str(), e.path.as_str());
    let show = !(e.source == Source::Zoxide || e.source == Source::Root) && l.right_width > 0
        && !raw_metadata.as_str().is_empty() && differs;
    let separator: usize = if l.right_width > 0 {
        1
    } else {
        0
    };
    let path_width = ssub(
        ssub(ssub(ssub(ssub(ssub(row_width, sadd(source_width, 1)), l.status_width), l.title_width), 2), l.right_width),
        separator,
    );
    let destination_width = sadd(sadd(l.title_width, 2), path_width);
    let title = truncate_end(display_title(e).as_str(), l.title_width);
    let destination = if topo {
        truncate_breadcrumb(e.subtitle.as_str(), destination_width)
    } else {
        title.clone()
    };
    let tone = match &status {
        Some(s) => agent_status_color(s.as_str()),
        None => source_color(&e.source),
    };
    let source_name = e.source_name();
    FlatRow {
        source: truncate_terminal(source_name.as_str(), source_width),
        status_text,
        tone,
        topology: topo,
        destination,
        destination_width,
        title,
        path: truncate_end(display_path(e, home).as_str(), path_width),
        path_width,
        metadata: if show {
            truncate_breadcrumb(raw_metadata.as_str(), l.right_width)
        } else {
            String::new()
        },
    }
}


/// The part of a Result row that a piece of text shows.
#[derive(Clone, Copy, Debug, PartialEq, Eq, Structural)]
pub enum PieceRole {
    Source,
    Status,
    Title,
    Path,
    Breadcrumb,
    Padding,
}

/// A piece of a Result row: its text and what it shows.
pub struct RowPiece {
    pub text: String,
    pub role: PieceRole,
}

/// The pieces of the Result row `p` laid out by `l` with a Source column of
/// `source_width` cells, left to right: the Source name padded to its column, the status
/// padded to the status column; the breadcrumb padded to its width (for Workspace, Tab and
/// Pane Entries), else the title padded to the title column, two spaces and the path
/// padded to its width; then, when the metadata column exists, a space and the metadata
/// padded to that column.
pub open spec fn row_pieces_of(p: FlatRowModel, l: DetailedLayout, source_width: int) -> Seq<
    (Seq<char>, PieceRole),
> {
    let head = seq![
        (p.source, PieceRole::Source),
        (spaces(source_width - display_width(p.source) as int), PieceRole::Padding),
        (p.status_text, PieceRole::Status),
        (spaces(l.status_width - display_width(p.status_text) as int), PieceRole::Padding),
    ];
    let body = if p.topology {
        seq![
            (p.destination, PieceRole::Breadcrumb),
            (spaces(p.destination_width - display_width(p.destination) as int), PieceRole::Padding),
        ]
    } else {
        seq![
            (p.title, PieceRole::Title),
            (spaces(l.title_width - p.title.len()), PieceRole::Padding),
            ("  "@, PieceRole::Padding),
            (p.path, PieceRole::Path),
            (spaces(p.path_width - p.path.len()), PieceRole::Padding),
        ]
    };
    let tail = if l.right_width > 0 {
        seq![
            (" "@, PieceRole::Padding),
            (p.metadata, PieceRole::Breadcrumb),
            (spaces(l.right_width - display_width(p.metadata) as int), PieceRole::Padding),
        ]
    } else {
        seq![]
    };
    head + body + tail
}

/// The pieces as (text, role).
pub open spec fn pieces_view(v: Seq<RowPiece>) -> Seq<(Seq<char>, PieceRole)> {
    v.map_values(|x: RowPiece| (x.text@, x.role))
}

fn padding(n: usize) -> (r: String)
    ensures
        r@ == spaces(n as int),
{
    let mut v: Vec<char> = Vec::new();
    crate::render::push_spaces(&mut v, n);
    assert(v@ =~= spaces(n as int));
    string_of(v.as_slice())
}

fn piece(out: &mut Vec<RowPiece>, text: String, role: PieceRole)
    ensures
        pieces_view(final(out)@) == pieces_view(old(out)@).push((text@, role)),
{
    let ghost before = out@;
    out.push(RowPiece { text, role });
    assert(pieces_view(out@) =~= pieces_view(before).push((text@, role)));
}

/// The pieces of the Result row `p` (see `row_pieces_of`).
pub fn row_pieces(p: &FlatRow, l: DetailedLayout, source_width: usize) -> (r: Vec<RowPiece>)
    ensures
        pieces_view(r@) == row_pieces_of(p@, l, source_width as int),
{
    let mut out: Vec<RowPiece> = Vec::new();
    assert(pieces_view(out@) =~= Seq::<(Seq<char>, PieceRole)>::empty());
    let sw = span_width(p.source.as_str());
    piece(&mut out, p.source.clone(), PieceRole::Source);
    piece(&mut out, padding(if source_width > sw { source_width - sw } else { 0 }), PieceRole::Padding);
    let tw = span_width(p.status_text.as_str());
    piece(&mut out, p.status_text.clone(), PieceRole::Status);
    piece(&mut out, padding(if l.status_width > tw { l.status_width - tw } else { 0 }), PieceRole::Padding);
    let ghost head = pieces_view(out@);
    if p.topology {
        let dw = span_width(p.destination.as_str());
        piece(&mut out, p.destination.clone(), PieceRole::Breadcrumb);
        piece(&mut out, padding(if p.destination_width > dw { p.destination_width - dw } else { 0 }), PieceRole::Padding);
    } else {
        let tl = chars_of(p.title.as_str()).len();
        let pl = chars_of(p.path.as_str()).len();
        piece(&mut out, p.title.clone(), PieceRole::Title);
        piece(&mut out, padding(if l.title_width > tl { l.title_width - tl } else { 0 }), PieceRole::Padding);
        piece(&mut out, "  ".to_owned(), PieceRole::Padding);
        piece(&mut out, p.path.clone(), PieceRole::Path);
        piece(&mut out, padding(if p.path_width > pl { p.path_width - pl } else { 0 }), PieceRole::Padding);
    }
    let ghost body = pieces_view(out@);
    if l.right_width > 0 {
        let mw = span_width(p.metadata.as_str());
        piece(&mut out, " ".to_owned(), PieceRole::Padding);
        piece(&mut out, p.metadata.clone(), PieceRole::Breadcrumb);
        piece(&mut out, padding(if l.right_width > mw { l.right_width - mw } else { 0 }), PieceRole::Padding);
    }
    proof {
        let q = p@;
        assert(spaces(0) =~= Seq::<char>::empty());
        assert(pieces_view(out@) =~= row_pieces_of(q, l, source_width as int));
    }
    out
}


/// How a line of a Topology block is emphasised.
#[derive(Clone, Copy, Debug, PartialEq, Eq, Structural)]
pub enum LineEmphasis {
    /// The line of the selected level in the selected Workspace.
    Strong,
    /// Another line of the selected Workspace.
    Selected,
    Plain,
}

/// The emphasis of line `line` of Workspace `workspace`'s block: the selected
/// Workspace's first line at Workspace depth, second at Tab depth and third at Pane depth
/// is strong, its other lines are selected, and other Workspaces' lines are plain.
pub open spec fn line_emphasis_of(app: App, workspace: int, line: int) -> LineEmphasis {
    if workspace != app.topology_cursor.workspace {
        LineEmphasis::Plain
    } else if (app.topology_cursor.depth == crate::topology::TopologyDepth::Workspace && line == 0)
        || (app.topology_cursor.depth == crate::topology::TopologyDepth::Tab && line == 1)
        || (app.topology_cursor.depth == crate::topology::TopologyDepth::Pane && line == 2) {
        LineEmphasis::Strong
    } else {
        LineEmphasis::Selected
    }
}

/// The emphasis of a line of a Topology block (see `line_emphasis_of`).
pub fn line_emphasis(app: &App, workspace: usize, line: usize) -> (r: LineEmphasis)
    ensures
        r == line_emphasis_of(*app, workspace as int, line as int),
{
    let c = &app.topology_cursor;
    if workspace != c.workspace {
        LineEmphasis::Plain
    } else if (c.depth == crate::topology::TopologyDepth::Workspace && line == 0)
        || (c.depth == crate::topology::TopologyDepth::Tab && line == 1)
        || (c.depth == crate::topology::TopologyDepth::Pane && line == 2) {
        LineEmphasis::Strong
    } else {
        LineEmphasis::Selected
    }
}

/// Whether a Workspace's block shows the previous-Workspace marker: its ID is the
/// previous Workspace's (the empty ID when there is none).
pub fn marks_previous(app: &App, workspace_id: &str) -> (r: bool)
    ensures
        r == (workspace_id@ == match app.previous_workspace_id {
            Some(p) => p@,
            None => ""@,
        }),
{
    proof {
        reveal_strlit("");
    }
    match &app.previous_workspace_id {
        Some(p) => crate::text::eq_str(p.as_str(), workspace_id),
        None => {
            assert(workspace_id@.len() == 0 ==> workspace_id@ =~= ""@);
            workspace_id.is_empty()
        },
    }
}

} // verus!
