//! The Result list: which Entries a Query and Source filter keep, how they are scored
//! and ordered, and which row is selected.
use vstd::prelude::*;
use crate::app::App;
use crate::config::{clamp_i64, source_bonus_of, source_rank_of, PickerConfig};
use crate::model::{haystack_of, opt_view, ordinary_label, source_name_of, Entry, EntryAction, Source};
use crate::pins::{pin_key_named, pin_key_of};
use crate::query::{
    bounded_fuzzy_score, filters_match_of, is_agent, joined, parsed, status_bonus, status_text_of,
    Query, QueryModel,
};
use crate::text::{chars_of, eq_str, is_blank, lowercase_of, to_lowercase};

verus! {

/// `a + b`, limited to the `i64` range.
pub fn sat_add(a: i64, b: i64) -> (r: i64)
    ensures
        r == clamp_i64(a + b),
{
    let s = a as i128 + b as i128;
    if s > i64::MAX as i128 {
        i64::MAX
    } else if s < i64::MIN as i128 {
        i64::MIN
    } else {
        s as i64
    }
}

/// The agent ordering in use: `priority` or `spaces` when configured (in any case),
/// otherwise Herdr's own agent panel setting.
pub open spec fn agent_sort_of(configured: Seq<char>, panel_sort: Seq<char>) -> Seq<char> {
    let l = lowercase_of(configured);
    if l == "priority"@ {
        "priority"@
    } else if l == "spaces"@ {
        "spaces"@
    } else {
        panel_sort
    }
}

/// The agent ordering in use, given Herdr's agent panel setting.
pub fn agent_sort(configured: &str, panel_sort: &str) -> (r: String)
    ensures
        r@ == agent_sort_of(configured@, panel_sort@),
{
    let l = to_lowercase(configured);
    if eq_str(l.as_str(), "priority") {
        "priority".to_owned()
    } else if eq_str(l.as_str(), "spaces") {
        "spaces".to_owned()
    } else {
        panel_sort.to_owned()
    }
}

/// The label an Entry carries after relabelling: a stale `bookmark` label returns to the
/// ordinary one, and a marked Entry (by the key under that label) is labelled `bookmark`.
pub open spec fn relabeled_label(e: Entry, pins: Set<Seq<char>>) -> Option<Seq<char>> {
    let first = if source_name_of(e) == "bookmark"@ {
        Some(ordinary_label(e))
    } else {
        opt_view(e.source_label)
    };
    let name = match first {
        Some(l) => l,
        None => ordinary_label(e),
    };
    if pins.contains(pin_key_named(e, name)) {
        Some("bookmark"@)
    } else {
        first
    }
}

/// `e` with the label `l`.
pub open spec fn with_label(e: Entry, l: Option<String>) -> Entry {
    Entry { source_label: l, ..e }
}

/// The Source filter admits an Entry: the agent filter admits agent Entries, another
/// filter the Entries of its Source.
pub open spec fn admits(filter: Option<Source>, e: Entry) -> bool {
    match filter {
        None => true,
        Some(Source::Agent) => is_agent(e),
        Some(s) => e.source == s,
    }
}

/// The status bonus of an Entry under agent priority ordering.
pub open spec fn status_bonus_of(e: Entry, agent_priority: bool) -> int {
    if e.source == Source::Agent && agent_priority {
        status_bonus(status_text_of(e)) as int
    } else {
        0
    }
}

/// The score of an Entry in the Result list, or `None` when the filter, the Query's
/// tokens or its plain text rule it out. The Source bonus and status bonus are added to
/// the fuzzy score (to nothing for an empty plain text), each sum held in the `i64` range.
pub open spec fn entry_score(
    c: PickerConfig,
    m: QueryModel,
    filter: Option<Source>,
    e: Entry,
    agent_priority: bool,
) -> Option<int> {
    if !admits(filter, e) || !filters_match_of(m, e) {
        None
    } else {
        let bonus = clamp_i64(source_bonus_of(c, e.source) + status_bonus_of(e, agent_priority));
        if joined(m.plain).len() == 0 {
            Some(bonus)
        } else {
            match bounded_fuzzy_score(haystack_of(e), joined(m.plain)) {
                Some(s) => Some(clamp_i64(s + bonus)),
                None => None,
            }
        }
    }
}

/// Whether agent priority ordering applies: no plain text, an agent view or no filter,
/// and the `priority` agent ordering.
pub open spec fn uses_agent_priority(app: App) -> bool {
    let m = parsed(app.query@);
    let empty = joined(m.plain).len() == 0;
    let agent_view = m.all_agents || (app.source_filter == Some(Source::Agent) && empty);
    empty && (agent_view || app.source_filter is None) && agent_sort_of(
        app.config.picker.agent_sort@,
        app.herdr_agent_panel_sort@,
    ) == "priority"@
}

/// Whether the previous Workspace is pinned to the top: Jump Back pins it, and the
/// Picker shows the unfiltered initial view.
pub open spec fn pins_previous(app: App) -> bool {
    app.config.jump_back.enabled && app.config.jump_back.pin_previous && is_blank(app.query@)
        && app.source_filter is None
}

/// The score of the `i`th Entry of `app`.
pub open spec fn score_at(app: App, i: int) -> Option<int> {
    entry_score(
        app.config.picker,
        parsed(app.query@),
        app.source_filter,
        app.entries@[i],
        uses_agent_priority(app),
    )
}

/// The ordering key of a Result row.
#[derive(Clone, Copy, Debug)]
pub struct SortKey {
    pub previous: bool,
    pub marked: bool,
    pub score: i64,
    pub rank: usize,
    pub index: usize,
}

/// The ordering key of the `index`th Entry with score `score`: whether it is the pinned
/// previous Workspace, whether it is marked, its score and its Source rank.
pub open spec fn key_at(app: App, score: i64, index: usize) -> SortKey {
    let e = app.entries@[index as int];
    SortKey {
        previous: pins_previous(app) && e.source == Source::Workspace && opt_view(e.workspace_id)
            == opt_view(app.previous_workspace_id),
        marked: app.pinned_entries@.contains(pin_key_of(e)),
        score,
        rank: source_rank_of(app.config.picker, e.source) as usize,
        index,
    }
}

/// Row `a` comes before row `b`: the previous Workspace first, then marked Entries,
/// then higher scores, then lower Source ranks, then the order of collection.
pub open spec fn ranks_before(a: SortKey, b: SortKey) -> bool {
    if a.previous != b.previous {
        a.previous
    } else if a.marked != b.marked {
        a.marked
    } else if a.score != b.score {
        a.score > b.score
    } else if a.rank != b.rank {
        a.rank < b.rank
    } else {
        a.index < b.index
    }
}

/// The earliest position of the highest score among the first `n`.
pub open spec fn best_of(scores: Seq<i64>, n: int) -> int
    decreases n,
{
    if n <= 1 {
        0
    } else {
        let b = best_of(scores, n - 1);
        if scores[n - 1] > scores[b] {
            n - 1
        } else {
            b
        }
    }
}

/// The first position at or after `from` whose Entry focuses a Workspace.
pub open spec fn first_workspace_row(entries: Seq<Entry>, rows: Seq<usize>, from: int) -> Option<int>
    decreases rows.len() - from,
{
    if from < 0 || from >= rows.len() {
        None
    } else if entries[rows[from] as int].action is FocusWorkspace {
        Some(from)
    } else {
        first_workspace_row(entries, rows, from + 1)
    }
}

/// The selected row after filtering: the best-scoring row while searching, else the
/// first; on the initial unfiltered view, the first Workspace row when there is one.
pub open spec fn selected_after_filter(app: App, was_pending: bool) -> int {
    let base = if !is_blank(app.query@) {
        best_of(app.filtered_scores@, app.filtered_scores@.len() as int)
    } else {
        0
    };
    if was_pending && is_blank(app.query@) && app.source_filter is None {
        match first_workspace_row(app.entries@, app.filtered@, 0) {
            Some(p) => p,
            None => base,
        }
    } else {
        base
    }
}

proof fn lemma_ranks_total(a: SortKey, b: SortKey)
    requires
        a.index != b.index,
    ensures
        ranks_before(a, b) || ranks_before(b, a),
        !(ranks_before(a, b) && ranks_before(b, a)),
{
}

proof fn lemma_ranks_transitive(a: SortKey, b: SortKey, c: SortKey)
    requires
        ranks_before(a, b),
        ranks_before(b, c),
    ensures
        ranks_before(a, c),
{
}

proof fn lemma_best_of_range(scores: Seq<i64>, n: int)
    requires
        n <= scores.len(),
    ensures
        n >= 1 ==> 0 <= best_of(scores, n) < n,
        n < 1 ==> best_of(scores, n) == 0,
    decreases n,
{
    if n > 1 {
        lemma_best_of_range(scores, n - 1);
    }
}

proof fn lemma_first_workspace_row_range(entries: Seq<Entry>, rows: Seq<usize>, from: int)
    requires
        0 <= from,
    ensures
        first_workspace_row(entries, rows, from) matches Some(p) ==> from <= p < rows.len(),
    decreases rows.len() - from,
{
    if from < rows.len() && !(entries[rows[from] as int].action is FocusWorkspace) {
        lemma_first_workspace_row_range(entries, rows, from + 1);
    }
}

} // verus!

verus! {

/// Whether row `a` comes before row `b`.
pub fn ranks_before_exec(a: &SortKey, b: &SortKey) -> (r: bool)
    ensures
        r == ranks_before(*a, *b),
{
    if a.previous != b.previous {
        a.previous
    } else if a.marked != b.marked {
        a.marked
    } else if a.score != b.score {
        a.score > b.score
    } else if a.rank != b.rank {
        a.rank < b.rank
    } else {
        a.index < b.index
    }
}

/// The rows are in ranking order.
pub open spec fn rows_sorted(rows: Seq<SortKey>) -> bool {
    forall|a: int, b: int| 0 <= a < b < rows.len() ==> ranks_before(#[trigger] rows[a], #[trigger] rows[b])
}

/// The position at which `key` enters the sorted `rows`: before the first row it ranks
/// before.
fn insertion_point(rows: &Vec<SortKey>, key: &SortKey) -> (r: usize)
    ensures
        r <= rows@.len(),
        forall|j: int| 0 <= j < r ==> !ranks_before(*key, #[trigger] rows@[j]),
        r < rows@.len() ==> ranks_before(*key, rows@[r as int]),
{
    let mut j: usize = 0;
    while j < rows.len()
        invariant
            j <= rows@.len(),
            forall|t: int| 0 <= t < j ==> !ranks_before(*key, #[trigger] rows@[t]),
        decreases rows.len() - j,
    {
        if ranks_before_exec(key, &rows[j]) {
            return j;
        }
        j = j + 1;
    }
    j
}

proof fn lemma_insert_sorted(rows: Seq<SortKey>, pos: int, key: SortKey)
    requires
        rows_sorted(rows),
        0 <= pos <= rows.len(),
        forall|j: int| 0 <= j < pos ==> !ranks_before(key, #[trigger] rows[j]),
        pos < rows.len() ==> ranks_before(key, rows[pos]),
        forall|j: int| 0 <= j < rows.len() ==> (#[trigger] rows[j]).index != key.index,
    ensures
        rows_sorted(rows.insert(pos, key)),
{
    let s = rows.insert(pos, key);
    assert forall|a: int, b: int| 0 <= a < b < s.len() implies ranks_before(#[trigger] s[a], #[trigger] s[b]) by {
        if a < pos {
            lemma_ranks_total(rows[a], key);
            if b > pos {
                assert(s[b] == rows[b - 1]);
            }
        } else if a == pos {
            assert(s[b] == rows[b - 1]);
            if b - 1 > pos {
                lemma_ranks_transitive(key, rows[pos], rows[b - 1]);
            }
        } else {
            assert(s[a] == rows[a - 1]);
            assert(s[b] == rows[b - 1]);
        }
    }
}

/// The earliest position of the highest score.
fn best_position(scores: &Vec<i64>) -> (r: usize)
    ensures
        r == best_of(scores@, scores@.len() as int),
{
    let n = scores.len();
    if n == 0 {
        return 0;
    }
    let mut best: usize = 0;
    let mut j: usize = 1;
    while j < n
        invariant
            1 <= j <= n,
            n == scores@.len(),
            best == best_of(scores@, j as int),
            best < j,
        decreases n - j,
    {
        if scores[j] > scores[best] {
            best = j;
        }
        j = j + 1;
    }
    best
}

/// The first row whose Entry focuses a Workspace.
fn first_workspace_position(entries: &Vec<Entry>, rows: &Vec<usize>) -> (r: Option<usize>)
    requires
        forall|j: int| 0 <= j < rows@.len() ==> (#[trigger] rows@[j]) < entries@.len(),
    ensures
        match r {
            Some(p) => first_workspace_row(entries@, rows@, 0) == Some(p as int),
            None => first_workspace_row(entries@, rows@, 0) is None,
        },
{
    let mut j: usize = 0;
    while j < rows.len()
        invariant
            j <= rows@.len(),
            forall|t: int| 0 <= t < rows@.len() ==> (#[trigger] rows@[t]) < entries@.len(),
            first_workspace_row(entries@, rows@, 0) == first_workspace_row(entries@, rows@, j as int),
        decreases rows.len() - j,
    {
        if matches!(entries[rows[j]].action, EntryAction::FocusWorkspace { .. }) {
            return Some(j);
        }
        j = j + 1;
    }
    None
}

/// `q` is the parse of an input with model `m`.
pub open spec fn parses_to(q: Query, m: QueryModel) -> bool {
    &&& q.plain@ == joined(m.plain)
    &&& crate::text::strings_view(q.agent@) == m.agent
    &&& q.agent_only == m.agent_only
    &&& crate::text::strings_view(q.workspace_or_status@) == m.workspace_or_status
    &&& crate::text::strings_view(q.path@) == m.path
    &&& crate::text::strings_view(q.status@) == m.status
    &&& q.all_agents == m.all_agents
}

impl App {
    /// Relabels every Entry: see `relabeled_label`.
    fn relabel_entries(&mut self)
        ensures
            *final(self) == (App { entries: final(self).entries, ..*old(self) }),
            final(self).entries@.len() == old(self).entries@.len(),
            forall|i: int|
                0 <= i < old(self).entries@.len() ==> #[trigger] final(self).entries@[i] == with_label(
                    old(self).entries@[i],
                    final(self).entries@[i].source_label,
                ) && opt_view(final(self).entries@[i].source_label) == relabeled_label(
                    old(self).entries@[i],
                    old(self).pinned_entries@,
                ),
    {
        let ghost before = self.entries@;
        let mut i: usize = 0;
        while i < self.entries.len()
            invariant
                *self == (App { entries: self.entries, ..*old(self) }),
                self.entries@.len() == before.len(),
                before == old(self).entries@,
                i <= before.len(),
                forall|j: int|
                    0 <= j < i ==> #[trigger] self.entries@[j] == with_label(before[j], self.entries@[j].source_label)
                        && opt_view(self.entries@[j].source_label) == relabeled_label(before[j], self.pinned_entries@),
                forall|j: int| i <= j < before.len() ==> #[trigger] self.entries@[j] == before[j],
            decreases before.len() - i,
        {
            let ghost e0 = before[i as int];
            let name = self.entries[i].source_name();
            if eq_str(name.as_str(), "bookmark") {
                let l = self.entries[i].ordinary_label();
                self.entries[i].source_label = Some(l.to_owned());
            }
            let ghost e1 = self.entries@[i as int];
            assert(pin_key_of(e1) == pin_key_named(e0, source_name_of(e1)));
            let k = crate::pins::pin_key(&self.entries[i]);
            if self.pinned_entries.contains(k.as_str()) {
                self.entries[i].source_label = Some("bookmark".to_owned());
            }
            i = i + 1;
        }
    }
}

} // verus!

verus! {

/// What `apply_filter` makes of the Picker: Entries relabelled (see
/// `relabeled_label`), every Entry with a score (see `entry_score`) listed once in ranking
/// order (see `ranks_before`), the selection reset (see `selected_after_filter`), nothing
/// else changed.
pub open spec fn filter_applied(before: App, after: App) -> bool {
    &&& (after == (App {
                    entries: after.entries,
                    filtered: after.filtered,
                    filtered_scores: after.filtered_scores,
                    selected: after.selected,
                    initial_selection_pending: false,
                    ..before
                }))
    &&& (after.entries@.len() == before.entries@.len())
    &&& (forall|i: int|
                    0 <= i < before.entries@.len() ==> #[trigger] after.entries@[i] == with_label(
                        before.entries@[i],
                        after.entries@[i].source_label,
                    ) && opt_view(after.entries@[i].source_label) == relabeled_label(
                        before.entries@[i],
                        before.pinned_entries@,
                    ))
    &&& (after.filtered@.len() == after.filtered_scores@.len())
    &&& (forall|j: int|
                    0 <= j < after.filtered@.len() ==> #[trigger] after.filtered@[j]
                        < after.entries@.len() && score_at(after, after.filtered@[j] as int)
                        == Some(after.filtered_scores@[j] as int))
    &&& (forall|i: int|
                    0 <= i < after.entries@.len() && (#[trigger] score_at(after, i)) is Some
                        ==> after.filtered@.contains(i as usize))
    &&& (forall|j: int, k: int|
                    0 <= j < k < after.filtered@.len() ==> ranks_before(
                        key_at(after, after.filtered_scores@[j], #[trigger] after.filtered@[j]),
                        key_at(after, after.filtered_scores@[k], #[trigger] after.filtered@[k]),
                    ))
    &&& (after.selected == selected_after_filter(after, before.initial_selection_pending))
}

/// After filtering, the pinned previous Workspace comes before everything else, and marked
/// Entries come before unmarked ones: marks keep Entries ahead of the normal order.
pub proof fn law_filter_puts_previous_then_marked_first(before: App, after: App, j: int, k: int)
    requires
        filter_applied(before, after),
        0 <= j < k < after.filtered@.len(),
    ensures
        ({
            let a = key_at(after, after.filtered_scores@[j], after.filtered@[j]);
            let b = key_at(after, after.filtered_scores@[k], after.filtered@[k]);
            &&& (b.previous ==> a.previous)
            &&& (a.previous == b.previous && b.marked ==> a.marked)
        }),
{
    assert(ranks_before(
        key_at(after, after.filtered_scores@[j], after.filtered@[j]),
        key_at(after, after.filtered_scores@[k], after.filtered@[k]),
    ));
}

/// After filtering, no Entry is listed twice: marking relabels an Entry without
/// duplicating its destination.
pub proof fn law_filter_lists_each_entry_once(before: App, after: App, j: int, k: int)
    requires
        filter_applied(before, after),
        0 <= j < after.filtered@.len(),
        0 <= k < after.filtered@.len(),
        j != k,
    ensures
        after.filtered@[j] != after.filtered@[k],
{
    if j < k {
        assert(ranks_before(
            key_at(after, after.filtered_scores@[j], after.filtered@[j]),
            key_at(after, after.filtered_scores@[k], after.filtered@[k]),
        ));
    } else {
        assert(ranks_before(
            key_at(after, after.filtered_scores@[k], after.filtered@[k]),
            key_at(after, after.filtered_scores@[j], after.filtered@[j]),
        ));
    }
}

impl App {
    /// The score of an Entry under the parsed Query `q`.
    fn score_entry(&self, q: &Query, e: &Entry, agent_priority: bool) -> (r: Option<i64>)
        requires
            parses_to(*q, parsed(self.query@)),
        ensures
            match r {
                Some(s) => entry_score(self.config.picker, parsed(self.query@), self.source_filter, *e, agent_priority)
                    == Some(s as int),
                None => entry_score(self.config.picker, parsed(self.query@), self.source_filter, *e, agent_priority)
                    is None,
            },
    {
        let admitted = match self.source_filter {
            None => true,
            Some(Source::Agent) => crate::query::is_agent_entry(e),
            Some(s) => e.source == s,
        };
        if !admitted || !q.filters_match(e) {
            return None;
        }
        let bonus = sat_add(self.config.picker.source_bonus(&e.source), q.score_bonus(e, agent_priority));
        let plain = chars_of(q.plain.as_str());
        if plain.len() == 0 {
            Some(bonus)
        } else {
            let hay = e.haystack();
            match crate::query::match_score(self.config.picker.engine.as_str(), hay.as_str(), q.plain.as_str()) {
                Some(s) => Some(sat_add(s, bonus)),
                None => None,
            }
        }
    }

    /// The ordering key of the `index`th Entry with score `score`.
    fn sort_key(&self, pin_previous: bool, score: i64, index: usize) -> (r: SortKey)
        requires
            index < self.entries@.len(),
            pin_previous == pins_previous(*self),
        ensures
            r == key_at(*self, score, index),
    {
        let e = &self.entries[index];
        let same_workspace = match (&e.workspace_id, &self.previous_workspace_id) {
            (Some(a), Some(b)) => eq_str(a.as_str(), b.as_str()),
            (None, None) => true,
            _ => false,
        };
        SortKey {
            previous: pin_previous && e.source == Source::Workspace && same_workspace,
            marked: self.is_pinned(e),
            score,
            rank: self.config.picker.source_rank(&e.source),
            index,
        }
    }

    /// Rebuilds the Result list. Entries are relabelled first (see `relabeled_label`);
    /// then every Entry with a score (see `entry_score`) is listed once, in ranking order
    /// (see `ranks_before`), and the selection is reset (see `selected_after_filter`).
    pub fn apply_filter(&mut self)
        ensures
            filter_applied(*old(self), *final(self)),
    {
        self.relabel_entries();
        let q = Query::parse(self.query.as_str());
        let qchars = chars_of(self.query.as_str());
        let searching = !crate::text::blank(qchars.as_slice());
        let plain = chars_of(q.plain.as_str());
        let empty_query = plain.len() == 0;
        let agent_view = q.all_agents || (self.source_filter == Some(Source::Agent) && empty_query);
        let sort = agent_sort(self.config.picker.agent_sort.as_str(), self.herdr_agent_panel_sort.as_str());
        let use_agent_priority = empty_query && (agent_view || self.source_filter.is_none()) && eq_str(
            sort.as_str(),
            "priority",
        );
        let pin_previous = self.config.jump_back.enabled && self.config.jump_back.pin_previous && !searching
            && self.source_filter.is_none();
        assert(use_agent_priority == uses_agent_priority(*self));
        let mut rows: Vec<SortKey> = Vec::new();
        let n = self.entries.len();
        let mut i: usize = 0;
        while i < n
            invariant
                i <= n,
                n == self.entries@.len(),
                parses_to(q, parsed(self.query@)),
                use_agent_priority == uses_agent_priority(*self),
                pin_previous == pins_previous(*self),
                rows.len() <= i,
                rows_sorted(rows@),
                forall|j: int|
                    0 <= j < rows@.len() ==> (#[trigger] rows@[j]).index < i && rows@[j] == key_at(
                        *self,
                        rows@[j].score,
                        rows@[j].index,
                    ) && score_at(*self, rows@[j].index as int) == Some(rows@[j].score as int),
                forall|t: int|
                    0 <= t < i && (#[trigger] score_at(*self, t)) is Some ==> exists|j: int|
                        0 <= j < rows@.len() && rows@[j].index == t,
            decreases n - i,
        {
            match self.score_entry(&q, &self.entries[i], use_agent_priority) {
                Some(score) => {
                    let key = self.sort_key(pin_previous, score, i);
                    let pos = insertion_point(&rows, &key);
                    let ghost old_rows = rows@;
                    proof {
                        lemma_insert_sorted(old_rows, pos as int, key);
                    }
                    rows.insert(pos, key);
                    assert(rows@[pos as int] == key);
                    assert forall|t: int|
                        0 <= t < i + 1 && (#[trigger] score_at(*self, t)) is Some implies exists|j: int|
                            0 <= j < rows@.len() && rows@[j].index == t by {
                        if t == i {
                            assert(rows@[pos as int].index == t);
                        } else {
                            let j = choose|j: int| 0 <= j < old_rows.len() && old_rows[j].index == t;
                            if j < pos {
                                assert(rows@[j] == old_rows[j]);
                            } else {
                                assert(rows@[j + 1] == old_rows[j]);
                            }
                        }
                    }
                    assert forall|j: int| 0 <= j < rows@.len() implies (#[trigger] rows@[j]).index < i + 1
                        && rows@[j] == key_at(*self, rows@[j].score, rows@[j].index) && score_at(
                        *self,
                        rows@[j].index as int,
                    ) == Some(rows@[j].score as int) by {
                        if j < pos {
                            assert(rows@[j] == old_rows[j]);
                        } else if j > pos {
                            assert(rows@[j] == old_rows[j - 1]);
                        }
                    }
                },
                None => {},
            }
            i = i + 1;
        }
        let mut filtered: Vec<usize> = Vec::new();
        let mut scores: Vec<i64> = Vec::new();
        let mut j: usize = 0;
        while j < rows.len()
            invariant
                j <= rows@.len(),
                filtered@.len() == j,
                scores@.len() == j,
                forall|t: int| 0 <= t < j ==> (#[trigger] filtered@[t]) == rows@[t].index && scores@[t] == rows@[t].score,
            decreases rows.len() - j,
        {
            filtered.push(rows[j].index);
            scores.push(rows[j].score);
            j = j + 1;
        }
        let base = if searching {
            best_position(&scores)
        } else {
            0
        };
        let mut selected = base;
        if self.initial_selection_pending {
            if !searching && self.source_filter.is_none() {
                match first_workspace_position(&self.entries, &filtered) {
                    Some(p) => {
                        selected = p;
                    },
                    None => {},
                }
            }
        }
        let ghost pre = *self;
        self.filtered = filtered;
        self.filtered_scores = scores;
        self.selected = selected;
        self.initial_selection_pending = false;
        assert forall|t: int|
            0 <= t < self.entries@.len() && (#[trigger] score_at(*self, t)) is Some implies self.filtered@.contains(
            t as usize,
        ) by {
            assert(score_at(pre, t) is Some);
            let jj = choose|jj: int| 0 <= jj < rows@.len() && rows@[jj].index == t;
            assert(self.filtered@[jj] == t as usize);
        }
        assert forall|a: int, b: int| 0 <= a < b < self.filtered@.len() implies ranks_before(
            key_at(*self, self.filtered_scores@[a], #[trigger] self.filtered@[a]),
            key_at(*self, self.filtered_scores@[b], #[trigger] self.filtered@[b]),
        ) by {
            assert(rows@[a] == key_at(pre, rows@[a].score, rows@[a].index));
            assert(rows@[b] == key_at(pre, rows@[b].score, rows@[b].index));
            assert(ranks_before(rows@[a], rows@[b]));
        }
        assert forall|t: int| 0 <= t < self.filtered@.len() implies #[trigger] self.filtered@[t]
            < self.entries@.len() && score_at(*self, self.filtered@[t] as int) == Some(
            self.filtered_scores@[t] as int,
        ) by {
            assert(score_at(pre, rows@[t].index as int) == Some(rows@[t].score as int));
        }
    }
}

} // verus!
