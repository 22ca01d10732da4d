//! Per-session history of recently visited Workspaces.
use vstd::prelude::*;
use crate::text::{chars_of, contains_string, eq_str, strings_view};

verus! {

/// The version of the persisted recent-workspace state.
pub const STATE_VERSION: u32 = 1;

/// The history key used when no session is named.
pub const DEFAULT_SESSION_KEY: &'static str = "__default__";

/// The characters of an optional `&str`.
pub open spec fn opt_str_view(o: Option<&str>) -> Option<Seq<char>> {
    match o {
        Some(s) => Some(s@),
        None => None,
    }
}

/// The history key of a session: its name, or the default key when it has no
/// (or an empty) name.
pub open spec fn recent_key(session: Option<Seq<char>>) -> Seq<char> {
    match session {
        Some(s) => if s.len() > 0 {
            s
        } else {
            DEFAULT_SESSION_KEY@
        },
        None => DEFAULT_SESSION_KEY@,
    }
}

/// The keys of `s` are pairwise distinct.
pub open spec fn keys_unique(s: Seq<(String, Vec<String>)>) -> bool {
    forall|i: int, j: int| 0 <= i < j < s.len() ==> #[trigger] s[i].0@ != #[trigger] s[j].0@
}

/// The map that inserting the pairs of `s` in order gives (a later pair replaces an
/// earlier one with the same key).
pub open spec fn pairs_map(s: Seq<(String, Vec<String>)>) -> Map<Seq<char>, Seq<Seq<char>>>
    decreases s.len(),
{
    if s.len() == 0 {
        Map::empty()
    } else {
        pairs_map(s.drop_last()).insert(s.last().0@, strings_view(s.last().1@))
    }
}

proof fn lemma_pairs_map_dom(s: Seq<(String, Vec<String>)>, k: Seq<char>)
    ensures
        pairs_map(s).dom().contains(k) <==> exists|i: int| 0 <= i < s.len() && #[trigger] s[i].0@ == k,
        pairs_map(s).dom().finite(),
    decreases s.len(),
{
    if s.len() > 0 {
        lemma_pairs_map_dom(s.drop_last(), k);
        if pairs_map(s.drop_last()).dom().contains(k) {
            let i = choose|i: int| 0 <= i < s.drop_last().len() && #[trigger] s.drop_last()[i].0@ == k;
            assert(s[i].0@ == k);
        }
        if exists|i: int| 0 <= i < s.len() && #[trigger] s[i].0@ == k {
            let i = choose|i: int| 0 <= i < s.len() && #[trigger] s[i].0@ == k;
            if i < s.len() - 1 {
                assert(s.drop_last()[i].0@ == k);
            }
        }
    }
}

proof fn lemma_pairs_map_at(s: Seq<(String, Vec<String>)>, i: int)
    requires
        keys_unique(s),
        0 <= i < s.len(),
    ensures
        pairs_map(s).dom().contains(s[i].0@),
        pairs_map(s)[s[i].0@] == strings_view(s[i].1@),
    decreases s.len(),
{
    if i < s.len() - 1 {
        assert(s.drop_last()[i] == s[i]);
        assert(keys_unique(s.drop_last())) by {
            assert forall|a: int, b: int| 0 <= a < b < s.drop_last().len() implies #[trigger] s.drop_last()[a].0@
                != #[trigger] s.drop_last()[b].0@ by {
                assert(s.drop_last()[a] == s[a]);
                assert(s.drop_last()[b] == s[b]);
            }
        }
        lemma_pairs_map_at(s.drop_last(), i);
        assert(s[i].0@ != s.last().0@);
    }
}

proof fn lemma_pairs_map_update(s: Seq<(String, Vec<String>)>, i: int, x: (String, Vec<String>))
    requires
        0 <= i < s.len(),
        s[i].0@ == x.0@,
        keys_unique(s),
    ensures
        pairs_map(s.update(i, x)) =~= pairs_map(s).insert(x.0@, strings_view(x.1@)),
        keys_unique(s.update(i, x)),
    decreases s.len(),
{
    let t = s.update(i, x);
    assert(keys_unique(t)) by {
        assert forall|a: int, b: int| 0 <= a < b < t.len() implies #[trigger] t[a].0@ != #[trigger] t[b].0@ by {
            assert(s[a].0@ != s[b].0@);
        }
    }
    if i == s.len() - 1 {
        assert(t.drop_last() =~= s.drop_last());
    } else {
        assert(t.drop_last() =~= s.drop_last().update(i, x));
        assert(keys_unique(s.drop_last())) by {
            assert forall|a: int, b: int| 0 <= a < b < s.drop_last().len() implies #[trigger] s.drop_last()[a].0@
                != #[trigger] s.drop_last()[b].0@ by {
                assert(s.drop_last()[a] == s[a]);
                assert(s.drop_last()[b] == s[b]);
            }
        }
        lemma_pairs_map_update(s.drop_last(), i, x);
        assert(s.last().0@ != x.0@);
    }
}

proof fn lemma_pairs_map_len(s: Seq<(String, Vec<String>)>)
    requires
        keys_unique(s),
    ensures
        pairs_map(s).dom().len() == s.len(),
    decreases s.len(),
{
    if s.len() > 0 {
        assert(keys_unique(s.drop_last())) by {
            assert forall|a: int, b: int| 0 <= a < b < s.drop_last().len() implies #[trigger] s.drop_last()[a].0@
                != #[trigger] s.drop_last()[b].0@ by {
                assert(s.drop_last()[a] == s[a]);
                assert(s.drop_last()[b] == s[b]);
            }
        }
        lemma_pairs_map_len(s.drop_last());
        lemma_pairs_map_dom(s.drop_last(), s.last().0@);
        if pairs_map(s.drop_last()).dom().contains(s.last().0@) {
            let i = choose|i: int| 0 <= i < s.drop_last().len() && #[trigger] s.drop_last()[i].0@ == s.last().0@;
            assert(s[i].0@ == s[s.len() - 1].0@);
        }
    }
}

/// Session histories keyed by session name, each key held once.
#[derive(Debug)]
pub struct SessionMap {
    entries: Vec<(String, Vec<String>)>,
}

impl View for SessionMap {
    type V = Map<Seq<char>, Seq<Seq<char>>>;

    closed spec fn view(&self) -> Map<Seq<char>, Seq<Seq<char>>> {
        pairs_map(self.entries@)
    }
}

impl SessionMap {
    #[verifier::type_invariant]
    spec fn keys_are_unique(self) -> bool {
        keys_unique(self.entries@)
    }

    /// A map without sessions.
    pub fn new() -> (r: SessionMap)
        ensures
            r@ == Map::<Seq<char>, Seq<Seq<char>>>::empty(),
    {
        SessionMap { entries: Vec::new() }
    }

    fn index_of(&self, key: &str) -> (r: Option<usize>)
        ensures
            r matches Some(i) ==> i < self.entries@.len() && self.entries@[i as int].0@ == key@,
            r is None ==> forall|i: int| 0 <= i < self.entries@.len() ==> #[trigger] self.entries@[i].0@ != key@,
    {
        let mut i: usize = 0;
        while i < self.entries.len()
            invariant
                i <= self.entries@.len(),
                forall|j: int| 0 <= j < i ==> #[trigger] self.entries@[j].0@ != key@,
            decreases self.entries.len() - i,
        {
            if eq_str(self.entries[i].0.as_str(), key) {
                return Some(i);
            }
            i = i + 1;
        }
        None
    }

    /// The history stored for `key`.
    pub fn get(&self, key: &str) -> (r: Option<&Vec<String>>)
        ensures
            r matches Some(v) ==> self@.dom().contains(key@) && strings_view(v@) == self@[key@],
            r is None ==> !self@.dom().contains(key@),
    {
        proof {
            use_type_invariant(self);
            lemma_pairs_map_dom(self.entries@, key@);
        }
        match self.index_of(key) {
            Some(i) => {
                proof {
                    lemma_pairs_map_at(self.entries@, i as int);
                }
                Some(&self.entries[i].1)
            },
            None => None,
        }
    }

    /// Stores `ids` as the history of `key`, replacing any earlier one.
    pub fn insert(&mut self, key: String, ids: Vec<String>)
        ensures
            final(self)@ == old(self)@.insert(key@, strings_view(ids@)),
    {
        proof {
            use_type_invariant(&*self);
        }
        let ghost old_entries = self.entries@;
        let found = self.index_of(key.as_str());
        let mut next: Vec<(String, Vec<String>)> = Vec::new();
        std::mem::swap(&mut next, &mut self.entries);
        match found {
            Some(i) => {
                let x = (key, ids);
                proof {
                    lemma_pairs_map_update(old_entries, i as int, x);
                }
                next.set(i, x);
            },
            None => {
                let ghost x = (key, ids);
                proof {
                    assert(keys_unique(old_entries.push(x))) by {
                        assert forall|a: int, b: int| 0 <= a < b < old_entries.push(x).len() implies #[trigger] old_entries.push(x)[a].0@
                            != #[trigger] old_entries.push(x)[b].0@ by {
                            if b < old_entries.len() {
                                assert(old_entries[a].0@ != old_entries[b].0@);
                            } else {
                                assert(old_entries[a].0@ != key@);
                            }
                        }
                    }
                    assert(old_entries.push(x).drop_last() =~= old_entries);
                }
                next.push((key, ids));
            },
        }
        self.entries = next;
    }

    /// The number of sessions with a history.
    pub fn len(&self) -> (r: usize)
        ensures
            r == self@.dom().len(),
    {
        proof {
            use_type_invariant(self);
            lemma_pairs_map_len(self.entries@);
        }
        self.entries.len()
    }

    /// Whether no session has a history.
    pub fn is_empty(&self) -> (r: bool)
        ensures
            r == (self@.dom().len() == 0),
    {
        self.len() == 0
    }

    /// The stored (session, history) pairs.
    pub fn pairs(&self) -> (r: &Vec<(String, Vec<String>)>)
        ensures
            pairs_map(r@) == self@,
            keys_unique(r@),
    {
        proof {
            use_type_invariant(self);
        }
        &self.entries
    }
}

} // verus!

verus! {

/// The history key of a session (`__default__` for the unnamed or empty one).
pub fn session_key(session: Option<&str>) -> (r: &str)
    ensures
        r@ == recent_key(opt_str_view(session)),
{
    match session {
        Some(name) => {
            if name.is_empty() {
                DEFAULT_SESSION_KEY
            } else {
                name
            }
        },
        None => DEFAULT_SESSION_KEY,
    }
}

} // verus!

verus! {

/// The history that `m` holds for `key` (empty when it holds none).
pub open spec fn history_in(m: Map<Seq<char>, Seq<Seq<char>>>, key: Seq<char>) -> Seq<Seq<char>> {
    if m.dom().contains(key) {
        m[key]
    } else {
        seq![]
    }
}

/// `h` without any occurrence of `id`, order kept.
pub open spec fn without(h: Seq<Seq<char>>, id: Seq<char>) -> Seq<Seq<char>>
    decreases h.len(),
{
    if h.len() == 0 {
        seq![]
    } else if h.last() == id {
        without(h.drop_last(), id)
    } else {
        without(h.drop_last(), id).push(h.last())
    }
}

/// `acc` followed by the elements of `xs` that are in `live` and not already present,
/// each once, in the order of `xs`.
pub open spec fn append_new(acc: Seq<Seq<char>>, xs: Seq<Seq<char>>, live: Seq<Seq<char>>) -> Seq<
    Seq<char>,
>
    decreases xs.len(),
{
    if xs.len() == 0 {
        acc
    } else {
        let a = append_new(acc, xs.drop_last(), live);
        if live.contains(xs.last()) && !a.contains(xs.last()) {
            a.push(xs.last())
        } else {
            a
        }
    }
}

/// The normalized order of a session's live Workspaces: the current one (when live), then
/// the live ones of `history` in recency order, then the remaining live ones in the order
/// Herdr lists them; each once.
pub open spec fn normalized(
    history: Seq<Seq<char>>,
    live: Seq<Seq<char>>,
    current: Option<Seq<char>>,
) -> Seq<Seq<char>> {
    let first = match current {
        Some(c) => seq![c],
        None => seq![],
    };
    append_new(append_new(append_new(seq![], first, live), history, live), live, live)
}

/// Recently visited Workspaces, newest first, per session.
#[derive(Debug)]
pub struct RecentState {
    pub sessions: SessionMap,
}

impl Default for RecentState {
    fn default() -> (r: RecentState)
        ensures
            r.sessions@ == Map::<Seq<char>, Seq<Seq<char>>>::empty(),
    {
        RecentState { sessions: SessionMap::new() }
    }
}

fn copy_strings(v: &[String]) -> (r: Vec<String>)
    ensures
        r@ == v@,
{
    let mut out: Vec<String> = Vec::new();
    let mut i: usize = 0;
    while i < v.len()
        invariant
            i <= v.len(),
            out@ == v@.take(i as int),
        decreases v.len() - i,
    {
        out.push(v[i].clone());
        assert(v@.take(i + 1) =~= v@.take(i as int).push(v@[i as int]));
        i = i + 1;
    }
    assert(v@.take(v.len() as int) =~= v@);
    out
}

proof fn lemma_append_new_prefix(acc: Seq<Seq<char>>, xs: Seq<Seq<char>>, live: Seq<Seq<char>>)
    ensures
        acc.is_prefix_of(append_new(acc, xs, live)),
    decreases xs.len(),
{
    if xs.len() > 0 {
        lemma_append_new_prefix(acc, xs.drop_last(), live);
    }
}

/// Elements of `append_new` come from `acc` or are live elements of `xs`; it holds no
/// duplicates when `acc` holds none, and it holds every live element of `xs`.
pub proof fn lemma_append_new(acc: Seq<Seq<char>>, xs: Seq<Seq<char>>, live: Seq<Seq<char>>)
    ensures
        acc.no_duplicates() ==> append_new(acc, xs, live).no_duplicates(),
        forall|x: Seq<char>| #[trigger] append_new(acc, xs, live).contains(x) ==> acc.contains(x) || (
        xs.contains(x) && live.contains(x)),
        forall|x: Seq<char>| #[trigger] xs.contains(x) && live.contains(x) ==> append_new(
            acc,
            xs,
            live,
        ).contains(x),
        forall|x: Seq<char>| #[trigger] acc.contains(x) ==> append_new(acc, xs, live).contains(x),
    decreases xs.len(),
{
    if xs.len() > 0 {
        let a = append_new(acc, xs.drop_last(), live);
        lemma_append_new(acc, xs.drop_last(), live);
        assert forall|x: Seq<char>| #[trigger] xs.contains(x) && live.contains(x) implies append_new(
            acc,
            xs,
            live,
        ).contains(x) by {
            if x != xs.last() {
                let i = choose|i: int| 0 <= i < xs.len() && xs[i] == x;
                assert(xs.drop_last()[i] == x);
                assert(xs.drop_last().contains(x));
                assert(a.contains(x));
            }
            if a.contains(x) && live.contains(xs.last()) && !a.contains(xs.last()) {
                let j = choose|j: int| 0 <= j < a.len() && a[j] == x;
                assert(a.push(xs.last())[j] == x);
            }
            if x == xs.last() && live.contains(x) && !a.contains(x) {
                assert(a.push(x)[a.len() as int] == x);
            }
        }
        assert forall|x: Seq<char>| #[trigger] append_new(acc, xs, live).contains(x) implies acc.contains(x) || (
        xs.contains(x) && live.contains(x)) by {
            if a.contains(x) {
                if xs.drop_last().contains(x) {
                    let i = choose|i: int| 0 <= i < xs.drop_last().len() && xs.drop_last()[i] == x;
                    assert(xs[i] == x);
                }
            } else {
                let j = choose|j: int| 0 <= j < append_new(acc, xs, live).len() && append_new(acc, xs, live)[j] == x;
                assert(xs[xs.len() - 1] == x);
            }
        }
        assert forall|x: Seq<char>| #[trigger] acc.contains(x) implies append_new(acc, xs, live).contains(x) by {
            if live.contains(xs.last()) && !a.contains(xs.last()) {
                let j = choose|j: int| 0 <= j < a.len() && a[j] == x;
                assert(a.push(xs.last())[j] == x);
            }
        }
    }
}

/// Whether some element of `v` equals `s`.
fn holds(v: &Vec<String>, s: &str) -> (r: bool)
    ensures
        r == strings_view(v@).contains(s@),
{
    contains_string(v.as_slice(), s)
}

impl RecentState {
    /// A recent-state value from persisted parts: `None` when the version is not the
    /// supported one; otherwise the pairs inserted in order.
    pub fn from_parts(version: u32, pairs: Vec<(String, Vec<String>)>) -> (r: Option<RecentState>)
        ensures
            r is None <==> version != STATE_VERSION,
            r matches Some(state) ==> state.sessions@ == pairs_map(pairs@),
    {
        if version != STATE_VERSION {
            return None;
        }
        let mut sessions = SessionMap::new();
        let mut i: usize = 0;
        while i < pairs.len()
            invariant
                i <= pairs.len(),
                sessions@ == pairs_map(pairs@.take(i as int)),
            decreases pairs.len() - i,
        {
            let key = pairs[i].0.clone();
            let ids = copy_strings(pairs[i].1.as_slice());
            sessions.insert(key, ids);
            assert(pairs@.take(i + 1).drop_last() =~= pairs@.take(i as int));
            i = i + 1;
        }
        assert(pairs@.take(pairs.len() as int) =~= pairs@);
        Some(RecentState { sessions })
    }
}

} // verus!

verus! {

fn append_new_exec(out: &mut Vec<String>, xs: &[String], live: &[String])
    ensures
        strings_view(final(out)@) == append_new(strings_view(old(out)@), strings_view(xs@), strings_view(live@)),
{
    let ghost acc = strings_view(out@);
    let mut i: usize = 0;
    assert(strings_view(xs@).take(0) =~= seq![]);
    while i < xs.len()
        invariant
            i <= xs.len(),
            strings_view(out@) == append_new(acc, strings_view(xs@).take(i as int), strings_view(live@)),
        decreases xs.len() - i,
    {
        let x = &xs[i];
        let ghost before = strings_view(out@);
        assert(strings_view(xs@).take(i + 1).drop_last() =~= strings_view(xs@).take(i as int));
        assert(strings_view(xs@).take(i + 1).last() == x@);
        if contains_string(live, x.as_str()) && !contains_string(out.as_slice(), x.as_str()) {
            out.push(x.clone());
            assert(strings_view(out@) =~= before.push(x@));
        }
        i = i + 1;
    }
    assert(strings_view(xs@).take(xs.len() as int) =~= strings_view(xs@));
}

impl RecentState {
    /// The history of `session`, newest first.
    pub fn recent_ids(&self, session: Option<&str>) -> (r: &[String])
        ensures
            strings_view(r@) == history_in(self.sessions@, recent_key(opt_str_view(session))),
    {
        match self.sessions.get(session_key(session)) {
            Some(v) => v.as_slice(),
            None => {
                let r: &[String] = &[];
                assert(strings_view(r@) =~= seq![]);
                r
            },
        }
    }

    /// Records a visit of `workspace_id` in `session`: it moves to the front of the
    /// session's history, and any earlier occurrence is removed. An empty ID changes
    /// nothing.
    pub fn record(&mut self, session: Option<&str>, workspace_id: &str)
        ensures
            workspace_id@.len() == 0 ==> final(self).sessions@ == old(self).sessions@,
            workspace_id@.len() > 0 ==> final(self).sessions@ == old(self).sessions@.insert(
                recent_key(opt_str_view(session)),
                seq![workspace_id@] + without(
                    history_in(old(self).sessions@, recent_key(opt_str_view(session))),
                    workspace_id@,
                ),
            ),
    {
        if workspace_id.is_empty() {
            return;
        }
        let key = session_key(session);
        let history = self.recent_ids(session);
        let ghost h = strings_view(history@);
        let mut kept: Vec<String> = Vec::new();
        let mut i: usize = 0;
        while i < history.len()
            invariant
                i <= history.len(),
                h == strings_view(history@),
                strings_view(kept@) == without(h.take(i as int), workspace_id@),
            decreases history.len() - i,
        {
            assert(h.take(i + 1).drop_last() =~= h.take(i as int));
            assert(h.take(i + 1).last() == history@[i as int]@);
            if !eq_str(history[i].as_str(), workspace_id) {
                let ghost before = strings_view(kept@);
                kept.push(history[i].clone());
                assert(strings_view(kept@) =~= before.push(history@[i as int]@));
            }
            i = i + 1;
        }
        assert(h.take(history.len() as int) =~= h);
        let mut next: Vec<String> = Vec::new();
        next.push(workspace_id.to_owned());
        let ghost first = strings_view(next@);
        let mut kept = kept;
        next.append(&mut kept);
        assert(strings_view(next@) =~= first + without(h, workspace_id@));
        assert(first =~= seq![workspace_id@]);
        self.sessions.insert(key.to_owned(), next);
    }

    /// Rewrites the history of `session` to the normalized order of its live Workspaces
    /// (see `normalized`) and returns it.
    pub fn normalize(&mut self, session: Option<&str>, live_ids: &[String], current_id: Option<&str>) -> (r:
        Vec<String>)
        ensures
            strings_view(r@) == normalized(
                history_in(old(self).sessions@, recent_key(opt_str_view(session))),
                strings_view(live_ids@),
                opt_str_view(current_id),
            ),
            final(self).sessions@ == old(self).sessions@.insert(
                recent_key(opt_str_view(session)),
                strings_view(r@),
            ),
            strings_view(r@).no_duplicates(),
            forall|x: Seq<char>| #[trigger] strings_view(r@).contains(x) <==> strings_view(live_ids@).contains(x),
            current_id is Some && strings_view(live_ids@).contains(current_id->0@) ==> strings_view(r@)[0]
                == current_id->0@,
            forall|x: Seq<char>, y: Seq<char>|
                x != y && strings_view(live_ids@).contains(x) && strings_view(live_ids@).contains(y)
                    && history_in(old(self).sessions@, recent_key(opt_str_view(session))).contains(x)
                    && history_in(old(self).sessions@, recent_key(opt_str_view(session))).contains(y)
                    && opt_str_view(current_id) != Some(x) && opt_str_view(current_id) != Some(y) ==> (
                #[trigger] occurs_before(strings_view(r@), x, y)) == occurs_before(
                    history_in(old(self).sessions@, recent_key(opt_str_view(session))),
                    x,
                    y,
                ),
    {
        proof {
            assert forall|x: Seq<char>, y: Seq<char>|
                x != y && strings_view(live_ids@).contains(x) && strings_view(live_ids@).contains(y)
                    && history_in(self.sessions@, recent_key(opt_str_view(session))).contains(x)
                    && history_in(self.sessions@, recent_key(opt_str_view(session))).contains(y)
                    && opt_str_view(current_id) != Some(x) && opt_str_view(current_id) != Some(y) implies #[trigger] occurs_before(
                normalized(
                    history_in(self.sessions@, recent_key(opt_str_view(session))),
                    strings_view(live_ids@),
                    opt_str_view(current_id),
                ),
                x,
                y,
            ) == occurs_before(history_in(self.sessions@, recent_key(opt_str_view(session))), x, y) by {
                law_normalize_keeps_recency_order(
                    history_in(self.sessions@, recent_key(opt_str_view(session))),
                    strings_view(live_ids@),
                    opt_str_view(current_id),
                    x,
                    y,
                );
            }
        }
        proof {
            law_normalize_is_live_permutation(
                history_in(self.sessions@, recent_key(opt_str_view(session))),
                strings_view(live_ids@),
                opt_str_view(current_id),
            );
        }
        let key = session_key(session);
        let history = copy_strings(self.recent_ids(session));
        let mut out: Vec<String> = Vec::new();
        let ghost empty = strings_view(out@);
        assert(empty =~= seq![]);
        match current_id {
            Some(c) => {
                let mut first: Vec<String> = Vec::new();
                first.push(c.to_owned());
                append_new_exec(&mut out, first.as_slice(), live_ids);
                assert(strings_view(first@) =~= seq![c@]);
            },
            None => {
                assert(append_new(seq![], seq![], strings_view(live_ids@)) == Seq::<Seq<char>>::empty());
            },
        }
        append_new_exec(&mut out, history.as_slice(), live_ids);
        append_new_exec(&mut out, live_ids, live_ids);
        self.sessions.insert(key.to_owned(), copy_strings(out.as_slice()));
        out
    }

    /// The version and the (session, history) pairs to persist.
    pub fn to_parts(&self) -> (r: (u32, Vec<(String, Vec<String>)>))
        ensures
            r.0 == STATE_VERSION,
            pairs_map(r.1@) == self.sessions@,
    {
        let pairs = self.sessions.pairs();
        let mut out: Vec<(String, Vec<String>)> = Vec::new();
        let mut i: usize = 0;
        while i < pairs.len()
            invariant
                i <= pairs.len(),
                pairs_map(out@) == pairs_map(pairs@.take(i as int)),
            decreases pairs.len() - i,
        {
            let ghost prev = out@;
            out.push((pairs[i].0.clone(), copy_strings(pairs[i].1.as_slice())));
            assert(pairs@.take(i + 1).drop_last() =~= pairs@.take(i as int));
            assert(out@.drop_last() =~= prev);
            i = i + 1;
        }
        assert(pairs@.take(pairs.len() as int) =~= pairs@);
        (STATE_VERSION, out)
    }
}

} // verus!

verus! {

proof fn lemma_without(h: Seq<Seq<char>>, id: Seq<char>)
    ensures
        !without(h, id).contains(id),
        forall|x: Seq<char>| x != id ==> (#[trigger] without(h, id).contains(x) <==> h.contains(x)),
        h.no_duplicates() ==> without(h, id).no_duplicates(),
        !h.contains(id) ==> without(h, id) == h,
    decreases h.len(),
{
    if h.len() > 0 {
        let w = without(h.drop_last(), id);
        lemma_without(h.drop_last(), id);
        assert forall|x: Seq<char>| x != id implies (#[trigger] without(h, id).contains(x) <==> h.contains(x)) by {
            if h.contains(x) {
                let i = choose|i: int| 0 <= i < h.len() && h[i] == x;
                if i < h.len() - 1 {
                    assert(h.drop_last()[i] == x);
                    assert(h.drop_last().contains(x));
                    assert(w.contains(x));
                    if h.last() != id {
                        let j = choose|j: int| 0 <= j < w.len() && w[j] == x;
                        assert(w.push(h.last())[j] == x);
                    }
                } else if h.last() != id {
                    assert(w.push(h.last())[w.len() as int] == x);
                }
            }
            if without(h, id).contains(x) {
                if h.last() != id && x == h.last() {
                    assert(h[h.len() - 1] == x);
                } else {
                    if h.last() != id {
                        let j = choose|j: int| 0 <= j < w.push(h.last()).len() && w.push(h.last())[j] == x;
                        assert(j < w.len());
                        assert(w[j] == x);
                    }
                    assert(w.contains(x));
                    let i = choose|i: int| 0 <= i < h.drop_last().len() && h.drop_last()[i] == x;
                    assert(h[i] == x);
                }
            }
        }
        if h.last() != id && w.contains(id) {
            assert(false);
        }
        if h.last() != id && without(h, id).contains(id) {
            let j = choose|j: int| 0 <= j < w.push(h.last()).len() && w.push(h.last())[j] == id;
            assert(j < w.len());
            assert(w[j] == id);
        }
        if h.no_duplicates() {
            assert(h.drop_last().no_duplicates());
            if h.last() != id && w.contains(h.last()) {
                assert(h.drop_last().contains(h.last()));
                let i = choose|i: int| 0 <= i < h.drop_last().len() && h.drop_last()[i] == h.last();
                assert(h[i] == h[h.len() - 1]);
            }
        }
        if !h.contains(id) {
            assert(!h.drop_last().contains(id)) by {
                if h.drop_last().contains(id) {
                    let i = choose|i: int| 0 <= i < h.drop_last().len() && h.drop_last()[i] == id;
                    assert(h[i] == id);
                }
            }
            assert(h.last() != id) by {
                assert(h[h.len() - 1] == h.last());
            }
            assert(h.drop_last().push(h.last()) =~= h);
        }
    }
}

/// Law: recording a visit puts the Workspace first and keeps it there exactly once; every
/// other Workspace of the history stays, and recording the same visit again changes
/// nothing.
pub proof fn law_record_moves_to_front(h: Seq<Seq<char>>, id: Seq<char>)
    ensures
        (seq![id] + without(h, id))[0] == id,
        forall|i: int| 0 < i < (seq![id] + without(h, id)).len() ==> #[trigger] (seq![id] + without(h, id))[i] != id,
        forall|x: Seq<char>| x != id ==> ((seq![id] + without(h, id)).contains(x) <==> #[trigger] h.contains(x)),
        seq![id] + without(seq![id] + without(h, id), id) == seq![id] + without(h, id),
{
    lemma_without(h, id);
    let r = seq![id] + without(h, id);
    assert forall|i: int| 0 < i < r.len() implies #[trigger] r[i] != id by {
        assert(r[i] == without(h, id)[i - 1]);
    }
    assert forall|x: Seq<char>| x != id implies (r.contains(x) <==> #[trigger] h.contains(x)) by {
        if r.contains(x) {
            let i = choose|i: int| 0 <= i < r.len() && r[i] == x;
            assert(i != 0);
            assert(without(h, id)[i - 1] == x);
            assert(without(h, id).contains(x));
        }
        if h.contains(x) {
            assert(without(h, id).contains(x));
            let j = choose|j: int| 0 <= j < without(h, id).len() && without(h, id)[j] == x;
            assert(r[j + 1] == x);
        }
    }
    lemma_without_head(id, without(h, id));
    lemma_without(without(h, id), id);
}

proof fn lemma_without_head(id: Seq<char>, t: Seq<Seq<char>>)
    ensures
        without(seq![id] + t, id) == without(t, id),
    decreases t.len(),
{
    if t.len() == 0 {
        assert((seq![id] + t).drop_last() =~= Seq::<Seq<char>>::empty());
        assert(without(seq![id] + t, id) == without(Seq::<Seq<char>>::empty(), id));
    } else {
        assert((seq![id] + t).drop_last() =~= seq![id] + t.drop_last());
        lemma_without_head(id, t.drop_last());
    }
}

/// Law: the unnamed session and a session literally named `default` keep separate
/// histories.
pub proof fn law_default_session_is_distinct()
    ensures
        recent_key(None) != recent_key(Some("default"@)),
{
    reveal_strlit("default");
    reveal_strlit("__default__");
    assert("default"@.len() != "__default__"@.len());
}

/// Law: normalizing yields each live Workspace exactly once and nothing else, with the
/// current Workspace first when it is live.
pub proof fn law_normalize_is_live_permutation(
    history: Seq<Seq<char>>,
    live: Seq<Seq<char>>,
    current: Option<Seq<char>>,
)
    ensures
        normalized(history, live, current).no_duplicates(),
        forall|x: Seq<char>| #[trigger] normalized(history, live, current).contains(x) <==> live.contains(x),
        current is Some && live.contains(current->0) ==> normalized(history, live, current)[0]
            == current->0,
{
    let first = match current {
        Some(c) => seq![c],
        None => seq![],
    };
    let a = append_new(seq![], first, live);
    let b = append_new(a, history, live);
    lemma_append_new(seq![], first, live);
    lemma_append_new(a, history, live);
    lemma_append_new(b, live, live);
    assert(Seq::<Seq<char>>::empty().no_duplicates());
    assert forall|x: Seq<char>| #[trigger] normalized(history, live, current).contains(x) implies live.contains(x) by {
        if b.contains(x) {
            if a.contains(x) {
                assert(!Seq::<Seq<char>>::empty().contains(x));
            }
        }
    }
    if let Some(c) = current {
        if live.contains(c) {
            assert(first.drop_last() =~= Seq::<Seq<char>>::empty());
            assert(append_new(seq![], first.drop_last(), live) == Seq::<Seq<char>>::empty());
            assert(first.last() == c);
            assert(!Seq::<Seq<char>>::empty().contains(c));
            assert(Seq::<Seq<char>>::empty().push(c) =~= seq![c]);
            assert(a == seq![c]);
            lemma_append_new_prefix(a, history, live);
            lemma_append_new_prefix(b, live, live);
            assert(normalized(history, live, current)[0] == b[0]);
        }
    }
}


/// `x` occurs in `s` before any occurrence of `y`.
pub open spec fn occurs_before(s: Seq<Seq<char>>, x: Seq<char>, y: Seq<char>) -> bool {
    exists|i: int| 0 <= i < s.len() && s[i] == x && forall|k: int| 0 <= k < i ==> s[k] != y
}

proof fn lemma_occurs_before_push(s: Seq<Seq<char>>, l: Seq<char>, x: Seq<char>, y: Seq<char>)
    requires
        x != y,
    ensures
        occurs_before(s.push(l), x, y) == (occurs_before(s, x, y) || (l == x && !s.contains(x) && !s.contains(y))),
{
    let u = s.push(l);
    if occurs_before(s, x, y) {
        let i = choose|i: int| 0 <= i < s.len() && s[i] == x && forall|k: int| 0 <= k < i ==> s[k] != y;
        assert(u[i] == x);
        assert forall|k: int| 0 <= k < i implies u[k] != y by {
            assert(u[k] == s[k]);
        }
    }
    if l == x && !s.contains(x) && !s.contains(y) {
        assert(u[s.len() as int] == x);
        assert forall|k: int| 0 <= k < s.len() implies u[k] != y by {
            assert(u[k] == s[k]);
        }
    }
    if occurs_before(u, x, y) {
        let i = choose|i: int| 0 <= i < u.len() && u[i] == x && forall|k: int| 0 <= k < i ==> u[k] != y;
        if i < s.len() {
            assert(s[i] == x);
            assert forall|k: int| 0 <= k < i implies s[k] != y by {
                assert(u[k] == s[k]);
            }
        } else {
            assert(l == x);
            if s.contains(x) {
                let j = choose|j: int| 0 <= j < s.len() && s[j] == x;
                assert(u[j] == x);
                assert forall|k: int| 0 <= k < j implies s[k] != y by {
                    assert(u[k] == s[k]);
                }
            }
            if s.contains(y) {
                let j = choose|j: int| 0 <= j < s.len() && s[j] == y;
                assert(u[j] == y);
            }
        }
    }
}

proof fn lemma_append_new_order(
    acc: Seq<Seq<char>>,
    xs: Seq<Seq<char>>,
    live: Seq<Seq<char>>,
    x: Seq<char>,
    y: Seq<char>,
)
    requires
        x != y,
        !acc.contains(x),
        !acc.contains(y),
        live.contains(x),
        live.contains(y),
    ensures
        occurs_before(append_new(acc, xs, live), x, y) == occurs_before(xs, x, y),
    decreases xs.len(),
{
    if xs.len() == 0 {
        assert(!occurs_before(xs, x, y));
        if occurs_before(acc, x, y) {
            let i = choose|i: int| 0 <= i < acc.len() && acc[i] == x && forall|k: int| 0 <= k < i ==> acc[k] != y;
            assert(acc.contains(x));
        }
    } else {
        let l = xs.last();
        let a = append_new(acc, xs.drop_last(), live);
        lemma_append_new_order(acc, xs.drop_last(), live, x, y);
        lemma_append_new(acc, xs.drop_last(), live);
        assert(xs.drop_last().push(l) =~= xs);
        lemma_occurs_before_push(xs.drop_last(), l, x, y);
        assert(a.contains(x) == xs.drop_last().contains(x));
        assert(a.contains(y) == xs.drop_last().contains(y));
        if live.contains(l) && !a.contains(l) {
            lemma_occurs_before_push(a, l, x, y);
        } else if l == x {
            assert(a.contains(x));
        }
    }
}

proof fn lemma_occurs_before_prefix(b: Seq<Seq<char>>, c: Seq<Seq<char>>, x: Seq<char>, y: Seq<char>)
    requires
        b.is_prefix_of(c),
        b.contains(x),
    ensures
        occurs_before(c, x, y) == occurs_before(b, x, y),
{
    if occurs_before(b, x, y) {
        let i = choose|i: int| 0 <= i < b.len() && b[i] == x && forall|k: int| 0 <= k < i ==> b[k] != y;
        assert(c[i] == x);
        assert forall|k: int| 0 <= k < i implies c[k] != y by {
            assert(c[k] == b[k]);
        }
    }
    if occurs_before(c, x, y) {
        let i = choose|i: int| 0 <= i < c.len() && c[i] == x && forall|k: int| 0 <= k < i ==> c[k] != y;
        let j = choose|j: int| 0 <= j < b.len() && b[j] == x;
        let w = if i < b.len() { i } else { j };
        assert(b[w] == x);
        assert forall|k: int| 0 <= k < w implies b[k] != y by {
            assert(c[k] == b[k]);
        }
    }
}

/// Law: normalizing keeps the recency order of the history: of two live Workspaces,
/// neither the current one, that both occur in the history, one comes before the other
/// in the result exactly when it does in the history.
pub proof fn law_normalize_keeps_recency_order(
    history: Seq<Seq<char>>,
    live: Seq<Seq<char>>,
    current: Option<Seq<char>>,
    x: Seq<char>,
    y: Seq<char>,
)
    requires
        x != y,
        live.contains(x),
        live.contains(y),
        history.contains(x),
        history.contains(y),
        current != Some(x),
        current != Some(y),
    ensures
        occurs_before(normalized(history, live, current), x, y) == occurs_before(history, x, y),
{
    let first = match current {
        Some(c) => seq![c],
        None => seq![],
    };
    let a = append_new(seq![], first, live);
    let b = append_new(a, history, live);
    lemma_append_new(seq![], first, live);
    lemma_append_new(a, history, live);
    if a.contains(x) {
        assert(first.contains(x));
        assert(first[0] == x);
    }
    if a.contains(y) {
        assert(first.contains(y));
        assert(first[0] == y);
    }
    lemma_append_new_order(a, history, live, x, y);
    lemma_append_new_prefix(b, live, live);
    lemma_occurs_before_prefix(b, append_new(b, live, live), x, y);
}

} // verus!
