//! The Query language: plain fuzzy text plus `agent`, `!name`, `@text`, `/path` and
//! `#status` tokens.
use vstd::prelude::*;
use crate::model::{opt_view, Entry, Source};
use crate::text::{
    append_str, chars_of, contains, contains_chars, find, find_chars, lowercase_of, slice_vec,
    split_whitespace, string_of, strings_view, to_lowercase, trim, trim_chars,
};

verus! {

/// A parsed Query.
#[derive(Debug)]
pub struct Query {
    pub plain: String,
    pub agent: Vec<String>,
    pub agent_only: bool,
    pub workspace_or_status: Vec<String>,
    pub path: Vec<String>,
    pub status: Vec<String>,
    pub all_agents: bool,
}

/// What parsing a Query's words gives.
pub struct QueryModel {
    pub plain: Seq<Seq<char>>,
    pub agent: Seq<Seq<char>>,
    pub agent_only: bool,
    pub workspace_or_status: Seq<Seq<char>>,
    pub path: Seq<Seq<char>>,
    pub status: Seq<Seq<char>>,
    pub all_agents: bool,
}

/// `v` with `tok` appended when it is not empty.
pub open spec fn pushed_token(v: Seq<Seq<char>>, tok: Seq<char>) -> Seq<Seq<char>> {
    if tok.len() > 0 {
        v.push(tok)
    } else {
        v
    }
}

/// The effect of one lower-cased token: the exact word `agent` restricts to agents, and a
/// leading `!`, `@`, `/` or `#` files the rest of the token under agent names,
/// workspace-or-status text, paths or status (a lone `@` selects all agents); any other
/// token is plain text.
pub open spec fn with_token(q: QueryModel, token: Seq<char>) -> QueryModel {
    if token == "agent"@ {
        QueryModel { agent_only: true, ..q }
    } else if token.len() > 0 && token[0] == '!' {
        QueryModel { agent: pushed_token(q.agent, token.skip(1)), ..q }
    } else if token.len() > 0 && token[0] == '@' {
        if token.len() == 1 {
            QueryModel { all_agents: true, ..q }
        } else {
            QueryModel { workspace_or_status: q.workspace_or_status.push(token.skip(1)), ..q }
        }
    } else if token.len() > 0 && token[0] == '/' {
        QueryModel { path: pushed_token(q.path, token.skip(1)), ..q }
    } else if token.len() > 0 && token[0] == '#' {
        QueryModel { status: pushed_token(q.status, token.skip(1)), ..q }
    } else {
        QueryModel { plain: q.plain.push(token), ..q }
    }
}

/// The Query model of the lower-cased words `ws`, read in order.
pub open spec fn parsed_words(ws: Seq<Seq<char>>) -> QueryModel
    decreases ws.len(),
{
    if ws.len() == 0 {
        QueryModel {
            plain: seq![],
            agent: seq![],
            agent_only: false,
            workspace_or_status: seq![],
            path: seq![],
            status: seq![],
            all_agents: false,
        }
    } else {
        with_token(parsed_words(ws.drop_last()), lowercase_of(ws.last()))
    }
}

/// The Query model of an input line.
pub open spec fn parsed(input: Seq<char>) -> QueryModel {
    parsed_words(crate::text::words(input))
}

/// `parts` joined by single spaces.
pub open spec fn joined(parts: Seq<Seq<char>>) -> Seq<char> {
    crate::model::join_with_space(parts)
}

/// Adds `value` to `tokens` unless it is empty.
pub fn push_token(tokens: &mut Vec<String>, value: &[char])
    ensures
        strings_view(final(tokens)@) == pushed_token(strings_view(old(tokens)@), value@),
{
    if value.len() > 0 {
        let ghost before = strings_view(tokens@);
        tokens.push(string_of(value));
        assert(strings_view(tokens@) =~= before.push(value@));
    }
}

} // verus!

verus! {

impl Query {
    /// Parses an input line: each white-space separated word, lower-cased, is one token
    /// (see `with_token`); plain tokens are joined by single spaces.
    pub fn parse(input: &str) -> (q: Query)
        ensures
            q.plain@ == joined(parsed(input@).plain),
            strings_view(q.agent@) == parsed(input@).agent,
            q.agent_only == parsed(input@).agent_only,
            strings_view(q.workspace_or_status@) == parsed(input@).workspace_or_status,
            strings_view(q.path@) == parsed(input@).path,
            strings_view(q.status@) == parsed(input@).status,
            q.all_agents == parsed(input@).all_agents,
    {
        let chars = chars_of(input);
        let ws = split_whitespace(chars.as_slice());
        let ghost wv = ws@.map_values(|w: Vec<char>| w@);
        let mut plain: Vec<Vec<char>> = Vec::new();
        let mut agent: Vec<String> = Vec::new();
        let mut agent_only = false;
        let mut wos: Vec<String> = Vec::new();
        let mut path: Vec<String> = Vec::new();
        let mut status: Vec<String> = Vec::new();
        let mut all_agents = false;
        let mut i: usize = 0;
        assert(wv.take(0) =~= Seq::<Seq<char>>::empty());
        assert(plain@.map_values(|p: Vec<char>| p@) =~= Seq::<Seq<char>>::empty());
        assert(strings_view(agent@) =~= Seq::<Seq<char>>::empty());
        while i < ws.len()
            invariant
                i <= ws.len(),
                wv == ws@.map_values(|w: Vec<char>| w@),
                wv == crate::text::words(input@),
                plain@.map_values(|p: Vec<char>| p@) == parsed_words(wv.take(i as int)).plain,
                strings_view(agent@) == parsed_words(wv.take(i as int)).agent,
                agent_only == parsed_words(wv.take(i as int)).agent_only,
                strings_view(wos@) == parsed_words(wv.take(i as int)).workspace_or_status,
                strings_view(path@) == parsed_words(wv.take(i as int)).path,
                strings_view(status@) == parsed_words(wv.take(i as int)).status,
                all_agents == parsed_words(wv.take(i as int)).all_agents,
            decreases ws.len() - i,
        {
            assert(wv.take(i + 1).drop_last() =~= wv.take(i as int));
            assert(wv.take(i + 1).last() == ws@[i as int]@);
            let raw = string_of(ws[i].as_slice());
            let lowered = to_lowercase(raw.as_str());
            let token = chars_of(lowered.as_str());
            let ghost t = token@;
            let rest = if token.len() > 0 {
                slice_vec(token.as_slice(), 1, token.len())
            } else {
                Vec::new()
            };
            assert(token.len() > 0 ==> rest@ == t.skip(1));
            let agent_word = chars_of("agent");
            if crate::text::eq_chars(token.as_slice(), agent_word.as_slice()) {
                agent_only = true;
            } else if token.len() > 0 && token[0] == '!' {
                push_token(&mut agent, rest.as_slice());
            } else if token.len() > 0 && token[0] == '@' {
                if rest.len() == 0 {
                    all_agents = true;
                } else {
                    let ghost before = strings_view(wos@);
                    wos.push(string_of(rest.as_slice()));
                    assert(strings_view(wos@) =~= before.push(rest@));
                }
            } else if token.len() > 0 && token[0] == '/' {
                push_token(&mut path, rest.as_slice());
            } else if token.len() > 0 && token[0] == '#' {
                push_token(&mut status, rest.as_slice());
            } else {
                let ghost before = plain@.map_values(|p: Vec<char>| p@);
                plain.push(token);
                assert(plain@.map_values(|p: Vec<char>| p@) =~= before.push(t));
            }
            i = i + 1;
        }
        assert(wv.take(ws.len() as int) =~= wv);
        let joined_plain = crate::model::join_words(&plain);
        Query {
            plain: string_of(joined_plain.as_slice()),
            agent,
            agent_only,
            workspace_or_status: wos,
            path,
            status,
            all_agents,
        }
    }
}

} // verus!

verus! {

/// The part of `s` before the first `c` (all of `s` when there is none).
pub open spec fn before_char(s: Seq<char>, c: char) -> Seq<char> {
    match find(s, seq![c]) {
        Some(i) => s.take(i),
        None => s,
    }
}

/// The part of `s` before the first `c`.
pub fn before_char_exec(s: &[char], c: char) -> (r: Vec<char>)
    ensures
        r@ == before_char(s@, c),
{
    let mut pat: Vec<char> = Vec::new();
    pat.push(c);
    assert(pat@ =~= seq![c]);
    match find_chars(s, pat.as_slice()) {
        Some(i) => {
            proof {
                crate::text::lemma_find(s@, pat@);
            }
            slice_vec(s, 0, i)
        },
        None => slice_vec(s, 0, s.len()),
    }
}

/// The rest of the first term at or after `from` that starts with `p`.
pub open spec fn first_stripped(terms: Seq<Seq<char>>, p: Seq<char>, from: int) -> Option<Seq<char>>
    decreases terms.len() - from,
{
    if from < 0 || from >= terms.len() {
        None
    } else if p.is_prefix_of(terms[from]) {
        Some(terms[from].skip(p.len() as int))
    } else {
        first_stripped(terms, p, from + 1)
    }
}

/// The rest of the first term that starts with `p`.
pub fn first_stripped_exec(terms: &[String], p: &str) -> (r: Option<Vec<char>>)
    ensures
        match r {
            Some(v) => first_stripped(strings_view(terms@), p@, 0) == Some(v@),
            None => first_stripped(strings_view(terms@), p@, 0) is None,
        },
{
    let pc = chars_of(p);
    let mut i: usize = 0;
    while i < terms.len()
        invariant
            i <= terms.len(),
            pc@ == p@,
            first_stripped(strings_view(terms@), p@, 0) == first_stripped(strings_view(terms@), p@, i as int),
        decreases terms.len() - i,
    {
        let t = chars_of(terms[i].as_str());
        assert(strings_view(terms@)[i as int] == t@);
        if crate::text::starts_with(t.as_slice(), pc.as_slice()) {
            return Some(slice_vec(t.as_slice(), pc.len(), t.len()));
        }
        i = i + 1;
    }
    None
}

/// An agent Entry: it has an agent target or comes from the agent Source.
pub open spec fn is_agent(e: Entry) -> bool {
    e.agent_target is Some || e.source == Source::Agent
}

/// The status text of an Entry: its `agent-status:` search term, or else the lower-cased,
/// trimmed part of its subtitle before the first `·`.
pub open spec fn status_text_of(e: Entry) -> Seq<char> {
    match first_stripped(strings_view(e.search_terms@), "agent-status:"@, 0) {
        Some(s) => s,
        None => lowercase_of(trim(before_char(e.subtitle@, '·'))),
    }
}

/// The agent name text of an Entry: its title before the first `·`.
pub open spec fn agent_text_of(e: Entry) -> Seq<char> {
    before_char(e.title@, '·')
}

/// The characters of an optional string, or none.
pub open spec fn or_empty(o: Option<String>) -> Seq<char> {
    match o {
        Some(s) => s@,
        None => seq![],
    }
}

/// The Workspace text of an Entry: Workspace ID, Workspace label and title.
pub open spec fn workspace_text_of(e: Entry) -> Seq<char> {
    or_empty(e.workspace_id) + " "@ + or_empty(e.workspace_label) + " "@ + e.title@
}

/// Every token occurs in the lower-cased `hay`.
pub open spec fn all_in(tokens: Seq<Seq<char>>, hay: Seq<char>) -> bool {
    forall|i: int| 0 <= i < tokens.len() ==> contains(lowercase_of(hay), #[trigger] tokens[i])
}

/// Every token occurs in the lower-cased `left` or the lower-cased `right`.
pub open spec fn all_in_either(tokens: Seq<Seq<char>>, left: Seq<char>, right: Seq<char>) -> bool {
    forall|i: int|
        0 <= i < tokens.len() ==> contains(lowercase_of(left), #[trigger] tokens[i]) || contains(
            lowercase_of(right),
            tokens[i],
        )
}

/// An Entry passes the Query's token filters: agent tokens admit only agent Entries, and
/// each token occurs in its text (agent name, Workspace or status, path, status).
pub open spec fn filters_match_of(q: QueryModel, e: Entry) -> bool {
    let agent_query = q.all_agents || q.agent_only || q.agent.len() > 0 || q.workspace_or_status.len()
        > 0 || q.status.len() > 0;
    if agent_query && !is_agent(e) {
        false
    } else {
        &&& (!q.agent_only && q.agent.len() == 0 || is_agent(e))
        &&& all_in(q.agent, agent_text_of(e))
        &&& all_in_either(q.workspace_or_status, workspace_text_of(e), status_text_of(e))
        &&& all_in(q.path, e.path@)
        &&& all_in(q.status, status_text_of(e))
    }
}

/// The token view of a Query.
pub open spec fn query_tokens(q: Query) -> QueryModel {
    QueryModel {
        plain: seq![q.plain@],
        agent: strings_view(q.agent@),
        agent_only: q.agent_only,
        workspace_or_status: strings_view(q.workspace_or_status@),
        path: strings_view(q.path@),
        status: strings_view(q.status@),
        all_agents: q.all_agents,
    }
}

/// Whether the Entry is an agent Entry.
pub fn is_agent_entry(entry: &Entry) -> (r: bool)
    ensures
        r == is_agent(*entry),
{
    entry.agent_target.is_some() || entry.source == Source::Agent
}

/// The status text of an Entry.
pub fn status_text(entry: &Entry) -> (r: String)
    ensures
        r@ == status_text_of(*entry),
{
    match first_stripped_exec(entry.search_terms.as_slice(), "agent-status:") {
        Some(s) => string_of(s.as_slice()),
        None => {
            let sub = chars_of(entry.subtitle.as_str());
            let head = before_char_exec(sub.as_slice(), '·');
            let t = trim_chars(head.as_slice());
            let ts = string_of(t.as_slice());
            to_lowercase(ts.as_str())
        },
    }
}

/// The agent name text of an Entry.
pub fn agent_text(entry: &Entry) -> (r: String)
    ensures
        r@ == agent_text_of(*entry),
{
    let title = chars_of(entry.title.as_str());
    string_of(before_char_exec(title.as_slice(), '·').as_slice())
}

/// The Workspace text of an Entry.
pub fn workspace_text(entry: &Entry) -> (r: String)
    ensures
        r@ == workspace_text_of(*entry),
{
    let mut out: Vec<char> = Vec::new();
    match &entry.workspace_id {
        Some(w) => append_str(&mut out, w.as_str()),
        None => {},
    }
    append_str(&mut out, " ");
    match &entry.workspace_label {
        Some(l) => append_str(&mut out, l.as_str()),
        None => {},
    }
    append_str(&mut out, " ");
    append_str(&mut out, entry.title.as_str());
    assert(out@ =~= workspace_text_of(*entry));
    string_of(out.as_slice())
}

/// Whether every token occurs in the lower-cased `haystack`.
pub fn all_match(tokens: &[String], haystack: &str) -> (r: bool)
    ensures
        r == all_in(strings_view(tokens@), haystack@),
{
    let hay = to_lowercase(haystack);
    let h = chars_of(hay.as_str());
    let mut i: usize = 0;
    while i < tokens.len()
        invariant
            i <= tokens.len(),
            h@ == lowercase_of(haystack@),
            forall|j: int| 0 <= j < i ==> contains(lowercase_of(haystack@), #[trigger] strings_view(tokens@)[j]),
        decreases tokens.len() - i,
    {
        let t = chars_of(tokens[i].as_str());
        if !contains_chars(h.as_slice(), t.as_slice()) {
            assert(strings_view(tokens@)[i as int] == t@);
            return false;
        }
        i = i + 1;
    }
    true
}

/// Whether every token occurs in the lower-cased `left` or `right`.
pub fn all_match_either(tokens: &[String], left: &str, right: &str) -> (r: bool)
    ensures
        r == all_in_either(strings_view(tokens@), left@, right@),
{
    let l = chars_of(to_lowercase(left).as_str());
    let rr = chars_of(to_lowercase(right).as_str());
    let mut i: usize = 0;
    while i < tokens.len()
        invariant
            i <= tokens.len(),
            l@ == lowercase_of(left@),
            rr@ == lowercase_of(right@),
            forall|j: int|
                0 <= j < i ==> contains(lowercase_of(left@), #[trigger] strings_view(tokens@)[j])
                    || contains(lowercase_of(right@), strings_view(tokens@)[j]),
        decreases tokens.len() - i,
    {
        let t = chars_of(tokens[i].as_str());
        assert(strings_view(tokens@)[i as int] == t@);
        if !contains_chars(l.as_slice(), t.as_slice()) && !contains_chars(rr.as_slice(), t.as_slice()) {
            return false;
        }
        i = i + 1;
    }
    true
}

impl Query {
    /// Whether the Entry passes the Query's token filters.
    pub fn filters_match(&self, entry: &Entry) -> (r: bool)
        ensures
            r == filters_match_of(query_tokens(*self), *entry),
    {
        let is_agent = is_agent_entry(entry);
        let agent_query = self.all_agents || self.agent_only || self.agent.len() > 0
            || self.workspace_or_status.len() > 0 || self.status.len() > 0;
        if agent_query && !is_agent {
            return false;
        }
        let status = status_text(entry);
        (!self.agent_only && self.agent.len() == 0 || is_agent) && all_match(
            self.agent.as_slice(),
            agent_text(entry).as_str(),
        ) && all_match_either(
            self.workspace_or_status.as_slice(),
            workspace_text(entry).as_str(),
            status.as_str(),
        ) && all_match(self.path.as_slice(), entry.path.as_str()) && all_match(
            self.status.as_slice(),
            status.as_str(),
        )
    }
}

} // verus!

verus! {

/// The priority of an agent's status: blocked or failing first, then waiting for the
/// User, then finished, then working, then the rest.
pub open spec fn status_bonus(s: Seq<char>) -> i64 {
    if contains(s, "block"@) || contains(s, "fail"@) || contains(s, "error"@) {
        4
    } else if contains(s, "need"@) || contains(s, "attention"@) || contains(s, "review"@) || contains(
        s,
        "request"@,
    ) || contains(s, "question"@) || contains(s, "wait"@) {
        3
    } else if contains(s, "done"@) || contains(s, "complete"@) {
        2
    } else if contains(s, "work"@) || contains(s, "run"@) {
        1
    } else {
        0
    }
}

fn has(s: &[char], needle: &str) -> (r: bool)
    ensures
        r == contains(s@, needle@),
{
    let n = chars_of(needle);
    contains_chars(s, n.as_slice())
}

/// The priority of an agent Entry's status.
pub fn agent_status_bonus(entry: &Entry) -> (r: i64)
    ensures
        r == status_bonus(status_text_of(*entry)),
{
    let status = status_text(entry);
    let s = chars_of(status.as_str());
    if has(s.as_slice(), "block") || has(s.as_slice(), "fail") || has(s.as_slice(), "error") {
        4
    } else if has(s.as_slice(), "need") || has(s.as_slice(), "attention") || has(s.as_slice(), "review")
        || has(s.as_slice(), "request") || has(s.as_slice(), "question") || has(s.as_slice(), "wait") {
        3
    } else if has(s.as_slice(), "done") || has(s.as_slice(), "complete") {
        2
    } else if has(s.as_slice(), "work") || has(s.as_slice(), "run") {
        1
    } else {
        0
    }
}

impl Query {
    /// The ranking bonus of an Entry: its agent status priority when agent priority
    /// ordering is in use and it comes from the agent Source, else 0.
    pub fn score_bonus(&self, entry: &Entry, use_agent_priority: bool) -> (r: i64)
        ensures
            r == if entry.source == Source::Agent && use_agent_priority {
                status_bonus(status_text_of(*entry))
            } else {
                0
            },
    {
        if entry.source == Source::Agent && use_agent_priority {
            agent_status_bonus(entry)
        } else {
            0
        }
    }
}

/// The score of matching the word `w` from its `k`th character against `hay` from `h`:
/// characters are matched greedily left to right, and each match directly after the
/// previous one scores a point; `None` when `w` is not a subsequence.
pub open spec fn greedy_score(hay: Seq<char>, w: Seq<char>, h: int, k: int, prev_hit: bool, acc: int) -> Option<
    int,
>
    decreases hay.len() - h,
{
    if k >= w.len() {
        Some(acc)
    } else if h < 0 || h >= hay.len() {
        None
    } else if hay[h] == w[k] {
        greedy_score(hay, w, h + 1, k + 1, true, if prev_hit && k > 0 {
            acc + 1
        } else {
            acc
        })
    } else {
        greedy_score(hay, w, h + 1, k, false, acc)
    }
}

/// The score of the query words `ws` from the `i`th on against `hay`: the sum of the
/// word scores, `None` when some word does not match.
pub open spec fn words_score(hay: Seq<char>, ws: Seq<Seq<char>>, acc: int) -> Option<int>
    decreases ws.len(),
{
    if ws.len() == 0 {
        Some(acc)
    } else {
        match greedy_score(hay, ws[0], 0, 0, false, 0) {
            Some(s) => words_score(hay, ws.drop_first(), acc + s),
            None => None,
        }
    }
}

/// The fuzzy score of `query` against `haystack`: every word of the query must be a
/// subsequence of the lower-cased haystack; adjacent matched characters score.
pub open spec fn fuzzy_score(haystack: Seq<char>, query: Seq<char>) -> Option<int> {
    words_score(lowercase_of(haystack), crate::text::words(query), 0)
}

fn word_score(hay: &[char], w: &[char]) -> (r: Option<u64>)
    requires
        hay.len() < 0x8000_0000,
    ensures
        match r {
            Some(s) => greedy_score(hay@, w@, 0, 0, false, 0) == Some(s as int),
            None => greedy_score(hay@, w@, 0, 0, false, 0) is None,
        },
{
    let mut h: usize = 0;
    let mut k: usize = 0;
    let mut prev_hit = false;
    let mut acc: u64 = 0;
    while k < w.len()
        invariant
            h <= hay.len(),
            k <= w.len(),
            acc <= h,
            hay.len() < 0x8000_0000,
            greedy_score(hay@, w@, 0, 0, false, 0) == greedy_score(hay@, w@, h as int, k as int, prev_hit, acc as int),
        decreases hay.len() - h,
    {
        if h >= hay.len() {
            return None;
        }
        if hay[h] == w[k] {
            if prev_hit && k > 0 {
                acc = acc + 1;
            }
            k = k + 1;
            prev_hit = true;
        } else {
            prev_hit = false;
        }
        h = h + 1;
    }
    Some(acc)
}

/// The fuzzy score within the machine limit: `None` for a haystack or query of 2^31
/// characters or words and more.
pub open spec fn bounded_fuzzy_score(haystack: Seq<char>, query: Seq<char>) -> Option<int> {
    if lowercase_of(haystack).len() >= 0x8000_0000 || crate::text::words(query).len() >= 0x8000_0000 {
        None
    } else {
        fuzzy_score(haystack, query)
    }
}

/// The fuzzy score of `query` against `haystack`, for any configured engine.
pub fn match_score(_engine: &str, haystack: &str, query: &str) -> (r: Option<i64>)
    ensures
        match r {
            Some(s) => bounded_fuzzy_score(haystack@, query@) == Some(s as int),
            None => bounded_fuzzy_score(haystack@, query@) is None,
        },
{
    let lowered = to_lowercase(haystack);
    let hay = chars_of(lowered.as_str());
    let qc = chars_of(query);
    let ws = split_whitespace(qc.as_slice());
    if hay.len() as u64 >= 0x8000_0000 || ws.len() as u64 >= 0x8000_0000 {
        return None;
    }
    let ghost wv = ws@.map_values(|w: Vec<char>| w@);
    assert(wv.skip(0) =~= wv);
    let mut total: i64 = 0;
    let mut i: usize = 0;
    while i < ws.len()
        invariant
            i <= ws.len(),
            ws.len() < 0x8000_0000,
            hay.len() < 0x8000_0000,
            0 <= total <= i * 0x8000_0000,
            wv == ws@.map_values(|w: Vec<char>| w@),
            wv == crate::text::words(query@),
            hay@ == lowercase_of(haystack@),
            words_score(hay@, wv, 0) == words_score(hay@, wv.skip(i as int), total as int),
        decreases ws.len() - i,
    {
        assert(wv.skip(i as int)[0] == ws@[i as int]@);
        assert(wv.skip(i as int).drop_first() =~= wv.skip(i + 1));
        match word_score(hay.as_slice(), ws[i].as_slice()) {
            Some(s) => {
                assert(s <= hay.len()) by {
                    lemma_greedy_bound(hay@, ws@[i as int]@, 0, 0, false, 0);
                }
                assert(total + s <= (i + 1) * 0x8000_0000) by (nonlinear_arith)
                    requires
                        total <= i * 0x8000_0000,
                        s < 0x8000_0000,
                ;
                assert((i + 1) * 0x8000_0000 <= 0x8000_0000 * 0x8000_0000) by (nonlinear_arith)
                    requires
                        i + 1 <= 0x8000_0000,
                ;
                total = total + s as i64;
            },
            None => {
                assert(wv.skip(i as int).len() > 0);
                assert(greedy_score(hay@, wv.skip(i as int)[0], 0, 0, false, 0) is None);
                assert(words_score(hay@, wv.skip(i as int), total as int) is None);
                return None;
            },
        }
        i = i + 1;
    }
    assert(wv.skip(ws.len() as int) =~= Seq::<Seq<char>>::empty());
    Some(total)
}

proof fn lemma_greedy_bound(hay: Seq<char>, w: Seq<char>, h: int, k: int, prev_hit: bool, acc: int)
    requires
        0 <= h <= hay.len(),
        acc <= h,
    ensures
        greedy_score(hay, w, h, k, prev_hit, acc) matches Some(s) ==> s <= hay.len(),
    decreases hay.len() - h,
{
    if k < w.len() && h < hay.len() {
        if hay[h] == w[k] {
            lemma_greedy_bound(hay, w, h + 1, k + 1, true, if prev_hit && k > 0 {
                acc + 1
            } else {
                acc
            });
        } else {
            lemma_greedy_bound(hay, w, h + 1, k, false, acc);
        }
    }
}


/// Law: a Query whose filter tokens are all status (`#`) tokens admits an agent Entry
/// exactly when every token occurs in the Entry's lower-cased status text; the Entry's
/// title plays no part.
pub proof fn law_status_tokens_match_status_text(q: QueryModel, e: Entry, other: Entry)
    requires
        q.agent.len() == 0,
        !q.agent_only,
        q.workspace_or_status.len() == 0,
        q.path.len() == 0,
        is_agent(e),
    ensures
        filters_match_of(q, e) <==> forall|i: int|
            0 <= i < q.status.len() ==> contains(lowercase_of(status_text_of(e)), #[trigger] q.status[i]),
        other == (Entry { title: other.title, ..e }) ==> filters_match_of(q, other) == filters_match_of(q, e),
{
    if other == (Entry { title: other.title, ..e }) {
        assert(status_text_of(other) == status_text_of(e));
        assert(is_agent(other));
    }
}

} // verus!
