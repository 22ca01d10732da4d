//! The repository keys known to the picker, in the order of `str`.
use vstd::prelude::*;
use crate::app::App;
use crate::model::Entry;
use crate::rows::{entry_repository_key, term_after};
use crate::text::{chars_of, strings_view};
use crate::topology::WorkspaceNode;

verus! {

/// Lexicographic order of strings by code point, which is the order of `str`
/// (its UTF-8 bytes compare as its code points do).
pub open spec fn str_lt(a: Seq<char>, b: Seq<char>) -> bool
    decreases a.len(),
{
    if a.len() == 0 {
        b.len() > 0
    } else if b.len() == 0 {
        false
    } else if a[0] != b[0] {
        (a[0] as int) < (b[0] as int)
    } else {
        str_lt(a.drop_first(), b.drop_first())
    }
}

/// Each string comes strictly before the next: sorted, with no string twice.
pub open spec fn strictly_sorted(s: Seq<Seq<char>>) -> bool {
    forall|i: int, j: int| 0 <= i < j < s.len() ==> str_lt(#[trigger] s[i], #[trigger] s[j])
}

/// The repository key of a Workspace, when it is in a repository.
pub open spec fn repo_key_of(w: WorkspaceNode) -> Option<Seq<char>> {
    match w.git {
        Some(g) => Some(g.repo_key@),
        None => None,
    }
}

/// `k` is the repository key of some Workspace of `ws`.
pub open spec fn has_repo_key(ws: Seq<WorkspaceNode>, k: Seq<char>) -> bool {
    exists|i: int| 0 <= i < ws.len() && repo_key_of(#[trigger] ws[i]) == Some(k)
}

proof fn lemma_lt_irreflexive(a: Seq<char>)
    ensures
        !str_lt(a, a),
    decreases a.len(),
{
    if a.len() > 0 {
        lemma_lt_irreflexive(a.drop_first());
    }
}

proof fn lemma_lt_total(a: Seq<char>, b: Seq<char>)
    requires
        a != b,
    ensures
        str_lt(a, b) || str_lt(b, a),
    decreases a.len(),
{
    if a.len() > 0 && b.len() > 0 && a[0] == b[0] {
        if a.drop_first() == b.drop_first() {
            assert(a =~= seq![a[0]] + a.drop_first());
            assert(b =~= seq![b[0]] + b.drop_first());
        }
        lemma_lt_total(a.drop_first(), b.drop_first());
    } else if a.len() == 0 && b.len() == 0 {
        assert(a =~= b);
    }
}

proof fn lemma_lt_transitive(a: Seq<char>, b: Seq<char>, c: Seq<char>)
    requires
        str_lt(a, b),
        str_lt(b, c),
    ensures
        str_lt(a, c),
    decreases a.len(),
{
    if a.len() > 0 && b.len() > 0 && c.len() > 0 && a[0] == b[0] && b[0] == c[0] {
        lemma_lt_transitive(a.drop_first(), b.drop_first(), c.drop_first());
    }
}

/// Whether `a` comes strictly before `b` in the order of `str`.
fn str_less(a: &[char], b: &[char]) -> (r: bool)
    ensures
        r == str_lt(a@, b@),
{
    let mut i: usize = 0;
    assert(a@.skip(0) =~= a@ && b@.skip(0) =~= b@);
    while i < a.len() && i < b.len()
        invariant
            i <= a@.len(),
            i <= b@.len(),
            str_lt(a@, b@) == str_lt(a@.skip(i as int), b@.skip(i as int)),
        decreases a.len() - i,
    {
        if a[i] != b[i] {
            return a[i] < b[i];
        }
        assert(a@.skip(i as int).drop_first() =~= a@.skip(i + 1));
        assert(b@.skip(i as int).drop_first() =~= b@.skip(i + 1));
        i = i + 1;
    }
    i < b.len()
}

/// Adds `k` to the strictly sorted `keys` at its place, unless it is already there.
pub(crate) fn insert_sorted(keys: &mut Vec<String>, k: String)
    requires
        strictly_sorted(strings_view(old(keys)@)),
    ensures
        strictly_sorted(strings_view(final(keys)@)),
        forall|x: Seq<char>| #[trigger] strings_view(final(keys)@).contains(x) <==> (strings_view(
            old(keys)@,
        ).contains(x) || x == k@),
{
    let ghost s = strings_view(keys@);
    let kc = chars_of(k.as_str());
    let mut p: usize = 0;
    while p < keys.len()
        invariant
            p <= keys@.len(),
            s == strings_view(keys@),
            kc@ == k@,
            forall|i: int| 0 <= i < p ==> str_lt(#[trigger] s[i], k@),
        ensures
            p <= keys@.len(),
            forall|i: int| 0 <= i < p ==> str_lt(#[trigger] s[i], k@),
            p < keys@.len() ==> !str_lt(s[p as int], k@),
        decreases keys.len() - p,
    {
        let pc = chars_of(keys[p].as_str());
        if !str_less(pc.as_slice(), kc.as_slice()) {
            break;
        }
        p = p + 1;
    }
    if p < keys.len() {
        let pc = chars_of(keys[p].as_str());
        if !str_less(kc.as_slice(), pc.as_slice()) {
            proof {
                if s[p as int] != k@ {
                    lemma_lt_total(s[p as int], k@);
                }
            }
            assert(s.contains(k@)) by {
                assert(s[p as int] == k@);
            }
            return;
        }
    }
    proof {
        if p < s.len() {
            lemma_lt_irreflexive(k@);
        }
    }
    keys.insert(p, k);
    let ghost t = strings_view(keys@);
    assert(t =~= s.insert(p as int, kc@));
    assert forall|i: int, j: int| 0 <= i < j < t.len() implies str_lt(#[trigger] t[i], #[trigger] t[j]) by {
        if j == p {
            assert(t[i] == s[i]);
        } else if i == p {
            assert(t[j] == s[j - 1]);
            if j - 1 > p {
                lemma_lt_transitive(k@, s[p as int], s[j - 1]);
            }
        } else if i > p {
            assert(t[i] == s[i - 1] && t[j] == s[j - 1]);
        } else if j > p {
            assert(t[i] == s[i] && t[j] == s[j - 1]);
        } else {
            assert(t[i] == s[i] && t[j] == s[j]);
        }
    }
    assert forall|x: Seq<char>| #[trigger] t.contains(x) <==> (s.contains(x) || x == k@) by {
        if t.contains(x) {
            let i = choose|i: int| 0 <= i < t.len() && t[i] == x;
            if i < p {
                assert(s[i] == x);
            } else if i > p {
                assert(s[i - 1] == x);
            }
        }
        if s.contains(x) {
            let i = choose|i: int| 0 <= i < s.len() && s[i] == x;
            if i < p {
                assert(t[i] == x);
            } else {
                assert(t[i + 1] == x);
            }
        }
        if x == k@ {
            assert(t[p as int] == x);
        }
    }
}

/// The repository keys of the open Workspaces and of `entry`, each once, in the order
/// of `str`.
pub fn repository_keys(app: &App, entry: &Entry) -> (r: Vec<String>)
    ensures
        strictly_sorted(strings_view(r@)),
        forall|k: Seq<char>| #[trigger] strings_view(r@).contains(k) <==> (has_repo_key(
            app.topology.workspaces@,
            k,
        ) || term_after(*entry, "repo-key:"@) == Some(k)),
{
    let ws = &app.topology.workspaces;
    let mut keys: Vec<String> = Vec::new();
    let mut i: usize = 0;
    while i < ws.len()
        invariant
            i <= ws@.len(),
            ws@ == app.topology.workspaces@,
            strictly_sorted(strings_view(keys@)),
            forall|k: Seq<char>| #[trigger] strings_view(keys@).contains(k) <==> exists|j: int|
                0 <= j < i && repo_key_of(#[trigger] ws@[j]) == Some(k),
        decreases ws.len() - i,
    {
        let ghost before = strings_view(keys@);
        match &ws[i].git {
            Some(g) => {
                insert_sorted(&mut keys, g.repo_key.clone());
            },
            None => {},
        }
        assert forall|k: Seq<char>| #[trigger] strings_view(keys@).contains(k) <==> exists|j: int|
            0 <= j < i + 1 && repo_key_of(#[trigger] ws@[j]) == Some(k) by {
            if exists|j: int| 0 <= j < i + 1 && repo_key_of(#[trigger] ws@[j]) == Some(k) {
                let j = choose|j: int| 0 <= j < i + 1 && repo_key_of(#[trigger] ws@[j]) == Some(k);
                if j < i {
                    assert(before.contains(k));
                }
            }
            if before.contains(k) {
                let j = choose|j: int| 0 <= j < i && repo_key_of(#[trigger] ws@[j]) == Some(k);
                assert(0 <= j < i + 1 && repo_key_of(ws@[j]) == Some(k));
            }
        }
        i = i + 1;
    }
    match entry_repository_key(entry) {
        Some(k) => insert_sorted(&mut keys, k),
        None => {},
    }
    keys
}

} // verus!
