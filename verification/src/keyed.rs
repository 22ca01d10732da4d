//! A list of (key, value) pairs read as a map: a key's value is the one of its first pair.
use vstd::prelude::*;
use crate::text::eq_str;

verus! {

/// The index of the first pair at or after `from` whose key is `k`.
pub open spec fn first_key<V>(s: Seq<(String, V)>, k: Seq<char>, from: int) -> Option<int>
    decreases s.len() - from,
{
    if from < 0 || from >= s.len() {
        None
    } else if s[from].0@ == k {
        Some(from)
    } else {
        first_key(s, k, from + 1)
    }
}

/// The value of `k` in the pairs `s`.
pub open spec fn lookup<V>(s: Seq<(String, V)>, k: Seq<char>) -> Option<V> {
    match first_key(s, k, 0) {
        Some(i) => Some(s[i].1),
        None => None,
    }
}

proof fn lemma_first_key_facts<V>(s: Seq<(String, V)>, k: Seq<char>, from: int)
    requires
        0 <= from,
    ensures
        first_key(s, k, from) matches Some(i) ==> from <= i < s.len() && s[i].0@ == k && forall|j: int|
            from <= j < i ==> #[trigger] s[j].0@ != k,
        first_key(s, k, from) is None ==> forall|j: int| from <= j < s.len() ==> #[trigger] s[j].0@ != k,
    decreases s.len() - from,
{
    if from < s.len() && s[from].0@ != k {
        lemma_first_key_facts(s, k, from + 1);
    }
}

proof fn lemma_first_key_unique<V>(s: Seq<(String, V)>, k: Seq<char>, i: int)
    requires
        0 <= i < s.len(),
        s[i].0@ == k,
        forall|j: int| 0 <= j < i ==> #[trigger] s[j].0@ != k,
    ensures
        first_key(s, k, 0) == Some(i),
{
    lemma_first_key_facts(s, k, 0);
    if let Some(m) = first_key(s, k, 0) {
        if m < i {
            assert(s[m].0@ != k);
        }
        if m > i {
            assert(s[i].0@ != k);
        }
    }
}

proof fn lemma_first_key_none<V>(s: Seq<(String, V)>, k: Seq<char>)
    requires
        forall|j: int| 0 <= j < s.len() ==> #[trigger] s[j].0@ != k,
    ensures
        first_key(s, k, 0) is None,
{
    lemma_first_key_facts(s, k, 0);
}

/// A map from string keys to values.
#[derive(Debug)]
pub struct KeyedList<V> {
    pairs: Vec<(String, V)>,
}

impl<V> KeyedList<V> {
    /// The value of `k`.
    pub closed spec fn get_spec(&self, k: Seq<char>) -> Option<V> {
        lookup(self.pairs@, k)
    }

    /// An empty map.
    pub fn new() -> (r: KeyedList<V>)
        ensures
            forall|k: Seq<char>| #[trigger] r.get_spec(k) is None,
    {
        KeyedList { pairs: Vec::new() }
    }

    fn find(&self, key: &str) -> (r: Option<usize>)
        ensures
            match r {
                Some(i) => first_key(self.pairs@, key@, 0) == Some(i as int),
                None => first_key(self.pairs@, key@, 0) is None,
            },
    {
        let mut i: usize = 0;
        while i < self.pairs.len()
            invariant
                i <= self.pairs@.len(),
                first_key(self.pairs@, key@, 0) == first_key(self.pairs@, key@, i as int),
            decreases self.pairs.len() - i,
        {
            if eq_str(self.pairs[i].0.as_str(), key) {
                return Some(i);
            }
            i = i + 1;
        }
        None
    }

    /// The value of `key`.
    pub fn get(&self, key: &str) -> (r: Option<&V>)
        ensures
            match r {
                Some(v) => self.get_spec(key@) == Some(*v),
                None => self.get_spec(key@) is None,
            },
    {
        match self.find(key) {
            Some(i) => {
                proof {
                    lemma_first_key_facts(self.pairs@, key@, 0);
                }
                Some(&self.pairs[i].1)
            },
            None => None,
        }
    }

    /// Sets the value of `key`.
    pub fn insert(&mut self, key: String, value: V)
        ensures
            final(self).get_spec(key@) == Some(value),
            forall|k: Seq<char>| k != key@ ==> #[trigger] final(self).get_spec(k) == old(self).get_spec(k),
    {
        let ghost old_pairs = self.pairs@;
        let ghost kv = key@;
        match self.find(key.as_str()) {
            Some(i) => {
                proof {
                    lemma_first_key_facts(old_pairs, kv, 0);
                }
                self.pairs.set(i, (key, value));
                proof {
                    let s = self.pairs@;
                    lemma_first_key_unique(s, kv, i as int);
                    assert forall|k: Seq<char>| k != kv implies #[trigger] lookup(s, k) == lookup(old_pairs, k) by {
                        lemma_first_key_facts(old_pairs, k, 0);
                        match first_key(old_pairs, k, 0) {
                            Some(m) => {
                                assert(s[m].0@ == k);
                                assert forall|j: int| 0 <= j < m implies #[trigger] s[j].0@ != k by {
                                    assert(old_pairs[j].0@ != k);
                                }
                                lemma_first_key_unique(s, k, m);
                            },
                            None => {
                                assert forall|j: int| 0 <= j < s.len() implies #[trigger] s[j].0@ != k by {
                                    if j != i {
                                        assert(old_pairs[j].0@ != k);
                                    }
                                }
                                lemma_first_key_none(s, k);
                            },
                        }
                    }
                }
            },
            None => {
                proof {
                    lemma_first_key_facts(old_pairs, kv, 0);
                }
                self.pairs.push((key, value));
                proof {
                    let s = self.pairs@;
                    assert forall|j: int| 0 <= j < old_pairs.len() implies #[trigger] s[j].0@ != kv by {
                        assert(s[j] == old_pairs[j]);
                    }
                    lemma_first_key_unique(s, kv, old_pairs.len() as int);
                    assert forall|k: Seq<char>| k != kv implies #[trigger] lookup(s, k) == lookup(old_pairs, k) by {
                        lemma_first_key_facts(old_pairs, k, 0);
                        match first_key(old_pairs, k, 0) {
                            Some(m) => {
                                assert(s[m] == old_pairs[m]);
                                assert forall|j: int| 0 <= j < m implies #[trigger] s[j].0@ != k by {
                                    assert(s[j] == old_pairs[j]);
                                }
                                lemma_first_key_unique(s, k, m);
                            },
                            None => {
                                assert forall|j: int| 0 <= j < s.len() implies #[trigger] s[j].0@ != k by {
                                    if j < old_pairs.len() {
                                        assert(s[j] == old_pairs[j]);
                                    }
                                }
                                lemma_first_key_none(s, k);
                            },
                        }
                    }
                }
            },
        }
    }

    /// Keeps only the keys for which `keep` holds.
    pub fn retain_keys(&mut self, keep: &crate::keyset::KeySet)
        ensures
            forall|k: Seq<char>| #[trigger] final(self).get_spec(k) == if keep@.contains(k) {
                old(self).get_spec(k)
            } else {
                None
            },
    {
        let ghost old_pairs = self.pairs@;
        let mut pairs: Vec<(String, V)> = Vec::new();
        std::mem::swap(&mut pairs, &mut self.pairs);
        let mut kept: Vec<(String, V)> = Vec::new();
        let mut i: usize = 0;
        let mut rest = pairs;
        let total = rest.len();
        while rest.len() > 0
            invariant
                rest@ == old_pairs.skip(i as int),
                i <= old_pairs.len(),
                total == old_pairs.len(),
                forall|k: Seq<char>| #[trigger] lookup(kept@, k) == if keep@.contains(k) {
                    lookup(old_pairs.take(i as int), k)
                } else {
                    None
                },
            decreases rest.len(),
        {
            let pair = rest.remove(0);
            assert(rest@ =~= old_pairs.skip(i + 1));
            assert(pair == old_pairs[i as int]);
            let ghost before = kept@;
            let ghost t0 = old_pairs.take(i as int);
            let ghost t1 = old_pairs.take(i + 1);
            assert(t1 =~= t0.push(pair));
            let keep_it = keep.contains(pair.0.as_str());
            assert forall|k: Seq<char>| #[trigger] lookup(before, k) == if keep@.contains(k) {
                lookup(t0, k)
            } else {
                None
            } by {
                assert(lookup(kept@, k) == lookup(before, k));
            }
            if keep_it {
                kept.push(pair);
            }
            proof {
                assert forall|k: Seq<char>| #[trigger] lookup(kept@, k) == if keep@.contains(k) {
                    lookup(t1, k)
                } else {
                    None
                } by {
                    lemma_first_key_facts(t0, k, 0);
                    lemma_first_key_facts(before, k, 0);
                    lemma_first_key_facts(t1, k, 0);
                    lemma_first_key_facts(kept@, k, 0);
                    match first_key(t0, k, 0) {
                        Some(m) => {
                            assert forall|j: int| 0 <= j < m implies #[trigger] t1[j].0@ != k by {
                                assert(t1[j] == t0[j]);
                            }
                            assert(t1[m] == t0[m]);
                            lemma_first_key_unique(t1, k, m);
                            if keep@.contains(k) {
                                let b = first_key(before, k, 0)->0;
                                assert(kept@[b] == before[b]);
                                assert forall|j: int| 0 <= j < b implies #[trigger] kept@[j].0@ != k by {
                                    assert(kept@[j] == before[j]);
                                }
                                lemma_first_key_unique(kept@, k, b);
                            } else {
                                assert(first_key(before, k, 0) is None);
                                assert forall|j: int| 0 <= j < kept@.len() implies #[trigger] kept@[j].0@ != k by {
                                    if j < before.len() {
                                        assert(kept@[j] == before[j]);
                                    } else {
                                        assert(kept@[j] == pair);
                                    }
                                }
                                lemma_first_key_none(kept@, k);
                            }
                        },
                        None => {
                            if pair.0@ == k {
                                assert forall|j: int| 0 <= j < i implies #[trigger] t1[j].0@ != k by {
                                    assert(t1[j] == t0[j]);
                                }
                                lemma_first_key_unique(t1, k, i as int);
                                if keep@.contains(k) {
                                    assert(first_key(before, k, 0) is None);
                                    assert forall|j: int| 0 <= j < before.len() implies #[trigger] kept@[j].0@ != k by {
                                        assert(kept@[j] == before[j]);
                                    }
                                    lemma_first_key_unique(kept@, k, before.len() as int);
                                } else {
                                    assert forall|j: int| 0 <= j < kept@.len() implies #[trigger] kept@[j].0@ != k by {
                                        assert(kept@[j] == before[j]);
                                    }
                                    lemma_first_key_none(kept@, k);
                                }
                            } else {
                                assert forall|j: int| 0 <= j < t1.len() implies #[trigger] t1[j].0@ != k by {
                                    if j < i {
                                        assert(t1[j] == t0[j]);
                                    }
                                }
                                lemma_first_key_none(t1, k);
                                if keep@.contains(k) {
                                    assert forall|j: int| 0 <= j < kept@.len() implies #[trigger] kept@[j].0@ != k by {
                                        if j < before.len() {
                                            assert(kept@[j] == before[j]);
                                        }
                                    }
                                } else {
                                    assert forall|j: int| 0 <= j < kept@.len() implies #[trigger] kept@[j].0@ != k by {
                                        if j < before.len() {
                                            assert(kept@[j] == before[j]);
                                        }
                                    }
                                }
                                lemma_first_key_none(kept@, k);
                            }
                        },
                    }
                }
            }
            i = i + 1;
        }
        assert(old_pairs.take(i as int) =~= old_pairs);
        self.pairs = kept;
    }
}

} // verus!
