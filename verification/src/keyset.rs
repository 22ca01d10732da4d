//! A set of string keys, each held once, in insertion order.
use vstd::prelude::*;
use crate::text::{contains_string, eq_str, strings_view};

verus! {

broadcast use vstd::seq::Seq::lemma_push_to_set_commute;

/// A set of string keys.
#[derive(Debug)]
pub struct KeySet {
    keys: Vec<String>,
}

impl View for KeySet {
    type V = Set<Seq<char>>;

    closed spec fn view(&self) -> Set<Seq<char>> {
        strings_view(self.keys@).to_set()
    }
}

impl KeySet {
    #[verifier::type_invariant]
    spec fn held_once(self) -> bool {
        strings_view(self.keys@).no_duplicates()
    }

    /// The empty set.
    pub fn new() -> (r: KeySet)
        ensures
            r@ == Set::<Seq<char>>::empty(),
    {
        let r = KeySet { keys: Vec::new() };
        assert(strings_view(r.keys@).to_set() =~= Set::<Seq<char>>::empty());
        r
    }

    /// Whether `key` is in the set.
    pub fn contains(&self, key: &str) -> (r: bool)
        ensures
            r == self@.contains(key@),
    {
        contains_string(self.keys.as_slice(), key)
    }

    /// Adds `key`; true when it was not there before.
    pub fn insert(&mut self, key: String) -> (r: bool)
        ensures
            final(self)@ == old(self)@.insert(key@),
            r == !old(self)@.contains(key@),
    {
        proof {
            use_type_invariant(&*self);
        }
        if contains_string(self.keys.as_slice(), key.as_str()) {
            assert(old(self)@.insert(key@) =~= old(self)@);
            return false;
        }
        let ghost before = strings_view(self.keys@);
        let mut keys: Vec<String> = Vec::new();
        std::mem::swap(&mut keys, &mut self.keys);
        keys.push(key);
        proof {
            assert(strings_view(keys@) =~= before.push(key@));
            assert(before.push(key@).no_duplicates()) by {
                assert forall|i: int, j: int| 0 <= i < j < before.push(key@).len() implies before.push(key@)[i]
                    != before.push(key@)[j] by {
                    if j == before.len() {
                        assert(before[i] == before.push(key@)[i]);
                        assert(before.contains(before[i]));
                    }
                }
            }
            assert(before.push(key@).to_set() =~= before.to_set().insert(key@));
        }
        self.keys = keys;
        true
    }

    /// Removes `key`; true when it was there.
    pub fn remove(&mut self, key: &str) -> (r: bool)
        ensures
            final(self)@ == old(self)@.remove(key@),
            r == old(self)@.contains(key@),
    {
        proof {
            use_type_invariant(&*self);
        }
        let ghost before = strings_view(self.keys@);
        let mut kept: Vec<String> = Vec::new();
        let mut found = false;
        let mut i: usize = 0;
        while i < self.keys.len()
            invariant
                i <= self.keys@.len(),
                before == strings_view(self.keys@),
                before.no_duplicates(),
                strings_view(kept@).no_duplicates(),
                strings_view(kept@).to_set() == before.take(i as int).to_set().remove(key@),
                found == before.take(i as int).contains(key@),
                forall|x: Seq<char>| #[trigger] strings_view(kept@).contains(x) ==> before.take(i as int).contains(x),
            decreases self.keys.len() - i,
        {
            let ghost prefix = before.take(i as int);
            assert(before.take(i + 1) =~= prefix.push(before[i as int]));
            if eq_str(self.keys[i].as_str(), key) {
                found = true;
                assert(prefix.push(before[i as int]).to_set().remove(key@) =~= prefix.to_set().remove(key@));
            } else {
                let ghost k0 = strings_view(kept@);
                kept.push(self.keys[i].clone());
                proof {
                    assert(strings_view(kept@) =~= k0.push(before[i as int]));
                    assert(!prefix.contains(before[i as int])) by {
                        if prefix.contains(before[i as int]) {
                            let j = choose|j: int| 0 <= j < prefix.len() && prefix[j] == before[i as int];
                            assert(before[j] == before[i as int]);
                        }
                    }
                    assert(k0.push(before[i as int]).no_duplicates()) by {
                        assert forall|a: int, b: int| 0 <= a < b < k0.push(before[i as int]).len() implies k0.push(before[i as int])[a]
                            != k0.push(before[i as int])[b] by {
                            if b == k0.len() {
                                assert(k0.contains(k0[a]));
                            }
                        }
                    }
                    assert(k0.push(before[i as int]).to_set() =~= k0.to_set().insert(before[i as int]));
                    assert(prefix.push(before[i as int]).to_set() =~= prefix.to_set().insert(before[i as int]));
                    assert(prefix.push(before[i as int]).to_set().remove(key@) =~= prefix.to_set().remove(key@).insert(before[i as int]));
                    assert forall|x: Seq<char>| #[trigger] strings_view(kept@).contains(x) implies before.take(i + 1).contains(x) by {
                        if x == before[i as int] {
                            assert(before.take(i + 1)[i as int] == x);
                        } else {
                            let j = choose|j: int| 0 <= j < strings_view(kept@).len() && strings_view(kept@)[j] == x;
                            assert(k0[j] == x);
                            assert(k0.contains(x));
                            let m = choose|m: int| 0 <= m < prefix.len() && prefix[m] == x;
                            assert(before.take(i + 1)[m] == x);
                        }
                    }
                }
            }
            proof {
                let ghost next = before.take(i + 1);
                assert(next.contains(key@) == (prefix.contains(key@) || before[i as int] == key@)) by {
                    if next.contains(key@) {
                        let j = choose|j: int| 0 <= j < next.len() && next[j] == key@;
                        if j < i {
                            assert(prefix[j] == key@);
                        }
                    }
                    if prefix.contains(key@) {
                        let j = choose|j: int| 0 <= j < prefix.len() && prefix[j] == key@;
                        assert(next[j] == key@);
                    }
                    if before[i as int] == key@ {
                        assert(next[i as int] == key@);
                    }
                }
            }
            i = i + 1;
        }
        assert(before.take(self.keys@.len() as int) =~= before);
        assert(before.to_set().contains(key@) == before.contains(key@));
        self.keys = kept;
        found
    }

    /// The number of keys.
    pub fn len(&self) -> (r: usize)
        ensures
            r == self@.len(),
    {
        proof {
            use_type_invariant(self);
            strings_view(self.keys@).unique_seq_to_set();
        }
        self.keys.len()
    }

    /// The keys in the order of `str`, as they are saved.
    pub fn sorted_keys(&self) -> (r: Vec<String>)
        ensures
            crate::repos::strictly_sorted(strings_view(r@)),
            forall|k: Seq<char>| #[trigger] strings_view(r@).contains(k) <==> self@.contains(k),
    {
        let keys = self.keys();
        let mut out: Vec<String> = Vec::new();
        let mut i: usize = 0;
        while i < keys.len()
            invariant
                i <= keys@.len(),
                strings_view(keys@).to_set() == self@,
                crate::repos::strictly_sorted(strings_view(out@)),
                forall|k: Seq<char>| #[trigger] strings_view(out@).contains(k) <==> strings_view(
                    keys@.take(i as int),
                ).contains(k),
            decreases keys.len() - i,
        {
            let ghost before = strings_view(out@);
            let key = keys[i].clone();
            assert(key@ == keys@[i as int]@);
            crate::repos::insert_sorted(&mut out, key);
            proof {
                assert forall|k: Seq<char>| #[trigger] strings_view(out@).contains(k) <==> strings_view(
                    keys@.take(i + 1),
                ).contains(k) by {
                    assert(strings_view(keys@.take(i + 1)) =~= strings_view(keys@.take(i as int)).push(keys@[i as int]@));
                    assert(before.contains(k) == strings_view(keys@.take(i as int)).contains(k));
                    assert(strings_view(out@).contains(k) == (before.contains(k) || k == keys@[i as int]@));
                    let s = strings_view(keys@.take(i as int));
                    let x = keys@[i as int]@;
                    if s.push(x).contains(k) {
                        let j = choose|j: int| 0 <= j < s.push(x).len() && s.push(x)[j] == k;
                        if j < s.len() {
                            assert(s[j] == k);
                        }
                    }
                    if s.contains(k) {
                        let j = choose|j: int| 0 <= j < s.len() && s[j] == k;
                        assert(s.push(x)[j] == k);
                    }
                    if k == x {
                        assert(s.push(x)[s.len() as int] == k);
                    }
                }
            }
            i = i + 1;
        }
        proof {
            assert(keys@.take(keys@.len() as int) =~= keys@);
            assert forall|k: Seq<char>| #[trigger] strings_view(out@).contains(k) <==> self@.contains(k) by {
                assert(strings_view(keys@).to_set().contains(k) == strings_view(keys@).contains(k));
            }
        }
        out
    }

    /// The keys, in the order they were added.
    pub fn keys(&self) -> (r: &Vec<String>)
        ensures
            strings_view(r@).to_set() == self@,
            strings_view(r@).no_duplicates(),
    {
        proof {
            use_type_invariant(self);
        }
        &self.keys
    }

    /// A set with the same keys.
    pub fn duplicate(&self) -> (r: KeySet)
        ensures
            r@ == self@,
    {
        KeySet::from_keys(crate::model::clone_strings(&self.keys))
    }

    /// The set holding the given keys.
    pub fn from_keys(keys: Vec<String>) -> (r: KeySet)
        ensures
            r@ == strings_view(keys@).to_set(),
    {
        let mut set = KeySet::new();
        let mut i: usize = 0;
        while i < keys.len()
            invariant
                i <= keys.len(),
                set@ == strings_view(keys@).take(i as int).to_set(),
            decreases keys.len() - i,
        {
            set.insert(keys[i].clone());
            assert(strings_view(keys@).take(i + 1) =~= strings_view(keys@).take(i as int).push(keys@[i as int]@));
            assert(strings_view(keys@).take(i as int).push(keys@[i as int]@).to_set() =~= strings_view(keys@).take(i as int).to_set().insert(keys@[i as int]@));
            i = i + 1;
        }
        assert(strings_view(keys@).take(keys.len() as int) =~= strings_view(keys@));
        set
    }
}

} // verus!
