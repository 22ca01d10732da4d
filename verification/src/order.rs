//! Stable ordering by integer keys.
use vstd::prelude::*;

verus! {

/// `order` lists the positions of `keys` once each, by ascending key, equal keys in
/// the order they came in.
pub open spec fn stable_order_of(keys: Seq<i64>, order: Seq<usize>) -> bool {
    &&& order.len() == keys.len()
    &&& forall|k: int| 0 <= k < order.len() ==> #[trigger] order[k] < keys.len()
    &&& forall|a: int, b: int| 0 <= a < b < order.len() ==> #[trigger] order[a] != #[trigger] order[b]
    &&& forall|a: int, b: int|
        0 <= a < b < order.len() ==> keys[#[trigger] order[a] as int] < keys[#[trigger] order[b] as int] || (
        keys[order[a] as int] == keys[order[b] as int] && order[a] < order[b])
}

/// The first position of `order` at or after `from` whose key exceeds `key`.
pub open spec fn insert_point(keys: Seq<i64>, order: Seq<usize>, key: i64, from: int) -> int
    decreases order.len() - from,
{
    if from < 0 || from >= order.len() {
        order.len() as int
    } else if keys[order[from] as int] > key {
        from
    } else {
        insert_point(keys, order, key, from + 1)
    }
}

/// The stable ascending order of the first `n` positions of `keys`, built by inserting
/// each position after every earlier one with a key no greater.
pub open spec fn sorted_positions(keys: Seq<i64>, n: int) -> Seq<usize>
    decreases n,
{
    if n <= 0 {
        seq![]
    } else {
        let o = sorted_positions(keys, n - 1);
        o.insert(insert_point(keys, o, keys[n - 1], 0), (n - 1) as usize)
    }
}

proof fn lemma_insert_point(keys: Seq<i64>, order: Seq<usize>, key: i64, p: int, from: int)
    requires
        0 <= from <= p <= order.len(),
        forall|t: int| from <= t < p ==> keys[order[t] as int] <= key,
        p < order.len() ==> keys[order[p] as int] > key,
    ensures
        insert_point(keys, order, key, from) == p,
    decreases p - from,
{
    if from < p {
        lemma_insert_point(keys, order, key, p, from + 1);
    }
}

/// The positions of `keys` in stable ascending key order.
pub fn stable_order(keys: &Vec<i64>) -> (r: Vec<usize>)
    ensures
        stable_order_of(keys@, r@),
        r@ == sorted_positions(keys@, keys@.len() as int),
{
    let n = keys.len();
    let mut order: Vec<usize> = Vec::new();
    let mut i: usize = 0;
    while i < n
        invariant
            i <= n,
            n == keys@.len(),
            order@.len() == i,
            order@ == sorted_positions(keys@, i as int),
            forall|k: int| 0 <= k < i ==> #[trigger] order@[k] < i,
            forall|a: int, b: int| 0 <= a < b < i ==> #[trigger] order@[a] != #[trigger] order@[b],
            forall|a: int, b: int|
                0 <= a < b < i ==> keys@[#[trigger] order@[a] as int] < keys@[#[trigger] order@[b] as int]
                    || (keys@[order@[a] as int] == keys@[order@[b] as int] && order@[a] < order@[b]),
        decreases n - i,
    {
        let key = keys[i];
        let mut p: usize = 0;
        while p < i && keys[order[p]] <= key
            invariant
                p <= i,
                i < n,
                n == keys@.len(),
                order@.len() == i,
                key == keys@[i as int],
                forall|k: int| 0 <= k < i ==> #[trigger] order@[k] < i,
                forall|t: int| 0 <= t < p ==> keys@[#[trigger] order@[t] as int] <= key,
            decreases i - p,
        {
            p = p + 1;
        }
        let ghost o0 = order@;
        proof {
            lemma_insert_point(keys@, o0, key, p as int, 0);
        }
        order.insert(p, i);
        proof {
            assert forall|k: int| 0 <= k < i + 1 implies (k < p ==> order@[k] == o0[k]) && (k == p ==> order@[k]
                == i) && (k > p ==> order@[k] == o0[k - 1]) by {
                if k > p {
                    assert(order@[k] == o0.insert(p as int, i)[k]);
                }
            }
            assert forall|a: int, b: int| 0 <= a < b < i + 1 implies keys@[#[trigger] order@[a] as int]
                < keys@[#[trigger] order@[b] as int] || (keys@[order@[a] as int] == keys@[order@[b] as int]
                && order@[a] < order@[b]) by {
                let oa = if a < p { a } else if a == p { -1 } else { a - 1 };
                let ob = if b < p { b } else if b == p { -1 } else { b - 1 };
                if a == p {
                    assert(keys@[o0[p as int] as int] > key);
                    if ob > p {
                        assert(keys@[o0[p as int] as int] <= keys@[o0[ob] as int]);
                    }
                }
            }
            assert forall|a: int, b: int| 0 <= a < b < i + 1 implies #[trigger] order@[a] != #[trigger] order@[b] by {
            }
            assert forall|k: int| 0 <= k < i + 1 implies #[trigger] order@[k] < i + 1 by {
            }
        }
        i = i + 1;
    }
    order
}


proof fn lemma_insert_point_bounds(keys: Seq<i64>, order: Seq<usize>, key: i64, from: int)
    requires
        0 <= from <= order.len(),
    ensures
        from <= insert_point(keys, order, key, from) <= order.len(),
        forall|t: int| from <= t < insert_point(keys, order, key, from) ==> keys[order[t] as int] <= key,
        insert_point(keys, order, key, from) < order.len() ==> keys[order[insert_point(keys, order, key, from)] as int]
            > key,
    decreases order.len() - from,
{
    if from < order.len() && keys[order[from] as int] <= key {
        lemma_insert_point_bounds(keys, order, key, from + 1);
    }
}

/// `sorted_positions` is a stable ascending order of the first `n` positions of `keys`.
pub proof fn lemma_sorted_positions(keys: Seq<i64>, n: int)
    requires
        0 <= n <= keys.len(),
        keys.len() <= usize::MAX,
    ensures
        sorted_positions(keys, n).len() == n,
        forall|k: int| 0 <= k < n ==> #[trigger] sorted_positions(keys, n)[k] < n,
        forall|a: int, b: int|
            0 <= a < b < n ==> #[trigger] sorted_positions(keys, n)[a] != #[trigger] sorted_positions(keys, n)[b],
        forall|a: int, b: int|
            0 <= a < b < n ==> keys[#[trigger] sorted_positions(keys, n)[a] as int] < keys[
                #[trigger] sorted_positions(keys, n)[b] as int] || (keys[sorted_positions(keys, n)[a] as int]
                == keys[sorted_positions(keys, n)[b] as int] && sorted_positions(keys, n)[a] < sorted_positions(
                keys,
                n,
            )[b]),
    decreases n,
{
    if n > 0 {
        lemma_sorted_positions(keys, n - 1);
        let o0 = sorted_positions(keys, n - 1);
        let key = keys[n - 1];
        let p = insert_point(keys, o0, key, 0);
        lemma_insert_point_bounds(keys, o0, key, 0);
        let o = sorted_positions(keys, n);
        assert(o == o0.insert(p, (n - 1) as usize));
        assert forall|k: int| 0 <= k < n implies (k < p ==> o[k] == o0[k]) && (k == p ==> o[k] == n - 1) && (k
            > p ==> o[k] == o0[k - 1]) by {
            assert(o[k] == o0.insert(p, (n - 1) as usize)[k]);
        }
        assert forall|a: int, b: int| 0 <= a < b < n implies keys[#[trigger] o[a] as int] < keys[#[trigger] o[b] as int]
            || (keys[o[a] as int] == keys[o[b] as int] && o[a] < o[b]) by {
            if a == p {
                assert(keys[o0[p] as int] > key);
                if b - 1 > p {
                    assert(keys[o0[p] as int] <= keys[o0[b - 1] as int]);
                }
            }
        }
        assert forall|a: int, b: int| 0 <= a < b < n implies #[trigger] o[a] != #[trigger] o[b] by {}
        assert forall|k: int| 0 <= k < n implies #[trigger] o[k] < n by {}
    }
}

} // verus!
