//! Stable descending order: the one way to arrange the positions of a list of
//! keys so that larger keys come first and equal keys keep their turn.

use vstd::prelude::*;

verus! {

/// Position `a` comes before position `b`: its key is larger, or the keys are
/// equal and `a` is the earlier position.
pub open spec fn comes_before(keys: Seq<int>, a: int, b: int) -> bool {
    keys[a] > keys[b] || (keys[a] == keys[b] && a < b)
}

/// `order` lists every position of `keys` once, larger keys first, equal keys
/// in the turn they have in `keys`.
pub open spec fn is_stable_desc(keys: Seq<int>, order: Seq<int>) -> bool {
    &&& order.len() == keys.len()
    &&& forall|i: int| 0 <= i < order.len() ==> 0 <= #[trigger] order[i] < keys.len()
    &&& forall|k: int| 0 <= k < keys.len() ==> #[trigger] order.contains(k)
    &&& forall|i: int, j: int|
        0 <= i < j < order.len() ==> comes_before(keys, #[trigger] order[i], #[trigger] order[j])
}

/// The stable descending order of `keys`.
pub open spec fn stable_desc(keys: Seq<int>) -> Seq<int> {
    choose|order: Seq<int>| is_stable_desc(keys, order)
}

/// The keys as mathematical integers.
pub open spec fn keys_of(keys: Seq<i128>) -> Seq<int> {
    Seq::new(keys.len(), |i: int| keys[i] as int)
}

/// The positions as mathematical integers.
pub open spec fn positions_of(order: Seq<usize>) -> Seq<int> {
    Seq::new(order.len(), |i: int| order[i] as int)
}

proof fn lemma_agree_up_to(keys: Seq<int>, a: Seq<int>, b: Seq<int>, n: int)
    requires
        is_stable_desc(keys, a),
        is_stable_desc(keys, b),
        0 <= n <= keys.len(),
    ensures
        forall|i: int| 0 <= i < n ==> a[i] == b[i],
    decreases n,
{
    if n > 0 {
        lemma_agree_up_to(keys, a, b, n - 1);
        let i = n - 1;
        if a[i] != b[i] {
            assert(b.contains(a[i]));
            let jb = choose|j: int| 0 <= j < b.len() && b[j] == a[i];
            assert(a.contains(b[i]));
            let ja = choose|j: int| 0 <= j < a.len() && a[j] == b[i];
            if jb < i {
                assert(comes_before(keys, a[jb], a[i]));
            }
            if ja < i {
                assert(comes_before(keys, b[ja], b[i]));
            }
            assert(comes_before(keys, b[i], b[jb]));
            assert(comes_before(keys, a[i], a[ja]));
        }
    }
}

/// There is only one stable descending order: any order that meets
/// `is_stable_desc` is `stable_desc`.
pub proof fn lemma_stable_desc_unique(keys: Seq<int>, order: Seq<int>)
    requires
        is_stable_desc(keys, order),
    ensures
        order == stable_desc(keys),
        is_stable_desc(keys, stable_desc(keys)),
{
    let chosen = stable_desc(keys);
    lemma_agree_up_to(keys, order, chosen, keys.len() as int);
    assert(order =~= chosen);
}

/// Where a new key goes among the first `n` places of an order: behind the
/// keys that are at least as large, before the smaller ones.
proof fn lemma_split_point(keys: Seq<int>, order: Seq<int>, key: int, n: int) -> (p: int)
    requires
        is_stable_desc(keys, order),
        0 <= n <= order.len(),
    ensures
        0 <= p <= n,
        forall|j: int| 0 <= j < p ==> keys[#[trigger] order[j]] >= key,
        forall|j: int| p <= j < n ==> keys[#[trigger] order[j]] < key,
    decreases n,
{
    if n == 0 {
        0
    } else if keys[order[n - 1]] >= key {
        assert forall|j: int| 0 <= j < n implies keys[#[trigger] order[j]] >= key by {
            if j < n - 1 {
                assert(comes_before(keys, order[j], order[n - 1]));
            }
        }
        n
    } else {
        lemma_split_point(keys, order, key, n - 1)
    }
}

/// Every list of keys has a stable descending order, and `stable_desc` is it.
pub proof fn lemma_stable_desc_exists(keys: Seq<int>)
    ensures
        is_stable_desc(keys, stable_desc(keys)),
    decreases keys.len(),
{
    if keys.len() == 0 {
        assert(is_stable_desc(keys, Seq::<int>::empty()));
    } else {
        let seen = keys.drop_last();
        lemma_stable_desc_exists(seen);
        let before = stable_desc(seen);
        let k = keys.len() - 1;
        let key = keys[k];
        let p = lemma_split_point(seen, before, key, before.len() as int);
        let after = before.insert(p, k);
        assert forall|i: int| 0 <= i < after.len() implies 0 <= #[trigger] after[i]
            < keys.len() by {
            if i < p {
                assert(after[i] == before[i]);
            } else if i > p {
                assert(after[i] == before[i - 1]);
            }
        }
        assert forall|v: int| 0 <= v < keys.len() implies #[trigger] after.contains(v) by {
            if v == k {
                assert(after[p] == v);
            } else {
                assert(before.contains(v));
                let j = choose|j: int| 0 <= j < before.len() && before[j] == v;
                if j < p {
                    assert(after[j] == v);
                } else {
                    assert(after[j + 1] == v);
                }
            }
        }
        assert forall|i: int, j: int| 0 <= i < j < after.len() implies comes_before(
            keys,
            #[trigger] after[i],
            #[trigger] after[j],
        ) by {
            let bi = if i < p { i } else { i - 1 };
            let bj = if j < p { j } else { j - 1 };
            if i != p && j != p {
                assert(comes_before(seen, before[bi], before[bj]));
            } else if i == p {
                assert(seen[before[bj]] < key);
            } else {
                assert(seen[before[bi]] >= key);
            }
        }
        assert(is_stable_desc(keys, after));
    }
}

/// In a stable descending order no position occurs twice.
pub proof fn lemma_stable_desc_distinct(keys: Seq<int>, order: Seq<int>)
    requires
        is_stable_desc(keys, order),
    ensures
        forall|i: int, j: int| 0 <= i < j < order.len() ==> order[i] != order[j],
{
    assert forall|i: int, j: int| 0 <= i < j < order.len() implies order[i] != order[j] by {
        assert(comes_before(keys, order[i], order[j]));
    }
}

/// The positions of `keys` in stable descending order: `order[0]` is the
/// position of the largest key, and of two equal keys the earlier comes first.
pub fn order_desc(keys: &Vec<i128>) -> (order: Vec<usize>)
    ensures
        is_stable_desc(keys_of(keys@), positions_of(order@)),
        positions_of(order@) == stable_desc(keys_of(keys@)),
        order.len() == keys.len(),
        forall|i: int| 0 <= i < order.len() ==> order[i] < keys.len(),
{
    let n = keys.len();
    let ghost all = keys_of(keys@);
    let mut order: Vec<usize> = Vec::new();
    let mut k: usize = 0;
    while k < n
        invariant
            n == keys.len(),
            all == keys_of(keys@),
            0 <= k <= n,
            is_stable_desc(all.take(k as int), positions_of(order@)),
        decreases n - k,
    {
        let ghost before = positions_of(order@);
        let ghost seen = all.take(k as int);
        let key = keys[k];
        // the first place whose key is smaller than the new one
        let mut lo: usize = 0;
        let mut hi: usize = order.len();
        while lo < hi
            invariant
                n == keys.len(),
                all == keys_of(keys@),
                k < n,
                key == keys[k as int],
                before == positions_of(order@),
                seen == all.take(k as int),
                is_stable_desc(seen, before),
                0 <= lo <= hi <= order.len(),
                forall|j: int| 0 <= j < lo ==> seen[before[j]] >= key,
                forall|j: int| hi <= j < order.len() ==> seen[before[j]] < key,
            decreases hi - lo,
        {
            let mid = lo + (hi - lo) / 2;
            let at = order[mid];
            assert(before[mid as int] == at);
            if keys[at] >= key {
                assert forall|j: int| 0 <= j < mid + 1 implies seen[before[j]] >= key by {
                    if j < mid {
                        assert(comes_before(seen, before[j], before[mid as int]));
                    }
                }
                lo = mid + 1;
            } else {
                assert forall|j: int| mid <= j < order.len() implies seen[before[j]] < key by {
                    if mid < j {
                        assert(comes_before(seen, before[mid as int], before[j]));
                    }
                }
                hi = mid;
            }
        }
        order.insert(lo, k);
        proof {
            let after = positions_of(order@);
            let grown = all.take(k + 1);
            assert(after =~= before.insert(lo as int, k as int));
            assert forall|i: int| 0 <= i < after.len() implies 0 <= #[trigger] after[i]
                < grown.len() by {
                if i < lo {
                    assert(after[i] == before[i]);
                } else if i > lo {
                    assert(after[i] == before[i - 1]);
                }
            }
            assert forall|v: int| 0 <= v < grown.len() implies #[trigger] after.contains(v) by {
                if v == k {
                    assert(after[lo as int] == v);
                } else {
                    assert(before.contains(v));
                    let j = choose|j: int| 0 <= j < before.len() && before[j] == v;
                    if j < lo {
                        assert(after[j] == v);
                    } else {
                        assert(after[j + 1] == v);
                    }
                }
            }
            assert forall|i: int, j: int| 0 <= i < j < after.len() implies comes_before(
                grown,
                #[trigger] after[i],
                #[trigger] after[j],
            ) by {
                let bi = if i < lo { i } else { i - 1 };
                let bj = if j < lo { j } else { j - 1 };
                if i != lo && j != lo {
                    assert(comes_before(seen, before[bi], before[bj]));
                } else if i == lo {
                    assert(seen[before[bj]] < key);
                } else {
                    assert(seen[before[bi]] >= key);
                }
            }
        }
        k = k + 1;
    }
    proof {
        assert(all.take(n as int) =~= all);
        lemma_stable_desc_unique(all, positions_of(order@));
        assert forall|i: int| 0 <= i < order.len() implies order[i] < keys.len() by {
            assert(positions_of(order@)[i] == order[i]);
        }
    }
    order
}

} // verus!
