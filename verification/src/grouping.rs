//! Grouping a list of outcomes by key: the distinct keys in order of first
//! appearance, each with its tally of wins and losses.

use vstd::prelude::*;

use crate::tally::Tally;

verus! {

/// A key type whose values can be told apart at run time.
pub trait SameKey: View + Sized {
    /// Whether the two keys are the same key.
    fn same_key(&self, other: &Self) -> (same: bool)
        ensures
            same == (self@ == other@),
    ;
}

impl SameKey for u128 {
    fn same_key(&self, other: &Self) -> (same: bool) {
        *self == *other
    }
}

impl SameKey for i32 {
    fn same_key(&self, other: &Self) -> (same: bool) {
        *self == *other
    }
}

impl SameKey for String {
    fn same_key(&self, other: &Self) -> (same: bool) {
        *self == *other
    }
}

/// The keys by what they stand for.
pub open spec fn key_views<K: View>(keys: Seq<K>) -> Seq<K::V> {
    Seq::new(keys.len(), |i: int| keys[i]@)
}

/// The keys of `keys`, each once, in order of first appearance.
pub open spec fn distinct_keys<T>(keys: Seq<T>) -> Seq<T>
    decreases keys.len(),
{
    if keys.len() == 0 {
        Seq::empty()
    } else {
        let earlier = distinct_keys(keys.drop_last());
        if earlier.contains(keys.last()) {
            earlier
        } else {
            earlier.push(keys.last())
        }
    }
}

/// How often `key` occurs in `keys`.
pub open spec fn count_total<T>(keys: Seq<T>, key: T) -> nat
    decreases keys.len(),
{
    if keys.len() == 0 {
        0
    } else {
        count_total(keys.drop_last(), key) + if keys.last() == key {
            1nat
        } else {
            0nat
        }
    }
}

/// How often `key` occurs in `keys` at a position that `won` marks as a win.
/// Positions beyond the end of `won` count as losses.
pub open spec fn count_wins<T>(keys: Seq<T>, won: Seq<bool>, key: T) -> nat
    decreases keys.len(),
{
    if keys.len() == 0 {
        0
    } else {
        let at = keys.len() - 1;
        count_wins(keys.drop_last(), won, key) + if keys.last() == key && at < won.len()
            && won[at] {
            1nat
        } else {
            0nat
        }
    }
}

/// The tally of the outcomes filed under `key`.
pub open spec fn tally_of<T>(keys: Seq<T>, won: Seq<bool>, key: T) -> Tally {
    Tally {
        wins: count_wins(keys, won, key) as usize,
        losses: (count_total(keys, key) - count_wins(keys, won, key)) as usize,
        total: count_total(keys, key) as usize,
    }
}

/// A key is counted at most once per position, and a win only where the key
/// occurs.
pub proof fn lemma_counts_bounded<T>(keys: Seq<T>, won: Seq<bool>, key: T)
    ensures
        count_wins(keys, won, key) <= count_total(keys, key) <= keys.len(),
    decreases keys.len(),
{
    if keys.len() > 0 {
        lemma_counts_bounded(keys.drop_last(), won, key);
    }
}

/// A key that occurs is counted, and a key that does not is not.
pub proof fn lemma_count_positive<T>(keys: Seq<T>, key: T)
    ensures
        keys.contains(key) <==> count_total(keys, key) > 0,
    decreases keys.len(),
{
    if keys.len() > 0 {
        lemma_count_positive(keys.drop_last(), key);
        if keys.contains(key) {
            let i = choose|i: int| 0 <= i < keys.len() && keys[i] == key;
            if i < keys.len() - 1 {
                assert(keys.drop_last()[i] == key);
            }
        }
        if keys.drop_last().contains(key) {
            let i = choose|i: int| 0 <= i < keys.len() - 1 && keys.drop_last()[i] == key;
            assert(keys[i] == key);
        }
    }
}

/// The distinct keys hold every key that occurs, nothing else, and none twice.
pub proof fn lemma_distinct_keys<T>(keys: Seq<T>)
    ensures
        forall|k: T| keys.contains(k) <==> #[trigger] distinct_keys(keys).contains(k),
        distinct_keys(keys).no_duplicates(),
        distinct_keys(keys).len() <= keys.len(),
    decreases keys.len(),
{
    let d = distinct_keys(keys);
    if keys.len() > 0 {
        let init = keys.drop_last();
        let earlier = distinct_keys(init);
        lemma_distinct_keys(init);
        assert forall|k: T| keys.contains(k) <==> #[trigger] d.contains(k) by {
            if keys.contains(k) {
                let i = choose|i: int| 0 <= i < keys.len() && keys[i] == k;
                if i < keys.len() - 1 {
                    assert(init[i] == k);
                    assert(earlier.contains(k));
                    let j = choose|j: int| 0 <= j < earlier.len() && earlier[j] == k;
                    assert(d[j] == k);
                } else if !earlier.contains(keys.last()) {
                    assert(d[d.len() - 1] == k);
                }
            }
            if d.contains(k) {
                let j = choose|j: int| 0 <= j < d.len() && d[j] == k;
                if j < earlier.len() {
                    assert(earlier[j] == k);
                    assert(earlier.contains(k));
                    assert(init.contains(k));
                    let i = choose|i: int| 0 <= i < init.len() && init[i] == k;
                    assert(keys[i] == k);
                } else {
                    assert(keys[keys.len() - 1] == k);
                }
            }
        }
    }
}

/// How often the keys of `groups` occur in `keys`, all together.
pub open spec fn total_of_groups<T>(keys: Seq<T>, groups: Seq<T>) -> nat
    decreases groups.len(),
{
    if groups.len() == 0 {
        0
    } else {
        total_of_groups(keys, groups.drop_last()) + count_total(keys, groups.last())
    }
}

/// How many wins are filed under the keys of `groups`, all together.
pub open spec fn wins_of_groups<T>(keys: Seq<T>, won: Seq<bool>, groups: Seq<T>) -> nat
    decreases groups.len(),
{
    if groups.len() == 0 {
        0
    } else {
        wins_of_groups(keys, won, groups.drop_last()) + count_wins(keys, won, groups.last())
    }
}

/// How many of the first `upto` outcomes are wins.
pub open spec fn wins_among(won: Seq<bool>, upto: nat) -> nat
    decreases upto,
{
    if upto == 0 {
        0
    } else {
        wins_among(won, (upto - 1) as nat) + if upto - 1 < won.len() && won[upto - 1] {
            1nat
        } else {
            0nat
        }
    }
}

proof fn lemma_one_more_key<T>(keys: Seq<T>, won: Seq<bool>, groups: Seq<T>)
    requires
        keys.len() > 0,
    ensures
        total_of_groups(keys, groups) == total_of_groups(keys.drop_last(), groups) + count_total(
            groups,
            keys.last(),
        ),
        wins_of_groups(keys, won, groups) == wins_of_groups(keys.drop_last(), won, groups)
            + if keys.len() - 1 < won.len() && won[keys.len() - 1] {
            count_total(groups, keys.last())
        } else {
            0nat
        },
    decreases groups.len(),
{
    if groups.len() > 0 {
        lemma_one_more_key(keys, won, groups.drop_last());
    }
}

proof fn lemma_counted_once<T>(groups: Seq<T>, key: T)
    requires
        groups.no_duplicates(),
    ensures
        count_total(groups, key) == if groups.contains(key) {
            1nat
        } else {
            0nat
        },
    decreases groups.len(),
{
    if groups.len() > 0 {
        let init = groups.drop_last();
        lemma_counted_once(init, key);
        if init.contains(key) {
            let i = choose|i: int| 0 <= i < init.len() && init[i] == key;
            assert(groups[i] == key);
        }
        if groups.contains(key) && groups.last() != key {
            let i = choose|i: int| 0 <= i < groups.len() && groups[i] == key;
            assert(init[i] == key);
        }
    }
}

/// Every outcome is filed under exactly one group: the totals of the groups
/// add up to the number of outcomes, and their wins to the number of wins.
pub proof fn lemma_groups_cover<T>(keys: Seq<T>, won: Seq<bool>)
    ensures
        total_of_groups(keys, distinct_keys(keys)) == keys.len(),
        wins_of_groups(keys, won, distinct_keys(keys)) == wins_among(won, keys.len()),
    decreases keys.len(),
{
    if keys.len() > 0 {
        let init = keys.drop_last();
        let key = keys.last();
        let earlier = distinct_keys(init);
        lemma_groups_cover(init, won);
        lemma_distinct_keys(init);
        lemma_counted_once(earlier, key);
        lemma_one_more_key(keys, won, earlier);
        if !earlier.contains(key) {
            let grown = earlier.push(key);
            assert(grown.drop_last() =~= earlier);
            lemma_count_positive(init, key);
            lemma_counts_bounded(init, won, key);
        }
    }
}

/// One group: where its key first appears, and the tally of its outcomes.
#[derive(Clone, Copy, Debug)]
pub struct Group {
    pub first: usize,
    pub tally: Tally,
}

/// `groups` are the groups of `keys` under the outcomes `won`: one for each
/// distinct key, in order of first appearance, each with the place where its
/// key first appears and the tally of the outcomes under that key.
pub open spec fn is_grouping<T>(keys: Seq<T>, won: Seq<bool>, groups: Seq<Group>) -> bool {
    &&& groups.len() == distinct_keys(keys).len()
    &&& forall|g: int|
        0 <= g < groups.len() ==> {
            &&& 0 <= (#[trigger] groups[g]).first < keys.len()
            &&& keys[groups[g].first as int] == distinct_keys(keys)[g]
            &&& forall|j: int| 0 <= j < groups[g].first ==> keys[j] != distinct_keys(keys)[g]
            &&& groups[g].tally == tally_of(keys, won, distinct_keys(keys)[g])
            &&& groups[g].tally.wf()
            &&& groups[g].tally.total >= 1
        }
}

/// Groups the outcomes `won` by `keys`, position by position.
pub fn group_outcomes<K: SameKey>(keys: &Vec<K>, won: &Vec<bool>) -> (groups: Vec<Group>)
    requires
        keys.len() == won.len(),
    ensures
        is_grouping(key_views(keys@), won@, groups@),
{
    let n = keys.len();
    let ghost kv = key_views(keys@);
    let mut groups: Vec<Group> = Vec::new();
    let mut i: usize = 0;
    while i < n
        invariant
            n == keys.len(),
            n == won.len(),
            kv == key_views(keys@),
            0 <= i <= n,
            is_grouping(kv.take(i as int), won@, groups@),
        decreases n - i,
    {
        let ghost seen = kv.take(i as int);
        let ghost grown = kv.take(i + 1);
        let ghost d = distinct_keys(seen);
        proof {
            assert(grown.drop_last() =~= seen);
            assert(grown.last() == kv[i as int]);
            lemma_distinct_keys(seen);
            assert forall|g: int| 0 <= g < groups.len() implies (#[trigger] groups[g]).tally.total
                <= i by {
                lemma_counts_bounded(seen, won@, d[g]);
            }
        }
        let mut g: usize = 0;
        let mut found: bool = false;
        while g < groups.len() && !found
            invariant
                n == keys.len(),
                kv == key_views(keys@),
                i < n,
                seen == kv.take(i as int),
                d == distinct_keys(seen),
                is_grouping(seen, won@, groups@),
                0 <= g <= groups.len(),
                found ==> g < groups.len() && d[g as int] == kv[i as int],
                forall|h: int| 0 <= h < g && !(found && h == g) ==> d[h] != kv[i as int],
            decreases groups.len() - g + if found { 0int } else { 1int },
        {
            let first = groups[g].first;
            assert(seen[first as int] == kv[first as int]);
            if keys[first].same_key(&keys[i]) {
                found = true;
            } else {
                g = g + 1;
            }
        }
        if found {
            let old_group = groups[g];
            let tally = old_group.tally.record(won[i]);
            groups.set(g, Group { first: old_group.first, tally });
        } else {
            groups.push(Group { first: i, tally: Tally::empty().record(won[i]) });
        }
        proof {
            let key = kv[i as int];
            let dd = distinct_keys(grown);
            if found {
                assert(d.contains(key));
                assert(dd == d);
            } else {
                assert(!d.contains(key));
                assert(dd == d.push(key));
                lemma_count_positive(seen, key);
            }
            assert forall|h: int| 0 <= h < groups.len() implies {
                &&& 0 <= (#[trigger] groups[h]).first < grown.len()
                &&& grown[groups[h].first as int] == dd[h]
                &&& forall|j: int| 0 <= j < groups[h].first ==> grown[j] != dd[h]
                &&& groups[h].tally == tally_of(grown, won@, dd[h])
                &&& groups[h].tally.wf()
                &&& groups[h].tally.total >= 1
            } by {
                lemma_counts_bounded(grown, won@, dd[h]);
                lemma_counts_bounded(seen, won@, dd[h]);
                if h < d.len() {
                    assert(seen[groups[h].first as int] == grown[groups[h].first as int]);
                    assert forall|j: int| 0 <= j < groups[h].first implies grown[j] != dd[h] by {
                        assert(seen[j] == grown[j]);
                    }
                    if found && h != g {
                        assert(d[h] != d[g as int]);
                    }
                } else {
                    assert forall|j: int| 0 <= j < i implies grown[j] != key by {
                        assert(seen[j] == grown[j]);
                        if seen[j] == key {
                            assert(seen.contains(key));
                        }
                    }
                }
            }
        }
        i = i + 1;
    }
    proof {
        assert(kv.take(n as int) =~= kv);
    }
    groups
}

} // verus!
