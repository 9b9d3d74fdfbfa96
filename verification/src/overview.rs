//! The list of all users: for each owner of a pilot the owner's pilots and the
//! tally over their matches.

use vstd::prelude::*;

use crate::competition::{AiPilot, MatchResult};
use crate::grouping::{
    count_total,
    distinct_keys,
    group_outcomes,
    is_grouping,
    key_views,
    lemma_counts_bounded,
    SameKey,
};
use crate::sorting::{
    comes_before,
    keys_of,
    lemma_stable_desc_exists,
    order_desc,
    positions_of,
    stable_desc,
};
use crate::stats::{lemma_wins_bounded, overall_tally, wins_for};
use crate::tally::Tally;

verus! {

/// One owner: the place of the owner's first pilot in the list of all pilots,
/// the places of all the owner's pilots in rising order, and the tally over
/// the matches of those pilots.
#[derive(Debug)]
pub struct UserSummary {
    pub first_pilot: usize,
    pub pilot_count: usize,
    pub pilots: Vec<usize>,
    pub tally: Tally,
}

/// The owner of each pilot.
pub open spec fn owner_keys(pilots: Seq<AiPilot>) -> Seq<Seq<char>> {
    Seq::new(pilots.len(), |i: int| pilots[i].owner_id@)
}

/// How many matches the first `upto` lists hold together.
pub open spec fn matches_in(lists: Seq<Vec<MatchResult>>, upto: nat) -> nat
    decreases upto,
{
    if upto == 0 {
        0
    } else {
        matches_in(lists, (upto - 1) as nat) + lists[upto - 1]@.len()
    }
}

/// The places below `upto` at which `owner` stands in `owners`, rising.
pub open spec fn owner_members(owners: Seq<Seq<char>>, owner: Seq<char>, upto: nat) -> Seq<
    usize,
>
    decreases upto,
{
    if upto == 0 {
        Seq::empty()
    } else {
        let earlier = owner_members(owners, owner, (upto - 1) as nat);
        if owners[upto - 1] == owner {
            earlier.push((upto - 1) as usize)
        } else {
            earlier
        }
    }
}

/// How many matches the pilots of `owner` among the first `upto` played.
pub open spec fn owner_total(
    owners: Seq<Seq<char>>,
    matches: Seq<Vec<MatchResult>>,
    owner: Seq<char>,
    upto: nat,
) -> nat
    decreases upto,
{
    if upto == 0 {
        0
    } else {
        owner_total(owners, matches, owner, (upto - 1) as nat) + if owners[upto - 1] == owner {
            matches[upto - 1]@.len()
        } else {
            0nat
        }
    }
}

/// How many of their own matches the pilots of `owner` among the first `upto`
/// won.
pub open spec fn owner_wins(
    pilots: Seq<AiPilot>,
    matches: Seq<Vec<MatchResult>>,
    owner: Seq<char>,
    upto: nat,
) -> nat
    decreases upto,
{
    if upto == 0 {
        0
    } else {
        owner_wins(pilots, matches, owner, (upto - 1) as nat) + if pilots[upto - 1].owner_id@
            == owner {
            wins_for(matches[upto - 1]@, pilots[upto - 1].id)
        } else {
            0nat
        }
    }
}

/// The tally over the matches of the pilots of `owner`.
pub open spec fn owner_tally(
    pilots: Seq<AiPilot>,
    matches: Seq<Vec<MatchResult>>,
    owner: Seq<char>,
) -> Tally {
    let total = owner_total(owner_keys(pilots), matches, owner, pilots.len());
    let wins = owner_wins(pilots, matches, owner, pilots.len());
    Tally { wins: wins as usize, losses: (total - wins) as usize, total: total as usize }
}

/// For each owner, in order of first appearance, the matches of the owner's
/// pilots.
pub open spec fn owner_totals(pilots: Seq<AiPilot>, matches: Seq<Vec<MatchResult>>) -> Seq<int> {
    let owners = owner_keys(pilots);
    Seq::new(
        distinct_keys(owners).len(),
        |g: int| owner_total(owners, matches, distinct_keys(owners)[g], pilots.len()) as int,
    )
}

/// The number of pilots of each owner, the owners taken in the order `order`.
pub open spec fn owner_counts(pilots: Seq<AiPilot>, order: Seq<int>) -> Seq<int> {
    let owners = owner_keys(pilots);
    Seq::new(order.len(), |i: int| count_total(owners, distinct_keys(owners)[order[i]]) as int)
}

/// The order of the owners on the list of users: those with more pilots
/// first; of two with equally many pilots, the one with more matches; of two
/// that are level in both, the one whose first pilot comes first. It is the
/// order by matches, put in order by pilots.
pub open spec fn owner_order(pilots: Seq<AiPilot>, matches: Seq<Vec<MatchResult>>) -> Seq<int> {
    let by_matches = stable_desc(owner_totals(pilots, matches));
    let by_pilots = stable_desc(owner_counts(pilots, by_matches));
    Seq::new(by_matches.len(), |i: int| by_matches[by_pilots[i]])
}

/// `rows` is the list of users over `pilots` and their `matches`.
pub open spec fn is_users_overview(
    pilots: Seq<AiPilot>,
    matches: Seq<Vec<MatchResult>>,
    rows: Seq<UserSummary>,
) -> bool {
    let owners = owner_keys(pilots);
    let order = owner_order(pilots, matches);
    &&& rows.len() == distinct_keys(owners).len()
    &&& forall|i: int|
        0 <= i < rows.len() ==> {
            let owner = distinct_keys(owners)[order[i]];
            &&& 0 <= (#[trigger] rows[i]).first_pilot < pilots.len()
            &&& owners[rows[i].first_pilot as int] == owner
            &&& forall|j: int| 0 <= j < rows[i].first_pilot ==> owners[j] != owner
            &&& rows[i].pilots@ == owner_members(owners, owner, pilots.len())
            &&& rows[i].pilot_count == rows[i].pilots@.len()
            &&& rows[i].pilot_count == count_total(owners, owner)
            &&& rows[i].tally == owner_tally(pilots, matches, owner)
            &&& rows[i].tally.wf()
        }
}

/// The matches of one owner's pilots are among the matches of all pilots, the
/// wins among the matches, and the owner's pilots are as many as the owner's
/// places.
pub proof fn lemma_owner_sums(
    pilots: Seq<AiPilot>,
    matches: Seq<Vec<MatchResult>>,
    owner: Seq<char>,
    upto: nat,
)
    requires
        upto <= pilots.len(),
        pilots.len() == matches.len(),
    ensures
        owner_wins(pilots, matches, owner, upto) <= owner_total(
            owner_keys(pilots),
            matches,
            owner,
            upto,
        ) <= matches_in(matches, upto),
        owner_members(owner_keys(pilots), owner, upto).len() == count_total(
            owner_keys(pilots).take(upto as int),
            owner,
        ),
    decreases upto,
{
    if upto > 0 {
        lemma_owner_sums(pilots, matches, owner, (upto - 1) as nat);
        lemma_wins_bounded(matches[upto - 1]@, pilots[upto - 1].id);
        let owners = owner_keys(pilots);
        assert(owners.take(upto as int).drop_last() =~= owners.take(upto - 1));
    }
}

/// The more lists are counted, the more matches there are.
pub proof fn lemma_matches_in_grows(lists: Seq<Vec<MatchResult>>, a: nat, b: nat)
    requires
        a <= b,
    ensures
        matches_in(lists, a) <= matches_in(lists, b),
    decreases b,
{
    if a < b {
        lemma_matches_in_grows(lists, a, (b - 1) as nat);
    }
}

/// On the list of users, an owner with more pilots comes before one with
/// fewer, and of two with equally many pilots the one with more matches comes
/// first.
pub proof fn lemma_owner_order_ranks(
    pilots: Seq<AiPilot>,
    matches: Seq<Vec<MatchResult>>,
    i: int,
    j: int,
)
    requires
        0 <= i < j < distinct_keys(owner_keys(pilots)).len(),
    ensures
        ({
            let owners = owner_keys(pilots);
            let order = owner_order(pilots, matches);
            let first = distinct_keys(owners)[order[i]];
            let second = distinct_keys(owners)[order[j]];
            let n = pilots.len();
            ||| count_total(owners, first) > count_total(owners, second)
            ||| (count_total(owners, first) == count_total(owners, second) && owner_total(
                owners,
                matches,
                first,
                n,
            ) > owner_total(owners, matches, second, n))
            ||| (count_total(owners, first) == count_total(owners, second) && owner_total(
                owners,
                matches,
                first,
                n,
            ) == owner_total(owners, matches, second, n) && order[i] < order[j])
        }),
{
    let totals = owner_totals(pilots, matches);
    let by_matches = stable_desc(totals);
    let counts = owner_counts(pilots, by_matches);
    let by_pilots = stable_desc(counts);
    lemma_stable_desc_exists(totals);
    lemma_stable_desc_exists(counts);
    assert(comes_before(counts, by_pilots[i], by_pilots[j]));
    if counts[by_pilots[i]] == counts[by_pilots[j]] {
        assert(comes_before(totals, by_matches[by_pilots[i]], by_matches[by_pilots[j]]));
    }
}

/// The tally over the matches of the pilots that have the owner of
/// `pilots[first]`.
fn tally_of_owner(
    pilots: &Vec<AiPilot>,
    matches: &Vec<Vec<MatchResult>>,
    first: usize,
) -> (tally: Tally)
    requires
        pilots.len() == matches.len(),
        first < pilots.len(),
        matches_in(matches@, matches.len() as nat) <= usize::MAX,
    ensures
        tally == owner_tally(pilots@, matches@, pilots[first as int].owner_id@),
        tally.wf(),
{
    let n = pilots.len();
    let ghost owner = pilots[first as int].owner_id@;
    let ghost owners = owner_keys(pilots@);
    let mut wins: usize = 0;
    let mut total: usize = 0;
    let mut i: usize = 0;
    while i < n
        invariant
            n == pilots.len(),
            n == matches.len(),
            first < n,
            0 <= i <= n,
            owner == pilots[first as int].owner_id@,
            owners == owner_keys(pilots@),
            matches_in(matches@, n as nat) <= usize::MAX,
            total == owner_total(owners, matches@, owner, i as nat),
            wins == owner_wins(pilots@, matches@, owner, i as nat),
        decreases n - i,
    {
        proof {
            lemma_owner_sums(pilots@, matches@, owner, (i + 1) as nat);
            lemma_matches_in_grows(matches@, (i + 1) as nat, n as nat);
        }
        if pilots[i].owner_id.same_key(&pilots[first].owner_id) {
            let own = overall_tally(pilots[i].id, &matches[i]);
            wins = wins + own.wins;
            total = total + own.total;
        }
        i = i + 1;
    }
    proof {
        lemma_owner_sums(pilots@, matches@, owner, n as nat);
    }
    Tally { wins, losses: total - wins, total }
}

/// The places of the pilots that have the owner of `pilots[first]`, rising.
fn members_of_owner(pilots: &Vec<AiPilot>, first: usize) -> (members: Vec<usize>)
    requires
        first < pilots.len(),
    ensures
        members@ == owner_members(
            owner_keys(pilots@),
            pilots[first as int].owner_id@,
            pilots.len() as nat,
        ),
{
    let n = pilots.len();
    let ghost owner = pilots[first as int].owner_id@;
    let ghost owners = owner_keys(pilots@);
    let mut members: Vec<usize> = Vec::new();
    let mut i: usize = 0;
    while i < n
        invariant
            n == pilots.len(),
            first < n,
            0 <= i <= n,
            owner == pilots[first as int].owner_id@,
            owners == owner_keys(pilots@),
            members@ == owner_members(owners, owner, i as nat),
        decreases n - i,
    {
        if pilots[i].owner_id.same_key(&pilots[first].owner_id) {
            members.push(i);
        }
        i = i + 1;
    }
    members
}

/// Whether the lists hold no more matches together than can be counted.
pub fn matches_fit(matches: &Vec<Vec<MatchResult>>) -> (fit: bool)
    ensures
        fit == (matches_in(matches@, matches.len() as nat) <= usize::MAX),
{
    let n = matches.len();
    let mut total: usize = 0;
    let mut i: usize = 0;
    while i < n
        invariant
            n == matches.len(),
            0 <= i <= n,
            total == matches_in(matches@, i as nat),
        decreases n - i,
    {
        let size = matches[i].len();
        if size > usize::MAX - total {
            proof {
                lemma_matches_in_grows(matches@, (i + 1) as nat, n as nat);
            }
            return false;
        }
        total = total + size;
        i = i + 1;
    }
    true
}

/// The list of users where there is one list of matches for each pilot and
/// the matches can be counted, and nothing otherwise.
pub fn try_users_overview(pilots: &Vec<AiPilot>, matches: &Vec<Vec<MatchResult>>) -> (rows:
    Option<Vec<UserSummary>>)
    ensures
        rows is Some <==> (pilots.len() == matches.len() && matches_in(
            matches@,
            matches.len() as nat,
        ) <= usize::MAX),
        rows matches Some(list) ==> is_users_overview(pilots@, matches@, list@),
{
    if pilots.len() == matches.len() && matches_fit(matches) {
        Some(users_overview(pilots, matches))
    } else {
        None
    }
}

/// The list of users: one row for each owner of a pilot, owners with more
/// pilots first. `matches[i]` holds the matches of `pilots[i]`.
pub fn users_overview(pilots: &Vec<AiPilot>, matches: &Vec<Vec<MatchResult>>) -> (rows: Vec<
    UserSummary,
>)
    requires
        pilots.len() == matches.len(),
        matches_in(matches@, matches.len() as nat) <= usize::MAX,
    ensures
        is_users_overview(pilots@, matches@, rows@),
{
    let n = pilots.len();
    let ghost owners = owner_keys(pilots@);
    let ghost d = distinct_keys(owners);
    let mut names: Vec<String> = Vec::new();
    let mut blank: Vec<bool> = Vec::new();
    let mut k: usize = 0;
    while k < n
        invariant
            n == pilots.len(),
            0 <= k <= n,
            names.len() == k,
            blank.len() == k,
            forall|h: int| 0 <= h < k ==> (#[trigger] names[h])@ == pilots[h].owner_id@,
        decreases n - k,
    {
        names.push(pilots[k].owner_id.clone());
        blank.push(false);
        k = k + 1;
    }
    assert(key_views(names@) =~= owners);
    let groups = group_outcomes(&names, &blank);
    let count = groups.len();
    // the owners by matches
    let mut tallies: Vec<Tally> = Vec::new();
    let mut totals: Vec<i128> = Vec::new();
    let mut g: usize = 0;
    while g < count
        invariant
            n == pilots.len(),
            n == matches.len(),
            matches_in(matches@, n as nat) <= usize::MAX,
            owners == owner_keys(pilots@),
            d == distinct_keys(owners),
            is_grouping(owners, blank@, groups@),
            count == groups.len(),
            0 <= g <= count,
            tallies.len() == g,
            totals.len() == g,
            forall|h: int|
                0 <= h < g ==> (#[trigger] tallies[h]) == owner_tally(pilots@, matches@, d[h])
                    && tallies[h].wf(),
            forall|h: int|
                0 <= h < g ==> (#[trigger] totals[h]) == owner_total(
                    owners,
                    matches@,
                    d[h],
                    n as nat,
                ),
        decreases count - g,
    {
        let first = groups[g].first;
        let tally = tally_of_owner(pilots, matches, first);
        proof {
            lemma_owner_sums(pilots@, matches@, d[g as int], n as nat);
        }
        totals.push(tally.total as i128);
        tallies.push(tally);
        g = g + 1;
    }
    assert(keys_of(totals@) =~= owner_totals(pilots@, matches@));
    let by_matches = order_desc(&totals);
    let ghost ranked = stable_desc(owner_totals(pilots@, matches@));
    // those, put in order by pilots
    let mut counts: Vec<i128> = Vec::new();
    let mut i: usize = 0;
    while i < count
        invariant
            owners == owner_keys(pilots@),
            d == distinct_keys(owners),
            is_grouping(owners, blank@, groups@),
            count == groups.len(),
            count == by_matches.len(),
            0 <= i <= count,
            positions_of(by_matches@) == ranked,
            forall|j: int| 0 <= j < count ==> by_matches[j] < count,
            counts.len() == i,
            forall|h: int| 0 <= h < i ==> (#[trigger] counts[h]) == count_total(
                owners, d[ranked[h]]),
        decreases count - i,
    {
        let at = by_matches[i];
        assert(positions_of(by_matches@)[i as int] == at);
        proof {
            lemma_counts_bounded(owners, blank@, d[at as int]);
            assert(owners.len() == pilots.len());
        }
        counts.push(groups[at].tally.total as i128);
        i = i + 1;
    }
    assert(keys_of(counts@) =~= owner_counts(pilots@, ranked));
    let by_pilots = order_desc(&counts);
    let ghost reranked = stable_desc(owner_counts(pilots@, ranked));
    let ghost order = owner_order(pilots@, matches@);
    let mut rows: Vec<UserSummary> = Vec::new();
    let mut i: usize = 0;
    while i < count
        invariant
            n == pilots.len(),
            n == matches.len(),
            owners == owner_keys(pilots@),
            d == distinct_keys(owners),
            is_grouping(owners, blank@, groups@),
            count == groups.len(),
            count == by_matches.len(),
            count == by_pilots.len(),
            count == tallies.len(),
            0 <= i <= count,
            ranked == stable_desc(owner_totals(pilots@, matches@)),
            ranked.len() == count,
            positions_of(by_matches@) == ranked,
            positions_of(by_pilots@) == reranked,
            reranked == stable_desc(owner_counts(pilots@, ranked)),
            order == owner_order(pilots@, matches@),
            forall|j: int| 0 <= j < count ==> by_matches[j] < count,
            forall|j: int| 0 <= j < count ==> by_pilots[j] < count,
            forall|h: int|
                0 <= h < count ==> (#[trigger] tallies[h]) == owner_tally(pilots@, matches@, d[h])
                    && tallies[h].wf(),
            rows.len() == i,
            forall|r: int|
                0 <= r < i ==> {
                    let owner = d[order[r]];
                    &&& 0 <= (#[trigger] rows[r]).first_pilot < n
                    &&& owners[rows[r].first_pilot as int] == owner
                    &&& forall|j: int| 0 <= j < rows[r].first_pilot ==> owners[j] != owner
                    &&& rows[r].pilots@ == owner_members(owners, owner, n as nat)
                    &&& rows[r].pilot_count == rows[r].pilots@.len()
                    &&& rows[r].pilot_count == count_total(owners, owner)
                    &&& rows[r].tally == owner_tally(pilots@, matches@, owner)
                    &&& rows[r].tally.wf()
                },
        decreases count - i,
    {
        let second = by_pilots[i];
        assert(positions_of(by_pilots@)[i as int] == second);
        let at = by_matches[second];
        assert(positions_of(by_matches@)[second as int] == at);
        assert(order[i as int] == at);
        let group = groups[at];
        let members = members_of_owner(pilots, group.first);
        proof {
            lemma_owner_sums(pilots@, matches@, d[at as int], n as nat);
            assert(owners.take(n as int) =~= owners);
        }
        rows.push(
            UserSummary {
                first_pilot: group.first,
                pilot_count: members.len(),
                pilots: members,
                tally: tallies[at],
            },
        );
        i = i + 1;
    }
    rows
}

} // verus!
