//! The statistics of one pilot: its overall tally, its record against each
//! opponent and with each of its versions, and its latest matches.

use vstd::prelude::*;

use crate::competition::MatchResult;
use crate::grouping::{
    count_total,
    distinct_keys,
    group_outcomes,
    is_grouping,
    key_views,
    lemma_counts_bounded,
    lemma_distinct_keys,
    tally_of,
};
use crate::sorting::{
    comes_before,
    keys_of,
    lemma_stable_desc_exists,
    order_desc,
    positions_of,
    stable_desc,
};
use crate::tally::{Tally, Trend};

verus! {

/// The record of a pilot against one opponent.
#[derive(Clone, Copy, Debug)]
pub struct OpponentStats {
    pub opponent: u128,
    pub tally: Tally,
}

/// The record of a pilot with one of its versions, and how that version's win
/// rate stands against the next older version that played.
#[derive(Clone, Copy, Debug)]
pub struct VersionStats {
    pub version: i32,
    pub tally: Tally,
    pub trend: Trend,
}

/// One match as the pilot saw it.
#[derive(Clone, Copy, Debug, PartialEq, Eq, Structural)]
pub struct RecentMatch {
    pub opponent: u128,
    pub opponent_version: i32,
    pub own_version: i32,
    pub won: bool,
    pub created_at: i64,
    pub is_manual: bool,
}

/// Everything the page of one pilot shows in numbers.
#[derive(Debug)]
pub struct PilotRollup {
    pub overall: Tally,
    pub opponents: Vec<OpponentStats>,
    pub versions: Vec<VersionStats>,
    pub recent: Vec<RecentMatch>,
}

/// How many of the latest matches the page of a pilot lists.
pub const RECENT_PILOT_MATCHES: usize = 10;

/// How many of `matches` the pilot won, on either side.
pub open spec fn wins_for(matches: Seq<MatchResult>, pilot: u128) -> nat
    decreases matches.len(),
{
    if matches.len() == 0 {
        0
    } else {
        wins_for(matches.drop_last(), pilot) + if matches.last().spec_won_by(pilot) {
            1nat
        } else {
            0nat
        }
    }
}

/// The tally of `matches` for the pilot: every match counts, and each is a
/// win or a loss.
pub open spec fn overall_of(matches: Seq<MatchResult>, pilot: u128) -> Tally {
    Tally {
        wins: wins_for(matches, pilot) as usize,
        losses: (matches.len() - wins_for(matches, pilot)) as usize,
        total: matches.len() as usize,
    }
}

/// The opponent of the pilot in each match.
pub open spec fn opponent_ids(matches: Seq<MatchResult>, pilot: u128) -> Seq<u128> {
    Seq::new(matches.len(), |i: int| matches[i].spec_opponent_slot(pilot).aip_id)
}

/// The version the pilot played with in each match.
pub open spec fn own_versions(matches: Seq<MatchResult>, pilot: u128) -> Seq<i32> {
    Seq::new(matches.len(), |i: int| matches[i].spec_own_slot(pilot).version)
}

/// Whether the pilot's side won, match by match.
pub open spec fn side_outcomes(matches: Seq<MatchResult>, pilot: u128) -> Seq<bool> {
    Seq::new(matches.len(), |i: int| matches[i].spec_side_won(pilot))
}

/// When each match was created.
pub open spec fn created_keys(matches: Seq<MatchResult>) -> Seq<int> {
    Seq::new(matches.len(), |i: int| matches[i].created_at as int)
}

/// For each distinct key, in order of first appearance, how often it occurs.
pub open spec fn group_sizes<T>(keys: Seq<T>) -> Seq<int> {
    Seq::new(distinct_keys(keys).len(), |g: int| count_total(keys, distinct_keys(keys)[g]) as int)
}

/// The distinct versions, in order of first appearance, as integers.
pub open spec fn version_keys(versions: Seq<i32>) -> Seq<int> {
    Seq::new(distinct_keys(versions).len(), |g: int| distinct_keys(versions)[g] as int)
}

/// The match as the pilot saw it.
pub open spec fn recent_row(m: MatchResult, pilot: u128) -> RecentMatch {
    RecentMatch {
        opponent: m.spec_opponent_slot(pilot).aip_id,
        opponent_version: m.spec_opponent_slot(pilot).version,
        own_version: m.spec_own_slot(pilot).version,
        won: m.spec_side_won(pilot),
        created_at: m.created_at,
        is_manual: m.manual_run,
    }
}

/// `rows` holds one row for each opponent that occurs in `matches`, with the
/// tally of the matches against it. The opponent with the most matches comes
/// first; of two with equally many, the one met first.
pub open spec fn is_opponent_stats(
    matches: Seq<MatchResult>,
    pilot: u128,
    rows: Seq<OpponentStats>,
) -> bool {
    let ids = opponent_ids(matches, pilot);
    let won = side_outcomes(matches, pilot);
    let order = stable_desc(group_sizes(ids));
    &&& rows.len() == distinct_keys(ids).len()
    &&& forall|i: int|
        0 <= i < rows.len() ==> {
            &&& (#[trigger] rows[i]).opponent == distinct_keys(ids)[order[i]]
            &&& rows[i].tally == tally_of(ids, won, rows[i].opponent)
            &&& rows[i].tally.wf()
        }
}

/// `rows` holds one row for each version that the pilot played with in
/// `matches`, the highest version first, with the tally of the matches played
/// with it. The trend of a row holds its win rate against that of the next
/// older version, which is the row after it; the last row, the oldest
/// version, is `Neutral`.
pub open spec fn is_version_stats(
    matches: Seq<MatchResult>,
    pilot: u128,
    rows: Seq<VersionStats>,
) -> bool {
    let versions = own_versions(matches, pilot);
    let won = side_outcomes(matches, pilot);
    let order = stable_desc(version_keys(versions));
    &&& rows.len() == distinct_keys(versions).len()
    &&& forall|i: int|
        0 <= i < rows.len() ==> {
            &&& (#[trigger] rows[i]).version == distinct_keys(versions)[order[i]]
            &&& rows[i].tally == tally_of(versions, won, rows[i].version)
            &&& rows[i].tally.wf()
            &&& rows[i].trend == if i + 1 < rows.len() {
                rows[i].tally.spec_trend_against(
                    tally_of(versions, won, distinct_keys(versions)[order[i + 1]]),
                )
            } else {
                Trend::Neutral
            }
        }
}

/// `rows` holds the `limit` latest of `matches`, or all of them where there
/// are fewer, the latest first; of two created at the same time the one that
/// comes first in `matches` comes first.
pub open spec fn is_recent_matches(
    matches: Seq<MatchResult>,
    pilot: u128,
    limit: nat,
    rows: Seq<RecentMatch>,
) -> bool {
    let order = stable_desc(created_keys(matches));
    &&& rows.len() == if limit < matches.len() {
        limit
    } else {
        matches.len()
    }
    &&& forall|i: int| 0 <= i < rows.len() ==> #[trigger] rows[i] == recent_row(
        matches[order[i]], pilot)
}

/// The wins of a pilot are among its matches.
pub proof fn lemma_wins_bounded(matches: Seq<MatchResult>, pilot: u128)
    ensures
        wins_for(matches, pilot) <= matches.len(),
        matches.len() <= usize::MAX ==> overall_of(matches, pilot).wf(),
    decreases matches.len(),
{
    if matches.len() > 0 {
        lemma_wins_bounded(matches.drop_last(), pilot);
    }
}

/// The matches with the two sides of each in each other's place.
pub open spec fn swapped_all(matches: Seq<MatchResult>) -> Seq<MatchResult> {
    Seq::new(matches.len(), |i: int| matches[i].swapped())
}

/// The overall tally of a pilot does not depend on the side that the pilot
/// played on: with the sides of every match in each other's place it is the
/// same.
pub proof fn lemma_overall_is_symmetric(matches: Seq<MatchResult>, pilot: u128)
    ensures
        wins_for(swapped_all(matches), pilot) == wins_for(matches, pilot),
        overall_of(swapped_all(matches), pilot) == overall_of(matches, pilot),
    decreases matches.len(),
{
    if matches.len() > 0 {
        lemma_overall_is_symmetric(matches.drop_last(), pilot);
        assert(swapped_all(matches).drop_last() =~= swapped_all(matches.drop_last()));
    }
}

/// In the record against opponents no opponent stands twice, and no row has
/// fewer matches than a row after it.
pub proof fn lemma_opponents_ranked(
    matches: Seq<MatchResult>,
    pilot: u128,
    rows: Seq<OpponentStats>,
    i: int,
    j: int,
)
    requires
        is_opponent_stats(matches, pilot, rows),
        matches.len() <= usize::MAX,
        0 <= i < j < rows.len(),
    ensures
        rows[i].opponent != rows[j].opponent,
        rows[i].tally.total >= rows[j].tally.total,
{
    let ids = opponent_ids(matches, pilot);
    let won = side_outcomes(matches, pilot);
    let sizes = group_sizes(ids);
    let order = stable_desc(sizes);
    lemma_stable_desc_exists(sizes);
    lemma_distinct_keys(ids);
    assert(comes_before(sizes, order[i], order[j]));
    lemma_counts_bounded(ids, won, distinct_keys(ids)[order[i]]);
    lemma_counts_bounded(ids, won, distinct_keys(ids)[order[j]]);
}

/// In the record by version no version stands twice, and each row holds a
/// higher version than the rows after it.
pub proof fn lemma_versions_descending(
    matches: Seq<MatchResult>,
    pilot: u128,
    rows: Seq<VersionStats>,
    i: int,
    j: int,
)
    requires
        is_version_stats(matches, pilot, rows),
        0 <= i < j < rows.len(),
    ensures
        rows[i].version > rows[j].version,
{
    let versions = own_versions(matches, pilot);
    let keys = version_keys(versions);
    let order = stable_desc(keys);
    lemma_stable_desc_exists(keys);
    lemma_distinct_keys(versions);
    assert(comes_before(keys, order[i], order[j]));
}

/// Of the latest matches none is later than one before it.
pub proof fn lemma_recent_latest_first(
    matches: Seq<MatchResult>,
    pilot: u128,
    limit: nat,
    rows: Seq<RecentMatch>,
    i: int,
    j: int,
)
    requires
        is_recent_matches(matches, pilot, limit, rows),
        0 <= i < j < rows.len(),
    ensures
        rows[i].created_at >= rows[j].created_at,
{
    let keys = created_keys(matches);
    let order = stable_desc(keys);
    lemma_stable_desc_exists(keys);
    assert(comes_before(keys, order[i], order[j]));
}

/// The overall tally of a pilot over `matches`: the total is the number of
/// matches, a win is a match the pilot won on either side, and every other
/// match is a loss.
pub fn overall_tally(pilot: u128, matches: &Vec<MatchResult>) -> (tally: Tally)
    ensures
        tally == overall_of(matches@, pilot),
        tally.wf(),
        tally.total == matches.len(),
{
    let n = matches.len();
    let mut wins: usize = 0;
    let mut i: usize = 0;
    while i < n
        invariant
            n == matches.len(),
            0 <= i <= n,
            wins == wins_for(matches@.take(i as int), pilot),
            wins <= i,
        decreases n - i,
    {
        proof {
            assert(matches@.take(i + 1).drop_last() =~= matches@.take(i as int));
        }
        if matches[i].won_by(pilot) {
            wins = wins + 1;
        }
        i = i + 1;
    }
    proof {
        assert(matches@.take(n as int) =~= matches@);
    }
    Tally { wins, losses: n - wins, total: n }
}

/// The opponent and the outcome of each match, as the pilot saw it.
fn opponent_samples(pilot: u128, matches: &Vec<MatchResult>) -> (r: (Vec<u128>, Vec<bool>))
    ensures
        r.0@ == opponent_ids(matches@, pilot),
        r.1@ == side_outcomes(matches@, pilot),
{
    let mut ids: Vec<u128> = Vec::new();
    let mut won: Vec<bool> = Vec::new();
    let mut i: usize = 0;
    while i < matches.len()
        invariant
            0 <= i <= matches.len(),
            ids@ == opponent_ids(matches@, pilot).take(i as int),
            won@ == side_outcomes(matches@, pilot).take(i as int),
        decreases matches.len() - i,
    {
        ids.push(matches[i].opponent_slot(pilot).aip_id);
        won.push(matches[i].side_won(pilot));
        i = i + 1;
    }
    (ids, won)
}

/// The pilot's version and the outcome of each match, as the pilot saw it.
fn version_samples(pilot: u128, matches: &Vec<MatchResult>) -> (r: (Vec<i32>, Vec<bool>))
    ensures
        r.0@ == own_versions(matches@, pilot),
        r.1@ == side_outcomes(matches@, pilot),
{
    let mut versions: Vec<i32> = Vec::new();
    let mut won: Vec<bool> = Vec::new();
    let mut i: usize = 0;
    while i < matches.len()
        invariant
            0 <= i <= matches.len(),
            versions@ == own_versions(matches@, pilot).take(i as int),
            won@ == side_outcomes(matches@, pilot).take(i as int),
        decreases matches.len() - i,
    {
        versions.push(matches[i].own_slot(pilot).version);
        won.push(matches[i].side_won(pilot));
        i = i + 1;
    }
    (versions, won)
}

/// The record of the pilot against each of its opponents, the opponent with
/// the most matches first.
pub fn opponent_stats(pilot: u128, matches: &Vec<MatchResult>) -> (rows: Vec<OpponentStats>)
    ensures
        is_opponent_stats(matches@, pilot, rows@),
{
    let (ids, won) = opponent_samples(pilot, matches);
    let groups = group_outcomes(&ids, &won);
    let ghost d = distinct_keys(ids@);
    assert(key_views(ids@) =~= ids@);
    let mut sizes: Vec<i128> = Vec::new();
    let mut g: usize = 0;
    while g < groups.len()
        invariant
            0 <= g <= groups.len(),
            d == distinct_keys(ids@),
            is_grouping(ids@, won@, groups@),
            sizes.len() == g,
            forall|h: int| 0 <= h < g ==> sizes[h] == count_total(ids@, d[h]),
        decreases groups.len() - g,
    {
        proof {
            lemma_counts_bounded(ids@, won@, d[g as int]);
            assert(ids@.len() == ids.len());
        }
        sizes.push(groups[g].tally.total as i128);
        g = g + 1;
    }
    assert(keys_of(sizes@) =~= group_sizes(ids@));
    let order = order_desc(&sizes);
    let ghost ranked = stable_desc(group_sizes(ids@));
    let mut rows: Vec<OpponentStats> = Vec::new();
    let mut i: usize = 0;
    while i < order.len()
        invariant
            0 <= i <= order.len(),
            order.len() == groups.len(),
            d == distinct_keys(ids@),
            is_grouping(ids@, won@, groups@),
            positions_of(order@) == ranked,
            forall|j: int| 0 <= j < order.len() ==> order[j] < groups.len(),
            rows.len() == i,
            forall|j: int|
                0 <= j < i ==> {
                    &&& (#[trigger] rows[j]).opponent == d[ranked[j]]
                    &&& rows[j].tally == tally_of(ids@, won@, rows[j].opponent)
                    &&& rows[j].tally.wf()
                },
        decreases order.len() - i,
    {
        let at = order[i];
        assert(positions_of(order@)[i as int] == at);
        let group = groups[at];
        rows.push(OpponentStats { opponent: ids[group.first], tally: group.tally });
        i = i + 1;
    }
    rows
}

/// The record of the pilot with each of its versions, the highest version
/// first, each with its trend against the next older one.
pub fn version_stats(pilot: u128, matches: &Vec<MatchResult>) -> (rows: Vec<VersionStats>)
    ensures
        is_version_stats(matches@, pilot, rows@),
{
    let (versions, won) = version_samples(pilot, matches);
    let groups = group_outcomes(&versions, &won);
    let ghost d = distinct_keys(versions@);
    assert(key_views(versions@) =~= versions@);
    let mut keys: Vec<i128> = Vec::new();
    let mut g: usize = 0;
    while g < groups.len()
        invariant
            0 <= g <= groups.len(),
            d == distinct_keys(versions@),
            is_grouping(versions@, won@, groups@),
            keys.len() == g,
            forall|h: int| 0 <= h < g ==> keys[h] == d[h],
        decreases groups.len() - g,
    {
        keys.push(versions[groups[g].first] as i128);
        g = g + 1;
    }
    assert(keys_of(keys@) =~= version_keys(versions@));
    let order = order_desc(&keys);
    let ghost ranked = stable_desc(version_keys(versions@));
    let n = order.len();
    let mut rows: Vec<VersionStats> = Vec::new();
    let mut i: usize = 0;
    while i < n
        invariant
            0 <= i <= n,
            n == order.len(),
            n == groups.len(),
            d == distinct_keys(versions@),
            is_grouping(versions@, won@, groups@),
            positions_of(order@) == ranked,
            forall|j: int| 0 <= j < n ==> order[j] < groups.len(),
            rows.len() == i,
            forall|j: int|
                0 <= j < i ==> {
                    &&& (#[trigger] rows[j]).version == d[ranked[j]]
                    &&& rows[j].tally == tally_of(versions@, won@, rows[j].version)
                    &&& rows[j].tally.wf()
                    &&& rows[j].trend == if j + 1 < n {
                        rows[j].tally.spec_trend_against(
                            tally_of(versions@, won@, d[ranked[j + 1]]),
                        )
                    } else {
                        Trend::Neutral
                    }
                },
        decreases n - i,
    {
        let at = order[i];
        assert(positions_of(order@)[i as int] == at);
        let group = groups[at];
        let trend = if i + 1 < n {
            let older_at = order[i + 1];
            assert(positions_of(order@)[i + 1] == older_at);
            let older = groups[older_at];
            group.tally.trend_against(&older.tally)
        } else {
            Trend::Neutral
        };
        rows.push(VersionStats { version: versions[group.first], tally: group.tally, trend });
        i = i + 1;
    }
    rows
}

/// When each match was created, as keys to put the matches in order by.
pub(crate) fn creation_keys(matches: &Vec<MatchResult>) -> (keys: Vec<i128>)
    ensures
        keys_of(keys@) == created_keys(matches@),
{
    let mut keys: Vec<i128> = Vec::new();
    let mut k: usize = 0;
    while k < matches.len()
        invariant
            0 <= k <= matches.len(),
            keys.len() == k,
            forall|h: int| 0 <= h < k ==> keys[h] == matches[h].created_at,
        decreases matches.len() - k,
    {
        keys.push(matches[k].created_at as i128);
        k = k + 1;
    }
    assert(keys_of(keys@) =~= created_keys(matches@));
    keys
}

/// The `limit` latest of `matches` as the pilot saw them, the latest first.
pub fn recent_matches(pilot: u128, matches: &Vec<MatchResult>, limit: usize) -> (rows: Vec<
    RecentMatch,
>)
    ensures
        is_recent_matches(matches@, pilot, limit as nat, rows@),
{
    let order = order_desc(&creation_keys(matches));
    let ghost ranked = stable_desc(created_keys(matches@));
    let shown = if limit < matches.len() {
        limit
    } else {
        matches.len()
    };
    let mut rows: Vec<RecentMatch> = Vec::new();
    let mut i: usize = 0;
    while i < shown
        invariant
            0 <= i <= shown <= matches.len(),
            order.len() == matches.len(),
            positions_of(order@) == ranked,
            forall|j: int| 0 <= j < order.len() ==> order[j] < matches.len(),
            rows.len() == i,
            forall|j: int| 0 <= j < i ==> #[trigger] rows[j] == recent_row(
                matches[ranked[j]], pilot),
        decreases shown - i,
    {
        let at = order[i];
        assert(positions_of(order@)[i as int] == at);
        let m = &matches[at];
        let own = m.own_slot(pilot);
        let other = m.opponent_slot(pilot);
        rows.push(
            RecentMatch {
                opponent: other.aip_id,
                opponent_version: other.version,
                own_version: own.version,
                won: m.side_won(pilot),
                created_at: m.created_at,
                is_manual: m.manual_run,
            },
        );
        i = i + 1;
    }
    rows
}

/// The matches that the pilot played with the given version, in the order of
/// `matches`.
pub open spec fn with_version(matches: Seq<MatchResult>, pilot: u128, version: i32) -> Seq<
    MatchResult,
>
    decreases matches.len(),
{
    if matches.len() == 0 {
        Seq::empty()
    } else {
        let earlier = with_version(matches.drop_last(), pilot, version);
        if played_with(matches.last(), pilot, version) {
            earlier.push(matches.last())
        } else {
            earlier
        }
    }
}

/// The pilot played the match with the given version, on either side.
pub open spec fn played_with(m: MatchResult, pilot: u128, version: i32) -> bool {
    (m.team_a.aip_id == pilot && m.team_a.version == version) || (m.team_b.aip_id == pilot
        && m.team_b.version == version)
}

/// Keeps the matches that the pilot played with the given version.
pub fn matches_with_version(pilot: u128, version: i32, matches: &Vec<MatchResult>) -> (kept: Vec<
    MatchResult,
>)
    ensures
        kept@ == with_version(matches@, pilot, version),
{
    let mut kept: Vec<MatchResult> = Vec::new();
    let mut i: usize = 0;
    while i < matches.len()
        invariant
            0 <= i <= matches.len(),
            kept@ == with_version(matches@.take(i as int), pilot, version),
        decreases matches.len() - i,
    {
        proof {
            assert(matches@.take(i + 1).drop_last() =~= matches@.take(i as int));
        }
        let m = matches[i];
        if (m.team_a.aip_id == pilot && m.team_a.version == version) || (m.team_b.aip_id
            == pilot && m.team_b.version == version) {
            kept.push(m);
        }
        i = i + 1;
    }
    proof {
        assert(matches@.take(matches.len() as int) =~= matches@);
    }
    kept
}

/// Everything the page of one pilot shows in numbers, from the matches that
/// the pilot played.
pub fn pilot_rollup(pilot: u128, matches: &Vec<MatchResult>) -> (rollup: PilotRollup)
    ensures
        rollup.overall == overall_of(matches@, pilot),
        rollup.overall.wf(),
        is_opponent_stats(matches@, pilot, rollup.opponents@),
        is_version_stats(matches@, pilot, rollup.versions@),
        is_recent_matches(matches@, pilot, RECENT_PILOT_MATCHES as nat, rollup.recent@),
{
    PilotRollup {
        overall: overall_tally(pilot, matches),
        opponents: opponent_stats(pilot, matches),
        versions: version_stats(pilot, matches),
        recent: recent_matches(pilot, matches, RECENT_PILOT_MATCHES),
    }
}

/// What the page of one version of a pilot shows in numbers: the rollup of
/// the matches that the pilot played with that version, without the split by
/// version.
pub fn version_rollup(pilot: u128, version: i32, matches: &Vec<MatchResult>) -> (rollup:
    PilotRollup)
    ensures
        rollup.overall == overall_of(with_version(matches@, pilot, version), pilot),
        rollup.overall.wf(),
        is_opponent_stats(with_version(matches@, pilot, version), pilot, rollup.opponents@),
        rollup.versions@.len() == 0,
        is_recent_matches(
            with_version(matches@, pilot, version),
            pilot,
            RECENT_PILOT_MATCHES as nat,
            rollup.recent@,
        ),
{
    let kept = matches_with_version(pilot, version, matches);
    PilotRollup {
        overall: overall_tally(pilot, &kept),
        opponents: opponent_stats(pilot, &kept),
        versions: Vec::new(),
        recent: recent_matches(pilot, &kept, RECENT_PILOT_MATCHES),
    }
}

} // verus!
