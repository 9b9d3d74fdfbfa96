//! The statistics of one user: the tally of each of the user's pilots, the
//! tally over all of them, and the latest matches that any of them played.

use vstd::prelude::*;
use vstd::string::*;

use crate::api_error::ApiErrors;
use crate::competition::{AiPilot, MatchResult};
use crate::sorting::{keys_of, order_desc, positions_of, stable_desc};
use crate::stats::{
    created_keys,
    creation_keys,
    overall_of,
    overall_tally,
    recent_row,
    RecentMatch,
};
use crate::tally::Tally;

verus! {

/// The tally of one of the user's pilots; `pilot` is its place in the list of
/// the user's pilots.
#[derive(Clone, Copy, Debug)]
pub struct PilotSummary {
    pub pilot: usize,
    pub tally: Tally,
}

/// One match as one of the user's pilots saw it; `pilot` is the place of that
/// pilot in the list of the user's pilots.
#[derive(Clone, Copy, Debug)]
pub struct UserRecentMatch {
    pub pilot: usize,
    pub row: RecentMatch,
}

/// Everything the page of one user shows in numbers.
#[derive(Debug)]
pub struct UserRollup {
    pub pilot_count: usize,
    pub overall: Tally,
    pub pilots: Vec<PilotSummary>,
    pub recent: Vec<UserRecentMatch>,
}

/// How many of the latest matches the page of a user lists.
pub const RECENT_USER_MATCHES: usize = 20;

/// The identifier of each pilot.
pub open spec fn ids_of(pilots: Seq<AiPilot>) -> Seq<u128> {
    Seq::new(pilots.len(), |i: int| pilots[i].id)
}

/// The pilots that `owner` owns, in the order of `pilots`.
pub open spec fn owned_by(pilots: Seq<AiPilot>, owner: Seq<char>) -> Seq<AiPilot>
    decreases pilots.len(),
{
    if pilots.len() == 0 {
        Seq::empty()
    } else {
        let earlier = owned_by(pilots.drop_last(), owner);
        if pilots.last().owner_id@ == owner {
            earlier.push(pilots.last())
        } else {
            earlier
        }
    }
}

/// The lists of matches, one after the other.
pub open spec fn joined(lists: Seq<Vec<MatchResult>>) -> Seq<MatchResult>
    decreases lists.len(),
{
    if lists.len() == 0 {
        Seq::empty()
    } else {
        joined(lists.drop_last()) + lists.last()@
    }
}

/// One of the pilots played in the match.
pub open spec fn involves_any(m: MatchResult, ids: Seq<u128>) -> bool {
    exists|i: int| 0 <= i < ids.len() && m.spec_involves(#[trigger] ids[i])
}

/// One of the pilots won the match.
pub open spec fn won_by_any(m: MatchResult, ids: Seq<u128>) -> bool {
    exists|i: int| 0 <= i < ids.len() && m.spec_won_by(#[trigger] ids[i])
}

/// How many of `matches` one of the pilots won.
pub open spec fn wins_for_any(matches: Seq<MatchResult>, ids: Seq<u128>) -> nat
    decreases matches.len(),
{
    if matches.len() == 0 {
        0
    } else {
        wins_for_any(matches.drop_last(), ids) + if won_by_any(matches.last(), ids) {
            1nat
        } else {
            0nat
        }
    }
}

/// `at` is the place of the first of the pilots that played in the match.
pub open spec fn is_first_involved(m: MatchResult, ids: Seq<u128>, at: int) -> bool {
    &&& 0 <= at < ids.len()
    &&& m.spec_involves(ids[at])
    &&& forall|j: int| 0 <= j < at ==> !m.spec_involves(#[trigger] ids[j])
}

/// How many matches each pilot played.
pub open spec fn list_sizes(lists: Seq<Vec<MatchResult>>) -> Seq<int> {
    Seq::new(lists.len(), |i: int| lists[i]@.len() as int)
}

/// `rows` holds one row for each pilot with the tally of its own matches, the
/// pilot with the most matches first; of two with equally many, the one that
/// comes first in `pilots`.
pub open spec fn is_pilot_summaries(
    pilots: Seq<AiPilot>,
    matches: Seq<Vec<MatchResult>>,
    rows: Seq<PilotSummary>,
) -> bool {
    let order = stable_desc(list_sizes(matches));
    &&& rows.len() == pilots.len()
    &&& forall|i: int|
        0 <= i < rows.len() ==> {
            &&& (#[trigger] rows[i]).pilot == order[i]
            &&& 0 <= rows[i].pilot < pilots.len()
            &&& rows[i].tally == overall_of(
                matches[rows[i].pilot as int]@,
                pilots[rows[i].pilot as int].id,
            )
            &&& rows[i].tally.wf()
        }
}

/// `rows` holds the `limit` latest of `matches`, or all of them where there
/// are fewer, the latest first, each as the first of the pilots that played in
/// it saw it.
pub open spec fn is_user_recent(
    ids: Seq<u128>,
    matches: Seq<MatchResult>,
    limit: nat,
    rows: Seq<UserRecentMatch>,
) -> bool {
    let order = stable_desc(created_keys(matches));
    &&& rows.len() == if limit < matches.len() {
        limit
    } else {
        matches.len()
    }
    &&& forall|i: int|
        0 <= i < rows.len() ==> {
            &&& is_first_involved(matches[order[i]], ids, (#[trigger] rows[i]).pilot as int)
            &&& rows[i].row == recent_row(matches[order[i]], ids[rows[i].pilot as int])
        }
}

/// The pilots that `owner_id` owns, in the order of `pilots`; a 404 where
/// there is none.
pub fn pilots_of_owner(pilots: &Vec<AiPilot>, owner_id: &str) -> (found: Result<
    Vec<AiPilot>,
    ApiErrors,
>)
    ensures
        owned_by(pilots@, owner_id@).len() > 0 ==> (found matches Ok(own) && own@ == owned_by(
            pilots@,
            owner_id@,
        )),
        owned_by(pilots@, owner_id@).len() == 0 ==> (found matches Err(ApiErrors::NotFound(msg))
            && msg@ == "User not found or has no pilots"@),
{
    let owner = String::from_str(owner_id);
    let mut own: Vec<AiPilot> = Vec::new();
    let mut i: usize = 0;
    while i < pilots.len()
        invariant
            0 <= i <= pilots.len(),
            owner@ == owner_id@,
            own@ == owned_by(pilots@.take(i as int), owner_id@),
        decreases pilots.len() - i,
    {
        proof {
            assert(pilots@.take(i + 1).drop_last() =~= pilots@.take(i as int));
        }
        if pilots[i].owner_id == owner {
            own.push(pilots[i].clone());
        }
        i = i + 1;
    }
    proof {
        assert(pilots@.take(pilots.len() as int) =~= pilots@);
    }
    if own.len() == 0 {
        Err(ApiErrors::not_found("User not found or has no pilots"))
    } else {
        Ok(own)
    }
}

/// The lists of matches as one list, one after the other.
pub fn join_matches(lists: &Vec<Vec<MatchResult>>) -> (all: Vec<MatchResult>)
    ensures
        all@ == joined(lists@),
{
    let mut all: Vec<MatchResult> = Vec::new();
    let mut i: usize = 0;
    while i < lists.len()
        invariant
            0 <= i <= lists.len(),
            all@ == joined(lists@.take(i as int)),
        decreases lists.len() - i,
    {
        let list = &lists[i];
        let ghost before = all@;
        let mut j: usize = 0;
        while j < list.len()
            invariant
                0 <= j <= list.len(),
                all@ == before + list@.take(j as int),
            decreases list.len() - j,
        {
            all.push(list[j]);
            proof {
                assert(list@.take(j + 1) =~= list@.take(j as int).push(list@[j as int]));
            }
            j = j + 1;
        }
        proof {
            assert(list@.take(list.len() as int) =~= list@);
            assert(lists@.take(i + 1).drop_last() =~= lists@.take(i as int));
        }
        i = i + 1;
    }
    proof {
        assert(lists@.take(lists.len() as int) =~= lists@);
    }
    all
}

/// The place of the first of `pilots` that played in the match, if any did.
pub fn first_involved(m: &MatchResult, pilots: &Vec<AiPilot>) -> (found: Option<usize>)
    ensures
        match found {
            Some(at) => is_first_involved(*m, ids_of(pilots@), at as int),
            None => !involves_any(*m, ids_of(pilots@)),
        },
{
    let mut i: usize = 0;
    while i < pilots.len()
        invariant
            0 <= i <= pilots.len(),
            forall|j: int| 0 <= j < i ==> !m.spec_involves(#[trigger] ids_of(pilots@)[j]),
        decreases pilots.len() - i,
    {
        if m.involves(pilots[i].id) {
            return Some(i);
        }
        i = i + 1;
    }
    None
}

/// The place of the first of `pilots` that played in a match that one of
/// them played in.
fn involved_place(m: &MatchResult, pilots: &Vec<AiPilot>) -> (at: usize)
    requires
        involves_any(*m, ids_of(pilots@)),
    ensures
        is_first_involved(*m, ids_of(pilots@), at as int),
{
    match first_involved(m, pilots) {
        Some(at) => at,
        None => 0,
    }
}

/// Whether one of `pilots` won the match.
pub fn won_by_one_of(m: &MatchResult, pilots: &Vec<AiPilot>) -> (won: bool)
    ensures
        won == won_by_any(*m, ids_of(pilots@)),
{
    let mut i: usize = 0;
    while i < pilots.len()
        invariant
            0 <= i <= pilots.len(),
            forall|j: int| 0 <= j < i ==> !m.spec_won_by(#[trigger] ids_of(pilots@)[j]),
        decreases pilots.len() - i,
    {
        if m.won_by(pilots[i].id) {
            assert(m.spec_won_by(ids_of(pilots@)[i as int]));
            return true;
        }
        i = i + 1;
    }
    false
}

/// Whether each of `matches` has one of `pilots` on one of its sides.
pub fn all_involve(pilots: &Vec<AiPilot>, matches: &Vec<MatchResult>) -> (all: bool)
    ensures
        all == forall|k: int|
            0 <= k < matches.len() ==> involves_any(#[trigger] matches[k], ids_of(pilots@)),
{
    let mut k: usize = 0;
    while k < matches.len()
        invariant
            0 <= k <= matches.len(),
            forall|h: int| 0 <= h < k ==> involves_any(#[trigger] matches[h], ids_of(pilots@)),
        decreases matches.len() - k,
    {
        match first_involved(&matches[k], pilots) {
            Some(at) => {
                assert(matches[k as int].spec_involves(ids_of(pilots@)[at as int]));
            },
            None => {
                return false;
            },
        }
        k = k + 1;
    }
    true
}

/// The tally over all the user's matches: a win is a match that one of the
/// user's pilots won, every other match is a loss.
pub fn joint_tally(pilots: &Vec<AiPilot>, matches: &Vec<MatchResult>) -> (tally: Tally)
    ensures
        tally.wf(),
        tally.total == matches.len(),
        tally.wins == wins_for_any(matches@, ids_of(pilots@)),
{
    let n = matches.len();
    let mut wins: usize = 0;
    let mut i: usize = 0;
    while i < n
        invariant
            n == matches.len(),
            0 <= i <= n,
            wins == wins_for_any(matches@.take(i as int), ids_of(pilots@)),
            wins <= i,
        decreases n - i,
    {
        proof {
            assert(matches@.take(i + 1).drop_last() =~= matches@.take(i as int));
        }
        if won_by_one_of(&matches[i], pilots) {
            wins = wins + 1;
        }
        i = i + 1;
    }
    proof {
        assert(matches@.take(n as int) =~= matches@);
    }
    Tally { wins, losses: n - wins, total: n }
}

/// The tally of each pilot over its own matches, the pilot with the most
/// matches first.
pub fn pilot_summaries(pilots: &Vec<AiPilot>, matches: &Vec<Vec<MatchResult>>) -> (rows: Vec<
    PilotSummary,
>)
    requires
        pilots.len() == matches.len(),
    ensures
        is_pilot_summaries(pilots@, matches@, rows@),
{
    let n = pilots.len();
    let mut sizes: Vec<i128> = Vec::new();
    let mut k: usize = 0;
    while k < n
        invariant
            n == pilots.len(),
            n == matches.len(),
            0 <= k <= n,
            sizes.len() == k,
            forall|h: int| 0 <= h < k ==> sizes[h] == matches[h]@.len(),
        decreases n - k,
    {
        sizes.push(matches[k].len() as i128);
        k = k + 1;
    }
    assert(keys_of(sizes@) =~= list_sizes(matches@));
    let order = order_desc(&sizes);
    let ghost ranked = stable_desc(list_sizes(matches@));
    let mut rows: Vec<PilotSummary> = Vec::new();
    let mut i: usize = 0;
    while i < n
        invariant
            n == pilots.len(),
            n == matches.len(),
            n == order.len(),
            0 <= i <= n,
            positions_of(order@) == ranked,
            forall|j: int| 0 <= j < order.len() ==> order[j] < n,
            rows.len() == i,
            forall|j: int|
                0 <= j < i ==> {
                    &&& (#[trigger] rows[j]).pilot == ranked[j]
                    &&& 0 <= rows[j].pilot < n
                    &&& rows[j].tally == overall_of(
                        matches[rows[j].pilot as int]@,
                        pilots[rows[j].pilot as int].id,
                    )
                    &&& rows[j].tally.wf()
                },
        decreases n - i,
    {
        let at = order[i];
        assert(positions_of(order@)[i as int] == at);
        rows.push(PilotSummary { pilot: at, tally: overall_tally(pilots[at].id, &matches[at]) });
        i = i + 1;
    }
    rows
}

/// The `limit` latest of `matches`, the latest first, each as the first of
/// `pilots` that played in it saw it.
pub fn user_recent_matches(pilots: &Vec<AiPilot>, matches: &Vec<MatchResult>, limit: usize) -> (rows:
    Vec<UserRecentMatch>)
    requires
        forall|k: int|
            0 <= k < matches.len() ==> involves_any(#[trigger] matches[k], ids_of(pilots@)),
    ensures
        is_user_recent(ids_of(pilots@), matches@, limit as nat, rows@),
{
    let order = order_desc(&creation_keys(matches));
    let ghost ranked = stable_desc(created_keys(matches@));
    let ghost ids = ids_of(pilots@);
    let shown = if limit < matches.len() {
        limit
    } else {
        matches.len()
    };
    let mut rows: Vec<UserRecentMatch> = Vec::new();
    let mut i: usize = 0;
    while i < shown
        invariant
            0 <= i <= shown <= matches.len(),
            ids == ids_of(pilots@),
            order.len() == matches.len(),
            positions_of(order@) == ranked,
            forall|j: int| 0 <= j < order.len() ==> order[j] < matches.len(),
            forall|k: int| 0 <= k < matches.len() ==> involves_any(#[trigger] matches[k], ids),
            rows.len() == i,
            forall|j: int|
                0 <= j < i ==> {
                    &&& is_first_involved(matches[ranked[j]], ids, (#[trigger] rows[j]).pilot as int)
                    &&& rows[j].row == recent_row(matches[ranked[j]], ids[rows[j].pilot as int])
                },
        decreases shown - i,
    {
        let at = order[i];
        assert(positions_of(order@)[i as int] == at);
        let m = &matches[at];
        assert(involves_any(matches[at as int], ids));
        let pilot = involved_place(m, pilots);
        let id = pilots[pilot].id;
        let own = m.own_slot(id);
        let other = m.opponent_slot(id);
        rows.push(
            UserRecentMatch {
                pilot,
                row: RecentMatch {
                    opponent: other.aip_id,
                    opponent_version: other.version,
                    own_version: own.version,
                    won: m.side_won(id),
                    created_at: m.created_at,
                    is_manual: m.manual_run,
                },
            },
        );
        i = i + 1;
    }
    rows
}

/// Everything the page of one user shows in numbers. `matches[i]` holds the
/// matches of `pilots[i]`; the overall tally and the latest matches go over
/// all the lists, one after the other.
pub fn user_rollup(pilots: &Vec<AiPilot>, matches: &Vec<Vec<MatchResult>>) -> (rollup: UserRollup)
    requires
        pilots.len() == matches.len(),
        forall|k: int|
            0 <= k < joined(matches@).len() ==> involves_any(
                #[trigger] joined(matches@)[k],
                ids_of(pilots@),
            ),
    ensures
        rollup.pilot_count == pilots.len(),
        rollup.overall.wf(),
        rollup.overall.total == joined(matches@).len(),
        rollup.overall.wins == wins_for_any(joined(matches@), ids_of(pilots@)),
        is_pilot_summaries(pilots@, matches@, rollup.pilots@),
        is_user_recent(
            ids_of(pilots@),
            joined(matches@),
            RECENT_USER_MATCHES as nat,
            rollup.recent@,
        ),
{
    let all = join_matches(matches);
    UserRollup {
        pilot_count: pilots.len(),
        overall: joint_tally(pilots, &all),
        pilots: pilot_summaries(pilots, matches),
        recent: user_recent_matches(pilots, &all, RECENT_USER_MATCHES),
    }
}

/// The rollup of a user where there is one list of matches for each pilot
/// and each match has one of the pilots on one of its sides, and nothing
/// otherwise.
pub fn try_user_rollup(pilots: &Vec<AiPilot>, matches: &Vec<Vec<MatchResult>>) -> (rollup: Option<
    UserRollup,
>)
    ensures
        rollup is Some <==> (pilots.len() == matches.len() && forall|k: int|
            0 <= k < joined(matches@).len() ==> involves_any(
                #[trigger] joined(matches@)[k],
                ids_of(pilots@),
            )),
        rollup matches Some(r) ==> {
            &&& r.pilot_count == pilots.len()
            &&& r.overall.wf()
            &&& r.overall.total == joined(matches@).len()
            &&& r.overall.wins == wins_for_any(joined(matches@), ids_of(pilots@))
            &&& is_pilot_summaries(pilots@, matches@, r.pilots@)
            &&& is_user_recent(
                ids_of(pilots@),
                joined(matches@),
                RECENT_USER_MATCHES as nat,
                r.recent@,
            )
        },
{
    if pilots.len() != matches.len() {
        return None;
    }
    let all = join_matches(matches);
    if !all_involve(pilots, &all) {
        return None;
    }
    Some(
        UserRollup {
            pilot_count: pilots.len(),
            overall: joint_tally(pilots, &all),
            pilots: pilot_summaries(pilots, matches),
            recent: user_recent_matches(pilots, &all, RECENT_USER_MATCHES),
        },
    )
}

} // verus!
