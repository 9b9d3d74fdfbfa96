//! The front page: the pilots with the viewer's own first, the matches with
//! the latest first, and the names shown beside them.

use vstd::prelude::*;
use vstd::string::*;

use crate::api_client::ApiClient;
use crate::competition::{AiPilot, MatchResult, Winner};
use crate::outside::uuid_text;
use crate::sorting::{
    comes_before,
    keys_of,
    lemma_stable_desc_exists,
    order_desc,
    positions_of,
    stable_desc,
};
use crate::sso_client::DiscordUserInfo;
use crate::stats::{created_keys, creation_keys};
use crate::util::discord_avatar_url;

verus! {

/// One pilot on the front page: its place in the list of pilots, and whether
/// it is the viewer's own.
#[derive(Clone, Copy, Debug, PartialEq, Eq, Structural)]
pub struct PilotCard {
    pub pilot: usize,
    pub is_own: bool,
}

/// The pilot belongs to the viewer; to nobody where nobody is logged in.
pub open spec fn is_own(pilot: AiPilot, viewer: Option<Seq<char>>) -> bool {
    match viewer {
        Some(id) => pilot.owner_id@ == id,
        None => false,
    }
}

/// 1 for each pilot of the viewer, 0 for each other.
pub open spec fn own_keys(pilots: Seq<AiPilot>, viewer: Option<Seq<char>>) -> Seq<int> {
    Seq::new(
        pilots.len(),
        |i: int|
            if is_own(pilots[i], viewer) {
                1int
            } else {
                0int
            },
    )
}

/// `cards` holds every pilot once, the viewer's own first, each part in the
/// order of `pilots`.
pub open spec fn is_home_pilots(
    pilots: Seq<AiPilot>,
    viewer: Option<Seq<char>>,
    cards: Seq<PilotCard>,
) -> bool {
    let order = stable_desc(own_keys(pilots, viewer));
    &&& cards.len() == pilots.len()
    &&& forall|i: int|
        0 <= i < cards.len() ==> {
            &&& (#[trigger] cards[i]).pilot == order[i]
            &&& 0 <= cards[i].pilot < pilots.len()
            &&& cards[i].is_own == is_own(pilots[cards[i].pilot as int], viewer)
        }
}

/// The name shown for the owner of a pilot: the username of the profile, and
/// the identifier of the owner where there is no profile.
pub open spec fn username_or_id(info: Option<DiscordUserInfo>, owner_id: Seq<char>) -> Seq<char> {
    match info {
        Some(profile) => profile.username@,
        None => owner_id,
    }
}

/// On the front page no pilot of another stands before one of the viewer's
/// own.
pub proof fn lemma_own_pilots_first(
    pilots: Seq<AiPilot>,
    viewer: Option<Seq<char>>,
    cards: Seq<PilotCard>,
    i: int,
    j: int,
)
    requires
        is_home_pilots(pilots, viewer, cards),
        0 <= i < j < cards.len(),
    ensures
        cards[j].is_own ==> cards[i].is_own,
        cards[i].pilot != cards[j].pilot,
        cards[i].is_own == cards[j].is_own ==> cards[i].pilot < cards[j].pilot,
{
    let keys = own_keys(pilots, viewer);
    let order = stable_desc(keys);
    lemma_stable_desc_exists(keys);
    assert(comes_before(keys, order[i], order[j]));
}

/// The pilots of the front page, the viewer's own first. `viewer` is the
/// identity of the user who is logged in, if one is.
pub fn home_pilots(pilots: &Vec<AiPilot>, viewer: Option<&str>) -> (cards: Vec<PilotCard>)
    ensures
        is_home_pilots(
            pilots@,
            match viewer {
                Some(id) => Some(id@),
                None => None,
            },
            cards@,
        ),
{
    let ghost who: Option<Seq<char>> = match viewer {
        Some(id) => Some(id@),
        None => None,
    };
    let me: Option<String> = match viewer {
        Some(id) => Some(String::from_str(id)),
        None => None,
    };
    let n = pilots.len();
    let mut keys: Vec<i128> = Vec::new();
    let mut own: Vec<bool> = Vec::new();
    let mut k: usize = 0;
    while k < n
        invariant
            n == pilots.len(),
            0 <= k <= n,
            keys.len() == k,
            own.len() == k,
            match me {
                Some(id) => who == Some(id@),
                None => who is None,
            },
            forall|h: int| 0 <= h < k ==> (#[trigger] own[h]) == is_own(pilots[h], who),
            forall|h: int| 0 <= h < k ==> (#[trigger] keys[h]) == own_keys(pilots@, who)[h],
        decreases n - k,
    {
        let mine = match &me {
            Some(id) => pilots[k].owner_id == *id,
            None => false,
        };
        own.push(mine);
        keys.push(
            if mine {
                1
            } else {
                0
            },
        );
        k = k + 1;
    }
    assert(keys_of(keys@) =~= own_keys(pilots@, who));
    let order = order_desc(&keys);
    let ghost ranked = stable_desc(own_keys(pilots@, who));
    let mut cards: Vec<PilotCard> = Vec::new();
    let mut i: usize = 0;
    while i < n
        invariant
            n == pilots.len(),
            n == order.len(),
            n == own.len(),
            0 <= i <= n,
            positions_of(order@) == ranked,
            forall|j: int| 0 <= j < n ==> order[j] < n,
            forall|h: int| 0 <= h < n ==> (#[trigger] own[h]) == is_own(pilots[h], who),
            cards.len() == i,
            forall|j: int|
                0 <= j < i ==> {
                    &&& (#[trigger] cards[j]).pilot == ranked[j]
                    &&& 0 <= cards[j].pilot < n
                    &&& cards[j].is_own == is_own(pilots[cards[j].pilot as int], who)
                },
        decreases n - i,
    {
        let at = order[i];
        assert(positions_of(order@)[i as int] == at);
        cards.push(PilotCard { pilot: at, is_own: own[at] });
        i = i + 1;
    }
    cards
}

/// Whether the pilot belongs to the viewer. `viewer` is the identity of the
/// user who is logged in, if one is.
pub fn owns(viewer: Option<&str>, pilot: &AiPilot) -> (own: bool)
    ensures
        own == is_own(
            *pilot,
            match viewer {
                Some(id) => Some(id@),
                None => None,
            },
        ),
{
    match viewer {
        Some(id) => pilot.owner_id == String::from_str(id),
        None => false,
    }
}

/// The matches of the front page: all of `matches`, the latest first; of two
/// created at the same time the one that comes first in `matches`.
pub fn home_matches(matches: &Vec<MatchResult>) -> (sorted: Vec<MatchResult>)
    ensures
        sorted.len() == matches.len(),
        forall|i: int|
            0 <= i < sorted.len() ==> #[trigger] sorted[i] == matches[stable_desc(
                created_keys(matches@),
            )[i]],
{
    let n = matches.len();
    let order = order_desc(&creation_keys(matches));
    let ghost ranked = stable_desc(created_keys(matches@));
    let mut sorted: Vec<MatchResult> = Vec::new();
    let mut i: usize = 0;
    while i < n
        invariant
            n == matches.len(),
            n == order.len(),
            0 <= i <= n,
            positions_of(order@) == ranked,
            forall|j: int| 0 <= j < n ==> order[j] < n,
            sorted.len() == i,
            forall|j: int| 0 <= j < i ==> #[trigger] sorted[j] == matches[ranked[j]],
        decreases n - i,
    {
        let at = order[i];
        assert(positions_of(order@)[i as int] == at);
        sorted.push(matches[at]);
        i = i + 1;
    }
    sorted
}

/// The name shown for the owner of a pilot.
pub fn display_username(info: &Option<DiscordUserInfo>, owner_id: &str) -> (name: String)
    ensures
        name@ == username_or_id(*info, owner_id@),
{
    match info {
        Some(profile) => profile.username.clone(),
        None => String::from_str(owner_id),
    }
}

/// The name shown for the creator of a pilot on the front page: "You" for
/// the viewer, else the name shown for the owner.
pub fn creator_label(is_own: bool, info: &Option<DiscordUserInfo>, owner_id: &str) -> (name:
    String)
    ensures
        name@ == if is_own {
            "You"@
        } else {
            username_or_id(*info, owner_id@)
        },
{
    if is_own {
        String::from_str("You")
    } else {
        display_username(info, owner_id)
    }
}

/// Where the avatar of the owner is served, where there is a profile.
pub fn avatar_of(info: &Option<DiscordUserInfo>, owner_id: &str) -> (url: Option<String>)
    ensures
        match *info {
            Some(profile) => url matches Some(u) && u@
                == "https://cdn.discordapp.com/avatars/"@ + owner_id@ + "/"@ + profile.avatar@
                + ".png"@,
            None => url is None,
        },
{
    match info {
        Some(profile) => Some(discord_avatar_url(owner_id, profile.avatar.as_str())),
        None => None,
    }
}

/// The name shown for the winner of a match: the name of the winning side,
/// and "Unknown" where no side is declared.
pub fn winner_label(winner: Winner, team_a_name: &str, team_b_name: &str) -> (name: String)
    ensures
        name@ == match winner {
            Winner::TeamA => team_a_name@,
            Winner::TeamB => team_b_name@,
            Winner::Unknown => "Unknown"@,
        },
{
    match winner {
        Winner::TeamA => String::from_str(team_a_name),
        Winner::TeamB => String::from_str(team_b_name),
        Winner::Unknown => String::from_str("Unknown"),
    }
}

/// Where the replay of a match can be had, where it has one.
pub fn download_url(client: &ApiClient, replay_id: Option<u128>) -> (url: Option<String>)
    ensures
        match replay_id {
            Some(id) => url matches Some(u) && u@ == client.spec_base_url()
                + "/replay?replayId="@ + uuid_text(id),
            None => url is None,
        },
{
    match replay_id {
        Some(id) => Some(client.replay_url(id)),
        None => None,
    }
}

/// The names of the pilots that `owner` owns, or with `own` false of those
/// that `owner` does not own, in the order of `pilots`.
pub open spec fn names_of(pilots: Seq<AiPilot>, owner: Seq<char>, own: bool) -> Seq<Seq<char>>
    decreases pilots.len(),
{
    if pilots.len() == 0 {
        Seq::empty()
    } else {
        let earlier = names_of(pilots.drop_last(), owner, own);
        if (pilots.last().owner_id@ == owner) == own {
            earlier.push(pilots.last().name@)
        } else {
            earlier
        }
    }
}

/// The names as what they spell.
pub open spec fn name_views(names: Seq<String>) -> Seq<Seq<char>> {
    Seq::new(names.len(), |i: int| names[i]@)
}

/// The names of the pilots in two lists: those that `owner_id` owns, and the
/// others, each in the order of `pilots`.
pub fn partition_names(pilots: &Vec<AiPilot>, owner_id: &str) -> (names: (Vec<String>, Vec<String>))
    ensures
        name_views(names.0@) == names_of(pilots@, owner_id@, true),
        name_views(names.1@) == names_of(pilots@, owner_id@, false),
{
    let owner = String::from_str(owner_id);
    let mut mine: Vec<String> = Vec::new();
    let mut others: Vec<String> = Vec::new();
    let mut i: usize = 0;
    while i < pilots.len()
        invariant
            0 <= i <= pilots.len(),
            owner@ == owner_id@,
            name_views(mine@) == names_of(pilots@.take(i as int), owner_id@, true),
            name_views(others@) == names_of(pilots@.take(i as int), owner_id@, false),
        decreases pilots.len() - i,
    {
        proof {
            assert(pilots@.take(i + 1).drop_last() =~= pilots@.take(i as int));
        }
        let ghost mine_before = mine@;
        let ghost others_before = others@;
        if pilots[i].owner_id == owner {
            mine.push(pilots[i].name.clone());
            assert(name_views(mine@) =~= name_views(mine_before).push(pilots[i as int].name@));
        } else {
            others.push(pilots[i].name.clone());
            assert(name_views(others@) =~= name_views(others_before).push(
                pilots[i as int].name@,
            ));
        }
        i = i + 1;
    }
    proof {
        assert(pilots@.take(pilots.len() as int) =~= pilots@);
    }
    (mine, others)
}

} // verus!
