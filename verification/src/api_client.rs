//! The cache of pilot names in front of the competition service, and what is
//! made of the answers of that service.

use moka::sync::Cache;
use vstd::prelude::*;
use vstd::string::*;

use crate::competition::{AiPilot, MatchResult};
use crate::read_through::{after_lookup, Lookup};
use crate::outside::{
    digit_at,
    hex_char,
    hex_digit,
    name_cache_get,
    name_cache_insert,
    names_limit,
    names_written,
    new_name_cache,
    uuid_string,
    uuid_text,
};

verus! {

/// How many pilot names the cache is made to hold.
pub const PILOT_NAME_CACHE_CAPACITY: u64 = 2048;

/// The name that the list of pilots holds for `key`: that of the last pilot
/// whose identifier prints as `key`, if there is one.
pub open spec fn listed_name(pilots: Seq<AiPilot>, key: Seq<char>) -> Option<Seq<char>>
    decreases pilots.len(),
{
    if pilots.len() == 0 {
        None
    } else if uuid_text(pilots.last().id) == key {
        Some(pilots.last().name@)
    } else {
        listed_name(pilots.drop_last(), key)
    }
}

/// The written names after each pilot of the list was written in turn, the
/// name under the printed identifier.
pub open spec fn warmed(entries: Map<Seq<char>, Seq<char>>, pilots: Seq<AiPilot>) -> Map<
    Seq<char>,
    Seq<char>,
>
    decreases pilots.len(),
{
    if pilots.len() == 0 {
        entries
    } else {
        warmed(entries, pilots.drop_last()).insert(
            uuid_text(pilots.last().id),
            pilots.last().name@,
        )
    }
}

/// The pilots that the competition service answered with: none where it
/// failed.
pub open spec fn rows_of(fetched: Option<Vec<AiPilot>>) -> Seq<AiPilot> {
    match fetched {
        Some(list) => list@,
        None => Seq::empty(),
    }
}

/// The last pilot of the rows, if there is one.
pub open spec fn last_of(rows: Seq<AiPilot>) -> Option<AiPilot> {
    if rows.len() > 0 {
        Some(rows.last())
    } else {
        None
    }
}

/// The name that `cached` holds, and the printed identifier where it holds
/// none.
pub open spec fn name_or_id(cached: Option<Seq<char>>, id: u128) -> Seq<char> {
    match cached {
        Some(name) => name,
        None => uuid_text(id),
    }
}

/// Two identifiers that print alike have the same digit at each place.
proof fn lemma_same_digit(a: u128, b: u128, at: int, shift: u128)
    requires
        uuid_text(a) == uuid_text(b),
        0 <= at < 36,
        at != 8 && at != 13 && at != 18 && at != 23,
        shift == (31 - digit_at(at)) * 4,
    ensures
        (a >> shift) & 0xf == (b >> shift) & 0xf,
{
    assert(((a >> shift) & 0xf) < 16) by (bit_vector);
    assert(((b >> shift) & 0xf) < 16) by (bit_vector);
    assert(uuid_text(a)[at] == hex_char(hex_digit(a, shift)));
    assert(uuid_text(b)[at] == hex_char(hex_digit(b, shift)));
}

/// No two identifiers print alike.
pub proof fn lemma_ids_print_apart(a: u128, b: u128)
    requires
        uuid_text(a) == uuid_text(b),
    ensures
        a == b,
{
    lemma_same_digit(a, b, 0, 124);
    lemma_same_digit(a, b, 1, 120);
    lemma_same_digit(a, b, 2, 116);
    lemma_same_digit(a, b, 3, 112);
    lemma_same_digit(a, b, 4, 108);
    lemma_same_digit(a, b, 5, 104);
    lemma_same_digit(a, b, 6, 100);
    lemma_same_digit(a, b, 7, 96);
    lemma_same_digit(a, b, 9, 92);
    lemma_same_digit(a, b, 10, 88);
    lemma_same_digit(a, b, 11, 84);
    lemma_same_digit(a, b, 12, 80);
    lemma_same_digit(a, b, 14, 76);
    lemma_same_digit(a, b, 15, 72);
    lemma_same_digit(a, b, 16, 68);
    lemma_same_digit(a, b, 17, 64);
    lemma_same_digit(a, b, 19, 60);
    lemma_same_digit(a, b, 20, 56);
    lemma_same_digit(a, b, 21, 52);
    lemma_same_digit(a, b, 22, 48);
    lemma_same_digit(a, b, 24, 44);
    lemma_same_digit(a, b, 25, 40);
    lemma_same_digit(a, b, 26, 36);
    lemma_same_digit(a, b, 27, 32);
    lemma_same_digit(a, b, 28, 28);
    lemma_same_digit(a, b, 29, 24);
    lemma_same_digit(a, b, 30, 20);
    lemma_same_digit(a, b, 31, 16);
    lemma_same_digit(a, b, 32, 12);
    lemma_same_digit(a, b, 33, 8);
    lemma_same_digit(a, b, 34, 4);
    lemma_same_digit(a, b, 35, 0);
    assert(a == b) by (bit_vector)
        requires
            (a >> 124) & 0xf == (b >> 124) & 0xf,
            (a >> 120) & 0xf == (b >> 120) & 0xf,
            (a >> 116) & 0xf == (b >> 116) & 0xf,
            (a >> 112) & 0xf == (b >> 112) & 0xf,
            (a >> 108) & 0xf == (b >> 108) & 0xf,
            (a >> 104) & 0xf == (b >> 104) & 0xf,
            (a >> 100) & 0xf == (b >> 100) & 0xf,
            (a >> 96) & 0xf == (b >> 96) & 0xf,
            (a >> 92) & 0xf == (b >> 92) & 0xf,
            (a >> 88) & 0xf == (b >> 88) & 0xf,
            (a >> 84) & 0xf == (b >> 84) & 0xf,
            (a >> 80) & 0xf == (b >> 80) & 0xf,
            (a >> 76) & 0xf == (b >> 76) & 0xf,
            (a >> 72) & 0xf == (b >> 72) & 0xf,
            (a >> 68) & 0xf == (b >> 68) & 0xf,
            (a >> 64) & 0xf == (b >> 64) & 0xf,
            (a >> 60) & 0xf == (b >> 60) & 0xf,
            (a >> 56) & 0xf == (b >> 56) & 0xf,
            (a >> 52) & 0xf == (b >> 52) & 0xf,
            (a >> 48) & 0xf == (b >> 48) & 0xf,
            (a >> 44) & 0xf == (b >> 44) & 0xf,
            (a >> 40) & 0xf == (b >> 40) & 0xf,
            (a >> 36) & 0xf == (b >> 36) & 0xf,
            (a >> 32) & 0xf == (b >> 32) & 0xf,
            (a >> 28) & 0xf == (b >> 28) & 0xf,
            (a >> 24) & 0xf == (b >> 24) & 0xf,
            (a >> 20) & 0xf == (b >> 20) & 0xf,
            (a >> 16) & 0xf == (b >> 16) & 0xf,
            (a >> 12) & 0xf == (b >> 12) & 0xf,
            (a >> 8) & 0xf == (b >> 8) & 0xf,
            (a >> 4) & 0xf == (b >> 4) & 0xf,
            (a >> 0) & 0xf == (b >> 0) & 0xf,
    ;
}

/// After a list of pilots was written, a key holds the name that the list has
/// for it, and what it held before where the list has none.
pub proof fn lemma_warmed_lookup(
    entries: Map<Seq<char>, Seq<char>>,
    pilots: Seq<AiPilot>,
    key: Seq<char>,
)
    ensures
        warmed(entries, pilots).contains_key(key) <==> (listed_name(pilots, key) is Some
            || entries.contains_key(key)),
        listed_name(pilots, key) matches Some(name) ==> warmed(entries, pilots)[key] == name,
        listed_name(pilots, key) is None ==> warmed(entries, pilots)[key] == entries[key],
    decreases pilots.len(),
{
    if pilots.len() > 0 {
        lemma_warmed_lookup(entries, pilots.drop_last(), key);
    }
}

/// Writing the same list of pilots a second time changes nothing.
pub proof fn lemma_warm_idempotent(entries: Map<Seq<char>, Seq<char>>, pilots: Seq<AiPilot>)
    ensures
        warmed(warmed(entries, pilots), pilots) == warmed(entries, pilots),
{
    let once = warmed(entries, pilots);
    let twice = warmed(once, pilots);
    assert forall|key: Seq<char>| #[trigger]
        twice.contains_key(key) == once.contains_key(key) && (twice.contains_key(key)
            ==> twice[key] == once[key]) by {
        lemma_warmed_lookup(entries, pilots, key);
        lemma_warmed_lookup(once, pilots, key);
    }
    assert(twice =~= once);
}

/// Where no two pilots of a list have the same identifier, the name of each
/// of them is what was written for it, wherever in the list it stands: the
/// order of the list makes no difference.
pub proof fn lemma_warmed_holds_each(
    entries: Map<Seq<char>, Seq<char>>,
    pilots: Seq<AiPilot>,
    i: int,
)
    requires
        0 <= i < pilots.len(),
        forall|a: int, b: int| 0 <= a < b < pilots.len() ==> pilots[a].id != pilots[b].id,
    ensures
        warmed(entries, pilots).contains_key(uuid_text(pilots[i].id)),
        warmed(entries, pilots)[uuid_text(pilots[i].id)] == pilots[i].name@,
    decreases pilots.len(),
{
    if i < pilots.len() - 1 {
        let init = pilots.drop_last();
        assert forall|a: int, b: int| 0 <= a < b < init.len() implies init[a].id != init[b].id by {
            assert(init[a] == pilots[a] && init[b] == pilots[b]);
        }
        lemma_warmed_holds_each(entries, init, i);
        assert(init[i] == pilots[i]);
        if uuid_text(pilots.last().id) == uuid_text(pilots[i].id) {
            lemma_ids_print_apart(pilots.last().id, pilots[i].id);
        }
    }
}

/// A list of pilots that the cache has room for is found again whole: where
/// no two of the pilots have the same identifier and the names written
/// before, with one more for each pilot of the list, are no more than the
/// cache is made to hold, then after the list was written each of its pilots
/// is under its printed identifier with its own name, and no more names are
/// written than the cache holds.
pub proof fn lemma_listed_pilots_are_held(
    entries: Map<Seq<char>, Seq<char>>,
    pilots: Seq<AiPilot>,
    limit: nat,
    i: int,
)
    requires
        0 <= i < pilots.len(),
        forall|a: int, b: int| 0 <= a < b < pilots.len() ==> pilots[a].id != pilots[b].id,
        entries.dom().finite(),
        entries.dom().len() + pilots.len() <= limit,
    ensures
        warmed(entries, pilots).dom().finite(),
        warmed(entries, pilots).dom().len() <= limit,
        warmed(entries, pilots).contains_key(uuid_text(pilots[i].id)),
        warmed(entries, pilots)[uuid_text(pilots[i].id)] == pilots[i].name@,
{
    lemma_warmed_size(entries, pilots);
    lemma_warmed_holds_each(entries, pilots, i);
}

/// Writing a list of pilots adds at most one key for each pilot of the list.
pub proof fn lemma_warmed_size(entries: Map<Seq<char>, Seq<char>>, pilots: Seq<AiPilot>)
    requires
        entries.dom().finite(),
    ensures
        warmed(entries, pilots).dom().finite(),
        warmed(entries, pilots).dom().len() <= entries.dom().len() + pilots.len(),
    decreases pilots.len(),
{
    if pilots.len() > 0 {
        lemma_warmed_size(entries, pilots.drop_last());
    }
}

/// The cache of pilot names, and the address of the competition service.
pub struct ApiClient {
    base_url: String,
    pilot_name_cache: Cache<String, String>,
}

impl ApiClient {
    /// The names written to the cache: under each printed pilot identifier
    /// the name written last.
    pub closed spec fn written(&self) -> Map<Seq<char>, Seq<char>> {
        names_written(self.pilot_name_cache)
    }

    /// The number of names that the cache is made to hold.
    pub closed spec fn capacity(&self) -> u64 {
        names_limit(self.pilot_name_cache)
    }

    /// The address of the competition service.
    pub closed spec fn spec_base_url(&self) -> Seq<char> {
        self.base_url@
    }

    /// No more names were written than the cache is made to hold: it still
    /// holds every one of them.
    pub open spec fn holds_all(&self) -> bool {
        self.written().dom().finite() && self.written().dom().len() <= self.capacity()
    }

    /// A read of `key` is owed the name written under it: a name was written
    /// under `key`, and the cache holds all that was written.
    pub open spec fn surely_found(&self, key: Seq<char>) -> bool {
        self.holds_all() && self.written().contains_key(key)
    }

    /// A client of the service at `base_url`, with an empty cache for 2048
    /// names.
    pub fn new(base_url: String) -> (client: ApiClient)
        ensures
            client.written() == (Map::<Seq<char>, Seq<char>>::empty()),
            client.capacity() == PILOT_NAME_CACHE_CAPACITY,
            client.spec_base_url() == base_url@,
            client.holds_all(),
    {
        ApiClient { base_url, pilot_name_cache: new_name_cache(PILOT_NAME_CACHE_CAPACITY) }
    }

    pub fn base_url(&self) -> (url: &str)
        ensures
            url@ == self.spec_base_url(),
    {
        self.base_url.as_str()
    }

    /// The cached name of the pilot whose identifier prints as `pilot_id`.
    /// While the cache holds all that was written to it, the name written
    /// last for that pilot is returned; for a pilot that no name was written
    /// for, nothing is returned. Once more names were written than the cache
    /// is made to hold, a written name may be gone; a name that is returned
    /// is still the one written last. The competition service is not asked.
    pub fn get_cached_pilot_name(&self, pilot_id: &str) -> (found: Option<String>)
        ensures
            found matches Some(name) ==> self.written().contains_key(pilot_id@)
                && self.written()[pilot_id@] == name@,
            self.surely_found(pilot_id@) ==> found is Some,
            !self.written().contains_key(pilot_id@) ==> found is None,
    {
        name_cache_get(&self.pilot_name_cache, pilot_id)
    }

    /// Asks the cache for the name of the pilot: a hit is returned as it is, a
    /// miss names the printed identifier of the pilot to fetch. While the
    /// cache holds all that was written to it, a pilot that a name was written
    /// for is a hit.
    pub fn lookup_pilot_name(&self, id: u128) -> (step: Lookup<String>)
        ensures
            match step {
                Lookup::Hit(name) => self.written().contains_key(uuid_text(id))
                    && self.written()[uuid_text(id)] == name@,
                Lookup::Fetch(key) => key@ == uuid_text(id) && !self.surely_found(uuid_text(id)),
            },
    {
        let key = uuid_string(id);
        after_lookup(key.as_str(), self.get_cached_pilot_name(key.as_str()))
    }

    /// The name to show for a pilot: the cached name, and the printed
    /// identifier where the cache gave none.
    pub fn resolve_name(cached: Option<String>, id: u128) -> (name: String)
        ensures
            name@ == name_or_id(
                match cached {
                    Some(n) => Some(n@),
                    None => None,
                },
                id,
            ),
    {
        match cached {
            Some(name) => name,
            None => uuid_string(id),
        }
    }

    /// The name to show for the pilot: the name written last for it where the
    /// cache still holds it, which it does while it holds all that was
    /// written to it, and the printed identifier otherwise. The competition
    /// service is not asked.
    pub fn pilot_name_or_id(&self, id: u128) -> (name: String)
        ensures
            name@ == uuid_text(id) || (self.written().contains_key(uuid_text(id))
                && self.written()[uuid_text(id)] == name@),
            self.surely_found(uuid_text(id)) ==> name@ == self.written()[uuid_text(id)],
            !self.written().contains_key(uuid_text(id)) ==> name@ == uuid_text(id),
    {
        let key = uuid_string(id);
        let cached = self.get_cached_pilot_name(key.as_str());
        Self::resolve_name(cached, id)
    }

    /// Writes the name of each pilot of the list to the cache.
    pub fn remember_pilots(&mut self, pilots: &Vec<AiPilot>)
        ensures
            final(self).written() == warmed(old(self).written(), pilots@),
            final(self).capacity() == old(self).capacity(),
            final(self).spec_base_url() == old(self).spec_base_url(),
            old(self).written().dom().finite() ==> final(self).written().dom().finite()
                && final(self).written().dom().len() <= old(self).written().dom().len()
                + pilots.len(),
    {
        let ghost before = self.written();
        let ghost limit = self.capacity();
        let ghost url = self.spec_base_url();
        let mut i: usize = 0;
        while i < pilots.len()
            invariant
                0 <= i <= pilots.len(),
                self.written() == warmed(before, pilots@.take(i as int)),
                self.capacity() == limit,
                self.spec_base_url() == url,
            decreases pilots.len() - i,
        {
            proof {
                assert(pilots@.take(i + 1).drop_last() =~= pilots@.take(i as int));
            }
            name_cache_insert(
                &mut self.pilot_name_cache,
                uuid_string(pilots[i].id),
                pilots[i].name.clone(),
            );
            i = i + 1;
        }
        proof {
            assert(pilots@.take(pilots.len() as int) =~= pilots@);
            if before.dom().finite() {
                lemma_warmed_size(before, pilots@);
            }
        }
    }

    /// Takes what the competition service answered when asked for all
    /// pilots. A list is returned as it is, after the name of each of its
    /// pilots was written to the cache; a failure is an empty list and leaves
    /// the cache as it was.
    pub fn get_pilots(&mut self, fetched: Option<Vec<AiPilot>>) -> (pilots: Vec<AiPilot>)
        ensures
            pilots@ == rows_of(fetched),
            final(self).written() == warmed(old(self).written(), pilots@),
            final(self).capacity() == old(self).capacity(),
            final(self).spec_base_url() == old(self).spec_base_url(),
            old(self).written().dom().finite() ==> final(self).written().dom().finite()
                && final(self).written().dom().len() <= old(self).written().dom().len()
                + pilots.len(),
    {
        match fetched {
            Some(list) => {
                self.remember_pilots(&list);
                list
            },
            None => Vec::new(),
        }
    }

    /// Takes what the competition service answered when asked for the pilot
    /// with one identifier. The name of each pilot of the answer is written
    /// to the cache, and the last pilot of the answer is returned; an empty
    /// answer and a failure give nothing and leave the cache as it was.
    pub fn get_pilot(&mut self, fetched: Option<Vec<AiPilot>>) -> (pilot: Option<AiPilot>)
        ensures
            pilot == last_of(rows_of(fetched)),
            final(self).written() == warmed(old(self).written(), rows_of(fetched)),
            pilot matches Some(p) ==> final(self).written().contains_key(uuid_text(p.id))
                && final(self).written()[uuid_text(p.id)] == p.name@,
            final(self).capacity() == old(self).capacity(),
            final(self).spec_base_url() == old(self).spec_base_url(),
            old(self).written().dom().finite() ==> final(self).written().dom().finite()
                && final(self).written().dom().len() <= old(self).written().dom().len()
                + rows_of(fetched).len(),
    {
        match fetched {
            Some(list) => {
                self.remember_pilots(&list);
                let mut list = list;
                list.pop()
            },
            None => None,
        }
    }

    /// Takes what the competition service answered when asked for the pilot
    /// with one name. The name of each pilot of the answer is written to the
    /// cache, and the last pilot of the answer is returned; an empty answer
    /// and a failure give nothing and leave the cache as it was.
    pub fn get_pilot_by_name(&mut self, fetched: Option<Vec<AiPilot>>) -> (pilot: Option<AiPilot>)
        ensures
            pilot == last_of(rows_of(fetched)),
            final(self).written() == warmed(old(self).written(), rows_of(fetched)),
            pilot matches Some(p) ==> final(self).written().contains_key(uuid_text(p.id))
                && final(self).written()[uuid_text(p.id)] == p.name@,
            final(self).capacity() == old(self).capacity(),
            final(self).spec_base_url() == old(self).spec_base_url(),
            old(self).written().dom().finite() ==> final(self).written().dom().finite()
                && final(self).written().dom().len() <= old(self).written().dom().len()
                + rows_of(fetched).len(),
    {
        self.get_pilot(fetched)
    }

    /// Takes what the competition service answered when asked for one match:
    /// the last match of a list, and nothing for an empty list or a failure.
    pub fn get_match(fetched: Option<Vec<MatchResult>>) -> (found: Option<MatchResult>)
        ensures
            found == match fetched {
                Some(list) => if list@.len() > 0 {
                    Some(list@.last())
                } else {
                    None
                },
                None => None,
            },
    {
        match fetched {
            Some(list) => {
                let mut list = list;
                list.pop()
            },
            None => None,
        }
    }

    /// Takes what the competition service answered when asked for matches: a
    /// list as it is, and an empty list for a failure.
    pub fn get_matches(fetched: Option<Vec<MatchResult>>) -> (matches: Vec<MatchResult>)
        ensures
            matches@ == match fetched {
                Some(list) => list@,
                None => Seq::<MatchResult>::empty(),
            },
    {
        match fetched {
            Some(list) => list,
            None => Vec::new(),
        }
    }

    /// Where the replay with this identifier can be had.
    pub fn replay_url(&self, replay_id: u128) -> (url: String)
        ensures
            url@ == self.spec_base_url() + "/replay?replayId="@ + uuid_text(replay_id),
    {
        let mut url = self.base_url.clone();
        url.append("/replay?replayId=");
        let id = uuid_string(replay_id);
        url.append(id.as_str());
        url
    }
}

} // verus!
