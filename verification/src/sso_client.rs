//! Identity profiles and the read-through cache in front of the identity
//! service.

use vstd::prelude::*;
use vstd::string::*;

use crate::read_through::{after_lookup, Lookup};
use crate::outside::{
    identities_limit,
    identities_time_to_live,
    identities_written,
    identity_cache_get,
    identity_cache_insert,
    new_identity_cache,
};

verus! {

/// How many identity profiles the cache is made to hold.
pub const IDENTITY_CACHE_CAPACITY: u64 = 2048;

/// The seconds after which a cached identity profile is fetched anew: 24
/// hours.
pub const IDENTITY_TIME_TO_LIVE: u64 = 86_400;

/// What the identity service knows of a user.
#[derive(Debug)]
pub struct DiscordUserInfo {
    pub id: String,
    pub username: String,
    pub avatar: String,
}

impl DiscordUserInfo {
    /// The profile as identifier, username and avatar.
    pub open spec fn shape(&self) -> (Seq<char>, Seq<char>, Seq<char>) {
        (self.id@, self.username@, self.avatar@)
    }
}

impl Clone for DiscordUserInfo {
    fn clone(&self) -> (copy: DiscordUserInfo)
        ensures
            copy == *self,
    {
        DiscordUserInfo {
            id: self.id.clone(),
            username: self.username.clone(),
            avatar: self.avatar.clone(),
        }
    }
}

/// The cache of identity profiles, and the address that the identity service
/// sends a user back to.
pub struct SSOClient {
    cache: moka::sync::Cache<String, DiscordUserInfo>,
    own_base_url: String,
}

impl SSOClient {
    /// The profiles written to the cache, by user: under each identifier the
    /// profile written last.
    pub closed spec fn written(&self) -> Map<Seq<char>, (Seq<char>, Seq<char>, Seq<char>)> {
        identities_written(self.cache)
    }

    /// The number of profiles that the cache is made to hold.
    pub closed spec fn capacity(&self) -> u64 {
        identities_limit(self.cache)
    }

    /// The seconds that a cached profile lives.
    pub closed spec fn time_to_live(&self) -> u64 {
        identities_time_to_live(self.cache)
    }

    /// The address of this site.
    pub closed spec fn spec_own_base_url(&self) -> Seq<char> {
        self.own_base_url@
    }

    /// A client with an empty cache for 2048 profiles that live 24 hours.
    pub fn new(own_base_url: String) -> (client: SSOClient)
        ensures
            client.written() == Map::<Seq<char>, (Seq<char>, Seq<char>, Seq<char>)>::empty(),
            client.capacity() == IDENTITY_CACHE_CAPACITY,
            client.time_to_live() == IDENTITY_TIME_TO_LIVE,
            client.spec_own_base_url() == own_base_url@,
    {
        SSOClient {
            cache: new_identity_cache(IDENTITY_CACHE_CAPACITY, IDENTITY_TIME_TO_LIVE),
            own_base_url,
        }
    }

    /// The cached profile of the user, if the cache holds one. A profile that
    /// is returned is the one written last for that user.
    pub fn get_user(&self, discord_id: &str) -> (found: Option<DiscordUserInfo>)
        ensures
            found matches Some(info) ==> self.written().contains_key(discord_id@)
                && self.written()[discord_id@] == info.shape(),
    {
        identity_cache_get(&self.cache, discord_id)
    }

    /// Asks the cache for the profile of the user: a hit is returned as it
    /// is, a miss names the user to fetch.
    pub fn lookup(&self, discord_id: &str) -> (step: Lookup<DiscordUserInfo>)
        ensures
            match step {
                Lookup::Hit(info) => self.written().contains_key(discord_id@)
                    && self.written()[discord_id@] == info.shape(),
                Lookup::Fetch(id) => id@ == discord_id@,
            },
    {
        after_lookup(discord_id, self.get_user(discord_id))
    }

    /// Takes what the identity service answered for the user after a miss: a
    /// profile is written to the cache and returned; a failure is returned as
    /// nothing and leaves the cache as it was, so that a later lookup asks
    /// again.
    pub fn remember_user(&mut self, discord_id: &str, fetched: Option<DiscordUserInfo>) -> (found:
        Option<DiscordUserInfo>)
        ensures
            found == fetched,
            final(self).written() == match fetched {
                Some(info) => old(self).written().insert(discord_id@, info.shape()),
                None => old(self).written(),
            },
            final(self).capacity() == old(self).capacity(),
            final(self).time_to_live() == old(self).time_to_live(),
            final(self).spec_own_base_url() == old(self).spec_own_base_url(),
    {
        match fetched {
            Some(info) => {
                identity_cache_insert(&mut self.cache, String::from_str(discord_id), info.clone());
                Some(info)
            },
            None => None,
        }
    }

    /// Where to send a user who is to log in.
    pub fn get_redirect_url(&self) -> (url: String)
        ensures
            url@ == "https://sso.isan.to/login?service="@ + self.spec_own_base_url()
                + "/login_callback"@,
    {
        let mut url = String::from_str("https://sso.isan.to/login?service=");
        url.append(self.own_base_url.as_str());
        url.append("/login_callback");
        url
    }

    /// Where the identity service tells of the user with this identifier.
    pub fn user_info_url(discord_id: &str) -> (url: String)
        ensures
            url@ == "https://sso.isan.to/uinfo/"@ + discord_id@,
    {
        let mut url = String::from_str("https://sso.isan.to/uinfo/");
        url.append(discord_id);
        url
    }

    /// Where the identity service trades a login code for a profile.
    pub fn oauth_user_url(code: &str) -> (url: String)
        ensures
            url@ == "https://sso.isan.to/getuser/"@ + code@,
    {
        let mut url = String::from_str("https://sso.isan.to/getuser/");
        url.append(code);
        url
    }
}

} // verus!
