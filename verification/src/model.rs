//! Local accounts and the API tokens issued to them.

use vstd::prelude::*;
use vstd::string::*;

use crate::api_error::ApiErrors;
use crate::outside::chrono_text;
use crate::util::{format_date_time, DATE_TIME_PATTERN};

verus! {

pub type UserId = i64;

pub type UserTokenId = i64;

/// A local account, made or refreshed at every login.
#[derive(Debug)]
pub struct User {
    pub id: UserId,
    pub discord_id: String,
    pub username: String,
    pub avatar_url: String,
}

/// A token that stands for its owner in requests to the API. The two times
/// count seconds since the Unix epoch.
#[derive(Debug)]
pub struct UserToken {
    pub id: UserTokenId,
    pub name: String,
    pub user_id: UserId,
    pub token: String,
    pub created_at: i64,
    pub expires_at: Option<i64>,
}

impl UserToken {
    /// The token stands for its owner at the second `now`: it never expires,
    /// or it expires later.
    pub open spec fn spec_is_live(&self, now: i64) -> bool {
        match self.expires_at {
            None => true,
            Some(end) => end > now,
        }
    }

    pub fn is_live(&self, now: i64) -> (live: bool)
        ensures
            live == self.spec_is_live(now),
    {
        match self.expires_at {
            None => true,
            Some(end) => end > now,
        }
    }

    /// When the token was made, for a reader.
    pub fn created_text(&self) -> (text: String)
        ensures
            text@ == chrono_text(self.created_at, DATE_TIME_PATTERN@),
    {
        format_date_time(self.created_at)
    }

    /// When the token expires, for a reader; nothing where it never does.
    pub fn expires_text(&self) -> (text: Option<String>)
        ensures
            match self.expires_at {
                None => text is None,
                Some(end) => text matches Some(t) && t@ == chrono_text(end, DATE_TIME_PATTERN@),
            },
    {
        match self.expires_at {
            None => None,
            Some(end) => Some(format_date_time(end)),
        }
    }
}

/// Turns the failure of a lookup into a 404 that names what was looked for.
pub trait ResultExt<T, E> {
    fn or_not_found(self, entity_name: &str) -> Result<T, ApiErrors>;
}

impl<T, E> ResultExt<T, E> for Result<T, E> {
    fn or_not_found(self, entity_name: &str) -> (found: Result<T, ApiErrors>)
        ensures
            match self {
                Ok(value) => found == Ok::<T, ApiErrors>(value),
                Err(_) => found matches Err(ApiErrors::NotFound(msg)) && msg@ == entity_name@
                    + " not found"@,
            },
    {
        match self {
            Ok(value) => Ok(value),
            Err(_) => {
                let mut text = String::from_str(entity_name);
                text.append(" not found");
                Err(ApiErrors::NotFound(text))
            },
        }
    }
}

} // verus!
