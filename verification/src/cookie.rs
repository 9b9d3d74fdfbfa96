//! The identity that a request carries, and how a request comes by it.

use vstd::prelude::*;

use crate::model::{User, UserId, UserToken};

verus! {

/// The user that a request was made by.
#[derive(Debug)]
pub struct ApiUser {
    pub id: UserId,
    pub discord_id: String,
    pub username: String,
    pub avatar: String,
}

/// Why a request carries no identity.
#[derive(Clone, Copy, Debug, PartialEq, Eq, Structural)]
pub enum AuthFailure {
    /// The session cookie is there and cannot be read.
    Malformed,
    /// There is no session cookie, and no live token that stands for a user.
    Missing,
}

/// What to do about a request after its session cookie was looked at.
#[derive(Debug)]
pub enum AuthStep {
    /// The cookie named the user.
    Granted(ApiUser),
    /// The request is turned away.
    Denied(AuthFailure),
    /// There is no cookie: the token of the request is to be looked up.
    AskToken,
}

/// The status of a request that carries no identity.
pub const UNAUTHORIZED_STATUS: u16 = 401;

impl AuthFailure {
    pub open spec fn spec_message(&self) -> Seq<char> {
        match self {
            AuthFailure::Malformed => "Malformed auth cookie"@,
            AuthFailure::Missing => "Auth cookie missing"@,
        }
    }

    /// What the request is told.
    pub fn message(&self) -> (text: &'static str)
        ensures
            text@ == self.spec_message(),
    {
        match self {
            AuthFailure::Malformed => "Malformed auth cookie",
            AuthFailure::Missing => "Auth cookie missing",
        }
    }
}

impl ApiUser {
    /// The identity of a local account.
    pub fn from_user(user: User) -> (api_user: ApiUser)
        ensures
            api_user.id == user.id,
            api_user.discord_id == user.discord_id,
            api_user.username == user.username,
            api_user.avatar == user.avatar_url,
    {
        ApiUser {
            id: user.id,
            discord_id: user.discord_id,
            username: user.username,
            avatar: user.avatar_url,
        }
    }
}

/// Decides on a request from its session cookie. `cookie` is nothing where
/// the request has no such cookie, and holds the user that the cookie names,
/// or nothing where it cannot be read. A cookie decides alone; without one the
/// token decides where the request has one.
pub fn auth_from_cookie(cookie: Option<Option<ApiUser>>, has_token: bool) -> (step: AuthStep)
    ensures
        step == match cookie {
            Some(Some(user)) => AuthStep::Granted(user),
            Some(None) => AuthStep::Denied(AuthFailure::Malformed),
            None => if has_token {
                AuthStep::AskToken
            } else {
                AuthStep::Denied(AuthFailure::Missing)
            },
        },
{
    match cookie {
        Some(Some(user)) => AuthStep::Granted(user),
        Some(None) => AuthStep::Denied(AuthFailure::Malformed),
        None => if has_token {
            AuthStep::AskToken
        } else {
            AuthStep::Denied(AuthFailure::Missing)
        },
    }
}

/// Decides on a request from its token. `found` holds the token as it is on
/// record and the account that it stands for, and nothing where the token is
/// not on record. A token that is live at the second `now` gives the request
/// the identity of its account; without such a token the request is turned
/// away.
pub fn auth_from_token(found: Option<(User, UserToken)>, now: i64) -> (outcome: Result<
    ApiUser,
    AuthFailure,
>)
    ensures
        match found {
            Some((user, token)) => if token.spec_is_live(now) {
                outcome matches Ok(api_user) && api_user.id == user.id && api_user.discord_id
                    == user.discord_id && api_user.username == user.username && api_user.avatar
                    == user.avatar_url
            } else {
                outcome == Err::<ApiUser, AuthFailure>(AuthFailure::Missing)
            },
            None => outcome == Err::<ApiUser, AuthFailure>(AuthFailure::Missing),
        },
{
    match found {
        Some((user, token)) => if token.is_live(now) {
            Ok(ApiUser::from_user(user))
        } else {
            Err(AuthFailure::Missing)
        },
        None => Err(AuthFailure::Missing),
    }
}

} // verus!
