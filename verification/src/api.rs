//! The rules of the HTTP API: which names and timestamps it takes, and what
//! it answers where something is missing.

use vstd::prelude::*;
use vstd::string::*;

use crate::api_error::ApiErrors;
use crate::competition::AiPilot;
use crate::outside::{chrono_has_second, regex_is_match, regex_match, timestamp_in_range};
use crate::sso_client::DiscordUserInfo;

verus! {

/// The pattern of a pilot name: 3 to 32 word characters.
pub const NAME_PATTERN: &'static str = "^\\w{3,32}$";

/// The fewest characters of a pilot name.
pub const NAME_MIN_CHARS: usize = 3;

/// The most characters of a pilot name.
pub const NAME_MAX_CHARS: usize = 32;

/// The most bytes of an upload: 25 MiB.
pub const UPLOAD_LIMIT_BYTES: u64 = 26_214_400;

/// The status of a token deletion that went through: 204, no content.
pub const TOKEN_DELETED_STATUS: u16 = 204;

/// What the health check answers.
pub const HEALTH_CHECK_BODY: &'static str = "OK";

/// A pilot name is taken where it has 3 to 32 characters and the name pattern
/// matches it.
pub open spec fn name_is_valid(name: Seq<char>) -> bool {
    3 <= name.len() <= 32 && regex_is_match(NAME_PATTERN@, name) == Some(true)
}

/// The verdict on a name of `chars` characters for which the name pattern
/// answered `matched`.
pub open spec fn name_passes(chars: nat, matched: Option<bool>) -> bool {
    3 <= chars <= 32 && matched == Some(true)
}

/// Decides on a pilot name from its number of characters and the answer of
/// the name pattern: the name is taken where `name_passes` holds, and is a
/// bad request otherwise.
pub fn name_verdict(chars: usize, matched: Option<bool>) -> (verdict: Result<(), ApiErrors>)
    ensures
        verdict is Ok <==> name_passes(chars as nat, matched),
        verdict matches Err(e) ==> (e matches ApiErrors::BadRequest(msg) && msg@
            == "Invalid name format"@),
{
    let in_bounds = NAME_MIN_CHARS <= chars && chars <= NAME_MAX_CHARS;
    match matched {
        Some(true) => {
            if in_bounds {
                Ok(())
            } else {
                Err(ApiErrors::bad_request("Invalid name format"))
            }
        },
        _ => Err(ApiErrors::bad_request("Invalid name format")),
    }
}

/// Checks the name of a pilot that is to be uploaded: a name of 3 to 32 word
/// characters is taken, any other is a bad request.
pub fn validate_pilot_name(name: &str) -> (verdict: Result<(), ApiErrors>)
    ensures
        verdict is Ok <==> name_is_valid(name@),
        verdict matches Err(e) ==> (e matches ApiErrors::BadRequest(msg) && msg@
            == "Invalid name format"@),
{
    name_verdict(name.unicode_len(), regex_match(NAME_PATTERN, name))
}

/// Checks the time at which a new token is to expire, in seconds since the
/// Unix epoch: no time and a time that the calendar holds are taken as they
/// are, any other time is a bad request.
pub fn checked_expiry(expires_at: Option<i64>) -> (checked: Result<Option<i64>, ApiErrors>)
    ensures
        match expires_at {
            None => checked == Ok::<Option<i64>, ApiErrors>(None),
            Some(ts) => if chrono_has_second(ts) {
                checked == Ok::<Option<i64>, ApiErrors>(Some(ts))
            } else {
                checked matches Err(ApiErrors::BadRequest(msg)) && msg@
                    == "Invalid timestamp for expires_at"@
            },
        },
{
    match expires_at {
        None => Ok(None),
        Some(ts) => expiry_verdict(ts, timestamp_in_range(ts)),
    }
}

/// Decides on the time `ts` from whether the calendar holds it.
pub fn expiry_verdict(ts: i64, in_range: bool) -> (checked: Result<Option<i64>, ApiErrors>)
    ensures
        in_range ==> checked == Ok::<Option<i64>, ApiErrors>(Some(ts)),
        !in_range ==> (checked matches Err(ApiErrors::BadRequest(msg)) && msg@
            == "Invalid timestamp for expires_at"@),
{
    if in_range {
        Ok(Some(ts))
    } else {
        Err(ApiErrors::bad_request("Invalid timestamp for expires_at"))
    }
}

/// The pilot that was looked up, and a 404 where there is none.
pub fn require_pilot(found: Option<AiPilot>) -> (pilot: Result<AiPilot, ApiErrors>)
    ensures
        match found {
            Some(p) => pilot == Ok::<AiPilot, ApiErrors>(p),
            None => pilot matches Err(ApiErrors::NotFound(msg)) && msg@ == "Pilot not found"@,
        },
{
    match found {
        Some(p) => Ok(p),
        None => Err(ApiErrors::not_found("Pilot not found")),
    }
}

/// The answer to a request for the pilot of one name: a list of that one
/// pilot, and a 404 where there is none.
pub fn named_pilot_list(found: Option<AiPilot>) -> (pilots: Result<Vec<AiPilot>, ApiErrors>)
    ensures
        match found {
            Some(p) => pilots matches Ok(list) && list@ == seq![p],
            None => pilots matches Err(ApiErrors::NotFound(msg)) && msg@ == "Pilot not found"@,
        },
{
    match found {
        Some(p) => {
            let mut list: Vec<AiPilot> = Vec::new();
            list.push(p);
            Ok(list)
        },
        None => Err(ApiErrors::not_found("Pilot not found")),
    }
}

/// The profile that a login code was traded for, and a bad request where the
/// identity service gave none.
pub fn require_oauth_user(found: Option<DiscordUserInfo>) -> (user: Result<
    DiscordUserInfo,
    ApiErrors,
>)
    ensures
        match found {
            Some(u) => user == Ok::<DiscordUserInfo, ApiErrors>(u),
            None => user matches Err(ApiErrors::BadRequest(msg)) && msg@ == "Invalid OAuth code"@,
        },
{
    match found {
        Some(u) => Ok(u),
        None => Err(ApiErrors::bad_request("Invalid OAuth code")),
    }
}

/// Where a login that went through is sent on to: the page that queues the
/// cookie, with the path to return to, the front page where none was given.
pub fn login_callback_target(next: Option<&str>) -> (target: String)
    ensures
        target@ == "/login_callback_redirect?next="@ + match next {
            Some(path) => path@,
            None => "/"@,
        },
{
    let mut target = String::from_str("/login_callback_redirect?next=");
    match next {
        Some(path) => target.append(path),
        None => target.append("/"),
    }
    target
}

/// Where a request without credentials is sent: to the login, with the path
/// that was asked for to return to.
pub fn unauthorized_target(path: &str) -> (target: String)
    ensures
        target@ == "/login?next="@ + path@,
{
    let mut target = String::from_str("/login?next=");
    target.append(path);
    target
}

/// The text of an error page for a status that no handler gave a text for.
pub open spec fn spec_status_text(code: u16) -> Seq<char> {
    if code == 400 {
        "Bad Request"@
    } else if code == 403 {
        "Forbidden"@
    } else if code == 405 {
        "Method Not Allowed"@
    } else if code == 422 {
        "Unprocessable Entity"@
    } else {
        "Error"@
    }
}

pub fn status_text(code: u16) -> (text: &'static str)
    ensures
        text@ == spec_status_text(code),
{
    if code == 400 {
        "Bad Request"
    } else if code == 403 {
        "Forbidden"
    } else if code == 405 {
        "Method Not Allowed"
    } else if code == 422 {
        "Unprocessable Entity"
    } else {
        "Error"
    }
}

} // verus!
