//! The calls into other crates. Of the called functions nothing is proved:
//! each contract states what the function is documented to do, and the rest
//! of the library is proved from these statements.

use vstd::prelude::*;

use moka::sync::Cache;

use crate::sso_client::DiscordUserInfo;

verus! {

/// `moka::sync::Cache`, a concurrent cache that bounds itself by size and by
/// age. Verus carries a value of it and sees nothing inside.
#[verifier::external_type_specification]
#[verifier::external_body]
#[verifier::reject_recursive_types(K)]
#[verifier::reject_recursive_types(V)]
#[verifier::reject_recursive_types(S)]
pub struct ExCache<K, V, S>(moka::sync::Cache<K, V, S>);

/// The longest time to live that `moka` accepts, in seconds: 1000 years.
pub const LONGEST_TIME_TO_LIVE: u64 = 31_536_000_000;

/// What was written to a cache of pilot names: under each key the value that
/// was inserted last. The cache may have dropped any of it since.
pub uninterp spec fn names_written(cache: Cache<String, String>) -> Map<
    Seq<char>,
    Seq<char>,
>;

/// The number of entries that a cache of pilot names was made to hold.
pub uninterp spec fn names_limit(cache: Cache<String, String>) -> u64;

/// What was written to a cache of identity profiles: under each key the
/// profile that was inserted last, as identifier, username and avatar. The
/// cache may have dropped any of it since.
pub uninterp spec fn identities_written(cache: Cache<String, DiscordUserInfo>) -> Map<
    Seq<char>,
    (Seq<char>, Seq<char>, Seq<char>),
>;

/// The number of entries that a cache of identity profiles was made to hold.
pub uninterp spec fn identities_limit(cache: Cache<String, DiscordUserInfo>) -> u64;

/// The seconds after which a cache of identity profiles drops an entry.
pub uninterp spec fn identities_time_to_live(
    cache: Cache<String, DiscordUserInfo>,
) -> u64;

/// `moka::sync::Cache::builder`, with `max_capacity`, then `build`: a cache
/// that nothing was written to yet.
#[verifier::external_body]
pub(crate) fn new_name_cache(max_capacity: u64) -> (cache: Cache<String, String>)
    ensures
        names_written(cache) == (Map::<Seq<char>, Seq<char>>::empty()),
        names_limit(cache) == max_capacity,
{
    Cache::builder().max_capacity(max_capacity).build()
}

/// `moka::sync::Cache::insert`: the value is written under the key, in place
/// of what was written under it before.
#[verifier::external_body]
pub(crate) fn name_cache_insert(
    cache: &mut Cache<String, String>,
    key: String,
    value: String,
)
    ensures
        names_written(*final(cache)) == names_written(*old(cache)).insert(key@, value@),
        names_limit(*final(cache)) == names_limit(*old(cache)),
{
    cache.insert(key, value)
}

/// `moka::sync::Cache::get`: a copy of the value under the key. What it
/// returns is what was written last under that key. It returns that value
/// while no more keys were written than the cache was made to hold: a cache
/// that is bounded by size alone admits an entry while there is room, and
/// drops one only when it holds more than its limit. Beyond that, whether it
/// returns anything is up to the cache.
#[verifier::external_body]
pub(crate) fn name_cache_get(cache: &Cache<String, String>, key: &str) -> (found:
    Option<String>)
    ensures
        found matches Some(value) ==> names_written(*cache).contains_key(key@) && names_written(
            *cache,
        )[key@] == value@,
        (names_written(*cache).dom().finite() && names_written(*cache).dom().len() <= names_limit(
            *cache,
        ) && names_written(*cache).contains_key(key@)) ==> found is Some,
{
    cache.get(key)
}

/// `moka::sync::Cache::builder`, with `max_capacity` and `time_to_live`, then
/// `build`: a cache that nothing was written to yet. `build` panics on a time
/// to live of more than 1000 years.
#[verifier::external_body]
pub(crate) fn new_identity_cache(max_capacity: u64, time_to_live: u64) -> (cache:
    Cache<String, DiscordUserInfo>)
    requires
        time_to_live <= LONGEST_TIME_TO_LIVE,
    ensures
        identities_written(cache) == (Map::<Seq<char>, (Seq<char>, Seq<char>, Seq<char>)>::empty()),
        identities_limit(cache) == max_capacity,
        identities_time_to_live(cache) == time_to_live,
{
    Cache::builder().max_capacity(max_capacity).time_to_live(
        std::time::Duration::from_secs(time_to_live),
    ).build()
}

/// `moka::sync::Cache::insert`: the profile is written under the key, in
/// place of what was written under it before.
#[verifier::external_body]
pub(crate) fn identity_cache_insert(
    cache: &mut Cache<String, DiscordUserInfo>,
    key: String,
    value: DiscordUserInfo,
)
    ensures
        identities_written(*final(cache)) == identities_written(*old(cache)).insert(
            key@,
            value.shape(),
        ),
        identities_limit(*final(cache)) == identities_limit(*old(cache)),
        identities_time_to_live(*final(cache)) == identities_time_to_live(*old(cache)),
{
    cache.insert(key, value)
}

/// `moka::sync::Cache::get`: a copy of the profile under the key. What it
/// returns is what was written last under that key; whether it returns
/// anything is up to the cache and to the time that has passed.
#[verifier::external_body]
pub(crate) fn identity_cache_get(
    cache: &Cache<String, DiscordUserInfo>,
    key: &str,
) -> (found: Option<DiscordUserInfo>)
    ensures
        found matches Some(value) ==> identities_written(*cache).contains_key(key@)
            && identities_written(*cache)[key@] == value.shape(),
{
    cache.get(key)
}

/// The character of a hexadecimal digit, in lower case.
pub open spec fn hex_char(digit: u128) -> char {
    if digit == 0 {
        '0'
    } else if digit == 1 {
        '1'
    } else if digit == 2 {
        '2'
    } else if digit == 3 {
        '3'
    } else if digit == 4 {
        '4'
    } else if digit == 5 {
        '5'
    } else if digit == 6 {
        '6'
    } else if digit == 7 {
        '7'
    } else if digit == 8 {
        '8'
    } else if digit == 9 {
        '9'
    } else if digit == 10 {
        'a'
    } else if digit == 11 {
        'b'
    } else if digit == 12 {
        'c'
    } else if digit == 13 {
        'd'
    } else if digit == 14 {
        'e'
    } else {
        'f'
    }
}

/// Which of the 32 hexadecimal digits of an identifier, the highest being
/// digit 0, stands at the place `at` of its 36 characters.
pub open spec fn digit_at(at: int) -> int {
    if at < 8 {
        at
    } else if at < 13 {
        at - 1
    } else if at < 18 {
        at - 2
    } else if at < 23 {
        at - 3
    } else {
        at - 4
    }
}

/// The hexadecimal digit of `id` that is `shift` bits above the lowest.
pub open spec fn hex_digit(id: u128, shift: u128) -> u128 {
    (id >> shift) & 0xf
}

/// What `uuid::Uuid` prints for the identifier with the number `id`: its 32
/// hexadecimal digits in lower case, the highest first, with a hyphen after
/// the 8th, the 12th, the 16th and the 20th digit.
pub open spec fn uuid_text(id: u128) -> Seq<char> {
    Seq::new(
        36,
        |at: int|
            if at == 8 || at == 13 || at == 18 || at == 23 {
                '-'
            } else {
                hex_char(hex_digit(id, ((31 - digit_at(at)) * 4) as u128))
            },
    )
}

/// `uuid::Uuid::from_u128`, then `to_string`: the hyphenated form in lower
/// case.
#[verifier::external_body]
pub(crate) fn uuid_string(id: u128) -> (text: String)
    ensures
        text@ == uuid_text(id),
{
    uuid::Uuid::from_u128(id).to_string()
}

/// Whether the regular expression `pattern` matches somewhere in `haystack`,
/// as `regex::Regex::is_match` decides it; `None` where `regex::Regex::new`
/// refuses the pattern.
pub uninterp spec fn regex_is_match(pattern: Seq<char>, haystack: Seq<char>) -> Option<bool>;

/// `regex::Regex::new`, then `is_match`.
#[verifier::external_body]
pub(crate) fn regex_match(pattern: &str, haystack: &str) -> (found: Option<bool>)
    ensures
        found == regex_is_match(pattern@, haystack@),
{
    match regex::Regex::new(pattern) {
        Ok(re) => Some(re.is_match(haystack)),
        Err(_) => None,
    }
}

/// The first second after the Unix epoch that `chrono` has a date for: the
/// start of the year -262143.
pub const FIRST_SECOND: i64 = -8_334_601_228_800;

/// The last second after the Unix epoch that `chrono` has a date for: the end
/// of the year 262142.
pub const LAST_SECOND: i64 = 8_210_266_876_799;

/// Whether `chrono` has a date and time for the second `secs` after the Unix
/// epoch: its calendar runs from the year -262143 to the year 262142.
pub open spec fn chrono_has_second(secs: i64) -> bool {
    FIRST_SECOND <= secs <= LAST_SECOND
}

/// `chrono::DateTime::from_timestamp`, asked whether it returns a value: it
/// does for the seconds of its calendar and for no other.
#[verifier::external_body]
pub(crate) fn timestamp_in_range(secs: i64) -> (ok: bool)
    ensures
        ok == chrono_has_second(secs),
{
    chrono::DateTime::from_timestamp(secs, 0).is_some()
}

/// What `chrono` prints under `pattern` for the second `secs` after the Unix
/// epoch, in UTC; for a second that it has no date for, what it prints for
/// the epoch.
pub uninterp spec fn chrono_text(secs: i64, pattern: Seq<char>) -> Seq<char>;

/// `chrono::DateTime::format`, then `to_string`, on the date and time that
/// `from_timestamp` gives for `secs`, the default one where it gives none.
/// Printing panics on a pattern that `chrono` cannot read, so only the
/// pattern of this library is let in.
#[verifier::external_body]
pub(crate) fn format_timestamp(secs: i64, pattern: &str) -> (text: String)
    requires
        pattern@ == "%Y-%m-%d %H:%M:%S"@,
    ensures
        text@ == chrono_text(secs, pattern@),
{
    chrono::DateTime::from_timestamp(secs, 0).unwrap_or_default().format(pattern).to_string()
}

/// The number that `text` spells in decimal, as `i64::from_str_radix` reads it
/// with radix 10; `None` where it refuses the text.
pub uninterp spec fn parsed_decimal(text: Seq<char>) -> Option<i64>;

/// `i64::from_str_radix` with radix 10.
#[verifier::external_body]
pub(crate) fn parse_decimal(text: &str) -> (parsed: Option<i64>)
    ensures
        parsed == parsed_decimal(text@),
{
    i64::from_str_radix(text, 10).ok()
}

} // verus!
