//! Texts for the pages: numbers, sizes, times and addresses.

use vstd::prelude::*;
use vstd::string::*;

use crate::outside::{
    chrono_has_second,
    chrono_text,
    format_timestamp,
    parse_decimal,
    parsed_decimal,
    timestamp_in_range,
};
use crate::tally::{rounded_ratio, rounded_ratio_of, Tally};

verus! {

/// How `chrono` is asked to print a date and time.
pub const DATE_TIME_PATTERN: &'static str = "%Y-%m-%d %H:%M:%S";

/// What a page shows of the build that serves it.
#[derive(Debug)]
pub struct BuildInfo {
    pub git_hash: String,
    pub build_date: String,
}

/// The character of a decimal digit.
pub open spec fn digit_char(d: nat) -> char {
    if d == 0 {
        '0'
    } else if d == 1 {
        '1'
    } else if d == 2 {
        '2'
    } else if d == 3 {
        '3'
    } else if d == 4 {
        '4'
    } else if d == 5 {
        '5'
    } else if d == 6 {
        '6'
    } else if d == 7 {
        '7'
    } else if d == 8 {
        '8'
    } else {
        '9'
    }
}

/// The number in decimal digits, without leading zeros.
pub open spec fn decimal(n: nat) -> Seq<char>
    decreases n,
{
    if n < 10 {
        seq![digit_char(n)]
    } else {
        decimal(n / 10).push(digit_char(n % 10))
    }
}

/// The number in decimal digits, with a minus sign where it is negative.
pub open spec fn signed_decimal(n: int) -> Seq<char> {
    if n < 0 {
        seq!['-'] + decimal((-n) as nat)
    } else {
        decimal(n as nat)
    }
}

/// `num / den` with two decimals, rounded to the nearest hundredth, the even
/// one of two that are equally near.
pub open spec fn two_decimals(num: nat, den: nat) -> Seq<char> {
    let hundredths = rounded_ratio(num * 100, den);
    decimal(hundredths / 100) + seq!['.', digit_char(hundredths / 10 % 10), digit_char(hundredths % 10)]
}

/// A number of bytes for a reader: whole bytes below 1024, and from there on
/// in units of 1024, 1024² or 1024³ bytes with two decimals.
pub open spec fn spec_format_bytes(bytes: int) -> Seq<char> {
    if bytes < 1024 {
        signed_decimal(bytes) + " B"@
    } else if bytes < 1024 * 1024 {
        two_decimals(bytes as nat, 1024) + " KB"@
    } else if bytes < 1024 * 1024 * 1024 {
        two_decimals(bytes as nat, 1024 * 1024) + " MB"@
    } else {
        two_decimals(bytes as nat, 1024 * 1024 * 1024) + " GB"@
    }
}

/// The whole seconds of a number of milliseconds, rounded towards zero.
pub open spec fn millis_to_seconds(millis: int) -> int {
    if millis >= 0 {
        millis / 1000
    } else {
        -((-millis) / 1000)
    }
}

/// How long ago something was that lies `elapsed` seconds back: in whole
/// days, else in whole hours, else in whole minutes, and "just now" for less
/// than a minute and for what lies ahead.
pub open spec fn spec_format_date_relative(elapsed: int) -> Seq<char> {
    if elapsed >= 86_400 {
        decimal((elapsed / 86_400) as nat) + " days ago"@
    } else if elapsed >= 3_600 {
        decimal((elapsed / 3_600) as nat) + " hours ago"@
    } else if elapsed >= 60 {
        decimal((elapsed / 60) as nat) + " minutes ago"@
    } else {
        "just now"@
    }
}

fn digit_text(d: u128) -> (text: &'static str)
    requires
        d < 10,
    ensures
        text@ == seq![digit_char(d as nat)],
{
    proof {
        reveal_strlit("0");
        reveal_strlit("1");
        reveal_strlit("2");
        reveal_strlit("3");
        reveal_strlit("4");
        reveal_strlit("5");
        reveal_strlit("6");
        reveal_strlit("7");
        reveal_strlit("8");
        reveal_strlit("9");
    }
    let text = if d == 0 {
        "0"
    } else if d == 1 {
        "1"
    } else if d == 2 {
        "2"
    } else if d == 3 {
        "3"
    } else if d == 4 {
        "4"
    } else if d == 5 {
        "5"
    } else if d == 6 {
        "6"
    } else if d == 7 {
        "7"
    } else if d == 8 {
        "8"
    } else {
        "9"
    };
    assert(text@ =~= seq![digit_char(d as nat)]);
    text
}

/// Appends the decimal digits of `n` to `out`.
pub fn push_decimal(out: &mut String, n: u128)
    ensures
        final(out)@ == old(out)@ + decimal(n as nat),
    decreases n,
{
    if n >= 10 {
        push_decimal(out, n / 10);
    }
    out.append(digit_text(n % 10));
    proof {
        if n >= 10 {
            assert(final(out)@ =~= old(out)@ + decimal(n as nat));
        } else {
            assert(final(out)@ =~= old(out)@ + decimal(n as nat));
        }
    }
}

/// The number in decimal digits.
pub fn decimal_text(n: u128) -> (text: String)
    ensures
        text@ == decimal(n as nat),
{
    let mut text = String::new();
    push_decimal(&mut text, n);
    assert(text@ =~= decimal(n as nat));
    text
}

/// The number in decimal digits, with a minus sign where it is negative.
pub fn signed_decimal_text(n: i64) -> (text: String)
    ensures
        text@ == signed_decimal(n as int),
{
    let mut text = String::new();
    if n < 0 {
        proof {
            reveal_strlit("-");
        }
        text.append("-");
        push_decimal(&mut text, (-(n as i128)) as u128);
        assert(text@ =~= signed_decimal(n as int));
    } else {
        push_decimal(&mut text, n as u128);
        assert(text@ =~= signed_decimal(n as int));
    }
    text
}

fn push_two_decimals(out: &mut String, num: u128, den: u128)
    requires
        num <= 0xffff_ffff_ffff_ffff,
    ensures
        final(out)@ == old(out)@ + two_decimals(num as nat, den as nat),
{
    let hundredths = rounded_ratio_of(num * 100, den);
    push_decimal(out, hundredths / 100);
    proof {
        reveal_strlit(".");
    }
    out.append(".");
    out.append(digit_text(hundredths / 10 % 10));
    out.append(digit_text(hundredths % 10));
    assert(final(out)@ =~= old(out)@ + two_decimals(num as nat, den as nat));
}

/// The win rate in whole percent, as the page of a pilot shows it.
pub fn win_rate_text(tally: &Tally) -> (text: String)
    requires
        tally.wf(),
    ensures
        text@ == decimal(tally.spec_win_rate_percent()),
{
    decimal_text(tally.win_rate_percent() as u128)
}

/// The win rate in percent with one decimal, as the page of a user shows it.
pub fn win_rate_text_tenths(tally: &Tally) -> (text: String)
    requires
        tally.wf(),
    ensures
        text@ == decimal(tally.spec_win_rate_tenths() / 10) + seq![
            '.',
            digit_char(tally.spec_win_rate_tenths() % 10),
        ],
{
    let tenths = tally.win_rate_tenths() as u128;
    let mut text = decimal_text(tenths / 10);
    proof {
        reveal_strlit(".");
    }
    text.append(".");
    text.append(digit_text(tenths % 10));
    assert(text@ =~= decimal(tally.spec_win_rate_tenths() / 10) + seq![
        '.',
        digit_char(tally.spec_win_rate_tenths() % 10),
    ]);
    text
}

/// A number of bytes for a reader.
pub fn format_bytes(bytes: i64) -> (text: String)
    ensures
        text@ == spec_format_bytes(bytes as int),
{
    let mut text = String::new();
    if bytes < 1024 {
        let digits = signed_decimal_text(bytes);
        text.append(digits.as_str());
        text.append(" B");
        assert(text@ =~= spec_format_bytes(bytes as int));
    } else if bytes < 1024 * 1024 {
        push_two_decimals(&mut text, bytes as u128, 1024);
        text.append(" KB");
        assert(text@ =~= spec_format_bytes(bytes as int));
    } else if bytes < 1024 * 1024 * 1024 {
        push_two_decimals(&mut text, bytes as u128, 1024 * 1024);
        text.append(" MB");
        assert(text@ =~= spec_format_bytes(bytes as int));
    } else {
        push_two_decimals(&mut text, bytes as u128, 1024 * 1024 * 1024);
        text.append(" GB");
        assert(text@ =~= spec_format_bytes(bytes as int));
    }
    text
}

/// Where the avatar of a user is served.
pub fn discord_avatar_url(discord_id: &str, avatar_hash: &str) -> (url: String)
    ensures
        url@ == "https://cdn.discordapp.com/avatars/"@ + discord_id@ + "/"@ + avatar_hash@
            + ".png"@,
{
    let mut url = String::from_str("https://cdn.discordapp.com/avatars/");
    url.append(discord_id);
    url.append("/");
    url.append(avatar_hash);
    url.append(".png");
    url
}

/// The date and time of the second `secs` after the Unix epoch, in UTC, as
/// year-month-day hour:minute:second; that of the epoch for a second that the
/// calendar does not hold.
pub fn format_date_time(secs: i64) -> (text: String)
    ensures
        text@ == chrono_text(secs, DATE_TIME_PATTERN@),
{
    format_timestamp(secs, DATE_TIME_PATTERN)
}

/// The whole seconds of a number of milliseconds, rounded towards zero.
pub fn seconds_of_millis(millis: i64) -> (secs: i64)
    ensures
        secs == millis_to_seconds(millis as int),
{
    if millis >= 0 {
        millis / 1000
    } else {
        let back = (-(millis as i128)) / 1000;
        (-back) as i64
    }
}

/// The date and time at which a match was created, from its milliseconds
/// since the Unix epoch.
pub fn match_time_text(created_at: i64) -> (text: String)
    ensures
        text@ == chrono_text(
            millis_to_seconds(created_at as int) as i64,
            DATE_TIME_PATTERN@,
        ),
{
    format_date_time(seconds_of_millis(created_at))
}

/// How long ago something was that lies `elapsed` seconds back.
pub fn format_date_relative(elapsed: i64) -> (text: String)
    ensures
        text@ == spec_format_date_relative(elapsed as int),
{
    if elapsed >= 86_400 {
        let mut text = decimal_text((elapsed / 86_400) as u128);
        text.append(" days ago");
        text
    } else if elapsed >= 3_600 {
        let mut text = decimal_text((elapsed / 3_600) as u128);
        text.append(" hours ago");
        text
    } else if elapsed >= 60 {
        let mut text = decimal_text((elapsed / 60) as u128);
        text.append(" minutes ago");
        text
    } else {
        String::from_str("just now")
    }
}

/// The start of a build from the text that the build left of it: the seconds
/// it spells in decimal, where it spells any and the calendar holds them.
pub open spec fn build_start(build_started: Option<Seq<char>>) -> Option<i64> {
    match build_started {
        Some(text) => match parsed_decimal(text) {
            Some(secs) => if chrono_has_second(secs) {
                Some(secs)
            } else {
                None
            },
            None => None,
        },
        None => None,
    }
}

/// The start of a build from what the text of it spelled and whether the
/// calendar holds that second.
pub fn build_start_of(parsed: Option<i64>, in_range: bool) -> (start: Option<i64>)
    ensures
        start == match parsed {
            Some(secs) => if in_range {
                Some(secs)
            } else {
                None
            },
            None => None,
        },
{
    match parsed {
        Some(secs) => if in_range {
            Some(secs)
        } else {
            None
        },
        None => None,
    }
}

/// What a page shows of the build: the commit, and the date and time at which
/// the build started; "unknown" for each that the build left no word of.
pub fn build_info_ctx(commit: Option<&str>, build_started: Option<&str>) -> (info: BuildInfo)
    ensures
        info.git_hash@ == match commit {
            Some(hash) => hash@,
            None => "unknown"@,
        },
        info.build_date@ == match build_start(
            match build_started {
                Some(text) => Some(text@),
                None => None,
            },
        ) {
            Some(secs) => chrono_text(secs, DATE_TIME_PATTERN@),
            None => "unknown"@,
        },
{
    let git_hash = match commit {
        Some(hash) => String::from_str(hash),
        None => String::from_str("unknown"),
    };
    let start = match build_started {
        Some(text) => {
            let parsed = parse_decimal(text);
            let in_range = match parsed {
                Some(secs) => timestamp_in_range(secs),
                None => false,
            };
            build_start_of(parsed, in_range)
        },
        None => None,
    };
    let build_date = match start {
        Some(secs) => format_date_time(secs),
        None => String::from_str("unknown"),
    };
    BuildInfo { git_hash, build_date }
}

} // verus!
