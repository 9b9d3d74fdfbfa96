use api_front::api_client::ApiClient;
use api_front::competition::{AiPilot, MatchResult, TeamSlot, Winner};
use api_front::home::{
    avatar_of, creator_label, display_username, download_url, home_matches, home_pilots, owns,
    partition_names, winner_label, PilotCard,
};
use api_front::sso_client::DiscordUserInfo;
use api_front::tally::Tally;
use api_front::util::{
    build_info_ctx, build_start_of, decimal_text, discord_avatar_url, format_bytes,
    format_date_relative, format_date_time, match_time_text, seconds_of_millis,
    signed_decimal_text, win_rate_text, win_rate_text_tenths, DATE_TIME_PATTERN,
};

fn pilot(id: u128, name: &str, owner: &str) -> AiPilot {
    AiPilot { id, name: name.to_string(), owner_id: owner.to_string(), current_version: 1 }
}

fn profile() -> DiscordUserInfo {
    DiscordUserInfo { id: "42".to_string(), username: "neo".to_string(), avatar: "a1b2".to_string() }
}

#[test]
fn bytes_below_a_kilobyte() {
    assert_eq!(format_bytes(0), "0 B");
    assert_eq!(format_bytes(512), "512 B");
    assert_eq!(format_bytes(1023), "1023 B");
    assert_eq!(format_bytes(-5), "-5 B");
    assert_eq!(format_bytes(i64::MIN), format!("{} B", i64::MIN));
}

#[test]
fn bytes_in_larger_units() {
    assert_eq!(format_bytes(1024), "1.00 KB");
    assert_eq!(format_bytes(1536), "1.50 KB");
    assert_eq!(format_bytes(1024 * 1024 - 1), "1024.00 KB");
    assert_eq!(format_bytes(1024 * 1024), "1.00 MB");
    assert_eq!(format_bytes(5 * 1024 * 1024 + 52_429), "5.05 MB");
    assert_eq!(format_bytes(1024 * 1024 * 1024), "1.00 GB");
    assert_eq!(format_bytes(3 * 1024 * 1024 * 1024 / 2), "1.50 GB");
}

#[test]
fn bytes_agree_with_binary_fractions() {
    for bytes in [1025i64, 1029, 1034, 2047, 4100, 99_999, 1_000_000, 123_456_789, 9_876_543_210] {
        let expected = if bytes < 1024 * 1024 {
            format!("{:.2} KB", bytes as f64 / 1024.0)
        } else if bytes < 1024 * 1024 * 1024 {
            format!("{:.2} MB", bytes as f64 / (1024.0 * 1024.0))
        } else {
            format!("{:.2} GB", bytes as f64 / (1024.0 * 1024.0 * 1024.0))
        };
        assert_eq!(format_bytes(bytes), expected);
    }
}

#[test]
fn numbers_in_decimal() {
    assert_eq!(decimal_text(0), "0");
    assert_eq!(decimal_text(7), "7");
    assert_eq!(decimal_text(10), "10");
    assert_eq!(decimal_text(1_234_567_890), "1234567890");
    assert_eq!(decimal_text(u128::MAX), u128::MAX.to_string());
    assert_eq!(signed_decimal_text(-42), "-42");
    assert_eq!(signed_decimal_text(42), "42");
    assert_eq!(signed_decimal_text(i64::MIN), i64::MIN.to_string());
}

#[test]
fn avatar_address() {
    assert_eq!(discord_avatar_url("42", "a1b2"), "https://cdn.discordapp.com/avatars/42/a1b2.png");
    assert_eq!(
        avatar_of(&Some(profile()), "42"),
        Some("https://cdn.discordapp.com/avatars/42/a1b2.png".to_string())
    );
    assert_eq!(avatar_of(&None, "42"), None);
}

#[test]
fn dates_and_times() {
    assert_eq!(DATE_TIME_PATTERN, "%Y-%m-%d %H:%M:%S");
    assert_eq!(format_date_time(0), "1970-01-01 00:00:00");
    assert_eq!(format_date_time(1_431_648_000), "2015-05-15 00:00:00");
    assert_eq!(format_date_time(1_700_000_000), "2023-11-14 22:13:20");
    assert_eq!(format_date_time(-1), "1969-12-31 23:59:59");
    // no calendar holds this second: the epoch is shown
    assert_eq!(format_date_time(i64::MAX), "1970-01-01 00:00:00");
    assert_eq!(format_date_time(8_210_266_876_799), "+262142-12-31 23:59:59");
    assert_eq!(format_date_time(8_210_266_876_800), "1970-01-01 00:00:00");
    assert_eq!(format_date_time(-8_334_601_228_800), "-262143-01-01 00:00:00");
    assert_eq!(format_date_time(-8_334_601_228_801), "1970-01-01 00:00:00");
}

#[test]
fn match_times_are_cut_to_seconds() {
    assert_eq!(seconds_of_millis(0), 0);
    assert_eq!(seconds_of_millis(1_999), 1);
    assert_eq!(seconds_of_millis(-1), 0);
    assert_eq!(seconds_of_millis(-1_000), -1);
    assert_eq!(seconds_of_millis(-1_999), -1);
    assert_eq!(seconds_of_millis(i64::MIN), i64::MIN / 1000);
    assert_eq!(seconds_of_millis(i64::MAX), i64::MAX / 1000);
    assert_eq!(match_time_text(1_431_648_000_999), "2015-05-15 00:00:00");
}

#[test]
fn how_long_ago() {
    assert_eq!(format_date_relative(0), "just now");
    assert_eq!(format_date_relative(59), "just now");
    assert_eq!(format_date_relative(-5_000), "just now");
    assert_eq!(format_date_relative(60), "1 minutes ago");
    assert_eq!(format_date_relative(3_599), "59 minutes ago");
    assert_eq!(format_date_relative(3_600), "1 hours ago");
    assert_eq!(format_date_relative(86_399), "23 hours ago");
    assert_eq!(format_date_relative(86_400), "1 days ago");
    assert_eq!(format_date_relative(10 * 86_400 + 5), "10 days ago");
}

#[test]
fn build_info() {
    let known = build_info_ctx(Some("abc123"), Some("1431648000"));
    assert_eq!(known.git_hash, "abc123");
    assert_eq!(known.build_date, "2015-05-15 00:00:00");
    let unknown = build_info_ctx(None, None);
    assert_eq!(unknown.git_hash, "unknown");
    assert_eq!(unknown.build_date, "unknown");
    assert_eq!(build_info_ctx(None, Some("not a number")).build_date, "unknown");
    assert_eq!(build_info_ctx(None, Some("9223372036854775807")).build_date, "unknown");
    assert_eq!(build_info_ctx(None, Some("")).build_date, "unknown");
    assert_eq!(build_start_of(Some(5), true), Some(5));
    assert_eq!(build_start_of(Some(5), false), None);
    assert_eq!(build_start_of(None, true), None);
}

#[test]
fn own_pilots_come_first() {
    let pilots = vec![
        pilot(1, "alpha", "u1"),
        pilot(2, "beta", "u2"),
        pilot(3, "gamma", "u1"),
        pilot(4, "delta", "u2"),
    ];
    let cards = home_pilots(&pilots, Some("u2"));
    assert_eq!(
        cards,
        vec![
            PilotCard { pilot: 1, is_own: true },
            PilotCard { pilot: 3, is_own: true },
            PilotCard { pilot: 0, is_own: false },
            PilotCard { pilot: 2, is_own: false },
        ]
    );
    let anonymous = home_pilots(&pilots, None);
    let places: Vec<usize> = anonymous.iter().map(|c| c.pilot).collect();
    assert_eq!(places, vec![0, 1, 2, 3]);
    assert!(anonymous.iter().all(|c| !c.is_own));
    assert!(owns(Some("u1"), &pilots[0]));
    assert!(!owns(Some("u2"), &pilots[0]));
    assert!(!owns(None, &pilots[0]));
}

#[test]
fn names_beside_pilots() {
    assert_eq!(creator_label(true, &Some(profile()), "42"), "You");
    assert_eq!(creator_label(false, &Some(profile()), "42"), "neo");
    assert_eq!(creator_label(false, &None, "42"), "42");
    assert_eq!(display_username(&Some(profile()), "42"), "neo");
    assert_eq!(display_username(&None, "42"), "42");
}

#[test]
fn latest_matches_come_first() {
    let game = |id: u128, created_at: i64| MatchResult {
        id,
        team_a: TeamSlot { aip_id: 1, version: 1 },
        team_b: TeamSlot { aip_id: 2, version: 1 },
        winner: Winner::TeamA,
        created_at,
        manual_run: false,
        replay_id: None,
    };
    let sorted = home_matches(&vec![game(1, 10), game(2, 30), game(3, 20), game(4, 30)]);
    let ids: Vec<u128> = sorted.iter().map(|m| m.id).collect();
    assert_eq!(ids, vec![2, 4, 3, 1]);
}

#[test]
fn names_beside_matches() {
    assert_eq!(winner_label(Winner::TeamA, "alpha", "beta"), "alpha");
    assert_eq!(winner_label(Winner::TeamB, "alpha", "beta"), "beta");
    assert_eq!(winner_label(Winner::Unknown, "alpha", "beta"), "Unknown");
    let client = ApiClient::new("http://api.test".to_string());
    assert_eq!(
        download_url(&client, Some(2)),
        Some("http://api.test/replay?replayId=00000000-0000-0000-0000-000000000002".to_string())
    );
    assert_eq!(download_url(&client, None), None);
}

#[test]
fn names_for_the_upload_page() {
    let pilots = vec![pilot(1, "alpha", "u1"), pilot(2, "beta", "u2"), pilot(3, "gamma", "u1")];
    let (mine, others) = partition_names(&pilots, "u1");
    assert_eq!(mine, vec!["alpha".to_string(), "gamma".to_string()]);
    assert_eq!(others, vec!["beta".to_string()]);
}

#[test]
fn win_rates_as_texts() {
    let half = Tally { wins: 1, losses: 1, total: 2 };
    assert_eq!(win_rate_text(&half), "50");
    assert_eq!(win_rate_text_tenths(&half), "50.0");
    let third = Tally { wins: 1, losses: 2, total: 3 };
    assert_eq!(win_rate_text(&third), "33");
    assert_eq!(win_rate_text_tenths(&third), "33.3");
    let all = Tally { wins: 7, losses: 0, total: 7 };
    assert_eq!(win_rate_text(&all), "100");
    assert_eq!(win_rate_text_tenths(&all), "100.0");
    let none = Tally { wins: 0, losses: 0, total: 0 };
    assert_eq!(win_rate_text(&none), "0");
    assert_eq!(win_rate_text_tenths(&none), "0.0");
}

#[test]
fn win_rates_agree_with_binary_fractions_off_the_halfway_points() {
    for total in 1..=300usize {
        for wins in 0..=total {
            let tally = Tally { wins, losses: total - wins, total };
            let rate = wins as f32 / total as f32 * 100.0;
            let halfway = |scale: usize| {
                (2 * wins * 100 * scale) % total == 0 && (wins * 100 * scale) % total != 0
            };
            if !halfway(1) {
                assert_eq!(win_rate_text(&tally), format!("{:.0}", rate));
            }
            if !halfway(10) {
                assert_eq!(win_rate_text_tenths(&tally), format!("{:.1}", rate));
            }
        }
    }
}
