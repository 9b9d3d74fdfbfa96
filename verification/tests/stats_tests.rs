use api_front::competition::{MatchResult, TeamSlot, Winner};
use api_front::grouping::group_outcomes;
use api_front::sorting::order_desc;
use api_front::stats::{
    matches_with_version, opponent_stats, overall_tally, pilot_rollup, recent_matches,
    version_rollup, version_stats, RECENT_PILOT_MATCHES,
};
use api_front::tally::{Tally, Trend};

fn game(id: u128, a: (u128, i32), b: (u128, i32), winner: Winner, created_at: i64) -> MatchResult {
    MatchResult {
        id,
        team_a: TeamSlot { aip_id: a.0, version: a.1 },
        team_b: TeamSlot { aip_id: b.0, version: b.1 },
        winner,
        created_at,
        manual_run: false,
        replay_id: None,
    }
}

#[test]
fn alpha_scenario_overall() {
    let matches = vec![
        game(100, (1, 1), (2, 1), Winner::TeamA, 1_000),
        game(101, (2, 1), (1, 2), Winner::TeamA, 2_000),
    ];
    let rollup = pilot_rollup(1, &matches);
    assert_eq!(rollup.overall, Tally { wins: 1, losses: 1, total: 2 });
    assert_eq!(rollup.overall.win_rate_percent(), 50);
    assert_eq!(rollup.overall.win_rate_tenths(), 500);
}

#[test]
fn alpha_scenario_versions() {
    let matches = vec![
        game(100, (1, 1), (2, 1), Winner::TeamA, 1_000),
        game(101, (2, 1), (1, 2), Winner::TeamA, 2_000),
    ];
    let rollup = pilot_rollup(1, &matches);
    assert_eq!(rollup.versions.len(), 2);
    let newer = rollup.versions[0];
    let older = rollup.versions[1];
    assert_eq!(newer.version, 2);
    assert_eq!(newer.tally, Tally { wins: 0, losses: 1, total: 1 });
    assert_eq!(newer.tally.win_rate_percent(), 0);
    assert_eq!(newer.trend, Trend::Down);
    assert_eq!(older.version, 1);
    assert_eq!(older.tally, Tally { wins: 1, losses: 0, total: 1 });
    assert_eq!(older.tally.win_rate_percent(), 100);
    assert_eq!(older.trend, Trend::Neutral);
}

#[test]
fn alpha_scenario_opponents_and_recent() {
    let matches = vec![
        game(100, (1, 1), (2, 1), Winner::TeamA, 1_000),
        game(101, (2, 1), (1, 2), Winner::TeamA, 2_000),
    ];
    let rollup = pilot_rollup(1, &matches);
    assert_eq!(rollup.opponents.len(), 1);
    assert_eq!(rollup.opponents[0].opponent, 2);
    assert_eq!(rollup.opponents[0].tally, Tally { wins: 1, losses: 1, total: 2 });
    assert_eq!(rollup.recent.len(), 2);
    assert_eq!(rollup.recent[0].created_at, 2_000);
    assert!(!rollup.recent[0].won);
    assert_eq!(rollup.recent[0].own_version, 2);
    assert_eq!(rollup.recent[0].opponent_version, 1);
    assert_eq!(rollup.recent[1].created_at, 1_000);
    assert!(rollup.recent[1].won);
}

#[test]
fn empty_rollup_has_zero_rate() {
    let rollup = pilot_rollup(1, &Vec::new());
    assert_eq!(rollup.overall, Tally { wins: 0, losses: 0, total: 0 });
    assert_eq!(rollup.overall.win_rate_percent(), 0);
    assert_eq!(rollup.overall.win_rate_tenths(), 0);
    assert!(rollup.opponents.is_empty());
    assert!(rollup.versions.is_empty());
    assert!(rollup.recent.is_empty());
}

#[test]
fn win_rate_is_rounded_to_nearest() {
    assert_eq!(Tally { wins: 1, losses: 2, total: 3 }.win_rate_percent(), 33);
    assert_eq!(Tally { wins: 1, losses: 2, total: 3 }.win_rate_tenths(), 333);
    assert_eq!(Tally { wins: 2, losses: 1, total: 3 }.win_rate_percent(), 67);
    assert_eq!(Tally { wins: 2, losses: 1, total: 3 }.win_rate_tenths(), 667);
    assert_eq!(Tally { wins: 3, losses: 0, total: 3 }.win_rate_percent(), 100);
    assert_eq!(Tally { wins: 3, losses: 0, total: 3 }.win_rate_tenths(), 1000);
}

#[test]
fn win_rate_ties_go_to_even() {
    // 12.5 and 37.5 percent
    assert_eq!(Tally { wins: 1, losses: 7, total: 8 }.win_rate_percent(), 12);
    assert_eq!(Tally { wins: 3, losses: 5, total: 8 }.win_rate_percent(), 38);
    // 0.5 percent
    assert_eq!(Tally { wins: 1, losses: 199, total: 200 }.win_rate_percent(), 0);
    // 6.25 percent
    assert_eq!(Tally { wins: 1, losses: 15, total: 16 }.win_rate_tenths(), 62);
}

#[test]
fn win_rate_stays_in_range() {
    for total in 0..40usize {
        for wins in 0..=total {
            let tally = Tally { wins, losses: total - wins, total };
            assert_eq!(tally.wins + tally.losses, tally.total);
            assert!(tally.win_rate_percent() <= 100);
            assert!(tally.win_rate_tenths() <= 1000);
            if total == 0 {
                assert_eq!(tally.win_rate_percent(), 0);
            }
        }
    }
}

#[test]
fn tally_records_wins_and_losses() {
    let tally = Tally::empty().record(true).record(false).record(true);
    assert_eq!(tally, Tally { wins: 2, losses: 1, total: 3 });
}

#[test]
fn trend_compares_exact_rates() {
    let half = Tally { wins: 1, losses: 1, total: 2 };
    let also_half = Tally { wins: 2, losses: 2, total: 4 };
    let third = Tally { wins: 1, losses: 2, total: 3 };
    let nothing = Tally { wins: 0, losses: 0, total: 0 };
    assert_eq!(half.trend_against(&also_half), Trend::Neutral);
    assert_eq!(half.trend_against(&third), Trend::Up);
    assert_eq!(third.trend_against(&half), Trend::Down);
    assert_eq!(half.trend_against(&nothing), Trend::Up);
    assert_eq!(nothing.trend_against(&half), Trend::Down);
    assert_eq!(nothing.trend_against(&nothing), Trend::Neutral);
    assert!(half.rate_above(&third));
    assert!(!third.rate_above(&half));
}

#[test]
fn order_desc_is_stable() {
    let order = order_desc(&vec![5, 9, 5, 1, 9, 5]);
    assert_eq!(order, vec![1, 4, 0, 2, 5, 3]);
    assert_eq!(order_desc(&Vec::new()), Vec::<usize>::new());
    assert_eq!(order_desc(&vec![-3, -1, -2]), vec![1, 2, 0]);
    assert_eq!(order_desc(&vec![1, 2, 3, 4]), vec![3, 2, 1, 0]);
    assert_eq!(order_desc(&vec![4, 3, 2, 1]), vec![0, 1, 2, 3]);
}

#[test]
fn group_outcomes_keeps_first_appearance() {
    let keys: Vec<u128> = vec![7, 3, 7, 7, 3, 9];
    let won = vec![true, false, false, true, true, false];
    let groups = group_outcomes(&keys, &won);
    assert_eq!(groups.len(), 3);
    assert_eq!(groups[0].first, 0);
    assert_eq!(groups[0].tally, Tally { wins: 2, losses: 1, total: 3 });
    assert_eq!(groups[1].first, 1);
    assert_eq!(groups[1].tally, Tally { wins: 1, losses: 1, total: 2 });
    assert_eq!(groups[2].first, 5);
    assert_eq!(groups[2].tally, Tally { wins: 0, losses: 1, total: 1 });
}

#[test]
fn group_outcomes_by_text() {
    let keys = vec!["a".to_string(), "b".to_string(), "a".to_string()];
    let groups = group_outcomes(&keys, &vec![true, true, false]);
    assert_eq!(groups.len(), 2);
    assert_eq!(groups[0].tally, Tally { wins: 1, losses: 1, total: 2 });
    assert_eq!(groups[1].tally, Tally { wins: 1, losses: 0, total: 1 });
}

#[test]
fn opponents_are_ranked_by_matches_then_first_met() {
    let matches = vec![
        game(1, (1, 1), (5, 1), Winner::TeamA, 10),
        game(2, (6, 1), (1, 1), Winner::TeamA, 20),
        game(3, (1, 1), (7, 1), Winner::TeamB, 30),
        game(4, (7, 1), (1, 1), Winner::TeamB, 40),
        game(5, (1, 1), (6, 1), Winner::Unknown, 50),
    ];
    let rows = opponent_stats(1, &matches);
    assert_eq!(rows.len(), 3);
    // 6 and 7 have two matches each, 6 was met first; 5 has one
    assert_eq!(rows[0].opponent, 6);
    assert_eq!(rows[0].tally, Tally { wins: 0, losses: 2, total: 2 });
    assert_eq!(rows[1].opponent, 7);
    assert_eq!(rows[1].tally, Tally { wins: 1, losses: 1, total: 2 });
    assert_eq!(rows[2].opponent, 5);
    assert_eq!(rows[2].tally, Tally { wins: 1, losses: 0, total: 1 });
}

#[test]
fn both_sides_count_alike() {
    let as_a = vec![game(1, (1, 1), (2, 1), Winner::TeamA, 10)];
    let as_b = vec![game(1, (2, 1), (1, 1), Winner::TeamB, 10)];
    assert_eq!(overall_tally(1, &as_a), overall_tally(1, &as_b));
    assert_eq!(opponent_stats(1, &as_a)[0].tally, opponent_stats(1, &as_b)[0].tally);
    assert_eq!(opponent_stats(1, &as_a)[0].opponent, 2);
    assert_eq!(opponent_stats(1, &as_b)[0].opponent, 2);
}

#[test]
fn unknown_winner_is_a_loss() {
    let matches = vec![game(1, (1, 1), (2, 1), Winner::Unknown, 10)];
    assert_eq!(overall_tally(1, &matches), Tally { wins: 0, losses: 1, total: 1 });
}

#[test]
fn versions_are_ranked_from_the_highest() {
    let matches = vec![
        game(1, (1, 2), (5, 1), Winner::TeamA, 10),
        game(2, (1, 1), (5, 1), Winner::TeamB, 20),
        game(3, (5, 1), (1, 3), Winner::TeamB, 30),
        game(4, (1, 2), (5, 1), Winner::TeamB, 40),
        game(5, (1, 1), (5, 1), Winner::TeamB, 50),
    ];
    let rows = version_stats(1, &matches);
    assert_eq!(rows.len(), 3);
    assert_eq!(rows[0].version, 3);
    assert_eq!(rows[0].tally, Tally { wins: 1, losses: 0, total: 1 });
    assert_eq!(rows[0].trend, Trend::Up);
    assert_eq!(rows[1].version, 2);
    assert_eq!(rows[1].tally, Tally { wins: 1, losses: 1, total: 2 });
    assert_eq!(rows[1].trend, Trend::Up);
    assert_eq!(rows[2].version, 1);
    assert_eq!(rows[2].tally, Tally { wins: 0, losses: 2, total: 2 });
    assert_eq!(rows[2].trend, Trend::Neutral);
}

#[test]
fn recent_matches_are_cut_at_the_limit() {
    let mut matches = Vec::new();
    for i in 0..25i64 {
        matches.push(game(i as u128, (1, 1), (2, 1), Winner::TeamA, i * 100));
    }
    let rows = recent_matches(1, &matches, RECENT_PILOT_MATCHES);
    assert_eq!(rows.len(), 10);
    for (i, row) in rows.iter().enumerate() {
        assert_eq!(row.created_at, (24 - i as i64) * 100);
    }
    assert_eq!(recent_matches(1, &matches, 0).len(), 0);
    assert_eq!(recent_matches(1, &matches, 100).len(), 25);
}

#[test]
fn recent_matches_keep_turn_on_equal_times() {
    let mut first = game(1, (1, 1), (2, 1), Winner::TeamA, 500);
    first.manual_run = true;
    let second = game(2, (1, 1), (3, 1), Winner::TeamB, 500);
    let rows = recent_matches(1, &vec![first, second], 10);
    assert_eq!(rows[0].opponent, 2);
    assert!(rows[0].is_manual);
    assert_eq!(rows[1].opponent, 3);
    assert!(!rows[1].is_manual);
}

#[test]
fn version_rollup_keeps_one_version() {
    let matches = vec![
        game(1, (1, 2), (5, 1), Winner::TeamA, 10),
        game(2, (1, 1), (5, 2), Winner::TeamB, 20),
        game(3, (5, 2), (1, 2), Winner::TeamB, 30),
        game(4, (6, 2), (5, 2), Winner::TeamB, 40),
    ];
    let kept = matches_with_version(1, 2, &matches);
    assert_eq!(kept.len(), 2);
    assert_eq!(kept[0].id, 1);
    assert_eq!(kept[1].id, 3);
    let rollup = version_rollup(1, 2, &matches);
    assert_eq!(rollup.overall, Tally { wins: 2, losses: 0, total: 2 });
    assert_eq!(rollup.opponents.len(), 1);
    assert_eq!(rollup.opponents[0].opponent, 5);
    assert!(rollup.versions.is_empty());
    assert_eq!(rollup.recent.len(), 2);
    assert_eq!(rollup.recent[0].created_at, 30);
}

#[test]
fn match_sides() {
    let m = game(1, (1, 4), (2, 7), Winner::TeamB, 10);
    assert!(m.involves(1));
    assert!(m.involves(2));
    assert!(!m.involves(3));
    assert!(m.won_by(2));
    assert!(!m.won_by(1));
    assert_eq!(m.own_slot(2), TeamSlot { aip_id: 2, version: 7 });
    assert_eq!(m.opponent_slot(2), TeamSlot { aip_id: 1, version: 4 });
    assert!(m.side_won(2));
    assert!(!m.side_won(1));
}

#[test]
fn every_match_is_in_exactly_one_group() {
    let mut matches = Vec::new();
    for i in 0..60u128 {
        let winner = if i % 3 == 0 { Winner::TeamA } else { Winner::TeamB };
        let other = 2 + i % 7;
        let sides = if i % 2 == 0 { ((1, 1), (other, 1)) } else { ((other, 1), (1, (i % 4) as i32)) };
        matches.push(game(i, sides.0, sides.1, winner, (i * 37 % 11) as i64));
    }
    let rollup = pilot_rollup(1, &matches);
    let by_opponent: usize = rollup.opponents.iter().map(|r| r.tally.total).sum();
    let by_version: usize = rollup.versions.iter().map(|r| r.tally.total).sum();
    assert_eq!(by_opponent, 60);
    assert_eq!(by_version, 60);
    let wins: usize = rollup.opponents.iter().map(|r| r.tally.wins).sum();
    assert_eq!(wins, rollup.overall.wins);
    for row in &rollup.opponents {
        assert_eq!(row.tally.wins + row.tally.losses, row.tally.total);
    }
    for pair in rollup.opponents.windows(2) {
        assert!(pair[0].tally.total >= pair[1].tally.total);
    }
    for pair in rollup.versions.windows(2) {
        assert!(pair[0].version > pair[1].version);
    }
    for pair in rollup.recent.windows(2) {
        assert!(pair[0].created_at >= pair[1].created_at);
    }
}

#[test]
fn swapping_sides_changes_nothing() {
    let seen = vec![
        game(1, (1, 1), (2, 3), Winner::TeamA, 10),
        game(2, (1, 2), (3, 1), Winner::TeamB, 20),
        game(3, (1, 2), (2, 1), Winner::Unknown, 30),
    ];
    let swapped: Vec<MatchResult> = seen
        .iter()
        .map(|m| MatchResult {
            team_a: m.team_b,
            team_b: m.team_a,
            winner: match m.winner {
                Winner::TeamA => Winner::TeamB,
                Winner::TeamB => Winner::TeamA,
                Winner::Unknown => Winner::Unknown,
            },
            ..*m
        })
        .collect();
    let a = pilot_rollup(1, &seen);
    let b = pilot_rollup(1, &swapped);
    assert_eq!(a.overall, b.overall);
    assert_eq!(a.recent, b.recent);
    let rows = |r: &api_front::stats::PilotRollup| {
        r.opponents.iter().map(|o| (o.opponent, o.tally)).collect::<Vec<_>>()
    };
    assert_eq!(rows(&a), rows(&b));
    let versions = |r: &api_front::stats::PilotRollup| {
        r.versions.iter().map(|v| (v.version, v.tally, v.trend)).collect::<Vec<_>>()
    };
    assert_eq!(versions(&a), versions(&b));
}
