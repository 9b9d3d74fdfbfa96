use api_front::api_error::ApiErrors;
use api_front::competition::{AiPilot, MatchResult, TeamSlot, Winner};
use api_front::overview::users_overview;
use api_front::tally::Tally;
use api_front::users::{
    all_involve, first_involved, join_matches, joint_tally, pilots_of_owner, user_rollup,
    won_by_one_of,
};

fn pilot(id: u128, name: &str, owner: &str, version: i32) -> AiPilot {
    AiPilot { id, name: name.to_string(), owner_id: owner.to_string(), current_version: version }
}

fn played(id: u128, a: u128, b: u128, winner: Winner, created_at: i64) -> MatchResult {
    MatchResult {
        id,
        team_a: TeamSlot { aip_id: a, version: 1 },
        team_b: TeamSlot { aip_id: b, version: 2 },
        winner,
        created_at,
        manual_run: false,
        replay_id: None,
    }
}

#[test]
fn pilots_of_owner_keeps_order() {
    let pilots = vec![
        pilot(1, "alpha", "u1", 1),
        pilot(2, "beta", "u2", 1),
        pilot(3, "gamma", "u1", 4),
    ];
    let own = pilots_of_owner(&pilots, "u1").unwrap();
    assert_eq!(own.len(), 2);
    assert_eq!(own[0].name, "alpha");
    assert_eq!(own[1].name, "gamma");
    assert_eq!(own[1].current_version, 4);
}

#[test]
fn pilots_of_unknown_owner_is_not_found() {
    let pilots = vec![pilot(1, "alpha", "u1", 1)];
    match pilots_of_owner(&pilots, "nobody") {
        Err(ApiErrors::NotFound(msg)) => assert_eq!(msg, "User not found or has no pilots"),
        other => panic!("expected a 404, got {:?}", other),
    }
    assert!(matches!(pilots_of_owner(&Vec::new(), "u1"), Err(ApiErrors::NotFound(_))));
}

#[test]
fn user_rollup_counts_over_all_pilots() {
    let pilots = vec![pilot(1, "alpha", "u1", 1), pilot(3, "gamma", "u1", 1)];
    let matches = vec![
        vec![played(10, 1, 2, Winner::TeamA, 100)],
        vec![
            played(11, 2, 3, Winner::TeamB, 300),
            played(12, 3, 2, Winner::TeamB, 200),
            played(13, 3, 4, Winner::Unknown, 400),
        ],
    ];
    let rollup = user_rollup(&pilots, &matches);
    assert_eq!(rollup.pilot_count, 2);
    assert_eq!(rollup.overall, Tally { wins: 2, losses: 2, total: 4 });
    assert_eq!(rollup.overall.win_rate_tenths(), 500);
    // gamma played more, so it comes first
    assert_eq!(rollup.pilots.len(), 2);
    assert_eq!(rollup.pilots[0].pilot, 1);
    assert_eq!(rollup.pilots[0].tally, Tally { wins: 1, losses: 2, total: 3 });
    assert_eq!(rollup.pilots[1].pilot, 0);
    assert_eq!(rollup.pilots[1].tally, Tally { wins: 1, losses: 0, total: 1 });
    // the latest first
    let times: Vec<i64> = rollup.recent.iter().map(|r| r.row.created_at).collect();
    assert_eq!(times, vec![400, 300, 200, 100]);
    assert_eq!(rollup.recent[0].pilot, 1);
    assert_eq!(rollup.recent[0].row.opponent, 4);
    assert_eq!(rollup.recent[1].pilot, 1);
    assert_eq!(rollup.recent[1].row.opponent, 2);
    assert!(rollup.recent[1].row.won);
    assert_eq!(rollup.recent[1].row.own_version, 2);
    assert_eq!(rollup.recent[3].pilot, 0);
    assert!(rollup.recent[3].row.won);
}

#[test]
fn user_rollup_lists_twenty_matches() {
    let pilots = vec![pilot(1, "alpha", "u1", 1)];
    let mut list = Vec::new();
    for i in 0..30i64 {
        list.push(played(i as u128, 1, 2, Winner::TeamA, i));
    }
    let rollup = user_rollup(&pilots, &vec![list]);
    assert_eq!(rollup.recent.len(), 20);
    assert_eq!(rollup.recent[0].row.created_at, 29);
    assert_eq!(rollup.recent[19].row.created_at, 10);
    assert_eq!(rollup.overall, Tally { wins: 30, losses: 0, total: 30 });
}

#[test]
fn a_match_between_own_pilots_is_seen_by_the_first() {
    let pilots = vec![pilot(1, "alpha", "u1", 1), pilot(3, "gamma", "u1", 1)];
    let duel = played(10, 3, 1, Winner::TeamA, 100);
    assert_eq!(first_involved(&duel, &pilots), Some(0));
    assert!(won_by_one_of(&duel, &pilots));
    let rollup = user_rollup(&pilots, &vec![vec![duel], vec![duel]]);
    assert_eq!(rollup.overall, Tally { wins: 2, losses: 0, total: 2 });
    assert_eq!(rollup.recent.len(), 2);
    assert_eq!(rollup.recent[0].pilot, 0);
    assert_eq!(rollup.recent[0].row.opponent, 3);
    assert!(!rollup.recent[0].row.won);
}

#[test]
fn helpers_on_lists_of_matches() {
    let pilots = vec![pilot(1, "alpha", "u1", 1), pilot(3, "gamma", "u1", 1)];
    let lists = vec![
        vec![played(10, 1, 2, Winner::TeamA, 100)],
        Vec::new(),
        vec![played(11, 2, 3, Winner::TeamA, 300), played(12, 9, 8, Winner::TeamA, 1)],
    ];
    let all = join_matches(&lists);
    let ids: Vec<u128> = all.iter().map(|m| m.id).collect();
    assert_eq!(ids, vec![10, 11, 12]);
    assert!(!all_involve(&pilots, &all));
    assert!(all_involve(&pilots, &all[..2].to_vec()));
    assert_eq!(first_involved(&all[2], &pilots), None);
    assert_eq!(first_involved(&all[1], &pilots), Some(1));
    assert_eq!(joint_tally(&pilots, &all), Tally { wins: 1, losses: 2, total: 3 });
}

#[test]
fn users_overview_groups_by_owner() {
    let pilots = vec![
        pilot(1, "alpha", "u1", 1),
        pilot(2, "beta", "u2", 1),
        pilot(3, "gamma", "u1", 1),
        pilot(4, "delta", "u3", 1),
    ];
    let matches = vec![
        vec![played(10, 1, 2, Winner::TeamA, 100)],
        vec![played(10, 1, 2, Winner::TeamA, 100), played(11, 2, 4, Winner::TeamA, 200)],
        vec![],
        vec![played(11, 2, 4, Winner::TeamA, 200)],
    ];
    let rows = users_overview(&pilots, &matches);
    assert_eq!(rows.len(), 3);
    // u1 has two pilots; u2 and u3 have one each, u2 has more matches
    assert_eq!(rows[0].first_pilot, 0);
    assert_eq!(rows[0].pilot_count, 2);
    assert_eq!(rows[0].pilots, vec![0, 2]);
    assert_eq!(rows[0].tally, Tally { wins: 1, losses: 0, total: 1 });
    assert_eq!(rows[1].first_pilot, 1);
    assert_eq!(rows[1].pilots, vec![1]);
    assert_eq!(rows[1].tally, Tally { wins: 1, losses: 1, total: 2 });
    assert_eq!(rows[1].tally.win_rate_tenths(), 500);
    assert_eq!(rows[2].first_pilot, 3);
    assert_eq!(rows[2].tally, Tally { wins: 0, losses: 1, total: 1 });
}

#[test]
fn users_overview_keeps_turn_on_ties() {
    let pilots = vec![pilot(1, "a", "u1", 1), pilot(2, "b", "u2", 1), pilot(3, "c", "u3", 1)];
    let rows = users_overview(&pilots, &vec![vec![], vec![], vec![]]);
    let firsts: Vec<usize> = rows.iter().map(|r| r.first_pilot).collect();
    assert_eq!(firsts, vec![0, 1, 2]);
    assert!(users_overview(&Vec::new(), &Vec::new()).is_empty());
}
