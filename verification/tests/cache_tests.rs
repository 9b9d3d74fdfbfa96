use api_front::api_client::{ApiClient, PILOT_NAME_CACHE_CAPACITY};
use api_front::competition::{AiPilot, MatchResult, TeamSlot, Winner};
use api_front::read_through::{after_lookup, Lookup};
use api_front::sso_client::{
    DiscordUserInfo, SSOClient, IDENTITY_CACHE_CAPACITY, IDENTITY_TIME_TO_LIVE,
};

fn pilot(id: u128, name: &str) -> AiPilot {
    AiPilot { id, name: name.to_string(), owner_id: "u1".to_string(), current_version: 1 }
}

fn profile(id: &str, username: &str) -> DiscordUserInfo {
    DiscordUserInfo {
        id: id.to_string(),
        username: username.to_string(),
        avatar: "a1b2".to_string(),
    }
}

#[test]
fn cache_limits() {
    assert_eq!(PILOT_NAME_CACHE_CAPACITY, 2048);
    assert_eq!(IDENTITY_CACHE_CAPACITY, 2048);
    assert_eq!(IDENTITY_TIME_TO_LIVE, 24 * 60 * 60);
}

#[test]
fn listing_pilots_warms_the_name_cache() {
    let mut client = ApiClient::new("http://api.test".to_string());
    let key = uuid::Uuid::from_u128(7).to_string();
    assert_eq!(client.get_cached_pilot_name(&key), None);
    let listed = client.get_pilots(Some(vec![pilot(7, "alpha"), pilot(8, "beta")]));
    assert_eq!(listed.len(), 2);
    assert_eq!(listed[0].name, "alpha");
    assert_eq!(listed[1].id, 8);
    assert_eq!(client.get_cached_pilot_name(&key), Some("alpha".to_string()));
    assert_eq!(client.pilot_name_or_id(8), "beta");
}

#[test]
fn listing_the_same_pilots_twice_gives_the_same() {
    let mut client = ApiClient::new("http://api.test".to_string());
    let first = client.get_pilots(Some(vec![pilot(7, "alpha"), pilot(8, "beta")]));
    let second = client.get_pilots(Some(vec![pilot(7, "alpha"), pilot(8, "beta")]));
    let names = |list: &Vec<AiPilot>| list.iter().map(|p| p.name.clone()).collect::<Vec<_>>();
    assert_eq!(names(&first), names(&second));
    assert_eq!(client.pilot_name_or_id(7), "alpha");
    assert_eq!(client.pilot_name_or_id(8), "beta");
}

#[test]
fn a_failed_listing_is_empty_and_caches_nothing() {
    let mut client = ApiClient::new("http://api.test".to_string());
    assert!(client.get_pilots(None).is_empty());
    assert_eq!(client.pilot_name_or_id(7), uuid::Uuid::from_u128(7).to_string());
}

#[test]
fn unknown_pilot_is_shown_by_its_id() {
    let client = ApiClient::new("http://api.test".to_string());
    assert_eq!(client.pilot_name_or_id(1), "00000000-0000-0000-0000-000000000001");
    assert_eq!(
        client.pilot_name_or_id(0x0123_4567_89ab_cdef_0123_4567_89ab_cdef),
        "01234567-89ab-cdef-0123-456789abcdef"
    );
    assert_eq!(ApiClient::resolve_name(Some("alpha".to_string()), 1), "alpha");
    assert_eq!(ApiClient::resolve_name(None, 1), "00000000-0000-0000-0000-000000000001");
}

#[test]
fn a_later_name_replaces_an_earlier_one() {
    let mut client = ApiClient::new("http://api.test".to_string());
    client.remember_pilots(&vec![pilot(7, "alpha"), pilot(7, "alpha2")]);
    assert_eq!(client.pilot_name_or_id(7), "alpha2");
    assert_eq!(client.pilot_name_or_id(9), uuid::Uuid::from_u128(9).to_string());
}

#[test]
fn answers_of_the_competition_service() {
    let mut client = ApiClient::new("http://api.test".to_string());
    assert!(client.get_pilot(None).is_none());
    assert!(client.get_pilot(Some(Vec::new())).is_none());
    let last = client.get_pilot(Some(vec![pilot(1, "a"), pilot(2, "b")])).unwrap();
    assert_eq!(last.name, "b");
    let named = client.get_pilot_by_name(Some(vec![pilot(3, "c")])).unwrap();
    assert_eq!(named.id, 3);
    assert!(client.get_pilot_by_name(None).is_none());
    let m = MatchResult {
        id: 5,
        team_a: TeamSlot { aip_id: 1, version: 1 },
        team_b: TeamSlot { aip_id: 2, version: 1 },
        winner: Winner::TeamA,
        created_at: 0,
        manual_run: true,
        replay_id: Some(9),
    };
    assert_eq!(ApiClient::get_match(Some(vec![m])).unwrap().id, 5);
    assert!(ApiClient::get_match(Some(Vec::new())).is_none());
    assert!(ApiClient::get_match(None).is_none());
    assert_eq!(ApiClient::get_matches(Some(vec![m, m])).len(), 2);
    assert!(ApiClient::get_matches(None).is_empty());
}

#[test]
fn a_lookup_of_one_pilot_warms_the_name_cache() {
    let mut client = ApiClient::new("http://api.test".to_string());
    let found = client.get_pilot_by_name(Some(vec![pilot(7, "alpha")])).unwrap();
    assert_eq!(found.name, "alpha");
    assert_eq!(
        client.get_cached_pilot_name(&uuid::Uuid::from_u128(7).to_string()),
        Some("alpha".to_string())
    );
    let by_id = client.get_pilot(Some(vec![pilot(8, "beta"), pilot(9, "gamma")])).unwrap();
    assert_eq!(by_id.id, 9);
    assert_eq!(client.pilot_name_or_id(8), "beta");
    assert_eq!(client.pilot_name_or_id(9), "gamma");
    // a failure and an empty answer write nothing
    assert!(client.get_pilot(None).is_none());
    assert!(client.get_pilot_by_name(Some(Vec::new())).is_none());
    assert_eq!(client.pilot_name_or_id(10), uuid::Uuid::from_u128(10).to_string());
}

#[test]
fn addresses_of_the_competition_service() {
    let client = ApiClient::new("http://api.test".to_string());
    assert_eq!(client.base_url(), "http://api.test");
    assert_eq!(
        client.replay_url(1),
        "http://api.test/replay?replayId=00000000-0000-0000-0000-000000000001"
    );
}

#[test]
fn a_miss_asks_for_a_fetch() {
    let client = SSOClient::new("http://front.test".to_string());
    assert!(client.get_user("42").is_none());
    match client.lookup("42") {
        Lookup::Fetch(id) => assert_eq!(id, "42"),
        Lookup::Hit(_) => panic!("nothing was cached"),
    }
}

#[test]
fn a_fetched_profile_is_read_back_without_a_fetch() {
    let mut client = SSOClient::new("http://front.test".to_string());
    let stored = client.remember_user("42", Some(profile("42", "neo"))).unwrap();
    assert_eq!(stored.username, "neo");
    match client.lookup("42") {
        Lookup::Hit(info) => {
            assert_eq!(info.id, "42");
            assert_eq!(info.username, "neo");
            assert_eq!(info.avatar, "a1b2");
        }
        Lookup::Fetch(_) => panic!("the profile was cached"),
    }
    assert_eq!(client.get_user("42").unwrap().username, "neo");
    assert!(client.get_user("43").is_none());
}

#[test]
fn a_failed_fetch_is_not_cached() {
    let mut client = SSOClient::new("http://front.test".to_string());
    assert!(client.remember_user("42", None).is_none());
    assert!(matches!(client.lookup("42"), Lookup::Fetch(_)));
    // the service recovers
    client.remember_user("42", Some(profile("42", "neo")));
    assert!(matches!(client.lookup("42"), Lookup::Hit(_)));
}

#[test]
fn after_lookup_decides_on_the_answer_of_the_cache() {
    assert!(matches!(after_lookup::<DiscordUserInfo>("42", None), Lookup::Fetch(_)));
    match after_lookup("42", Some(profile("42", "neo"))) {
        Lookup::Hit(info) => assert_eq!(info.username, "neo"),
        Lookup::Fetch(_) => panic!("the cache answered"),
    }
}

#[test]
fn addresses_of_the_identity_service() {
    let client = SSOClient::new("http://front.test".to_string());
    assert_eq!(
        client.get_redirect_url(),
        "https://sso.isan.to/login?service=http://front.test/login_callback"
    );
    assert_eq!(SSOClient::user_info_url("42"), "https://sso.isan.to/uinfo/42");
    assert_eq!(SSOClient::oauth_user_url("c0de"), "https://sso.isan.to/getuser/c0de");
}

#[test]
fn a_pilot_name_is_read_through() {
    let mut client = ApiClient::new("http://api.test".to_string());
    match client.lookup_pilot_name(7) {
        Lookup::Fetch(key) => assert_eq!(key, uuid::Uuid::from_u128(7).to_string()),
        Lookup::Hit(_) => panic!("nothing was cached"),
    }
    assert!(client.get_pilot(None).is_none());
    assert!(matches!(client.lookup_pilot_name(7), Lookup::Fetch(_)));
    assert_eq!(client.get_pilot(Some(vec![pilot(7, "alpha")])).unwrap().name, "alpha");
    match client.lookup_pilot_name(7) {
        Lookup::Hit(name) => assert_eq!(name, "alpha"),
        Lookup::Fetch(_) => panic!("the name was cached"),
    }
}

#[test]
fn as_many_names_as_the_cache_holds_are_all_found() {
    let mut client = ApiClient::new("http://api.test".to_string());
    let count = PILOT_NAME_CACHE_CAPACITY as u128;
    let pilots: Vec<AiPilot> = (0..count).map(|i| pilot(i, &format!("pilot{}", i))).collect();
    let listed = client.get_pilots(Some(pilots));
    assert_eq!(listed.len(), 2048);
    for round in 0..3 {
        for i in 0..count {
            assert_eq!(client.pilot_name_or_id(i), format!("pilot{}", i), "round {}", round);
            assert!(matches!(client.lookup_pilot_name(i), Lookup::Hit(_)));
        }
    }
    // the same pilots again, under new names: still no more keys than the limit
    let renamed: Vec<AiPilot> = (0..count).map(|i| pilot(i, &format!("renamed{}", i))).collect();
    client.get_pilots(Some(renamed));
    for i in 0..count {
        assert_eq!(client.pilot_name_or_id(i), format!("renamed{}", i));
    }
    assert_eq!(client.pilot_name_or_id(count), uuid::Uuid::from_u128(count).to_string());
}

#[test]
fn beyond_capacity_a_name_is_right_or_absent() {
    let mut client = ApiClient::new("http://api.test".to_string());
    let count = 2 * PILOT_NAME_CACHE_CAPACITY as u128 + 1;
    let pilots: Vec<AiPilot> = (0..count).map(|i| pilot(i, &format!("pilot{}", i))).collect();
    client.remember_pilots(&pilots);
    for i in 0..count {
        let shown = client.pilot_name_or_id(i);
        assert!(
            shown == format!("pilot{}", i) || shown == uuid::Uuid::from_u128(i).to_string(),
            "pilot {} is shown as {}",
            i,
            shown
        );
    }
}

#[test]
fn a_rewritten_profile_is_never_read_back_stale() {
    let mut client = SSOClient::new("http://front.test".to_string());
    for round in 0..50 {
        let name = format!("neo{}", round);
        client.remember_user("42", Some(profile("42", &name)));
        if let Lookup::Hit(info) = client.lookup("42") {
            assert_eq!(info.username, name);
        }
    }
}

#[test]
fn identifiers_print_as_hyphenated_lower_case_digits() {
    let client = ApiClient::new("http://api.test".to_string());
    let ids = [
        0u128,
        1,
        0xf,
        0x10,
        u128::MAX,
        1 << 127,
        0xdead_beef_0000_0000_0000_0000_cafe_f00d,
        0xa1a2_a3a4_b1b2_c1c2_d1d2_d3d4_d5d6_d7d8,
    ];
    for id in ids {
        assert_eq!(client.pilot_name_or_id(id), uuid::Uuid::from_u128(id).to_string());
    }
    assert_eq!(client.pilot_name_or_id(u128::MAX), "ffffffff-ffff-ffff-ffff-ffffffffffff");
    assert_eq!(
        client.pilot_name_or_id(0xa1a2_a3a4_b1b2_c1c2_d1d2_d3d4_d5d6_d7d8),
        "a1a2a3a4-b1b2-c1c2-d1d2-d3d4d5d6d7d8"
    );
    assert_eq!(client.pilot_name_or_id(1 << 127), "80000000-0000-0000-0000-000000000000");
}
