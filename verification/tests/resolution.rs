use steam_cli::models::{Friend, UserSummary};
use steam_cli::resolver::{
    friend_ids_with_self, resolve_usernames_fuzzily, resolve_usernames_strictly,
};
use steam_cli::service::Error;

fn summary(steamid: &str, persona: &str, realname: Option<&str>) -> UserSummary {
    UserSummary {
        steamid: steamid.to_string(),
        personaname: persona.to_string(),
        realname: realname.map(|s| s.to_string()),
    }
}

fn names(ns: &[&str]) -> Vec<String> {
    ns.iter().map(|s| s.to_string()).collect()
}

#[test]
fn strict_resolution_is_case_insensitive() {
    let summaries = vec![summary("101", "Alice", None), summary("202", "BOB", None)];
    let r = resolve_usernames_strictly(&names(&["aLiCe", "bob"]), &summaries).unwrap();
    assert_eq!(r, vec![101, 202]);
}

#[test]
fn strict_resolution_keeps_input_order() {
    let summaries = vec![
        summary("1", "one", None),
        summary("2", "two", None),
        summary("3", "three", None),
    ];
    let r = resolve_usernames_strictly(&names(&["three", "one", "two"]), &summaries).unwrap();
    assert_eq!(r, vec![3, 1, 2]);
}

#[test]
fn strict_resolution_fails_naming_the_unknown_input() {
    let summaries = vec![summary("1", "one", None)];
    let r = resolve_usernames_strictly(&names(&["one", "zeta"]), &summaries);
    match r {
        Err(Error::User(n)) => assert_eq!(n, "zeta".to_string()),
        other => panic!("expected an identity error, got {:?}", other),
    }
}

#[test]
fn strict_resolution_takes_the_first_of_equal_personas() {
    let summaries = vec![summary("10", "dup", None), summary("20", "dup", None)];
    let r = resolve_usernames_strictly(&names(&["DUP"]), &summaries).unwrap();
    assert_eq!(r, vec![10]);
}

#[test]
fn strict_resolution_reports_a_bad_stored_id() {
    let summaries = vec![summary("not-a-number", "one", None)];
    let r = resolve_usernames_strictly(&names(&["one"]), &summaries);
    match r {
        Err(Error::Parse(s)) => assert_eq!(s, "not-a-number".to_string()),
        other => panic!("expected a parse error, got {:?}", other),
    }
}

#[test]
fn fuzzy_resolution_accepts_above_threshold() {
    let summaries = vec![summary("77", "alice", None), summary("88", "xqzw", None)];
    let r = resolve_usernames_fuzzily(&names(&["alice"]), &summaries, 0).unwrap();
    assert_eq!(r, vec![77]);
}

#[test]
fn fuzzy_resolution_rejects_at_or_below_threshold() {
    // every score is at or below the maximal threshold, so nothing
    // may resolve
    let summaries = vec![summary("77", "alice", None)];
    let r = resolve_usernames_fuzzily(&names(&["alice"]), &summaries, u32::MAX);
    match r {
        Err(Error::User(n)) => assert_eq!(n, "alice".to_string()),
        other => panic!("expected an identity error, got {:?}", other),
    }
}

#[test]
fn fuzzy_resolution_falls_back_to_real_names() {
    let summaries = vec![
        summary("5", "xxxqqqzzz", Some("Robert Tables")),
        summary("6", "wwwwyyy", None),
    ];
    let r = resolve_usernames_fuzzily(&names(&["robert tables"]), &summaries, 0).unwrap();
    assert_eq!(r, vec![5]);
}

#[test]
fn fuzzy_resolution_prefers_persona_over_real_name() {
    // one candidate matches on its real name, the other on its
    // persona name; the persona tier must win
    let summaries = vec![
        summary("5", "zzzqqq", Some("alice")),
        summary("6", "alice", Some("zzzqqq")),
    ];
    let r = resolve_usernames_fuzzily(&names(&["alice"]), &summaries, 0).unwrap();
    assert_eq!(r, vec![6]);
}

#[test]
fn fuzzy_resolution_fails_naming_the_unmatched_input() {
    let summaries = vec![summary("5", "alpha", None)];
    let r = resolve_usernames_fuzzily(&names(&["qqqq"]), &summaries, 0);
    match r {
        Err(Error::User(n)) => assert_eq!(n, "qqqq".to_string()),
        other => panic!("expected an identity error, got {:?}", other),
    }
}

#[test]
fn friend_ids_append_the_querying_account() {
    let friends = vec![
        Friend { steamid: "11".to_string() },
        Friend { steamid: "22".to_string() },
    ];
    let r = friend_ids_with_self(&friends, 99).unwrap();
    assert_eq!(r, vec![11, 22, 99]);
}

#[test]
fn friend_ids_report_a_bad_stored_id() {
    let friends = vec![
        Friend { steamid: "11".to_string() },
        Friend { steamid: "x9".to_string() },
    ];
    let r = friend_ids_with_self(&friends, 99);
    match r {
        Err(Error::Parse(s)) => assert_eq!(s, "x9".to_string()),
        other => panic!("expected a parse error, got {:?}", other),
    }
}
