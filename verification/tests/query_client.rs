use steam_cli::client::{
    decode_available_endpoints, decode_friend_list, decode_game_info, decode_owned_games,
    decode_user_summaries, friend_list_params, game_info_params, owned_games_params,
    run_retry_script, user_summaries_params, Error, FetchOutcome, RetryPolicy, RetryStep,
};
use steam_cli::models::{Game, GetUserDetailsRequest, GetUserSummariesRequest};

#[test]
fn retry_script_succeeds_after_one_transient_failure() {
    let events = vec![
        FetchOutcome::TransportFailure,
        FetchOutcome::Response(200, "body".to_string()),
    ];
    let r = run_retry_script(&events);
    assert_eq!(r, Some((1, Ok("body".to_string()))));
}

#[test]
fn retry_script_retries_a_rate_limited_response() {
    let events = vec![
        FetchOutcome::Response(429, "".to_string()),
        FetchOutcome::Response(204, "done".to_string()),
    ];
    let r = run_retry_script(&events);
    assert_eq!(r, Some((1, Ok("done".to_string()))));
}

#[test]
fn retry_script_returns_an_unexpected_status_immediately() {
    let events = vec![
        FetchOutcome::Response(404, "".to_string()),
        FetchOutcome::Response(200, "never reached".to_string()),
    ];
    let r = run_retry_script(&events);
    assert_eq!(r, Some((0, Err(Error::UpstreamStatus(404)))));
}

#[test]
fn retry_script_retries_an_unavailable_upstream_once() {
    let events = vec![
        FetchOutcome::Response(503, "".to_string()),
        FetchOutcome::Response(200, "recovered".to_string()),
    ];
    let r = run_retry_script(&events);
    assert_eq!(r, Some((1, Ok("recovered".to_string()))));
}

#[test]
fn retry_script_decides_nothing_on_transients_only() {
    let events = vec![FetchOutcome::TransportFailure, FetchOutcome::TransportFailure];
    assert_eq!(run_retry_script(&events), None);
}

#[test]
fn retry_policy_terminates_on_success() {
    let mut policy = RetryPolicy::new();
    match policy.on_event(FetchOutcome::Response(200, "ok".to_string())) {
        RetryStep::Succeed(body) => assert_eq!(body, "ok".to_string()),
        other => panic!("expected success, got {:?}", other),
    }
}

#[test]
fn retry_policy_fails_immediately_on_a_permanent_status() {
    let mut policy = RetryPolicy::new();
    match policy.on_event(FetchOutcome::Response(404, "".to_string())) {
        RetryStep::Fail(Error::UpstreamStatus(404)) => {}
        other => panic!("expected an immediate upstream failure, got {:?}", other),
    }
}

#[test]
fn retry_policy_backs_off_on_a_fresh_transient_failure() {
    let mut policy = RetryPolicy::new();
    match policy.on_event(FetchOutcome::TransportFailure) {
        RetryStep::RetryAfter(_) => {}
        other => panic!("expected a backoff delay, got {:?}", other),
    }
    match policy.on_event(FetchOutcome::Response(429, "".to_string())) {
        RetryStep::RetryAfter(_) => {}
        other => panic!("expected a backoff delay, got {:?}", other),
    }
}

#[test]
fn owned_games_decode() {
    let body = r#"{"response":{"game_count":2,"games":[{"appid":10,"name":"Ten","playtime_forever":3},{"appid":20,"name":"Twenty"}]}}"#;
    let games = decode_owned_games(body).unwrap();
    assert_eq!(
        games,
        vec![
            Game { appid: 10, name: "Ten".to_string() },
            Game { appid: 20, name: "Twenty".to_string() }
        ]
    );
}

#[test]
fn owned_games_decode_treats_a_missing_list_as_empty() {
    let body = r#"{"response":{}}"#;
    let games = decode_owned_games(body).unwrap();
    assert!(games.is_empty());
}

#[test]
fn owned_games_decode_rejects_a_malformed_body() {
    assert_eq!(decode_owned_games("{not json"), Err(Error::Decode));
    assert_eq!(decode_owned_games(r#"{"response":{"games":5}}"#), Err(Error::Decode));
    assert_eq!(decode_owned_games(r#"{"response":{"games":[{"appid":"x"}]}}"#), Err(Error::Decode));
    assert_eq!(decode_owned_games(r#"{"other":{}}"#), Err(Error::Decode));
}

#[test]
fn friend_list_decode() {
    let body = r#"{"friendslist":{"friends":[{"steamid":"76561197960435530","relationship":"friend"},{"steamid":"42"}]}}"#;
    let friends = decode_friend_list(body).unwrap();
    let ids: Vec<&str> = friends.iter().map(|f| f.steamid.as_str()).collect();
    assert_eq!(ids, vec!["76561197960435530", "42"]);
}

#[test]
fn friend_list_decode_errors_on_a_missing_list() {
    assert_eq!(decode_friend_list(r#"{"friendslist":{}}"#).unwrap_err(), Error::Decode);
    assert_eq!(decode_friend_list(r#"{}"#).unwrap_err(), Error::Decode);
}

#[test]
fn user_summaries_decode() {
    let body = r#"{"response":{"players":[{"steamid":"1","personaname":"One","realname":"Won Person"},{"steamid":"2","personaname":"Two"}]}}"#;
    let us = decode_user_summaries(body).unwrap();
    assert_eq!(us.len(), 2);
    assert_eq!(us[0].steamid, "1".to_string());
    assert_eq!(us[0].personaname, "One".to_string());
    assert_eq!(us[0].realname, Some("Won Person".to_string()));
    assert_eq!(us[1].realname, None);
}

#[test]
fn user_summaries_decode_errors_on_a_missing_list() {
    assert_eq!(decode_user_summaries(r#"{"response":{}}"#).unwrap_err(), Error::Decode);
}

#[test]
fn game_info_decode() {
    let body = r#"{"570":{"success":true,"data":{"name":"Dota 2","steam_appid":570,"categories":[{"id":38,"description":"Online Co-op"},{"id":1,"description":"Multi-player"}],"pc_requirements":{"recommended":"A computer"}}}}"#;
    let resp = decode_game_info(body).unwrap();
    assert_eq!(resp.games.len(), 1);
    let (id, info) = &resp.games[0];
    assert_eq!(*id, 570);
    let data = info.data.as_ref().unwrap();
    assert_eq!(data.name, "Dota 2".to_string());
    assert_eq!(data.steam_appid, 570);
    assert_eq!(data.categories.len(), 2);
    assert_eq!(data.categories[0].id, 38);
    assert_eq!(
        data.pc_requirements.as_ref().unwrap().recommended,
        Some("A computer".to_string())
    );
}

#[test]
fn game_info_decode_keeps_an_entry_without_data() {
    let body = r#"{"999":{"success":false}}"#;
    let resp = decode_game_info(body).unwrap();
    assert_eq!(resp.games.len(), 1);
    assert_eq!(resp.games[0].0, 999);
    assert!(resp.games[0].1.data.is_none());
}

#[test]
fn game_info_decode_rejects_a_bad_key() {
    let body = r#"{"abc":{"success":false}}"#;
    assert_eq!(decode_game_info(body).unwrap_err(), Error::Decode);
}

#[test]
fn game_info_decode_rejects_a_malformed_entry() {
    assert_eq!(decode_game_info(r#"{"570":5}"#).unwrap_err(), Error::Decode);
    assert_eq!(
        decode_game_info(r#"{"570":{"data":{"name":"X"}}}"#).unwrap_err(),
        Error::Decode
    );
    assert_eq!(
        decode_game_info(r#"{"570":{"data":{"name":"X","steam_appid":570,"categories":[{"id":900,"description":"big"}]}}}"#)
            .unwrap_err(),
        Error::Decode
    );
}

#[test]
fn available_endpoints_decode() {
    let body = r#"{"apilist":{"interfaces":[{"name":"ISteamUser","methods":[{"name":"GetFriendList","version":1,"httpmethod":"GET","parameters":[{"name":"key","type":"string","optional":false}]}]}]}}"#;
    let resp = decode_available_endpoints(body).unwrap();
    assert_eq!(resp.apilist.interfaces.len(), 1);
    assert_eq!(resp.apilist.interfaces[0].name, "ISteamUser".to_string());
    assert_eq!(resp.apilist.interfaces[0].methods.len(), 1);
    assert_eq!(resp.apilist.interfaces[0].methods[0].version, 1);
    assert_eq!(resp.apilist.interfaces[0].methods[0].parameters[0].parameter_type, "string".to_string());
}

#[test]
fn available_endpoints_decode_rejects_a_malformed_listing() {
    assert_eq!(decode_available_endpoints(r#"{"apilist":{}}"#).unwrap_err(), Error::Decode);
    assert_eq!(
        decode_available_endpoints(r#"{"apilist":{"interfaces":[{"name":"I"}]}}"#).unwrap_err(),
        Error::Decode
    );
}

#[test]
fn owned_games_request_parameters() {
    let params = owned_games_params("SECRET-REDACTED", &GetUserDetailsRequest { id: 7 });
    let expected: Vec<(String, String)> = vec![
        ("key".to_string(), "SECRET-REDACTED".to_string()),
        ("steamId".to_string(), "7".to_string()),
        ("format".to_string(), "json".to_string()),
        ("include_appinfo".to_string(), "true".to_string()),
        ("include_played_free_games".to_string(), "false".to_string()),
        ("appids_filter".to_string(), "false".to_string()),
        ("language".to_string(), "EN".to_string()),
    ];
    assert_eq!(params, expected);
}

#[test]
fn summaries_request_joins_ids_with_commas() {
    let params = user_summaries_params("k", &GetUserSummariesRequest { ids: vec![1, 2, 33] });
    assert_eq!(params[1].0, "steamids".to_string());
    assert_eq!(params[1].1, "1,2,33".to_string());
}

#[test]
fn summaries_request_with_one_id_has_no_separator() {
    let params = user_summaries_params("k", &GetUserSummariesRequest { ids: vec![7] });
    assert_eq!(params[1].1, "7".to_string());
}

#[test]
fn friend_list_request_parameters() {
    let params = friend_list_params("k", &GetUserDetailsRequest { id: 55 });
    assert_eq!(
        params,
        vec![("key".to_string(), "k".to_string()), ("steamid".to_string(), "55".to_string())]
    );
}

#[test]
fn game_info_request_parameters() {
    let params = game_info_params(570);
    assert_eq!(params, vec![("appids".to_string(), "570".to_string())]);
}
