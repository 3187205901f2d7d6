use steam_cli::client;
use steam_cli::models::{Game, GameData, GameInfo, GetGameInfoResponse, PlayStyle, PlayStyleCategories};
use steam_cli::service::{
    filter_games, find_friends_who_own_game, find_games_in_common, games_missing_from_group, Error,
};

fn game(appid: u64, name: &str) -> Game {
    Game { appid, name: name.to_string() }
}

#[test]
fn intersection_scenario() {
    let a = vec![game(1, "X"), game(2, "Y")];
    let b = vec![game(2, "Y"), game(3, "Z")];
    let r = find_games_in_common(vec![Ok(a), Ok(b)]).unwrap();
    assert_eq!(r, vec![game(2, "Y")]);
}

#[test]
fn intersection_of_single_account_is_its_library() {
    let a = vec![game(1, "X"), game(2, "Y")];
    let r = find_games_in_common(vec![Ok(a.clone())]).unwrap();
    assert_eq!(r, a);
}

#[test]
fn intersection_is_commutative() {
    let a = vec![game(1, "X"), game(2, "Y")];
    let b = vec![game(2, "Y"), game(3, "Z")];
    let ab = find_games_in_common(vec![Ok(a.clone()), Ok(b.clone())]).unwrap();
    let ba = find_games_in_common(vec![Ok(b), Ok(a)]).unwrap();
    let mut ab_ids: Vec<u64> = ab.iter().map(|g| g.appid).collect();
    let mut ba_ids: Vec<u64> = ba.iter().map(|g| g.appid).collect();
    ab_ids.sort();
    ba_ids.sort();
    assert_eq!(ab_ids, ba_ids);
}

#[test]
fn intersection_fails_fast_on_any_fetch_error() {
    let a = vec![game(1, "X")];
    let r = find_games_in_common(vec![Ok(a), Err(client::Error::Transport)]);
    match r {
        Err(Error::Client(client::Error::Transport)) => {}
        other => panic!("expected the transport error to surface, got {:?}", other),
    }
}

#[test]
fn intersection_keys_by_appid_not_name() {
    let a = vec![game(7, "Name One")];
    let b = vec![game(7, "Localized Name")];
    let r = find_games_in_common(vec![Ok(a), Ok(b)]).unwrap();
    assert_eq!(r, vec![game(7, "Name One")]);
}

#[test]
fn difference_scenario() {
    let b = vec![game(1, "P"), game(2, "Q"), game(3, "R")];
    let a = vec![game(1, "P"), game(2, "Q")];
    let r = games_missing_from_group(Ok(a), vec![Ok(b)]).unwrap();
    assert_eq!(r, vec![game(3, "R")]);
}

#[test]
fn difference_contains_no_game_of_the_focus_account() {
    let b = vec![game(1, "P"), game(2, "Q"), game(3, "R")];
    let c = vec![game(2, "Q"), game(3, "R"), game(4, "S")];
    let focus = vec![game(3, "R")];
    let r = games_missing_from_group(Ok(focus.clone()), vec![Ok(b), Ok(c)]).unwrap();
    assert_eq!(r, vec![game(2, "Q")]);
    for g in &r {
        assert!(focus.iter().all(|f| f.appid != g.appid));
    }
}

#[test]
fn difference_fails_fast_on_focus_fetch_error() {
    let b = vec![game(1, "P")];
    let r = games_missing_from_group(Err(client::Error::RateLimited), vec![Ok(b)]);
    match r {
        Err(Error::Client(client::Error::RateLimited)) => {}
        other => panic!("expected the rate-limit error to surface, got {:?}", other),
    }
}

#[test]
fn owners_tolerate_partial_failure() {
    let fetches = vec![
        (11, Ok(vec![game(5, "G"), game(6, "H")])),
        (22, Err(client::Error::Transport)),
        (33, Ok(vec![game(5, "G")])),
        (44, Ok(vec![game(6, "H")])),
    ];
    let r = find_friends_who_own_game(5, &fetches);
    assert_eq!(r, vec![11, 33]);
}

#[test]
fn owners_keep_input_order() {
    let fetches = vec![
        (9, Ok(vec![game(1, "A")])),
        (3, Ok(vec![game(1, "A")])),
        (7, Ok(vec![game(2, "B")])),
    ];
    let r = find_friends_who_own_game(1, &fetches);
    assert_eq!(r, vec![9, 3]);
}

fn info_response(appid: u64, category_ids: &[u8]) -> GetGameInfoResponse {
    let categories = category_ids
        .iter()
        .map(|id| PlayStyleCategories { description: "tag".to_string(), id: *id })
        .collect();
    GetGameInfoResponse {
        games: vec![(
            appid,
            GameInfo {
                data: Some(GameData {
                    categories,
                    pc_requirements: None,
                    name: "t".to_string(),
                    steam_appid: appid,
                }),
            },
        )],
    }
}

#[test]
fn filter_keeps_games_whose_categories_meet_the_wanted_set() {
    let games = vec![game(1, "A"), game(2, "B"), game(3, "C")];
    let infos = vec![
        Ok(info_response(1, &[27, 2])),
        Ok(info_response(2, &[9])),
        Ok(info_response(3, &[38])),
    ];
    let r = filter_games(games, vec![27, 36, 38], infos).unwrap();
    assert_eq!(r, vec![game(1, "A"), game(3, "C")]);
}

#[test]
fn filter_excludes_titles_without_data() {
    let games = vec![game(1, "A"), game(2, "B")];
    let infos = vec![
        Ok(GetGameInfoResponse { games: vec![(1, GameInfo { data: None })] }),
        Ok(info_response(2, &[28])),
    ];
    let r = filter_games(games, vec![28], infos).unwrap();
    assert_eq!(r, vec![game(2, "B")]);
}

#[test]
fn filter_fails_fast_on_any_info_fetch_error() {
    let games = vec![game(1, "A"), game(2, "B")];
    let infos = vec![Ok(info_response(1, &[28])), Err(client::Error::UpstreamStatus(500))];
    let r = filter_games(games, vec![28], infos);
    match r {
        Err(Error::Client(client::Error::UpstreamStatus(500))) => {}
        other => panic!("expected the upstream error to surface, got {:?}", other),
    }
}

#[test]
fn online_coop_category_id() {
    assert_eq!(PlayStyle::OnlineCoop.category_id(), 38);
}
