use steam_cli::models::{Game, GameData, GameInfo, GetGameInfoResponse, PcRequirements};
use steam_cli::render::{compute_game_info_string, compute_sorted_games_string};
use steam_cli::text::{parse_u64, u64_to_string};

fn game(appid: u64, name: &str) -> Game {
    Game { appid, name: name.to_string() }
}

#[test]
fn games_listing_is_sorted_by_name() {
    let games = vec![game(2, "Beta"), game(1, "Alpha"), game(3, "Gamma")];
    let s = compute_sorted_games_string(&games);
    assert_eq!(
        s,
        "Game { appid: 1, name: \"Alpha\" }\nGame { appid: 2, name: \"Beta\" }\nGame { appid: 3, name: \"Gamma\" }\n\tTotal: 3\n"
    );
}

#[test]
fn games_listing_of_nothing() {
    let s = compute_sorted_games_string(&vec![]);
    assert_eq!(s, "\n\tTotal: 0\n");
}

#[test]
fn game_info_listing() {
    let responses = vec![GetGameInfoResponse {
        games: vec![
            (
                570,
                GameInfo {
                    data: Some(GameData {
                        categories: vec![],
                        pc_requirements: Some(PcRequirements {
                            recommended: Some("A computer".to_string()),
                        }),
                        name: "Dota 2".to_string(),
                        steam_appid: 570,
                    }),
                },
            ),
            (999, GameInfo { data: None }),
        ],
    }];
    let s = compute_game_info_string(&responses);
    assert_eq!(s, "Dota 2,570,A computer\nNo info\n\tTotal: 2\n");
}

#[test]
fn game_info_listing_reports_missing_requirement_fields() {
    let responses = vec![GetGameInfoResponse {
        games: vec![
            (
                1,
                GameInfo {
                    data: Some(GameData {
                        categories: vec![],
                        pc_requirements: None,
                        name: "A".to_string(),
                        steam_appid: 1,
                    }),
                },
            ),
            (
                2,
                GameInfo {
                    data: Some(GameData {
                        categories: vec![],
                        pc_requirements: Some(PcRequirements { recommended: None }),
                        name: "B".to_string(),
                        steam_appid: 2,
                    }),
                },
            ),
        ],
    }];
    let s = compute_game_info_string(&responses);
    assert_eq!(s, "A,1,No requirements\nB,2,No recommendations\n\tTotal: 2\n");
}

#[test]
fn decimal_rendering() {
    assert_eq!(u64_to_string(0), "0".to_string());
    assert_eq!(u64_to_string(7), "7".to_string());
    assert_eq!(u64_to_string(1234567890), "1234567890".to_string());
    assert_eq!(u64_to_string(u64::MAX), "18446744073709551615".to_string());
}

#[test]
fn decimal_parsing() {
    assert_eq!(parse_u64("0"), Some(0));
    assert_eq!(parse_u64("123"), Some(123));
    assert_eq!(parse_u64("+5"), Some(5));
    assert_eq!(parse_u64("18446744073709551615"), Some(u64::MAX));
    assert_eq!(parse_u64("18446744073709551616"), None);
    assert_eq!(parse_u64(""), None);
    assert_eq!(parse_u64("+"), None);
    assert_eq!(parse_u64("12a"), None);
    assert_eq!(parse_u64("-3"), None);
}
