use holograph_server::game_settings::{parse_game_settings, powerup_list};
use holograph_server::lobby::GameLobby;

#[test]
fn reads_game_settings() {
    let packet = "BcK@IfieldTypeHQA@HnumTeamsHJ@DnameA@CFun";
    let settings = parse_game_settings(packet).unwrap();
    assert_eq!(settings.map_id, 5);
    assert_eq!(settings.team_amount, 2);
    assert_eq!(settings.powerups, None);
    assert_eq!(settings.name.as_deref(), Some("Fun"));
    assert!(settings.is_complete("Fun"));
    assert!(!settings.is_complete(""));
}

#[test]
fn stops_when_settings_run_out() {
    let settings = parse_game_settings("BcQA@IfieldTypeHI").unwrap();
    assert_eq!(settings.map_id, 1);
    assert_eq!(settings.team_amount, 0);
    assert!(!settings.is_complete("Game"));
}

#[test]
fn needs_a_positive_setting_count() {
    assert!(parse_game_settings("BcH").is_none());
    assert!(parse_game_settings("BcM").is_none());
}

#[test]
fn keeps_allowed_powerups() {
    let settings = parse_game_settings("BcI@OallowedPowerupsA@E1,x,3").unwrap();
    assert_eq!(settings.powerups.as_deref(), Some("1,x,3"));
    let mut lobby = GameLobby::default();
    lobby.allowed_powerups = vec![1, 2];
    assert_eq!(powerup_list(&lobby, "1,x,3"), vec![1]);
    assert_eq!(powerup_list(&lobby, "2,1"), vec![2, 1]);
}
