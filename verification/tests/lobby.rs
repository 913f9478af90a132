use holograph_server::games::{GamePlayer, GameState};
use holograph_server::lobby::{GameLobby, GameRank};

#[test]
fn battle_ball_settings_match_legacy_shape() {
    let lobby = GameLobby {
        is_battle_ball: true,
        allowed_powerups: vec![1, 4, 9],
        ..GameLobby::default()
    };
    let settings = lobby.get_create_game_settings();
    assert!(settings.contains("fieldType"));
    assert!(settings.contains("numTeams"));
    assert!(settings.contains("allowedPowerups"));
    assert!(settings.contains("1,4,9"));
}

#[test]
fn game_list_includes_waiting_counts() {
    let mut lobby = GameLobby {
        is_battle_ball: true,
        rank: GameRank {
            title: "A".to_string(),
            min_points: 0,
            max_points: 100,
        },
        ..GameLobby::default()
    };
    let mut owner = GamePlayer::new(1, "owner".to_string());
    owner.room_uid = 4;
    lobby.create_game(owner, "test".to_string(), 2, 2, vec![1], 120, 6, 5);
    let list = lobby.game_list();
    assert!(list.contains("test"));
    assert_eq!(lobby.games[0].state, GameState::Waiting);
}

#[test]
fn created_games_take_the_smallest_free_id() {
    let mut lobby = GameLobby::default();
    let a = lobby.create_game(GamePlayer::new(1, "a".to_string()), "a".to_string(), 1, 2, vec![], 120, 6, 5);
    let b = lobby.create_game(GamePlayer::new(2, "b".to_string()), "b".to_string(), 1, 2, vec![], 120, 6, 5);
    assert_eq!((a, b), (0, 1));
}

#[test]
fn game_rank_bounds() {
    let lobby = GameLobby {
        rank: GameRank { title: "B".to_string(), min_points: 10, max_points: 0 },
        ..GameLobby::default()
    };
    assert!(!lobby.valid_gamerank(9));
    assert!(lobby.valid_gamerank(1_000_000));
    assert_eq!(lobby.game_type(), "ss");
}
