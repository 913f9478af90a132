use holograph_server::games::{Game, GamePlayer, GameState};

#[test]
fn game_launchable_requires_two_non_empty_teams() {
    let owner = GamePlayer {
        user_id: 1,
        username: "owner".to_string(),
        room_uid: 5,
        ..GamePlayer::new(1, "owner".to_string())
    };
    let mut game = Game::new_battle_ball(1, "bb".to_string(), 2, 2, vec![1, 2], owner, 120, 6, 5);
    assert!(!game.launchable());

    let mut second = GamePlayer::new(2, "guest".to_string());
    second.room_uid = 6;
    game.teams[1].push(second);
    assert!(game.launchable());
    assert_eq!(game.state, GameState::Waiting);
}

#[test]
fn battle_ball_uses_runtime_timing_values() {
    let owner = GamePlayer::new(1, "owner".to_string());
    let game = Game::new_battle_ball(1, "bb".to_string(), 2, 2, vec![1], owner, 180, 9, 7);

    assert_eq!(game.left_countdown_seconds, 9);
    assert_eq!(game.countdown_seconds, 9);
    assert_eq!(game.score_window_restart_game_seconds, 7);
    assert_eq!(game.total_time, 180);
}

#[test]
fn moving_owner_between_teams_removes_previous_membership() {
    let owner = GamePlayer {
        user_id: 1,
        username: "owner".to_string(),
        room_uid: 5,
        ..GamePlayer::new(1, "owner".to_string())
    };
    let mut game = Game::new_battle_ball(1, "bb".to_string(), 2, 2, vec![1, 2], owner, 120, 6, 5);

    game.move_player_by_user_id(1, Some(0), Some(1));

    assert!(game.teams[0].iter().all(|entry| entry.user_id != 1));
    assert_eq!(game.teams[1].iter().filter(|entry| entry.user_id == 1).count(), 1);
    assert_eq!(game.owner.team_id, 1);
}

#[test]
fn new_player_defaults() {
    let p = GamePlayer::new(7, "amy".to_string());
    assert_eq!(p.sex, "M");
    assert_eq!(p.team_id, -1);
    assert_eq!((p.goal_x, p.goal_y), (-1, -1));
}

#[test]
fn game_state_numbers() {
    assert_eq!(GameState::Waiting.as_i32(), 0);
    assert_eq!(GameState::Started.as_i32(), 1);
    assert_eq!(GameState::Ended.as_i32(), 2);
}

#[test]
fn moving_back_and_forth_keeps_one_membership() {
    let owner = GamePlayer::new(1, "owner".to_string());
    let mut game = Game::new_snow_storm(3, "ss".to_string(), 1, 3, 120, owner, 6, 5);
    game.move_player_by_user_id(1, Some(0), Some(2));
    game.move_player_by_user_id(1, Some(2), Some(0));
    let count: usize = game.teams.iter().map(|t| t.iter().filter(|p| p.user_id == 1).count()).sum();
    assert_eq!(count, 1);
    assert!(game.teams[0].iter().any(|p| p.user_id == 1));
}

#[test]
fn team_space_follows_team_amount() {
    let owner = GamePlayer::new(1, "owner".to_string());
    let mut game = Game::new_battle_ball(1, "bb".to_string(), 1, 2, vec![], owner, 120, 6, 5);
    assert!(game.team_has_space(1));
    for uid in 10..16 {
        game.teams[1].push(GamePlayer::new(uid, format!("p{uid}")));
    }
    assert!(!game.team_has_space(1));
    assert!(!game.team_has_space(5));
}

#[test]
fn subviewers_come_and_go() {
    let owner = GamePlayer::new(1, "owner".to_string());
    let mut game = Game::new_battle_ball(1, "bb".to_string(), 1, 2, vec![], owner, 120, 6, 5);
    game.add_subviewer(GamePlayer::new(9, "watcher".to_string()));
    game.add_subviewer(GamePlayer::new(9, "watcher".to_string()));
    assert_eq!(game.subviewers.len(), 1);
    game.remove_subviewer_by_user_id(9);
    assert!(game.subviewers.is_empty());
}

#[test]
fn end_scoreboard_lists_teams_and_scores() {
    let mut owner = GamePlayer::new(1, "owner".to_string());
    owner.room_uid = 0;
    let mut game = Game::new_battle_ball(1, "bb".to_string(), 1, 2, vec![], owner, 120, 6, 5);
    game.team_scores = vec![3, 0];
    let board = game.end_scoreboard();
    assert_eq!(game.state, GameState::Ended);
    // restart window 5, two teams, team 0 with one member, team 1 empty
    assert_eq!(board, "CxQAJIHowner\u{2}HKM");
}
