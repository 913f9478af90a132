use holograph_server::games::{Game, GamePlayer, GameState};

fn two_team_game() -> Game {
    let owner = GamePlayer::new(1, "owner".to_string());
    let mut game = Game::new_battle_ball(1, "bb".to_string(), 1, 2, vec![], owner, 120, 6, 5);
    game.teams[1].push(GamePlayer::new(2, "guest".to_string()));
    let spawns = vec![
        vec!["0".to_string(), "0".to_string(), "2".to_string()],
        vec!["1".to_string(), "1".to_string(), "2".to_string()],
    ];
    game.start_game("00\r00".to_string(), "11\r11", &spawns);
    game
}

#[test]
fn start_game_lays_out_the_arena() {
    let game = two_team_game();
    assert_eq!(game.state, GameState::Started);
    assert_eq!(game.team_scores, vec![0, 0]);
    assert_eq!(game.battle_ball_tiles, vec![vec![(-1, 0), (-1, 0)], vec![(-1, 0), (-1, 0)]]);
    assert_eq!(game.blocked_tiles, vec![vec![true, false], vec![false, true]]);
    let owner = &game.teams[0][0];
    assert_eq!((owner.x, owner.y, owner.z, owner.room_uid, owner.entering_game), (0, 0, 2, 0, true));
    let guest = &game.teams[1][0];
    assert_eq!((guest.x, guest.y, guest.room_uid), (1, 1, 1));
}

#[test]
fn spawning_on_a_wall_searches_for_a_free_tile() {
    let owner = GamePlayer::new(1, "owner".to_string());
    let mut game = Game::new_battle_ball(1, "bb".to_string(), 1, 2, vec![], owner, 120, 6, 5);
    let spawns = vec![vec!["0".to_string(), "0".to_string(), "2".to_string()]];
    game.start_game("x0\r00".to_string(), "", &spawns);
    let owner = &game.teams[0][0];
    assert_eq!((owner.x, owner.y), (1, 0));
    assert_eq!(game.battle_ball_tiles[0], vec![(-2, 4), (-2, 4)]);
}

#[test]
fn snow_storm_start_keeps_the_teams() {
    let owner = GamePlayer::new(1, "owner".to_string());
    let mut game = Game::new_snow_storm(1, "ss".to_string(), 1, 2, 120, owner, 6, 5);
    game.start_game("00".to_string(), "", &vec![]);
    assert_eq!(game.state, GameState::Started);
    assert!(game.battle_ball_tiles.is_empty());
    assert_eq!(game.teams[0][0].x, 0);
    assert_eq!(game.tick(&vec![]), None);
}

#[test]
fn tick_moves_colours_and_scores() {
    let mut game = two_team_game();
    game.teams[0][0].goal_x = 1;
    game.teams[0][0].goal_y = 0;
    let moves = vec![vec![(1, 0, 2)], vec![(0, 0, 0)]];
    let packet = game.tick(&moves).unwrap();
    assert_eq!(packet, "CtJHHHHHJHMHIIIHJHMHHJJHIIJHIH");
    let owner = &game.teams[0][0];
    assert_eq!((owner.x, owner.y, owner.goal_x, owner.score, owner.bb_color_tile), (1, 0, -1, 2, true));
    assert_eq!(game.team_scores, vec![2, 0]);
    assert_eq!(game.battle_ball_tiles[0][1], (0, 1));
    assert_eq!(game.blocked_tiles, vec![vec![false, false], vec![true, true]]);
    assert_eq!(game.left_time, 120);

    let second = game.tick(&moves).unwrap();
    assert!(second.contains("IHHI"));
    assert_eq!(game.left_time, 119);
}

#[test]
fn blocked_step_drops_the_goal() {
    let mut game = two_team_game();
    game.teams[0][0].goal_x = 1;
    game.teams[0][0].goal_y = 1;
    let moves = vec![vec![(1, 1, 3)], vec![(0, 0, 0)]];
    game.tick(&moves).unwrap();
    let owner = &game.teams[0][0];
    assert_eq!((owner.x, owner.y, owner.goal_x, owner.goal_y), (0, 0, -1, -1));
}

#[test]
fn describes_the_arena() {
    let game = two_team_game();
    let map = game.get_map(10, 5);
    assert!(map.starts_with("IRBQAHJJ"));
    assert!(map.ends_with("IH"));
    let players = game.get_players(10, 5);
    assert!(players.starts_with("IRBQAJ"));
    assert!(players.ends_with("IH"));
    let owner = GamePlayer::new(1, "owner".to_string());
    let snow = Game::new_snow_storm(1, "ss".to_string(), 1, 2, 120, owner, 6, 5);
    assert_eq!(snow.get_map(10, 5), "holo.cast.not_finished");
    assert_eq!(snow.get_players(10, 5), "holo.cast.not_finished");
}
