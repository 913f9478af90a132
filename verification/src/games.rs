//! Battle Ball and Snow Storm games: players, teams, lobby listings and the
//! packets that describe them.
use vstd::prelude::*;
use crate::codec::{push_vl64, vl64_text};
use crate::text::{owned, push_char, push_str, push_i64, int_text, wrap32, trunc_i64, trunc_usize};

verus! {

/// A player in a game lobby or arena.
#[derive(Debug, Clone)]
pub struct GamePlayer {
    pub user_id: i64,
    pub username: String,
    pub mission: String,
    pub figure: String,
    pub sex: String,
    pub room_uid: i64,
    pub team_id: i32,
    pub x: i32,
    pub y: i32,
    pub z: i32,
    pub h: i32,
    pub score: i32,
    pub goal_x: i32,
    pub goal_y: i32,
    pub entering_game: bool,
    pub bb_color_tile: bool,
}

impl Default for GamePlayer {
    /// A player with empty texts, zero numbers and both flags off.
    fn default() -> (r: Self)
        ensures
            r.user_id == 0 && r.room_uid == 0 && r.team_id == 0 && r.x == 0 && r.y == 0 && r.z == 0
                && r.h == 0 && r.score == 0 && r.goal_x == 0 && r.goal_y == 0,
            r.username@.len() == 0 && r.mission@.len() == 0 && r.figure@.len() == 0 && r.sex@.len() == 0,
            !r.entering_game && !r.bb_color_tile,
    {
        GamePlayer {
            user_id: 0,
            username: String::new(),
            mission: String::new(),
            figure: String::new(),
            sex: String::new(),
            room_uid: 0,
            team_id: 0,
            x: 0,
            y: 0,
            z: 0,
            h: 0,
            score: 0,
            goal_x: 0,
            goal_y: 0,
            entering_game: false,
            bb_color_tile: false,
        }
    }
}

/// A fresh player record.
pub open spec fn new_player_spec(user_id: i64, username: Seq<char>) -> GamePlayerView {
    GamePlayerView {
        user_id,
        username,
        mission: Seq::empty(),
        figure: Seq::empty(),
        sex: seq!['M'],
        room_uid: 0,
        team_id: -1i32,
        x: 0,
        y: 0,
        z: 0,
        h: 0,
        score: 0,
        goal_x: -1i32,
        goal_y: -1i32,
        entering_game: false,
        bb_color_tile: false,
    }
}

/// A player with its texts read as character sequences.
pub ghost struct GamePlayerView {
    pub user_id: i64,
    pub username: Seq<char>,
    pub mission: Seq<char>,
    pub figure: Seq<char>,
    pub sex: Seq<char>,
    pub room_uid: i64,
    pub team_id: i32,
    pub x: i32,
    pub y: i32,
    pub z: i32,
    pub h: i32,
    pub score: i32,
    pub goal_x: i32,
    pub goal_y: i32,
    pub entering_game: bool,
    pub bb_color_tile: bool,
}

impl View for GamePlayer {
    type V = GamePlayerView;

    open spec fn view(&self) -> GamePlayerView {
        GamePlayerView {
            user_id: self.user_id,
            username: self.username@,
            mission: self.mission@,
            figure: self.figure@,
            sex: self.sex@,
            room_uid: self.room_uid,
            team_id: self.team_id,
            x: self.x,
            y: self.y,
            z: self.z,
            h: self.h,
            score: self.score,
            goal_x: self.goal_x,
            goal_y: self.goal_y,
            entering_game: self.entering_game,
            bb_color_tile: self.bb_color_tile,
        }
    }
}

impl GamePlayer {
    /// A player that has just joined: sex `M`, no team, no walking goal.
    pub fn new(user_id: i64, username: String) -> (r: Self)
        ensures
            r@ == new_player_spec(user_id, username@),
    {
        let mut sex = String::new();
        push_char(&mut sex, 'M');
        GamePlayer {
            user_id,
            username,
            mission: String::new(),
            figure: String::new(),
            sex,
            room_uid: 0,
            team_id: -1,
            x: 0,
            y: 0,
            z: 0,
            h: 0,
            score: 0,
            goal_x: -1,
            goal_y: -1,
            entering_game: false,
            bb_color_tile: false,
        }
    }

    /// A copy of this player.
    pub fn duplicate(&self) -> (r: Self)
        ensures
            r@ == self@,
    {
        GamePlayer {
            user_id: self.user_id,
            username: self.username.clone(),
            mission: self.mission.clone(),
            figure: self.figure.clone(),
            sex: self.sex.clone(),
            room_uid: self.room_uid,
            team_id: self.team_id,
            x: self.x,
            y: self.y,
            z: self.z,
            h: self.h,
            score: self.score,
            goal_x: self.goal_x,
            goal_y: self.goal_y,
            entering_game: self.entering_game,
            bb_color_tile: self.bb_color_tile,
        }
    }
}

/// The phase of a game.
#[derive(Debug, Clone, Copy, PartialEq, Eq, Structural)]
pub enum GameState {
    Waiting,
    Started,
    Ended,
}

impl Default for GameState {
    /// A game starts out waiting.
    fn default() -> (r: Self)
        ensures
            r == GameState::Waiting,
    {
        GameState::Waiting
    }
}

/// The wire number of a game phase.
pub open spec fn state_number(s: GameState) -> int {
    match s {
        GameState::Waiting => 0,
        GameState::Started => 1,
        GameState::Ended => 2,
    }
}

impl GameState {
    /// The wire number of the phase: waiting 0, started 1, ended 2.
    pub fn as_i32(self) -> (r: i32)
        ensures
            r == state_number(self),
    {
        match self {
            GameState::Waiting => 0,
            GameState::Started => 1,
            GameState::Ended => 2,
        }
    }
}


/// A game: its settings, teams, spectators and Battle Ball field.
#[derive(Debug, Clone)]
pub struct Game {
    pub id: i64,
    pub name: String,
    pub map_id: i64,
    pub total_time: i64,
    pub left_time: i64,
    pub is_battle_ball: bool,
    pub state: GameState,
    pub enabled_powerups: Vec<i32>,
    pub owner: GamePlayer,
    pub subviewers: Vec<GamePlayer>,
    pub teams: Vec<Vec<GamePlayer>>,
    pub battle_ball_tiles: Vec<Vec<(i32, i32)>>,
    pub heightmap: String,
    pub left_countdown_seconds: i32,
    pub team_scores: Vec<i32>,
    pub blocked_tiles: Vec<Vec<bool>>,
    pub tick_phase: bool,
    pub countdown_seconds: i32,
    pub score_window_restart_game_seconds: i32,
}

/// The players of a team.
pub open spec fn team_view(t: Seq<GamePlayer>) -> Seq<GamePlayerView> {
    Seq::new(t.len(), |i: int| t[i]@)
}

/// The teams of a game.
pub open spec fn teams_view(ts: Seq<Vec<GamePlayer>>) -> Seq<Seq<GamePlayerView>> {
    Seq::new(ts.len(), |i: int| team_view(ts[i]@))
}

/// A team without the entries of one user.
pub open spec fn drop_user(t: Seq<GamePlayerView>, uid: i64) -> Seq<GamePlayerView>
    decreases t.len(),
{
    if t.len() == 0 {
        t
    } else if t.last().user_id == uid {
        drop_user(t.drop_last(), uid)
    } else {
        drop_user(t.drop_last(), uid).push(t.last())
    }
}

/// The first position of a user in a team.
pub open spec fn user_position(t: Seq<GamePlayerView>, uid: i64) -> Option<int>
    decreases t.len(),
{
    if t.len() == 0 {
        None
    } else if t[0].user_id == uid {
        Some(0)
    } else {
        match user_position(t.drop_first(), uid) {
            Some(i) => Some(i + 1),
            None => None,
        }
    }
}

/// The first team, from index `j` on, that holds the user.
pub open spec fn first_team_with(ts: Seq<Seq<GamePlayerView>>, uid: i64, j: int) -> Option<int>
    decreases ts.len() - j,
{
    if j < 0 || j >= ts.len() {
        None
    } else if user_position(ts[j], uid) is Some {
        Some(j)
    } else {
        first_team_with(ts, uid, j + 1)
    }
}

/// Taking a user's first entry out of the teams: out of team `from` when it
/// holds one there, else out of the first team that does.
pub open spec fn remove_player_spec(
    ts: Seq<Seq<GamePlayerView>>,
    uid: i64,
    from: Option<usize>,
) -> (Option<GamePlayerView>, Seq<Seq<GamePlayerView>>) {
    let in_from = from is Some && (from->0 as int) < ts.len() && user_position(ts[from->0 as int], uid) is Some;
    let t = if in_from {
        from->0 as int
    } else {
        match first_team_with(ts, uid, 0) {
            Some(j) => j,
            None => -1,
        }
    };
    if in_from || first_team_with(ts, uid, 0) is Some {
        let k = user_position(ts[t], uid)->0;
        (Some(ts[t][k]), ts.update(t, ts[t].remove(k)))
    } else {
        (None, ts)
    }
}

/// True when a team holds the user.
pub open spec fn has_user(t: Seq<GamePlayerView>, uid: i64) -> bool {
    exists|i: int| 0 <= i < t.len() && t[i].user_id == uid
}

/// The teams and the owner after `move_player_by_user_id`.
pub open spec fn move_spec(
    ts: Seq<Seq<GamePlayerView>>,
    owner: GamePlayerView,
    uid: i64,
    from: Option<usize>,
    to: Option<usize>,
) -> (Seq<Seq<GamePlayerView>>, GamePlayerView) {
    let ts1 = if from is Some && (from->0 as int) < ts.len() {
        ts.update(from->0 as int, drop_user(ts[from->0 as int], uid))
    } else {
        ts
    };
    let is_owner = owner.user_id == uid;
    let removed = remove_player_spec(ts1, uid, from);
    let ts2 = if is_owner { ts1 } else { removed.1 };
    let p0 = if is_owner {
        owner
    } else if removed.0 is Some {
        removed.0->0
    } else {
        new_player_spec(uid, Seq::empty())
    };
    let joins = to is Some && (to->0 as int) < ts2.len();
    let p = if joins { GamePlayerView { team_id: to->0 as i32, ..p0 } } else { p0 };
    let ts3 = if joins && !has_user(ts2[to->0 as int], p.user_id) {
        ts2.update(to->0 as int, ts2[to->0 as int].push(p))
    } else {
        ts2
    };
    (ts3, if is_owner { p } else { owner })
}

/// Every field but the teams and the owner is as before.
pub open spec fn same_settings(a: &Game, b: &Game) -> bool {
    &&& a.id == b.id
    &&& a.name@ == b.name@
    &&& a.map_id == b.map_id
    &&& a.total_time == b.total_time
    &&& a.left_time == b.left_time
    &&& a.is_battle_ball == b.is_battle_ball
    &&& a.state == b.state
    &&& a.enabled_powerups@ == b.enabled_powerups@
    &&& a.subviewers@ == b.subviewers@
    &&& a.battle_ball_tiles@ == b.battle_ball_tiles@
    &&& a.heightmap@ == b.heightmap@
    &&& a.left_countdown_seconds == b.left_countdown_seconds
    &&& a.team_scores@ == b.team_scores@
    &&& a.blocked_tiles@ == b.blocked_tiles@
    &&& a.tick_phase == b.tick_phase
    &&& a.countdown_seconds == b.countdown_seconds
    &&& a.score_window_restart_game_seconds == b.score_window_restart_game_seconds
}

fn team_without(team: &Vec<GamePlayer>, uid: i64) -> (r: Vec<GamePlayer>)
    ensures
        team_view(r@) == drop_user(team_view(team@), uid),
{
    let mut r: Vec<GamePlayer> = Vec::new();
    let n = team.len();
    let mut i: usize = 0;
    while i < n
        invariant
            n == team@.len(),
            0 <= i <= n,
            team_view(r@) == drop_user(team_view(team@.take(i as int)), uid),
        decreases n - i,
    {
        let ghost tv = team_view(team@.take(i + 1));
        assert(tv.drop_last() =~= team_view(team@.take(i as int)));
        assert(tv.last() == team@[i as int]@);
        let ghost before = r@;
        if team[i].user_id != uid {
            r.push(team[i].duplicate());
            assert(team_view(r@) =~= team_view(before).push(team@[i as int]@));
        }
        i += 1;
    }
    assert(team@.take(n as int) =~= team@);
    r
}

fn position_in(team: &Vec<GamePlayer>, uid: i64) -> (r: Option<usize>)
    ensures
        r is None <==> user_position(team_view(team@), uid) is None,
        r matches Some(k) ==> k < team@.len() && user_position(team_view(team@), uid) == Some(k as int),
{
    let n = team.len();
    let mut i: usize = 0;
    let ghost tv = team_view(team@);
    assert(tv.subrange(0, n as int) =~= tv);
    while i < n
        invariant
            n == team@.len(),
            tv == team_view(team@),
            0 <= i <= n,
            user_position(tv, uid) == (match user_position(tv.subrange(i as int, n as int), uid) {
                Some(k) => Some(k + i),
                None => None,
            }),
        decreases n - i,
    {
        assert(tv.subrange(i as int, n as int)[0] == team@[i as int]@);
        if team[i].user_id == uid {
            return Some(i);
        }
        assert(tv.subrange(i as int, n as int).drop_first() =~= tv.subrange(i + 1, n as int));
        i += 1;
    }
    None
}

pub(crate) proof fn lemma_has_user_position(t: Seq<GamePlayerView>, uid: i64)
    ensures
        has_user(t, uid) <==> user_position(t, uid) is Some,
        user_position(t, uid) matches Some(k) ==> 0 <= k < t.len() && t[k].user_id == uid,
    decreases t.len(),
{
    if t.len() > 0 {
        lemma_has_user_position(t.drop_first(), uid);
        if has_user(t, uid) && t[0].user_id != uid {
            let i = choose|i: int| 0 <= i < t.len() && t[i].user_id == uid;
            assert(t.drop_first()[i - 1].user_id == uid);
        }
        if has_user(t.drop_first(), uid) {
            let i = choose|i: int| 0 <= i < t.len() - 1 && t.drop_first()[i].user_id == uid;
            assert(t[i + 1].user_id == uid);
        }
    }
}

fn contains_user(team: &Vec<GamePlayer>, uid: i64) -> (r: bool)
    ensures
        r == has_user(team_view(team@), uid),
{
    proof {
        lemma_has_user_position(team_view(team@), uid);
    }
    position_in(team, uid).is_some()
}

impl Game {
    /// Replaces team `i` with `team`.
    fn put_team(&mut self, i: usize, team: Vec<GamePlayer>)
        requires
            i < old(self).teams@.len(),
        ensures
            final(self).teams@ == old(self).teams@.update(i as int, team),
            same_settings(old(self), final(self)),
            final(self).owner == old(self).owner,
    {
        self.teams.set(i, team);
    }

    /// Takes a user's first entry out of the teams (see `remove_player_spec`).
    pub fn remove_player(&mut self, user_id: i64, from_team_id: Option<usize>) -> (r: Option<GamePlayer>)
        ensures
            teams_view(final(self).teams@) == remove_player_spec(teams_view(old(self).teams@), user_id, from_team_id).1,
            (match r {
                Some(p) => Some(p@),
                None => None::<GamePlayerView>,
            }) == remove_player_spec(teams_view(old(self).teams@), user_id, from_team_id).0,
            same_settings(old(self), final(self)),
            final(self).owner == old(self).owner,
    {
        let ghost ts = teams_view(self.teams@);
        if let Some(team_id) = from_team_id {
            if team_id < self.teams.len() {
                if let Some(index) = position_in(&self.teams[team_id], user_id) {
                    let mut team = copy_team(&self.teams[team_id]);
                    let ghost tv0 = team_view(team@);
                    let p = team.remove(index);
                    assert(team_view(team@) =~= tv0.remove(index as int));
                    self.put_team(team_id, team);
                    assert(teams_view(self.teams@) =~= ts.update(team_id as int, ts[team_id as int].remove(index as int)));
                    return Some(p);
                }
            }
        }
        let n = self.teams.len();
        let mut j: usize = 0;
        let ghost in_from = from_team_id is Some && (from_team_id->0 as int) < ts.len()
            && user_position(ts[from_team_id->0 as int], user_id) is Some;
        assert(!in_from);
        assert(first_team_with(ts, user_id, 0) == first_team_with(ts, user_id, j as int));
        while j < n
            invariant
                n == self.teams@.len(),
                ts == teams_view(self.teams@),
                ts == teams_view(old(self).teams@),
                same_settings(old(self), self),
                self.owner == old(self).owner,
                self.teams@ == old(self).teams@,
                !(from_team_id is Some && (from_team_id->0 as int) < ts.len()
                    && user_position(ts[from_team_id->0 as int], user_id) is Some),
                0 <= j <= n,
                first_team_with(ts, user_id, 0) == first_team_with(ts, user_id, j as int),
            decreases n - j,
        {
            if let Some(index) = position_in(&self.teams[j], user_id) {
                assert(ts[j as int] == team_view(self.teams@[j as int]@));
                assert(first_team_with(ts, user_id, j as int) == Some(j as int));
                let mut team = copy_team(&self.teams[j]);
                let ghost tv0 = team_view(team@);
                let p = team.remove(index);
                assert(team_view(team@) =~= tv0.remove(index as int));
                self.put_team(j, team);
                assert(teams_view(self.teams@) =~= ts.update(j as int, ts[j as int].remove(index as int)));
                let ghost rs = remove_player_spec(ts, user_id, from_team_id);
                assert(user_position(ts[j as int], user_id) == Some(index as int));
                assert(first_team_with(ts, user_id, 0) == Some(j as int));
                assert(!(from_team_id is Some && (from_team_id->0 as int) < ts.len()
                    && user_position(ts[from_team_id->0 as int], user_id) is Some));
                assert(rs.1 == ts.update(j as int, ts[j as int].remove(index as int)));
                assert(p@ == ts[j as int][index as int]);
                assert(rs.0 == Some(p@));
                return Some(p);
            }
            j += 1;
        }
        None
    }
}

fn copy_team(team: &Vec<GamePlayer>) -> (r: Vec<GamePlayer>)
    ensures
        team_view(r@) == team_view(team@),
        r@.len() == team@.len(),
{
    let mut r: Vec<GamePlayer> = Vec::new();
    let n = team.len();
    let mut i: usize = 0;
    while i < n
        invariant
            n == team@.len(),
            0 <= i <= n,
            team_view(r@) =~= team_view(team@.take(i as int)),
            r@.len() == i,
        decreases n - i,
    {
        r.push(team[i].duplicate());
        assert(team_view(team@.take(i + 1)) =~= team_view(team@.take(i as int)).push(team@[i as int]@));
        i += 1;
    }
    assert(team@.take(n as int) =~= team@);
    r
}


/// `n` empty teams.
pub open spec fn empty_teams(n: int) -> Seq<Seq<GamePlayerView>> {
    Seq::new(n as nat, |i: int| Seq::<GamePlayerView>::empty())
}

/// `n` zero scores.
pub open spec fn zero_scores(n: int) -> Seq<i32> {
    Seq::new(n as nat, |i: int| 0i32)
}

/// The teams of a new game: the owner alone in the first team, with that
/// team's id; no team at all when there are none.
pub open spec fn opening_teams(n: int, owner: GamePlayerView) -> Seq<Seq<GamePlayerView>> {
    if n > 0 {
        empty_teams(n).update(0, seq![GamePlayerView { team_id: 0, ..owner }])
    } else {
        empty_teams(n)
    }
}

/// The owner of a new game: in team 0 when there is one.
pub open spec fn opening_owner(n: int, owner: GamePlayerView) -> GamePlayerView {
    if n > 0 {
        GamePlayerView { team_id: 0, ..owner }
    } else {
        owner
    }
}

/// A new game in its waiting phase, with everything that a lobby does not set
/// empty.
pub open spec fn fresh_game(
    g: Game,
    id: i64,
    name: Seq<char>,
    map_id: i64,
    team_amount: usize,
    enabled_powerups: Seq<i32>,
    owner: GamePlayerView,
    total_time: i64,
    countdown_seconds: i32,
    score_window_restart_game_seconds: i32,
) -> bool {
    &&& g.id == id
    &&& g.name@ == name
    &&& g.map_id == map_id
    &&& g.total_time == total_time
    &&& g.left_time == total_time
    &&& g.state == GameState::Waiting
    &&& g.enabled_powerups@ == enabled_powerups
    &&& g.owner@ == opening_owner(team_amount as int, owner)
    &&& g.subviewers@.len() == 0
    &&& teams_view(g.teams@) == opening_teams(team_amount as int, owner)
    &&& g.battle_ball_tiles@.len() == 0
    &&& g.heightmap@.len() == 0
    &&& g.left_countdown_seconds == countdown_seconds
    &&& g.team_scores@ == zero_scores(team_amount as int)
    &&& g.blocked_tiles@.len() == 0
    &&& !g.tick_phase
    &&& g.countdown_seconds == countdown_seconds
    &&& g.score_window_restart_game_seconds == score_window_restart_game_seconds
}

impl Game {
    fn fresh(
        id: i64,
        name: String,
        map_id: i64,
        team_amount: usize,
        enabled_powerups: Vec<i32>,
        owner: GamePlayer,
        total_time: i64,
        is_battle_ball: bool,
        countdown_seconds: i32,
        score_window_restart_game_seconds: i32,
    ) -> (r: Game)
        ensures
            fresh_game(r, id, name@, map_id, team_amount, enabled_powerups@, owner@, total_time,
                countdown_seconds, score_window_restart_game_seconds),
            r.is_battle_ball == is_battle_ball,
    {
        let mut teams: Vec<Vec<GamePlayer>> = Vec::new();
        let mut scores: Vec<i32> = Vec::new();
        let mut i: usize = 0;
        while i < team_amount
            invariant
                0 <= i <= team_amount,
                teams@.len() == i,
                teams_view(teams@) =~= empty_teams(i as int),
                scores@ =~= zero_scores(i as int),
            decreases team_amount - i,
        {
            let ghost before = teams@;
            let empty: Vec<GamePlayer> = Vec::new();
            assert(empty@.len() == 0);
            teams.push(empty);
            scores.push(0);
            assert(teams@ == before.push(empty));
            assert(teams_view(teams@) =~= empty_teams(i + 1)) by {
                assert forall|k: int| 0 <= k < i + 1 implies #[trigger] teams_view(teams@)[k] =~= empty_teams(i + 1)[k] by {
                    if k < i {
                        assert(teams@[k] == before[k]);
                        assert(teams_view(before)[k] == empty_teams(i as int)[k]);
                    } else {
                        assert(teams@[k] == empty);
                    }
                }
            }
            i += 1;
        }
        let ghost ov = owner@;
        let uid = owner.user_id;
        let mut game = Game {
            id,
            name,
            map_id,
            total_time,
            left_time: total_time,
            is_battle_ball,
            state: GameState::Waiting,
            enabled_powerups,
            owner,
            subviewers: Vec::new(),
            teams,
            battle_ball_tiles: Vec::new(),
            heightmap: String::new(),
            left_countdown_seconds: countdown_seconds,
            team_scores: scores,
            blocked_tiles: Vec::new(),
            tick_phase: false,
            countdown_seconds,
            score_window_restart_game_seconds,
        };
        game.move_player_by_user_id(uid, None, Some(0));
        proof {
            let ts = empty_teams(team_amount as int);
            if team_amount > 0 {
                assert(!has_user(ts[0], uid));
                assert(move_spec(ts, ov, uid, None, Some(0)).0 =~= opening_teams(team_amount as int, ov));
            } else {
                assert(move_spec(ts, ov, uid, None, Some(0)).0 =~= opening_teams(team_amount as int, ov));
            }
        }
        game
    }

    /// A new Battle Ball game; the owner joins team 0.
    pub fn new_battle_ball(
        id: i64,
        name: String,
        map_id: i64,
        team_amount: usize,
        enabled_powerups: Vec<i32>,
        owner: GamePlayer,
        total_time: i64,
        countdown_seconds: i32,
        score_window_restart_game_seconds: i32,
    ) -> (r: Game)
        ensures
            fresh_game(r, id, name@, map_id, team_amount, enabled_powerups@, owner@, total_time,
                countdown_seconds, score_window_restart_game_seconds),
            r.is_battle_ball,
    {
        Self::fresh(id, name, map_id, team_amount, enabled_powerups, owner, total_time, true,
            countdown_seconds, score_window_restart_game_seconds)
    }

    /// A new Snow Storm game (no power-ups); the owner joins team 0.
    pub fn new_snow_storm(
        id: i64,
        name: String,
        map_id: i64,
        team_amount: usize,
        total_time: i64,
        owner: GamePlayer,
        countdown_seconds: i32,
        score_window_restart_game_seconds: i32,
    ) -> (r: Game)
        ensures
            fresh_game(r, id, name@, map_id, team_amount, Seq::empty(), owner@, total_time,
                countdown_seconds, score_window_restart_game_seconds),
            !r.is_battle_ball,
    {
        Self::fresh(id, name, map_id, team_amount, Vec::new(), owner, total_time, false,
            countdown_seconds, score_window_restart_game_seconds)
    }

    /// Moves a user from one team to another (see `move_spec`): the user leaves
    /// team `from` for good, and joins team `to` unless already there.
    pub fn move_player_by_user_id(
        &mut self,
        user_id: i64,
        from_team_id: Option<usize>,
        to_team_id: Option<usize>,
    )
        ensures
            (teams_view(final(self).teams@), final(self).owner@) == move_spec(
                teams_view(old(self).teams@),
                old(self).owner@,
                user_id,
                from_team_id,
                to_team_id,
            ),
            same_settings(old(self), final(self)),
    {
        let ghost ts = teams_view(self.teams@);
        if let Some(team_id) = from_team_id {
            if team_id < self.teams.len() {
                let nt = team_without(&self.teams[team_id], user_id);
                self.put_team(team_id, nt);
                assert(teams_view(self.teams@) =~= ts.update(team_id as int, drop_user(ts[team_id as int], user_id)));
            }
        }
        let ghost ts1 = teams_view(self.teams@);
        let mut player = if self.owner.user_id == user_id {
            self.owner.duplicate()
        } else {
            match self.remove_player(user_id, from_team_id) {
                Some(p) => p,
                None => GamePlayer::new(user_id, String::new()),
            }
        };
        let ghost ts2 = teams_view(self.teams@);
        if let Some(team_id) = to_team_id {
            if team_id < self.teams.len() {
                player.team_id = team_id as i32;
                if !contains_user(&self.teams[team_id], player.user_id) {
                    let mut team = copy_team(&self.teams[team_id]);
                    let ghost tv = team_view(team@);
                    team.push(player.duplicate());
                    assert(team_view(team@) =~= tv.push(player@));
                    self.put_team(team_id, team);
                    assert(teams_view(self.teams@) =~= ts2.update(team_id as int, ts2[team_id as int].push(player@)));
                }
            }
        } else if self.owner.user_id == user_id {
            self.owner.team_id = -1;
        }
        if self.owner.user_id == user_id {
            self.owner = player;
        }
    }

    /// Adds a spectator unless that user already watches.
    pub fn add_subviewer(&mut self, player: GamePlayer)
        ensures
            team_view(final(self).subviewers@) == (if has_user(team_view(old(self).subviewers@), player.user_id) {
                team_view(old(self).subviewers@)
            } else {
                team_view(old(self).subviewers@).push(player@)
            }),
            final(self).teams@ == old(self).teams@,
            final(self).owner == old(self).owner,
            *final(self) == (Game { subviewers: final(self).subviewers, ..*old(self) }),
    {
        if !contains_user(&self.subviewers, player.user_id) {
            let ghost before = team_view(self.subviewers@);
            self.subviewers.push(player);
            assert(team_view(self.subviewers@) =~= before.push(player@));
        }
    }

    /// Drops every spectator entry of a user.
    pub fn remove_subviewer_by_user_id(&mut self, user_id: i64)
        ensures
            team_view(final(self).subviewers@) == drop_user(team_view(old(self).subviewers@), user_id),
            final(self).teams@ == old(self).teams@,
            final(self).owner == old(self).owner,
            *final(self) == (Game { subviewers: final(self).subviewers, ..*old(self) }),
    {
        let kept = team_without(&self.subviewers, user_id);
        self.subviewers = kept;
    }
}


proof fn lemma_drop_user(t: Seq<GamePlayerView>, uid: i64)
    ensures
        !has_user(drop_user(t, uid), uid),
    decreases t.len(),
{
    if t.len() > 0 {
        lemma_drop_user(t.drop_last(), uid);
        let r = drop_user(t.drop_last(), uid);
        if t.last().user_id != uid {
            assert forall|i: int| 0 <= i < r.push(t.last()).len() implies r.push(t.last())[i].user_id != uid by {
                if i < r.len() {
                    assert(r.push(t.last())[i] == r[i]);
                }
            }
        }
    }
}

pub(crate) proof fn lemma_first_team_with(ts: Seq<Seq<GamePlayerView>>, uid: i64, j: int)
    requires
        0 <= j,
    ensures
        first_team_with(ts, uid, j) matches Some(k) ==> j <= k < ts.len() && user_position(ts[k], uid) is Some,
    decreases ts.len() - j,
{
    if j < ts.len() && user_position(ts[j], uid) is None {
        lemma_first_team_with(ts, uid, j + 1);
    }
}

/// After a move out of team `f` into another team `t`, the user is in `t`
/// and nowhere in `f`; an owner that moves takes `t` as its team.
pub proof fn law_move_between_teams(
    ts: Seq<Seq<GamePlayerView>>,
    owner: GamePlayerView,
    uid: i64,
    f: usize,
    t: usize,
)
    requires
        f < ts.len(),
        t < ts.len(),
        f != t,
    ensures
        !has_user(move_spec(ts, owner, uid, Some(f), Some(t)).0[f as int], uid),
        has_user(move_spec(ts, owner, uid, Some(f), Some(t)).0[t as int], uid),
        owner.user_id == uid ==> move_spec(ts, owner, uid, Some(f), Some(t)).1.team_id == t as i32,
        move_spec(ts, owner, uid, Some(f), Some(t)).0.len() == ts.len(),
{
    let ts1 = ts.update(f as int, drop_user(ts[f as int], uid));
    lemma_drop_user(ts[f as int], uid);
    lemma_has_user_position(ts1[f as int], uid);
    let removed = remove_player_spec(ts1, uid, Some(f));
    let is_owner = owner.user_id == uid;
    let ts2 = if is_owner { ts1 } else { removed.1 };
    lemma_first_team_with(ts1, uid, 0);
    if !is_owner {
        match first_team_with(ts1, uid, 0) {
            Some(j) => {
                assert(j != f);
                lemma_has_user_position(ts1[j], uid);
                assert(ts2[f as int] == ts1[f as int]);
                assert(removed.0->0.user_id == uid);
            },
            None => {
                assert(ts2 == ts1);
            },
        }
    }
    assert(ts2.len() == ts.len());
    assert(!has_user(ts2[f as int], uid));
    let p0 = if is_owner {
        owner
    } else if removed.0 is Some {
        removed.0->0
    } else {
        new_player_spec(uid, Seq::empty())
    };
    assert(p0.user_id == uid);
    let p = GamePlayerView { team_id: t as i32, ..p0 };
    let ts3 = move_spec(ts, owner, uid, Some(f), Some(t)).0;
    if !has_user(ts2[t as int], uid) {
        assert(ts3[t as int] == ts2[t as int].push(p));
        assert(ts3[t as int][ts2[t as int].len() as int].user_id == uid);
    }
}


/// How many teams have players.
pub open spec fn nonempty_teams(ts: Seq<Seq<GamePlayerView>>) -> int
    decreases ts.len(),
{
    if ts.len() == 0 {
        0
    } else {
        nonempty_teams(ts.drop_last()) + (if ts.last().len() > 0 { 1int } else { 0int })
    }
}

/// Places per team for a number of teams: 6 for two, 4 for three, 3 for four.
pub open spec fn team_capacity(n: int) -> int {
    if n == 2 {
        6
    } else if n == 3 {
        4
    } else if n == 4 {
        3
    } else {
        0
    }
}

/// A value whose `as i32` VL64 text can be written (the encoder rejects `i32::MIN`).
pub open spec fn vl64_safe(x: int) -> bool {
    wrap32(x) != i32::MIN
}

/// The VL64 text of `x as i32`.
pub open spec fn vl64_of(x: int) -> Seq<char> {
    vl64_text(wrap32(x))
}

/// One member in a lobby listing: room id, name.
pub open spec fn member_text(p: GamePlayerView) -> Seq<char> {
    vl64_of(p.room_uid as int) + p.username + seq!['\u{2}']
}

/// The members of a team in a lobby listing.
pub open spec fn members_text(t: Seq<GamePlayerView>) -> Seq<char>
    decreases t.len(),
{
    if t.len() == 0 {
        Seq::empty()
    } else {
        members_text(t.drop_last()) + member_text(t.last())
    }
}

/// The teams in a lobby listing: each team's size, then its members.
pub open spec fn teams_text(ts: Seq<Seq<GamePlayerView>>) -> Seq<char>
    decreases ts.len(),
{
    if ts.len() == 0 {
        Seq::empty()
    } else {
        teams_text(ts.drop_last()) + vl64_of(ts.last().len() as int) + members_text(ts.last())
    }
}

/// Enabled power-ups, each followed by a comma.
pub open spec fn powerups_text(ps: Seq<i32>) -> Seq<char>
    decreases ps.len(),
{
    if ps.len() == 0 {
        Seq::empty()
    } else {
        powerups_text(ps.drop_last()) + int_text(ps.last() as int) + seq![',']
    }
}

/// The room ids of a team's members can all be written.
pub open spec fn members_safe(t: Seq<GamePlayerView>) -> bool {
    forall|j: int| 0 <= j < t.len() ==> vl64_safe(#[trigger] t[j].room_uid as int)
}

/// The team sizes and member room ids can all be written.
pub open spec fn teams_safe(ts: Seq<Seq<GamePlayerView>>) -> bool {
    &&& vl64_safe(ts.len() as int)
    &&& forall|i: int| 0 <= i < ts.len() ==> vl64_safe(#[trigger] ts[i].len() as int) && members_safe(ts[i])
}

/// A game's details as the lobby shows them.
pub open spec fn sub_payload_spec(g: Game) -> Seq<char> {
    let ts = teams_view(g.teams@);
    vl64_text(state_number(g.state)) + (if nonempty_teams(ts) > 1 { seq!['I'] } else { seq!['H'] }) + g.name@
        + seq!['\u{2}', '\u{2}'] + vl64_of(g.owner.room_uid as int) + g.owner.username@ + seq!['\u{2}']
        + (if g.is_battle_ball { Seq::empty() } else { vl64_of(g.total_time as int) })
        + vl64_of(g.map_id as int) + vl64_text(0) + vl64_of(ts.len() as int) + teams_text(ts)
        + (if g.is_battle_ball {
            powerups_text(g.enabled_powerups@) + seq!['9', '\u{2}']
        } else {
            vl64_of(g.left_time as int) + vl64_of(g.map_id as int)
        })
}

/// Everything `sub_payload` writes as VL64 can be written.
pub open spec fn sub_payload_safe(g: Game) -> bool {
    &&& vl64_safe(g.owner.room_uid as int)
    &&& vl64_safe(g.map_id as int)
    &&& !g.is_battle_ball ==> vl64_safe(g.total_time as int) && vl64_safe(g.left_time as int)
    &&& teams_safe(teams_view(g.teams@))
}

fn push_vl64_of_i64(s: &mut String, x: i64)
    requires
        vl64_safe(x as int),
    ensures
        final(s)@ == old(s)@ + vl64_of(x as int),
{
    push_vl64(s, trunc_i64(x));
}

fn push_vl64_of_usize(s: &mut String, x: usize)
    requires
        vl64_safe(x as int),
    ensures
        final(s)@ == old(s)@ + vl64_of(x as int),
{
    push_vl64(s, trunc_usize(x));
}

fn push_members(s: &mut String, team: &Vec<GamePlayer>)
    requires
        members_safe(team_view(team@)),
    ensures
        final(s)@ == old(s)@ + members_text(team_view(team@)),
{
    let n = team.len();
    let mut i: usize = 0;
    while i < n
        invariant
            n == team@.len(),
            0 <= i <= n,
            members_safe(team_view(team@)),
            s@ == old(s)@ + members_text(team_view(team@.take(i as int))),
        decreases n - i,
    {
        let ghost tv = team_view(team@.take(i + 1));
        assert(tv.drop_last() =~= team_view(team@.take(i as int)));
        assert(tv.last() == team@[i as int]@);
        assert(team_view(team@)[i as int] == team@[i as int]@);
        assert(vl64_safe(team_view(team@)[i as int].room_uid as int));
        push_vl64_of_i64(s, team[i].room_uid);
        push_str(s, team[i].username.as_str());
        push_char(s, '\u{2}');
        assert(s@ =~= old(s)@ + members_text(tv));
        i += 1;
    }
    assert(team@.take(n as int) =~= team@);
}

fn push_teams(s: &mut String, teams: &Vec<Vec<GamePlayer>>)
    requires
        teams_safe(teams_view(teams@)),
    ensures
        final(s)@ == old(s)@ + teams_text(teams_view(teams@)),
{
    let n = teams.len();
    let ghost all = teams_view(teams@);
    let mut i: usize = 0;
    while i < n
        invariant
            n == teams@.len(),
            all == teams_view(teams@),
            teams_safe(all),
            0 <= i <= n,
            s@ == old(s)@ + teams_text(teams_view(teams@.take(i as int))),
        decreases n - i,
    {
        let ghost tv = teams_view(teams@.take(i + 1));
        assert(tv.drop_last() =~= teams_view(teams@.take(i as int)));
        assert(tv.last() == team_view(teams@[i as int]@));
        assert(all[i as int] == team_view(teams@[i as int]@));
        assert(vl64_safe(all[i as int].len() as int));
        push_vl64_of_usize(s, teams[i].len());
        assert(members_safe(team_view(teams@[i as int]@)));
        push_members(s, &teams[i]);
        assert(s@ =~= old(s)@ + teams_text(tv));
        i += 1;
    }
    assert(teams@.take(n as int) =~= teams@);
}

fn push_powerups(s: &mut String, ps: &Vec<i32>)
    ensures
        final(s)@ == old(s)@ + powerups_text(ps@),
{
    let n = ps.len();
    let mut i: usize = 0;
    while i < n
        invariant
            n == ps@.len(),
            0 <= i <= n,
            s@ == old(s)@ + powerups_text(ps@.take(i as int)),
        decreases n - i,
    {
        assert(ps@.take(i + 1).drop_last() =~= ps@.take(i as int));
        push_i64(s, ps[i] as i64);
        push_char(s, ',');
        assert(s@ =~= old(s)@ + powerups_text(ps@.take(i + 1)));
        i += 1;
    }
    assert(ps@.take(n as int) =~= ps@);
}

impl Game {
    /// Whether at least two teams have players.
    pub fn launchable(&self) -> (r: bool)
        ensures
            r == (nonempty_teams(teams_view(self.teams@)) > 1),
    {
        let n = self.teams.len();
        let mut count: usize = 0;
        let mut i: usize = 0;
        while i < n
            invariant
                n == self.teams@.len(),
                0 <= i <= n,
                count <= i,
                count == nonempty_teams(teams_view(self.teams@.take(i as int))),
            decreases n - i,
        {
            let ghost tv = teams_view(self.teams@.take(i + 1));
            assert(tv.drop_last() =~= teams_view(self.teams@.take(i as int)));
            assert(tv.last().len() == self.teams@[i as int]@.len());
            if self.teams[i].len() > 0 {
                count += 1;
            }
            i += 1;
        }
        assert(self.teams@.take(n as int) =~= self.teams@);
        count > 1
    }

    /// Whether a team exists and has a free place.
    pub fn team_has_space(&self, team_id: usize) -> (r: bool)
        ensures
            r == (team_id < self.teams@.len() && self.teams@[team_id as int]@.len() < team_capacity(
                self.teams@.len() as int,
            )),
    {
        let max_members: usize = match self.teams.len() {
            2 => 6,
            3 => 4,
            4 => 3,
            _ => 0,
        };
        if team_id < self.teams.len() {
            self.teams[team_id].len() < max_members
        } else {
            false
        }
    }

    /// A game's details as the lobby shows them: phase, whether it can start,
    /// name, owner, map, teams with their members, and the power-ups (Battle
    /// Ball) or the remaining time (Snow Storm).
    pub fn sub_payload(&self) -> (r: String)
        requires
            sub_payload_safe(*self),
        ensures
            r@ == sub_payload_spec(*self),
    {
        let mut entry = String::new();
        self.push_payload_head(&mut entry);
        let ghost head = entry@;
        push_vl64_of_i64(&mut entry, self.map_id);
        push_vl64(&mut entry, 0);
        push_vl64_of_usize(&mut entry, self.teams.len());
        push_teams(&mut entry, &self.teams);
        let ghost mid = entry@;
        if self.is_battle_ball {
            push_powerups(&mut entry, &self.enabled_powerups);
            push_char(&mut entry, '9');
            push_char(&mut entry, '\u{2}');
        } else {
            push_vl64_of_i64(&mut entry, self.left_time);
            push_vl64_of_i64(&mut entry, self.map_id);
        }
        let ghost ts = teams_view(self.teams@);
        let ghost tail = if self.is_battle_ball {
            powerups_text(self.enabled_powerups@) + seq!['9', '\u{2}']
        } else {
            vl64_of(self.left_time as int) + vl64_of(self.map_id as int)
        };
        assert(entry@ =~= mid + tail);
        assert(mid =~= head + vl64_of(self.map_id as int) + vl64_text(0) + vl64_of(ts.len() as int) + teams_text(ts));
        assert(entry@ =~= sub_payload_spec(*self));
        entry
    }

    fn push_payload_head(&self, entry: &mut String)
        requires
            sub_payload_safe(*self),
        ensures
            final(entry)@ == old(entry)@ + vl64_text(state_number(self.state)) + (if nonempty_teams(
                teams_view(self.teams@),
            ) > 1 {
                seq!['I']
            } else {
                seq!['H']
            }) + self.name@ + seq!['\u{2}', '\u{2}'] + vl64_of(self.owner.room_uid as int)
                + self.owner.username@ + seq!['\u{2}'] + (if self.is_battle_ball {
                Seq::empty()
            } else {
                vl64_of(self.total_time as int)
            }),
    {
        push_vl64(entry, self.state.as_i32());
        if self.launchable() {
            push_char(entry, 'I');
        } else {
            push_char(entry, 'H');
        }
        push_str(entry, self.name.as_str());
        push_char(entry, '\u{2}');
        push_char(entry, '\u{2}');
        push_vl64_of_i64(entry, self.owner.room_uid);
        push_str(entry, self.owner.username.as_str());
        push_char(entry, '\u{2}');
        if !self.is_battle_ball {
            push_vl64_of_i64(entry, self.total_time);
        }
        assert(final(entry)@ =~= old(entry)@ + vl64_text(state_number(self.state)) + (if nonempty_teams(
                teams_view(self.teams@),
            ) > 1 {
                seq!['I']
            } else {
                seq!['H']
            }) + self.name@ + seq!['\u{2}', '\u{2}'] + vl64_of(self.owner.room_uid as int)
                + self.owner.username@ + seq!['\u{2}'] + (if self.is_battle_ball {
                Seq::empty()
            } else {
                vl64_of(self.total_time as int)
            }));
    }
}


/// One row of the Battle Ball field: colour and state of each tile.
pub open spec fn row_text(row: Seq<(i32, i32)>) -> Seq<char>
    decreases row.len(),
{
    if row.len() == 0 {
        Seq::empty()
    } else {
        row_text(row.drop_last()) + vl64_text(row.last().0 as int) + vl64_text(row.last().1 as int)
    }
}

/// The Battle Ball field, row by row.
pub open spec fn tiles_text(rows: Seq<Vec<(i32, i32)>>) -> Seq<char>
    decreases rows.len(),
{
    if rows.len() == 0 {
        Seq::empty()
    } else {
        tiles_text(rows.drop_last()) + row_text(rows.last()@)
    }
}

/// Every tile colour and state can be written.
pub open spec fn tiles_safe(rows: Seq<Vec<(i32, i32)>>) -> bool {
    forall|i: int, j: int|
        0 <= i < rows.len() && 0 <= j < rows[i]@.len() ==> (#[trigger] rows[i]@[j]).0 != i32::MIN
            && rows[i]@[j].1 != i32::MIN
}

/// The width of the field: the length of its first row.
pub open spec fn field_width(rows: Seq<Vec<(i32, i32)>>) -> int {
    if rows.len() > 0 {
        rows[0]@.len() as int
    } else {
        0
    }
}

/// The field's size and tiles can be written.
pub open spec fn field_safe(rows: Seq<Vec<(i32, i32)>>) -> bool {
    &&& vl64_safe(field_width(rows))
    &&& vl64_safe(rows.len() as int)
    &&& tiles_safe(rows)
}

/// One player in the arena listing, numbered `index`.
pub open spec fn arena_player_text(p: GamePlayerView, index: int) -> Seq<char> {
    seq!['H'] + vl64_text(index) + vl64_text(p.x as int) + vl64_text(p.y as int) + vl64_text(p.h as int)
        + vl64_text(p.z as int) + seq!['H', 'M'] + p.username + seq!['\u{2}'] + p.mission + seq!['\u{2}']
        + p.figure + seq!['\u{2}'] + p.sex + seq!['\u{2}'] + vl64_text(p.team_id as int)
        + vl64_of(p.room_uid as int)
}

/// All players of all teams, team after team.
pub open spec fn all_players(ts: Seq<Seq<GamePlayerView>>) -> Seq<GamePlayerView>
    decreases ts.len(),
{
    if ts.len() == 0 {
        Seq::empty()
    } else {
        all_players(ts.drop_last()) + ts.last()
    }
}

/// The arena listing of players, numbered from 0.
pub open spec fn roster_text(ps: Seq<GamePlayerView>) -> Seq<char>
    decreases ps.len(),
{
    if ps.len() == 0 {
        Seq::empty()
    } else {
        roster_text(ps.drop_last()) + arena_player_text(ps.last(), ps.len() - 1)
    }
}

/// A player's arena fields can be written.
pub open spec fn arena_player_safe(p: GamePlayerView) -> bool {
    p.x != i32::MIN && p.y != i32::MIN && p.h != i32::MIN && p.z != i32::MIN && p.team_id != i32::MIN
        && vl64_safe(p.room_uid as int)
}

/// The arena listing can be written: fields, and a player count that fits.
pub open spec fn roster_safe(ps: Seq<GamePlayerView>) -> bool {
    &&& ps.len() <= i32::MAX
    &&& forall|i: int| 0 <= i < ps.len() ==> arena_player_safe(#[trigger] ps[i])
}

/// The Battle Ball map packet body.
pub open spec fn map_spec(g: Game, lcs: i32, cs: i32) -> Seq<char> {
    if !g.is_battle_ball {
        "holo.cast.not_finished"@
    } else {
        seq!['I'] + vl64_text(lcs as int) + vl64_text(cs as int) + seq!['H'] + vl64_of(
            field_width(g.battle_ball_tiles@),
        ) + vl64_of(g.battle_ball_tiles@.len() as int) + tiles_text(g.battle_ball_tiles@) + seq!['I', 'H']
    }
}

/// The Battle Ball arena packet body: countdowns, players, field.
pub open spec fn players_spec(g: Game, lcs: i32, cs: i32) -> Seq<char> {
    let ps = all_players(teams_view(g.teams@));
    if !g.is_battle_ball {
        "holo.cast.not_finished"@
    } else {
        seq!['I'] + vl64_text(lcs as int) + vl64_text(cs as int) + vl64_text(ps.len() as int)
            + roster_text(ps) + vl64_of(field_width(g.battle_ball_tiles@)) + vl64_of(
            g.battle_ball_tiles@.len() as int,
        ) + tiles_text(g.battle_ball_tiles@) + seq!['I', 'H']
    }
}

fn push_row(s: &mut String, row: &Vec<(i32, i32)>)
    requires
        forall|j: int| 0 <= j < row@.len() ==> (#[trigger] row@[j]).0 != i32::MIN && row@[j].1 != i32::MIN,
    ensures
        final(s)@ == old(s)@ + row_text(row@),
{
    let n = row.len();
    let mut i: usize = 0;
    while i < n
        invariant
            n == row@.len(),
            0 <= i <= n,
            forall|j: int| 0 <= j < row@.len() ==> (#[trigger] row@[j]).0 != i32::MIN && row@[j].1 != i32::MIN,
            s@ == old(s)@ + row_text(row@.take(i as int)),
        decreases n - i,
    {
        assert(row@.take(i + 1).drop_last() =~= row@.take(i as int));
        let cell = row[i];
        push_vl64(s, cell.0);
        push_vl64(s, cell.1);
        assert(s@ =~= old(s)@ + row_text(row@.take(i + 1)));
        i += 1;
    }
    assert(row@.take(n as int) =~= row@);
}

fn push_tiles(s: &mut String, rows: &Vec<Vec<(i32, i32)>>)
    requires
        tiles_safe(rows@),
    ensures
        final(s)@ == old(s)@ + tiles_text(rows@),
{
    let n = rows.len();
    let mut i: usize = 0;
    while i < n
        invariant
            n == rows@.len(),
            0 <= i <= n,
            tiles_safe(rows@),
            s@ == old(s)@ + tiles_text(rows@.take(i as int)),
        decreases n - i,
    {
        assert(rows@.take(i + 1).drop_last() =~= rows@.take(i as int));
        assert forall|j: int| 0 <= j < rows@[i as int]@.len() implies (#[trigger] rows@[i as int]@[j]).0
            != i32::MIN && rows@[i as int]@[j].1 != i32::MIN by {
        }
        push_row(s, &rows[i]);
        assert(s@ =~= old(s)@ + tiles_text(rows@.take(i + 1)));
        i += 1;
    }
    assert(rows@.take(n as int) =~= rows@);
}

fn field_size(rows: &Vec<Vec<(i32, i32)>>) -> (r: (usize, usize))
    ensures
        r.0 == field_width(rows@),
        r.1 == rows@.len(),
{
    let width = if rows.len() > 0 { rows[0].len() } else { 0 };
    (width, rows.len())
}

fn push_arena_player(s: &mut String, player: &GamePlayer, index: i32)
    requires
        arena_player_safe(player@),
        index != i32::MIN,
    ensures
        final(s)@ == old(s)@ + arena_player_text(player@, index as int),
{
    push_char(s, 'H');
    push_vl64(s, index);
    push_vl64(s, player.x);
    push_vl64(s, player.y);
    push_vl64(s, player.h);
    push_vl64(s, player.z);
    push_char(s, 'H');
    push_char(s, 'M');
    push_str(s, player.username.as_str());
    push_char(s, '\u{2}');
    push_str(s, player.mission.as_str());
    push_char(s, '\u{2}');
    push_str(s, player.figure.as_str());
    push_char(s, '\u{2}');
    push_str(s, player.sex.as_str());
    push_char(s, '\u{2}');
    push_vl64(s, player.team_id);
    push_vl64_of_i64(s, player.room_uid);
    assert(final(s)@ =~= old(s)@ + arena_player_text(player@, index as int));
}

proof fn lemma_all_players_push(ts: Seq<Seq<GamePlayerView>>, i: int)
    requires
        0 <= i < ts.len(),
    ensures
        all_players(ts.take(i + 1)) == all_players(ts.take(i)) + ts[i],
{
    assert(ts.take(i + 1).drop_last() =~= ts.take(i));
}

impl Game {
    /// The Battle Ball map packet body: countdowns, field size and tiles; a
    /// fixed text for Snow Storm.
    pub fn get_map(&self, left_countdown_seconds: i32, countdown_seconds: i32) -> (r: String)
        requires
            self.is_battle_ball ==> left_countdown_seconds != i32::MIN && countdown_seconds != i32::MIN
                && field_safe(self.battle_ball_tiles@),
        ensures
            r@ == map_spec(*self, left_countdown_seconds, countdown_seconds),
    {
        if !self.is_battle_ball {
            return owned("holo.cast.not_finished");
        }
        let (width, height) = field_size(&self.battle_ball_tiles);
        let mut setup = String::new();
        push_char(&mut setup, 'I');
        push_vl64(&mut setup, left_countdown_seconds);
        push_vl64(&mut setup, countdown_seconds);
        push_char(&mut setup, 'H');
        push_vl64_of_usize(&mut setup, width);
        push_vl64_of_usize(&mut setup, height);
        push_tiles(&mut setup, &self.battle_ball_tiles);
        push_char(&mut setup, 'I');
        push_char(&mut setup, 'H');
        assert(setup@ =~= map_spec(*self, left_countdown_seconds, countdown_seconds));
        setup
    }

    /// The Battle Ball arena packet body: countdowns, every player numbered
    /// in team order, then the field; a fixed text for Snow Storm.
    pub fn get_players(&self, left_countdown_seconds: i32, countdown_seconds: i32) -> (r: String)
        requires
            self.is_battle_ball ==> left_countdown_seconds != i32::MIN && countdown_seconds != i32::MIN
                && field_safe(self.battle_ball_tiles@) && roster_safe(all_players(teams_view(self.teams@))),
        ensures
            r@ == players_spec(*self, left_countdown_seconds, countdown_seconds),
    {
        if !self.is_battle_ball {
            return owned("holo.cast.not_finished");
        }
        let ghost ts = teams_view(self.teams@);
        let ghost ps = all_players(ts);
        let mut helper = String::new();
        let mut player_count: i32 = 0;
        let n = self.teams.len();
        let mut t: usize = 0;
        assert(ts.take(0) =~= Seq::<Seq<GamePlayerView>>::empty());
        assert(ts.subrange(0, n as int) =~= ts);
        assert(all_players(ts.take(0)) =~= Seq::<GamePlayerView>::empty());
        assert(all_players(ts.take(0)) + all_players(ts.subrange(0, n as int)) =~= ps);
        while t < n
            invariant
                n == self.teams@.len(),
                ts == teams_view(self.teams@),
                ps == all_players(ts),
                roster_safe(ps),
                0 <= t <= n,
                player_count == all_players(ts.take(t as int)).len(),
                helper@ == roster_text(all_players(ts.take(t as int))),
                ps == all_players(ts.take(t as int)) + all_players(ts.subrange(t as int, n as int)),
            decreases n - t,
        {
            proof {
                lemma_all_players_push(ts, t as int);
                lemma_all_players_split(ts, t as int);
            }
            let team = &self.teams[t];
            let ghost before = all_players(ts.take(t as int));
            assert(ts[t as int] == team_view(team@));
            let m = team.len();
            let mut k: usize = 0;
            while k < m
                invariant
                    m == team@.len(),
                    ts[t as int] == team_view(team@),
                    before == all_players(ts.take(t as int)),
                    ps == before + ts[t as int] + all_players(ts.subrange(t + 1, n as int)),
                    roster_safe(ps),
                    0 <= k <= m,
                    player_count == before.len() + k,
                    helper@ == roster_text(before + team_view(team@).take(k as int)),
                decreases m - k,
            {
                let ghost cur = before + team_view(team@).take(k as int);
                let ghost next = before + team_view(team@).take(k + 1);
                assert(next.drop_last() =~= cur);
                assert(next.last() == team@[k as int]@);
                assert(ps[before.len() + k] == team@[k as int]@);
                assert(arena_player_safe(ps[before.len() + k]));
                push_arena_player(&mut helper, &team[k], player_count);
                assert(helper@ =~= roster_text(next));
                player_count += 1;
                k += 1;
            }
            assert(team_view(team@).take(m as int) =~= team_view(team@));
            t += 1;
        }
        assert(ts.take(n as int) =~= ts);
        let (width, height) = field_size(&self.battle_ball_tiles);
        let mut setup = String::new();
        push_char(&mut setup, 'I');
        push_vl64(&mut setup, left_countdown_seconds);
        push_vl64(&mut setup, countdown_seconds);
        push_vl64(&mut setup, player_count);
        push_str(&mut setup, helper.as_str());
        push_vl64_of_usize(&mut setup, width);
        push_vl64_of_usize(&mut setup, height);
        push_tiles(&mut setup, &self.battle_ball_tiles);
        push_char(&mut setup, 'I');
        push_char(&mut setup, 'H');
        assert(setup@ =~= players_spec(*self, left_countdown_seconds, countdown_seconds));
        setup
    }
}

proof fn lemma_all_players_concat(a: Seq<Seq<GamePlayerView>>, b: Seq<Seq<GamePlayerView>>)
    ensures
        all_players(a + b) == all_players(a) + all_players(b),
    decreases b.len(),
{
    if b.len() == 0 {
        assert(a + b =~= a);
        assert(all_players(a) + all_players(b) =~= all_players(a));
    } else {
        lemma_all_players_concat(a, b.drop_last());
        assert((a + b).drop_last() =~= a + b.drop_last());
        assert((a + b).last() == b.last());
        assert(all_players(a + b) =~= all_players(a) + all_players(b));
    }
}

proof fn lemma_all_players_split(ts: Seq<Seq<GamePlayerView>>, t: int)
    requires
        0 <= t < ts.len(),
    ensures
        all_players(ts.subrange(t, ts.len() as int)) == ts[t] + all_players(ts.subrange(t + 1, ts.len() as int)),
{
    let rest = ts.subrange(t + 1, ts.len() as int);
    assert(ts.subrange(t, ts.len() as int) =~= seq![ts[t]] + rest);
    lemma_all_players_concat(seq![ts[t]], rest);
    let one = seq![ts[t]];
    assert(one.drop_last() =~= Seq::<Seq<GamePlayerView>>::empty());
    assert(one.last() == ts[t]);
    assert(all_players(one.drop_last()) =~= Seq::<GamePlayerView>::empty());
    assert(all_players(one) =~= ts[t]);
}


/// A player on the score board: room id, name (`M` when empty), score.
pub open spec fn score_player_text(p: GamePlayerView) -> Seq<char> {
    vl64_of(p.room_uid as int) + (if p.username.len() == 0 {
        seq!['M']
    } else {
        p.username + seq!['\u{2}']
    }) + vl64_text(p.score as int)
}

/// The players of a team on the score board.
pub open spec fn score_players_text(t: Seq<GamePlayerView>) -> Seq<char>
    decreases t.len(),
{
    if t.len() == 0 {
        Seq::empty()
    } else {
        score_players_text(t.drop_last()) + score_player_text(t.last())
    }
}

/// A team's score, 0 when the game keeps none for it.
pub open spec fn team_score_at(scores: Seq<i32>, i: int) -> int {
    if 0 <= i < scores.len() {
        scores[i] as int
    } else {
        0
    }
}

/// A team on the score board: `M` when empty, else its size, players and score.
pub open spec fn score_team_text(t: Seq<GamePlayerView>, team_score: int) -> Seq<char> {
    if t.len() == 0 {
        seq!['M']
    } else {
        vl64_of(t.len() as int) + score_players_text(t) + vl64_text(team_score)
    }
}

/// The teams on the score board.
pub open spec fn scores_text(ts: Seq<Seq<GamePlayerView>>, scores: Seq<i32>) -> Seq<char>
    decreases ts.len(),
{
    if ts.len() == 0 {
        Seq::empty()
    } else {
        scores_text(ts.drop_last(), scores) + score_team_text(ts.last(), team_score_at(scores, ts.len() - 1))
    }
}

/// The score board packet.
pub open spec fn scoreboard_spec(g: Game) -> Seq<char> {
    let ts = teams_view(g.teams@);
    seq!['C', 'x'] + vl64_text(g.score_window_restart_game_seconds as int) + vl64_of(ts.len() as int)
        + scores_text(ts, g.team_scores@)
}

/// Everything the score board writes as VL64 can be written.
pub open spec fn scoreboard_safe(g: Game) -> bool {
    let ts = teams_view(g.teams@);
    &&& g.score_window_restart_game_seconds != i32::MIN
    &&& vl64_safe(ts.len() as int)
    &&& forall|i: int| 0 <= i < ts.len() && (#[trigger] ts[i]).len() > 0 ==> {
        &&& vl64_safe(ts[i].len() as int)
        &&& team_score_at(g.team_scores@, i) != i32::MIN
        &&& score_members_safe(ts[i])
    }
}

/// The room ids and scores of a team's players can be written.
pub open spec fn score_members_safe(t: Seq<GamePlayerView>) -> bool {
    forall|j: int| 0 <= j < t.len() ==> vl64_safe((#[trigger] t[j]).room_uid as int) && t[j].score != i32::MIN
}

fn push_score_players(s: &mut String, team: &Vec<GamePlayer>)
    requires
        score_members_safe(team_view(team@)),
    ensures
        final(s)@ == old(s)@ + score_players_text(team_view(team@)),
{
    let n = team.len();
    let mut i: usize = 0;
    while i < n
        invariant
            n == team@.len(),
            0 <= i <= n,
            score_members_safe(team_view(team@)),
            s@ == old(s)@ + score_players_text(team_view(team@.take(i as int))),
        decreases n - i,
    {
        let ghost tv = team_view(team@.take(i + 1));
        assert(tv.drop_last() =~= team_view(team@.take(i as int)));
        assert(tv.last() == team@[i as int]@);
        assert(team_view(team@)[i as int] == team@[i as int]@);
        let p = &team[i];
        push_vl64_of_i64(s, p.room_uid);
        if p.username.as_str().is_empty() {
            push_char(s, 'M');
        } else {
            push_str(s, p.username.as_str());
            push_char(s, '\u{2}');
        }
        push_vl64(s, p.score);
        assert(s@ =~= old(s)@ + score_players_text(tv));
        i += 1;
    }
    assert(team@.take(n as int) =~= team@);
}

impl Game {
    /// Ends the game and gives the score board: restart countdown, then each
    /// team with its players' scores and its own score.
    pub fn end_scoreboard(&mut self) -> (r: String)
        requires
            scoreboard_safe(*old(self)),
        ensures
            r@ == scoreboard_spec(*old(self)),
            final(self).state == GameState::Ended,
            final(self).teams@ == old(self).teams@,
            final(self).owner == old(self).owner,
            final(self).team_scores@ == old(self).team_scores@,
            final(self).left_time == old(self).left_time,
    {
        self.state = GameState::Ended;
        let ghost ts = teams_view(self.teams@);
        let n = self.teams.len();
        let mut scores = String::new();
        push_char(&mut scores, 'C');
        push_char(&mut scores, 'x');
        push_vl64(&mut scores, self.score_window_restart_game_seconds);
        push_vl64_of_usize(&mut scores, n);
        let ghost head = scores@;
        let mut i: usize = 0;
        while i < n
            invariant
                n == self.teams@.len(),
                ts == teams_view(self.teams@),
                scoreboard_safe(*old(self)),
                self.teams@ == old(self).teams@,
                self.team_scores@ == old(self).team_scores@,
                0 <= i <= n,
                scores@ == head + scores_text(ts.take(i as int), self.team_scores@),
            decreases n - i,
        {
            let ghost tk = ts.take(i + 1);
            assert(tk.drop_last() =~= ts.take(i as int));
            assert(tk.last() == ts[i as int]);
            assert(ts[i as int] == team_view(self.teams@[i as int]@));
            let members = &self.teams[i];
            if members.len() == 0 {
                push_char(&mut scores, 'M');
            } else {
                assert(ts[i as int].len() > 0);
                assert(score_members_safe(ts[i as int]));
                push_vl64_of_usize(&mut scores, members.len());
                push_score_players(&mut scores, members);
                let team_score: i32 = if i < self.team_scores.len() { self.team_scores[i] } else { 0 };
                assert(team_score == team_score_at(self.team_scores@, i as int));
                push_vl64(&mut scores, team_score);
            }
            assert(scores@ =~= head + scores_text(tk, self.team_scores@));
            i += 1;
        }
        assert(ts.take(n as int) =~= ts);
        assert(scores@ =~= scoreboard_spec(*old(self)));
        scores
    }
}

} // verus!
