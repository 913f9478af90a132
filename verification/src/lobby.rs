//! Game lobbies: the games of a lobby room, their listing, the creation
//! settings and the rank a lobby admits.
use vstd::prelude::*;
use crate::codec::{push_vl64, vl64_text};
use crate::games::{Game, GamePlayer, GameState, state_number, fresh_game, vl64_safe, vl64_of};
use crate::text::{push_char, push_str, push_i64, int_text, trunc_i64};

verus! {

/// A game rank: a title and the points it spans (a top of 0 is open-ended).
#[derive(Debug, Clone)]
pub struct GameRank {
    pub title: String,
    pub min_points: i64,
    pub max_points: i64,
}

impl Default for GameRank {
    /// An untitled rank spanning from 0 with no top.
    fn default() -> (r: Self)
        ensures
            r.title@.len() == 0,
            r.min_points == 0,
            r.max_points == 0,
    {
        GameRank { title: String::new(), min_points: 0, max_points: 0 }
    }
}

/// A lobby room for one kind of game.
#[derive(Debug, Clone)]
pub struct GameLobby {
    pub room_id: i64,
    pub is_battle_ball: bool,
    pub rank_title: String,
    pub rank: GameRank,
    pub games: Vec<Game>,
    pub allowed_powerups: Vec<i32>,
}

impl Default for GameLobby {
    /// An empty Snow Storm lobby of room 0 with the default rank.
    fn default() -> (r: Self)
        ensures
            r.room_id == 0,
            !r.is_battle_ball,
            r.rank_title@.len() == 0,
            r.rank.title@.len() == 0 && r.rank.min_points == 0 && r.rank.max_points == 0,
            r.games@.len() == 0,
            r.allowed_powerups@.len() == 0,
    {
        GameLobby {
            room_id: 0,
            is_battle_ball: false,
            rank_title: String::new(),
            rank: GameRank::default(),
            games: Vec::new(),
            allowed_powerups: Vec::new(),
        }
    }
}

/// Whether a score lies in a rank's span.
pub open spec fn in_rank(rank: GameRank, points: int) -> bool {
    points >= rank.min_points && (rank.max_points == 0 || points <= rank.max_points)
}

/// How many of the games are in each phase (waiting, started, ended).
pub open spec fn phase_count(games: Seq<Game>, phase: int) -> int
    decreases games.len(),
{
    if games.len() == 0 {
        0
    } else {
        phase_count(games.drop_last(), phase) + (if state_number(games.last().state) == phase {
            1int
        } else {
            0int
        })
    }
}

/// One game in the lobby listing.
pub open spec fn listed_game_text(g: Game, battle_ball: bool) -> Seq<char> {
    vl64_of(g.id as int) + g.name@ + seq!['\u{2}'] + vl64_of(g.owner.room_uid as int) + g.owner.username@
        + seq!['\u{2}'] + (if battle_ball { Seq::empty() } else { vl64_of(g.left_time as int) })
        + vl64_of(g.map_id as int)
}

/// The games in the lobby listing.
pub open spec fn listed_games_text(games: Seq<Game>, battle_ball: bool) -> Seq<char>
    decreases games.len(),
{
    if games.len() == 0 {
        Seq::empty()
    } else {
        listed_games_text(games.drop_last(), battle_ball) + listed_game_text(games.last(), battle_ball)
    }
}

/// The lobby listing: the waiting count, then the started and ended counts
/// only when one of them is not zero, then the games.
pub open spec fn game_list_spec(l: GameLobby) -> Seq<char> {
    let gs = l.games@;
    let list = listed_games_text(gs, l.is_battle_ball);
    if phase_count(gs, 1) > 0 || phase_count(gs, 2) > 0 {
        vl64_text(phase_count(gs, 0)) + vl64_text(phase_count(gs, 1)) + vl64_text(phase_count(gs, 2)) + list
    } else {
        vl64_text(phase_count(gs, 0)) + list
    }
}

/// Every number the lobby listing writes can be written.
pub open spec fn game_list_safe(l: GameLobby) -> bool {
    &&& l.games@.len() < i32::MAX
    &&& forall|i: int| 0 <= i < l.games@.len() ==> #[trigger] listed_game_safe(l.games@[i], l.is_battle_ball)
}

/// The numbers of one listed game can be written.
pub open spec fn listed_game_safe(g: Game, battle_ball: bool) -> bool {
    vl64_safe(g.id as int) && vl64_safe(g.owner.room_uid as int) && vl64_safe(g.map_id as int) && (
    !battle_ball ==> vl64_safe(g.left_time as int))
}

/// The creation settings a Battle Ball lobby offers; `#` for Snow Storm.
pub open spec fn create_settings_spec(l: GameLobby) -> Seq<char> {
    if !l.is_battle_ball {
        seq!['#']
    } else {
        vl64_text(4) + "fieldType"@ + seq!['\u{2}'] + "HJIII"@ + vl64_text(5) + "numTeams"@ + seq!['\u{2}']
            + "HJJIJI"@ + vl64_text(4) + "allowedPowerups"@ + seq!['\u{2}'] + "IJ"@ + (
        if l.allowed_powerups@.len() == 0 {
            seq!['9']
        } else {
            joined_powerups(l.allowed_powerups@)
        }) + seq!['\u{2}'] + "Hname"@ + seq!['\u{2}'] + "IJ"@ + seq!['\u{2}', 'H']
    }
}

/// Power-up ids separated by commas.
pub open spec fn joined_powerups(ps: Seq<i32>) -> Seq<char>
    decreases ps.len(),
{
    if ps.len() == 0 {
        Seq::empty()
    } else if ps.len() == 1 {
        int_text(ps[0] as int)
    } else {
        joined_powerups(ps.drop_last()) + seq![','] + int_text(ps.last() as int)
    }
}

/// Whether a game id is taken in the lobby.
pub open spec fn id_taken(games: Seq<Game>, id: int) -> bool {
    exists|i: int| 0 <= i < games.len() && games[i].id == id
}

proof fn lemma_phase_counts(gs: Seq<Game>)
    ensures
        phase_count(gs, 0) + phase_count(gs, 1) + phase_count(gs, 2) == gs.len(),
        phase_count(gs, 0) >= 0,
        phase_count(gs, 1) >= 0,
        phase_count(gs, 2) >= 0,
    decreases gs.len(),
{
    if gs.len() > 0 {
        lemma_phase_counts(gs.drop_last());
    }
}

impl GameLobby {
    /// `bb` for Battle Ball, `ss` for Snow Storm.
    pub fn game_type(&self) -> (r: &'static str)
        ensures
            r@ == (if self.is_battle_ball { "bb"@ } else { "ss"@ }),
    {
        if self.is_battle_ball { "bb" } else { "ss" }
    }

    /// Whether a player with these points may play in this lobby.
    pub fn valid_gamerank(&self, points: i64) -> (r: bool)
        ensures
            r == in_rank(self.rank, points as int),
    {
        points >= self.rank.min_points && (self.rank.max_points == 0 || points <= self.rank.max_points)
    }

    /// Whether a power-up may be chosen in this lobby.
    pub fn allows_powerup(&self, id: i32) -> (r: bool)
        ensures
            r == self.allowed_powerups@.contains(id),
    {
        let n = self.allowed_powerups.len();
        let mut i: usize = 0;
        while i < n
            invariant
                n == self.allowed_powerups@.len(),
                0 <= i <= n,
                forall|j: int| 0 <= j < i ==> self.allowed_powerups@[j] != id,
            decreases n - i,
        {
            if self.allowed_powerups[i] == id {
                assert(self.allowed_powerups@[i as int] == id);
                return true;
            }
            i += 1;
        }
        false
    }

    /// The lobby listing of games (see `game_list_spec`).
    pub fn game_list(&self) -> (r: String)
        requires
            game_list_safe(*self),
        ensures
            r@ == game_list_spec(*self),
    {
        let ghost gs = self.games@;
        let mut waiting: i32 = 0;
        let mut started: i32 = 0;
        let mut ended: i32 = 0;
        let mut list = String::new();
        let n = self.games.len();
        let mut i: usize = 0;
        while i < n
            invariant
                n == gs.len(),
                gs == self.games@,
                game_list_safe(*self),
                0 <= i <= n,
                waiting == phase_count(gs.take(i as int), 0),
                started == phase_count(gs.take(i as int), 1),
                ended == phase_count(gs.take(i as int), 2),
                list@ == listed_games_text(gs.take(i as int), self.is_battle_ball),
            decreases n - i,
        {
            let ghost tk = gs.take(i + 1);
            assert(tk.drop_last() =~= gs.take(i as int));
            assert(tk.last() == gs[i as int]);
            proof {
                lemma_phase_counts(gs.take(i as int));
            }
            let game = &self.games[i];
            assert(listed_game_safe(gs[i as int], self.is_battle_ball));
            push_vl64(&mut list, trunc_i64(game.id));
            push_str(&mut list, game.name.as_str());
            push_char(&mut list, '\u{2}');
            push_vl64(&mut list, trunc_i64(game.owner.room_uid));
            push_str(&mut list, game.owner.username.as_str());
            push_char(&mut list, '\u{2}');
            if !self.is_battle_ball {
                push_vl64(&mut list, trunc_i64(game.left_time));
            }
            push_vl64(&mut list, trunc_i64(game.map_id));
            assert(list@ =~= listed_games_text(tk, self.is_battle_ball));
            match game.state {
                GameState::Waiting => waiting += 1,
                GameState::Started => started += 1,
                GameState::Ended => ended += 1,
            }
            i += 1;
        }
        assert(gs.take(n as int) =~= gs);
        proof {
            lemma_phase_counts(gs);
        }
        let mut out = String::new();
        push_vl64(&mut out, waiting);
        if started > 0 || ended > 0 {
            push_vl64(&mut out, started);
            push_vl64(&mut out, ended);
        }
        push_str(&mut out, list.as_str());
        assert(out@ =~= game_list_spec(*self));
        out
    }

    /// The creation settings (see `create_settings_spec`).
    pub fn get_create_game_settings(&self) -> (r: String)
        ensures
            r@ == create_settings_spec(*self),
    {
        if !self.is_battle_ball {
            let mut s = String::new();
            push_char(&mut s, '#');
            return s;
        }
        let mut settings = String::new();
        push_vl64(&mut settings, 4);
        push_str(&mut settings, "fieldType");
        push_char(&mut settings, '\u{2}');
        push_str(&mut settings, "HJIII");
        push_vl64(&mut settings, 5);
        push_str(&mut settings, "numTeams");
        push_char(&mut settings, '\u{2}');
        push_str(&mut settings, "HJJIJI");
        push_vl64(&mut settings, 4);
        push_str(&mut settings, "allowedPowerups");
        push_char(&mut settings, '\u{2}');
        push_str(&mut settings, "IJ");
        let ghost before = settings@;
        if self.allowed_powerups.len() == 0 {
            push_char(&mut settings, '9');
        } else {
            let n = self.allowed_powerups.len();
            let mut i: usize = 0;
            while i < n
                invariant
                    n == self.allowed_powerups@.len(),
                    n > 0,
                    0 <= i <= n,
                    settings@ == before + joined_powerups(self.allowed_powerups@.take(i as int)),
                decreases n - i,
            {
                let ghost tk = self.allowed_powerups@.take(i + 1);
                assert(tk.drop_last() =~= self.allowed_powerups@.take(i as int));
                if i > 0 {
                    push_char(&mut settings, ',');
                } else {
                    assert(self.allowed_powerups@.take(0) =~= Seq::<i32>::empty());
                }
                push_i64(&mut settings, self.allowed_powerups[i] as i64);
                assert(settings@ =~= before + joined_powerups(tk));
                i += 1;
            }
            assert(self.allowed_powerups@.take(n as int) =~= self.allowed_powerups@);
        }
        push_char(&mut settings, '\u{2}');
        push_str(&mut settings, "Hname");
        push_char(&mut settings, '\u{2}');
        push_str(&mut settings, "IJ");
        push_char(&mut settings, '\u{2}');
        push_char(&mut settings, 'H');
        assert(settings@ =~= create_settings_spec(*self));
        settings
    }
}

/// The ids of the games.
pub open spec fn game_ids(gs: Seq<Game>) -> Seq<int> {
    Seq::new(gs.len(), |i: int| gs[i].id as int)
}

/// If every id below `m` is taken, there are at least `m` games.
proof fn lemma_ids_pigeonhole(gs: Seq<Game>, m: int)
    requires
        0 <= m,
        forall|k: int| 0 <= k < m ==> id_taken(gs, k),
    ensures
        m <= gs.len(),
{
    let ids = game_ids(gs);
    let range = vstd::set_lib::set_int_range(0, m);
    vstd::set_lib::lemma_int_range(0, m);
    vstd::seq_lib::seq_to_set_is_finite(ids);
    ids.lemma_cardinality_of_set();
    assert forall|k: int| range.contains(k) implies ids.to_set().contains(k) by {
        assert(id_taken(gs, k));
        let i = choose|i: int| 0 <= i < gs.len() && gs[i].id == k;
        assert(ids[i] == k);
    }
    vstd::set_lib::lemma_len_subset(range, ids.to_set());
}

impl GameLobby {
    /// Adds a game under the smallest id that no game of the lobby has, and
    /// returns that id. The game is Battle Ball or Snow Storm as the lobby
    /// is; a Snow Storm game takes no power-ups.
    pub fn create_game(
        &mut self,
        owner: GamePlayer,
        name: String,
        map_id: i64,
        team_amount: usize,
        enabled_powerups: Vec<i32>,
        total_time: i64,
        countdown_seconds: i32,
        score_window_restart_game_seconds: i32,
    ) -> (r: i64)
        requires
            old(self).games@.len() < i64::MAX,
        ensures
            r >= 0,
            !id_taken(old(self).games@, r as int),
            forall|k: int| 0 <= k < r ==> id_taken(old(self).games@, k),
            final(self).games@.len() == old(self).games@.len() + 1,
            final(self).games@.drop_last() == old(self).games@,
            fresh_game(final(self).games@.last(), r, name@, map_id, team_amount,
                (if old(self).is_battle_ball { enabled_powerups@ } else { Seq::empty() }), owner@,
                total_time, countdown_seconds, score_window_restart_game_seconds),
            final(self).games@.last().is_battle_ball == old(self).is_battle_ball,
            final(self).room_id == old(self).room_id,
            final(self).is_battle_ball == old(self).is_battle_ball,
            final(self).rank_title == old(self).rank_title,
            final(self).rank == old(self).rank,
            final(self).allowed_powerups == old(self).allowed_powerups,
    {
        let mut game_id: i64 = 0;
        let n = self.games.len();
        loop
            invariant
                n == self.games@.len(),
                n < i64::MAX,
                self.games@ == old(self).games@,
                0 <= game_id,
                forall|k: int| 0 <= k < game_id ==> id_taken(self.games@, k),
            ensures
                !id_taken(self.games@, game_id as int),
            decreases n + 1 - game_id,
        {
            proof {
                lemma_ids_pigeonhole(self.games@, game_id as int);
            }
            let mut taken = false;
            let mut i: usize = 0;
            while i < n
                invariant
                    n == self.games@.len(),
                    0 <= i <= n,
                    taken == exists|j: int| 0 <= j < i && self.games@[j].id == game_id,
                decreases n - i,
            {
                if self.games[i].id == game_id {
                    taken = true;
                }
                i += 1;
            }
            if !taken {
                break;
            }
            assert(id_taken(self.games@, game_id as int));
            proof {
                lemma_ids_pigeonhole(self.games@, game_id + 1);
            }
            game_id += 1;
        }
        let game = if self.is_battle_ball {
            Game::new_battle_ball(game_id, name, map_id, team_amount, enabled_powerups, owner,
                total_time, countdown_seconds, score_window_restart_game_seconds)
        } else {
            Game::new_snow_storm(game_id, name, map_id, team_amount, total_time, owner,
                countdown_seconds, score_window_restart_game_seconds)
        };
        let ghost before = self.games@;
        self.games.push(game);
        assert(self.games@.drop_last() =~= before);
        game_id
    }
}

} // verus!
