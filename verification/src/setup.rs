//! Starting a game: the game is marked started with fresh scores, and a
//! Battle Ball arena is laid out from its maps, with every player put on a
//! free tile near their team's spawn point.
//!
//! The maps and the spawn points are read from the database by the
//! caller: the height map (rows separated by `\r`, `x` for a wall, digits
//! for heights), the tile map (`1` for a tile that can be coloured), and
//! for each team the `x`, `y` and rotation of its spawn point.
use vstd::prelude::*;
use vstd::utf8::encode_utf8;

use crate::arena::{grid_view, height_at, height_rows, in_grid};
use crate::games::{Game, GamePlayer, GamePlayerView, GameState, team_view, teams_view};
use crate::strings::strings_view;
use crate::text::{parse_i32, parse_int_spec};

verus! {

/// The tile a Battle Ball arena starts with at `(x, y)`: a wall or a tile
/// that cannot be coloured is `(-2, 4)`, a colourable tile `(-1, 0)`.
pub open spec fn start_tile(rows: Seq<Seq<char>>, tile_rows: Seq<Seq<char>>, x: int, y: int) -> (i32, i32) {
    if rows[y][x] == 'x' {
        (-2i32, 4i32)
    } else if in_grid(tile_rows, y, x) && tile_rows[y][x] == '1' {
        (-1i32, 0i32)
    } else {
        (-2i32, 4i32)
    }
}

/// The tiles of an arena, row by row as the height map has them.
pub open spec fn start_tiles(rows: Seq<Seq<char>>, tile_rows: Seq<Seq<char>>) -> Seq<Seq<(i32, i32)>> {
    Seq::new(rows.len(), |y: int| Seq::new(rows[y].len(), |x: int| start_tile(rows, tile_rows, x, y)))
}

/// The width of the blocked grid: the byte length of the first row.
pub open spec fn arena_width(rows: Seq<Seq<char>>) -> int {
    if rows.len() > 0 {
        encode_utf8(rows[0]).len() as int
    } else {
        0
    }
}

/// The walls of an arena, column by column (`blocked[x][y]`).
pub open spec fn start_blocked(rows: Seq<Seq<char>>) -> Seq<Seq<bool>> {
    Seq::new(arena_width(rows) as nat, |x: int| Seq::new(rows.len(), |y: int| x < rows[y].len() && rows[y][x] == 'x'))
}

/// Every wall lies inside the blocked grid.
pub open spec fn walls_fit(rows: Seq<Seq<char>>) -> bool {
    forall|y: int, x: int| 0 <= y < rows.len() && 0 <= x < rows[y].len() && #[trigger] rows[y][x] == 'x' ==> x < arena_width(rows)
}

/// Whether `(x, y)` is inside the blocked grid.
pub open spec fn on_field(blocked: Seq<Seq<bool>>, x: int, y: int) -> bool {
    x >= 0 && y >= 0 && in_grid(blocked, x, y)
}

/// One step of the search for a free spawn tile: along x for rotations 0
/// and 2, along y for 4 and 6, back and forth by turns; else along x.
pub open spec fn search_step(x: int, y: int, z: int, flip: bool) -> (int, int) {
    if z == 0 || z == 2 {
        if flip { (x - 1, y) } else { (x + 1, y) }
    } else if z == 4 || z == 6 {
        if flip { (x, y - 1) } else { (x, y + 1) }
    } else {
        (x + 1, y)
    }
}

/// Where the search for a free tile ends (at most 50 steps), with the turn
/// it ends on.
pub open spec fn search_free(blocked: Seq<Seq<bool>>, x: int, y: int, z: int, flip: bool, guard: int) -> (int, int, bool)
    decreases 50 - guard,
{
    if guard < 50 && on_field(blocked, x, y) && blocked[x][y] {
        let (nx, ny) = search_step(x, y, z, flip);
        search_free(blocked, nx, ny, z, !flip, guard + 1)
    } else {
        (x, y, flip)
    }
}

/// The placing of players: the players so far, the blocked grid, the next
/// room id, and where the current team's search stands.
pub ghost struct Placing {
    pub teams: Seq<Seq<GamePlayerView>>,
    pub blocked: Seq<Seq<bool>>,
    pub uid: int,
    pub x: int,
    pub y: int,
    pub flip: bool,
}

/// Puts player `i` of team `t` on the field (rotation `z`).
pub open spec fn place_player(s: Placing, t: int, i: int, z: int, rows: Seq<Seq<char>>) -> Placing {
    let p = s.teams[t][i];
    let (x, y, flip) = search_free(s.blocked, s.x, s.y, z, s.flip, 0);
    let placed = on_field(s.blocked, x, y);
    let q = if placed {
        GamePlayerView {
            room_uid: s.uid as i64,
            x: x as i32,
            y: y as i32,
            z: z as i32,
            h: height_at(rows, x, y) as i32,
            goal_x: -1i32,
            goal_y: -1i32,
            entering_game: true,
            ..p
        }
    } else {
        GamePlayerView { room_uid: s.uid as i64, goal_x: -1i32, goal_y: -1i32, entering_game: true, ..p }
    };
    Placing {
        teams: s.teams.update(t, s.teams[t].update(i, q)),
        blocked: if placed { s.blocked.update(x, s.blocked[x].update(y, true)) } else { s.blocked },
        uid: s.uid + 1,
        x,
        y,
        flip,
    }
}

/// The first `n` players of team `t` placed.
pub open spec fn place_team(s: Placing, t: int, n: int, z: int, rows: Seq<Seq<char>>) -> Placing
    decreases n,
{
    if n <= 0 {
        s
    } else {
        place_player(place_team(s, t, n - 1, z, rows), t, n - 1, z, rows)
    }
}

/// A spawn field read as `parse::<i32>` does, or 0.
pub open spec fn spawn_value(s: Seq<char>) -> int {
    match parse_int_spec(s, true, i32::MIN as int, i32::MAX as int) {
        Some(v) => v,
        None => 0,
    }
}

/// The first `n` teams placed: a team with players and a spawn row of at
/// least three fields starts its search at the spawn point; other teams
/// are left as they are.
pub open spec fn place_teams(s: Placing, n: int, spawns: Seq<Seq<Seq<char>>>, rows: Seq<Seq<char>>) -> Placing
    decreases n,
{
    if n <= 0 {
        s
    } else {
        let before = place_teams(s, n - 1, spawns, rows);
        let t = n - 1;
        if before.teams[t].len() == 0 || t >= spawns.len() || spawns[t].len() < 3 {
            before
        } else {
            let start = Placing { x: spawn_value(spawns[t][0]), y: spawn_value(spawns[t][1]), flip: false, ..before };
            place_team(start, t, before.teams[t].len() as int, spawn_value(spawns[t][2]), rows)
        }
    }
}

/// The total number of players.
pub open spec fn player_count(ts: Seq<Seq<GamePlayerView>>) -> int
    decreases ts.len(),
{
    if ts.len() == 0 {
        0
    } else {
        player_count(ts.drop_last()) + ts.last().len()
    }
}

/// The spawn rows read as text.
pub open spec fn spawns_view(v: Seq<Vec<String>>) -> Seq<Seq<Seq<char>>> {
    Seq::new(v.len(), |i: int| strings_view(v[i]@))
}

/// Where the players of a Battle Ball game end up.
pub open spec fn placed(g: Game, heightmap: Seq<char>, spawns: Seq<Seq<Seq<char>>>) -> Placing {
    let rows = height_rows(heightmap);
    let start = Placing {
        teams: teams_view(g.teams@),
        blocked: start_blocked(rows),
        uid: 0,
        x: 0,
        y: 0,
        flip: false,
    };
    place_teams(start, g.teams@.len() as int, spawns, rows)
}

// ---------------------------------------------------------------- exec

/// The tiles an arena starts with (see `start_tiles`).
fn build_tiles(rows: &Vec<Vec<char>>, tile_rows: &Vec<Vec<char>>) -> (r: Vec<Vec<(i32, i32)>>)
    ensures
        grid_view(r@) == start_tiles(grid_view(rows@), grid_view(tile_rows@)),
{
    let ghost rv = grid_view(rows@);
    let ghost tv = grid_view(tile_rows@);
    let mut out: Vec<Vec<(i32, i32)>> = Vec::new();
    let mut y: usize = 0;
    while y < rows.len()
        invariant
            rv == grid_view(rows@),
            tv == grid_view(tile_rows@),
            y <= rows@.len(),
            out@.len() == y,
            forall|j: int| 0 <= j < y ==> #[trigger] out@[j]@ == start_tiles(rv, tv)[j],
        decreases rows@.len() - y,
    {
        let mut row: Vec<(i32, i32)> = Vec::new();
        let mut x: usize = 0;
        while x < rows[y].len()
            invariant
                rv == grid_view(rows@),
                tv == grid_view(tile_rows@),
                y < rows@.len(),
                x <= rows@[y as int]@.len(),
                row@.len() == x,
                forall|i: int| 0 <= i < x ==> #[trigger] row@[i] == start_tile(rv, tv, i, y as int),
            decreases rows@[y as int]@.len() - x,
        {
            let c = rows[y][x];
            let tile = if c == 'x' {
                (-2i32, 4i32)
            } else if y < tile_rows.len() && x < tile_rows[y].len() && tile_rows[y][x] == '1' {
                (-1i32, 0i32)
            } else {
                (-2i32, 4i32)
            };
            row.push(tile);
            x += 1;
        }
        assert(row@ =~= start_tiles(rv, tv)[y as int]);
        out.push(row);
        y += 1;
    }
    assert(grid_view(out@) =~= start_tiles(rv, tv));
    out
}

/// The walls of an arena (see `start_blocked`), for a grid `width` wide.
fn build_blocked(rows: &Vec<Vec<char>>, width: usize) -> (r: Vec<Vec<bool>>)
    requires
        width as int == arena_width(grid_view(rows@)),
    ensures
        grid_view(r@) == start_blocked(grid_view(rows@)),
{
    let ghost rv = grid_view(rows@);
    let mut out: Vec<Vec<bool>> = Vec::new();
    let mut x: usize = 0;
    while x < width
        invariant
            rv == grid_view(rows@),
            width as int == arena_width(rv),
            x <= width,
            out@.len() == x,
            forall|j: int| 0 <= j < x ==> #[trigger] out@[j]@ == start_blocked(rv)[j],
        decreases width - x,
    {
        let mut col: Vec<bool> = Vec::new();
        let mut y: usize = 0;
        while y < rows.len()
            invariant
                rv == grid_view(rows@),
                y <= rows@.len(),
                col@.len() == y,
                forall|i: int| 0 <= i < y ==> #[trigger] col@[i] == (x < rv[i].len() && rv[i][x as int] == 'x'),
            decreases rows@.len() - y,
        {
            col.push(x < rows[y].len() && rows[y][x] == 'x');
            y += 1;
        }
        assert(col@ =~= start_blocked(rv)[x as int]);
        out.push(col);
        x += 1;
    }
    assert(grid_view(out@) =~= start_blocked(rv));
    out
}

/// The grid's sides fit in `i32`.
pub open spec fn grid_fits(b: Seq<Seq<bool>>) -> bool {
    &&& b.len() <= i32::MAX
    &&& forall|x: int| 0 <= x < b.len() ==> #[trigger] b[x].len() <= i32::MAX
}

/// Searches for a free tile from `(x, y)` (see `search_free`).
fn search_free_exec(blocked: &Vec<Vec<bool>>, x: i32, y: i32, z: i32, flip: bool) -> (r: (i32, i32, bool))
    requires
        grid_fits(grid_view(blocked@)),
    ensures
        (r.0 as int, r.1 as int, r.2) == search_free(grid_view(blocked@), x as int, y as int, z as int, flip, 0),
{
    let ghost b = grid_view(blocked@);
    let mut cx = x;
    let mut cy = y;
    let mut cf = flip;
    let mut guard: i32 = 0;
    while guard < 50 && cx >= 0 && cy >= 0 && (cx as usize) < blocked.len() && (cy as usize) < blocked[cx as usize].len()
        && blocked[cx as usize][cy as usize]
        invariant
            b == grid_view(blocked@),
            grid_fits(b),
            0 <= guard <= 50,
            search_free(b, x as int, y as int, z as int, flip, 0) == search_free(b, cx as int, cy as int, z as int, cf, guard as int),
        decreases 50 - guard,
    {
        assert(b[cx as int].len() <= i32::MAX);
        if z == 0 || z == 2 {
            if cf {
                cx = cx - 1;
            } else {
                cx = cx + 1;
            }
        } else if z == 4 || z == 6 {
            if cf {
                cy = cy - 1;
            } else {
                cy = cy + 1;
            }
        } else {
            cx = cx + 1;
        }
        cf = !cf;
        guard = guard + 1;
    }
    (cx, cy, cf)
}

/// Where the search of the current team stands.
struct Search {
    x: i32,
    y: i32,
    flip: bool,
    uid: i64,
}

/// Places the players of one team (see `place_team`); gives the team as it
/// is afterwards.
fn place_team_exec(
    team: &Vec<GamePlayer>,
    t: usize,
    z: i32,
    rows: &Vec<Vec<char>>,
    blocked: &mut Vec<Vec<bool>>,
    search: &mut Search,
    Ghost(teams): Ghost<Seq<Seq<GamePlayerView>>>,
) -> (r: Vec<GamePlayer>)
    requires
        0 <= t < teams.len(),
        teams[t as int] == team_view(team@),
        grid_fits(grid_view(old(blocked)@)),
        old(search).uid + team@.len() <= i64::MAX,
        old(search).uid >= 0,
    ensures
        ({
            let s = Placing { teams, blocked: grid_view(old(blocked)@), uid: old(search).uid as int, x: old(search).x as int, y: old(search).y as int, flip: old(search).flip };
            let e = place_team(s, t as int, team@.len() as int, z as int, grid_view(rows@));
            &&& e.teams == teams.update(t as int, team_view(r@))
            &&& e.blocked == grid_view(final(blocked)@)
            &&& e.uid == final(search).uid
            &&& e.x == final(search).x && e.y == final(search).y && e.flip == final(search).flip
        }),
        grid_fits(grid_view(final(blocked)@)),
        final(search).uid == old(search).uid + team@.len(),
{
    let ghost rv = grid_view(rows@);
    let ghost s0 = Placing { teams, blocked: grid_view(blocked@), uid: search.uid as int, x: search.x as int, y: search.y as int, flip: search.flip };
    let n = team.len();
    let mut out: Vec<GamePlayer> = Vec::new();
    let mut i: usize = 0;
    assert(team_view(out@) + team_view(team@).subrange(0, n as int) =~= team_view(team@));
    assert(teams.update(t as int, team_view(team@)) =~= teams);
    while i < n
        invariant
            n == team@.len(),
            0 <= t < teams.len(),
            teams[t as int] == team_view(team@),
            rv == grid_view(rows@),
            s0.uid + n <= i64::MAX,
            s0.uid >= 0,
            i <= n,
            out@.len() == i,
            grid_fits(grid_view(blocked@)),
            search.uid == s0.uid + i,
            ({
                let e = place_team(s0, t as int, i as int, z as int, rv);
                &&& e.teams == teams.update(t as int, team_view(out@) + team_view(team@).subrange(i as int, n as int))
                &&& e.blocked == grid_view(blocked@)
                &&& e.uid == search.uid
                &&& e.x == search.x && e.y == search.y && e.flip == search.flip
            }),
        decreases n - i,
    {
        let ghost cur = place_team(s0, t as int, i as int, z as int, rv);
        let ghost ts = teams.update(t as int, team_view(out@) + team_view(team@).subrange(i as int, n as int));
        assert(ts[t as int][i as int] == team[i as int]@);
        let (x, y, flip) = search_free_exec(blocked, search.x, search.y, z, search.flip);
        let mut q = team[i].duplicate();
        q.room_uid = search.uid;
        let ghost b0 = grid_view(blocked@);
        if x >= 0 && y >= 0 && (x as usize) < blocked.len() && (y as usize) < blocked[x as usize].len() {
            crate::arena::set_cell(blocked, x as usize, y as usize, true);
            assert(grid_view(blocked@).len() == b0.len());
            assert forall|k: int| 0 <= k < grid_view(blocked@).len() implies #[trigger] grid_view(blocked@)[k].len() <= i32::MAX by {
                assert(grid_view(blocked@)[k].len() == b0[k].len());
            }
            q.x = x;
            q.y = y;
            q.z = z;
            q.h = crate::arena::height_at_exec(rows, x, y);
        }
        q.goal_x = -1;
        q.goal_y = -1;
        q.entering_game = true;
        search.x = x;
        search.y = y;
        search.flip = flip;
        search.uid = search.uid + 1;
        let ghost nxt = place_player(cur, t as int, i as int, z as int, rv);
        assert(nxt == place_team(s0, t as int, i + 1, z as int, rv));
        assert(q@ == nxt.teams[t as int][i as int]);
        out.push(q);
        assert(nxt.teams =~= teams.update(t as int, team_view(out@) + team_view(team@).subrange(i + 1, n as int))) by {
            assert(cur.teams[t as int].update(i as int, q@) =~= team_view(out@) + team_view(team@).subrange(i + 1, n as int));
        }
        i += 1;
    }
    assert(team_view(out@) + team_view(team@).subrange(n as int, n as int) =~= team_view(out@));
    out
}

proof fn lemma_player_count_take(ts: Seq<Seq<GamePlayerView>>, k: int)
    requires
        0 <= k < ts.len(),
    ensures
        player_count(ts.take(k + 1)) == player_count(ts.take(k)) + ts[k].len(),
        player_count(ts.take(k + 1)) <= player_count(ts),
        player_count(ts.take(k)) >= 0,
    decreases ts.len() - k,
{
    assert(ts.take(k + 1).drop_last() =~= ts.take(k));
    lemma_player_count_nonneg(ts.take(k));
    if k + 1 < ts.len() {
        lemma_player_count_take(ts, k + 1);
    } else {
        assert(ts.take(k + 1) =~= ts);
    }
}

proof fn lemma_player_count_nonneg(ts: Seq<Seq<GamePlayerView>>)
    ensures
        player_count(ts) >= 0,
    decreases ts.len(),
{
    if ts.len() > 0 {
        lemma_player_count_nonneg(ts.drop_last());
    }
}

/// A Battle Ball arena can be laid out from this height map for this game:
/// every wall lies inside the blocked grid, the grid's sides fit in `i32`,
/// and the players can be numbered in an `i64`.
pub open spec fn arena_fits(g: Game, heightmap: Seq<char>) -> bool {
    let rows = height_rows(heightmap);
    &&& walls_fit(rows)
    &&& arena_width(rows) <= i32::MAX
    &&& rows.len() <= i32::MAX
    &&& player_count(teams_view(g.teams@)) <= i64::MAX
}

impl Game {
    /// Starts the game: it is marked started, the countdown is set, every
    /// team's score is 0 and the height map is kept. For Battle Ball the
    /// arena is laid out (see `start_tiles`, `start_blocked`) and the
    /// players are placed at their teams' spawn points (see `placed`);
    /// `spawns[t]` holds the fields `x`, `y` and rotation of team `t`'s
    /// spawn point, where it has one.
    pub fn start_game(&mut self, heightmap: String, tilemap: &str, spawns: &Vec<Vec<String>>)
        requires
            old(self).is_battle_ball ==> arena_fits(*old(self), heightmap@),
        ensures
            final(self).state == GameState::Started,
            final(self).left_countdown_seconds == old(self).countdown_seconds,
            !final(self).tick_phase,
            final(self).team_scores@ == Seq::new(old(self).teams@.len(), |i: int| 0i32),
            final(self).heightmap@ == heightmap@,
            final(self).is_battle_ball == old(self).is_battle_ball,
            !old(self).is_battle_ball ==> {
                &&& final(self).teams@ == old(self).teams@
                &&& final(self).battle_ball_tiles@ == old(self).battle_ball_tiles@
                &&& final(self).blocked_tiles@ == old(self).blocked_tiles@
            },
            old(self).is_battle_ball ==> ({
                let rows = height_rows(heightmap@);
                let e = placed(*old(self), heightmap@, spawns_view(spawns@));
                &&& grid_view(final(self).battle_ball_tiles@) == start_tiles(rows, height_rows(tilemap@))
                &&& teams_view(final(self).teams@) == e.teams
                &&& grid_view(final(self).blocked_tiles@) == e.blocked
            }),
    {
        let ghost g0 = *self;
        self.state = GameState::Started;
        self.left_countdown_seconds = self.countdown_seconds;
        self.tick_phase = false;
        let mut scores: Vec<i32> = Vec::new();
        let mut k: usize = 0;
        while k < self.teams.len()
            invariant
                k <= self.teams@.len(),
                scores@ =~= Seq::new(k as nat, |i: int| 0i32),
            decreases self.teams@.len() - k,
        {
            scores.push(0);
            k += 1;
        }
        self.team_scores = scores;
        let ghost hm = heightmap@;
        self.heightmap = heightmap;
        if !self.is_battle_ball {
            return;
        }
        let rows = crate::arena::height_rows_exec(self.heightmap.as_str());
        let tile_rows = crate::arena::height_rows_exec(tilemap);
        let ghost rv = grid_view(rows@);
        self.battle_ball_tiles = build_tiles(&rows, &tile_rows);
        let width: usize = if rows.len() > 0 {
            let first = crate::text::string_of(rows[0].as_slice());
            first.as_str().as_bytes().len()
        } else {
            0
        };
        let mut blocked = build_blocked(&rows, width);
        assert(grid_fits(grid_view(blocked@))) by {
            assert forall|x: int| 0 <= x < grid_view(blocked@).len() implies #[trigger] grid_view(blocked@)[x].len() <= i32::MAX by {
                assert(grid_view(blocked@)[x] == start_blocked(rv)[x]);
            }
        }
        let ghost sv = spawns_view(spawns@);
        let ghost ts0 = teams_view(self.teams@);
        let ghost start = Placing { teams: ts0, blocked: start_blocked(rv), uid: 0, x: 0, y: 0, flip: false };
        let mut search = Search { x: 0, y: 0, flip: false, uid: 0 };
        let n = self.teams.len();
        let mut t: usize = 0;
        assert(ts0.take(0) =~= Seq::<Seq<GamePlayerView>>::empty());
        while t < n
            invariant
                n == self.teams@.len(),
                n == ts0.len(),
                ts0 == teams_view(g0.teams@),
                player_count(ts0) <= i64::MAX,
                sv == spawns_view(spawns@),
                rv == grid_view(rows@),
                t <= n,
                grid_fits(grid_view(blocked@)),
                0 <= search.uid <= player_count(ts0.take(t as int)),
                forall|j: int| t <= j < n ==> #[trigger] teams_view(self.teams@)[j] == ts0[j],
                ({
                    let e = place_teams(start, t as int, sv, rv);
                    &&& e.teams == teams_view(self.teams@)
                    &&& e.blocked == grid_view(blocked@)
                    &&& e.uid == search.uid
                    &&& e.x == search.x && e.y == search.y && e.flip == search.flip
                }),
                self.is_battle_ball == g0.is_battle_ball,
                self.heightmap@ == hm,
                self.state == GameState::Started,
                self.left_countdown_seconds == g0.countdown_seconds,
                !self.tick_phase,
                self.team_scores@ == Seq::new(g0.teams@.len(), |i: int| 0i32),
                grid_view(self.battle_ball_tiles@) == start_tiles(rv, height_rows(tilemap@)),
            decreases n - t,
        {
            proof {
                lemma_player_count_take(ts0, t as int);
            }
            assert(teams_view(self.teams@)[t as int] == ts0[t as int]);
            assert(self.teams@[t as int]@.len() == ts0[t as int].len());
            if self.teams[t].len() == 0 || t >= spawns.len() || spawns[t].len() < 3 {
                t += 1;
                continue;
            }
            assert(sv[t as int] == strings_view(spawns@[t as int]@));
            let sx = match parse_i32(spawns[t][0].as_str()) { Some(v) => v, None => 0 };
            let sy = match parse_i32(spawns[t][1].as_str()) { Some(v) => v, None => 0 };
            let sz = match parse_i32(spawns[t][2].as_str()) { Some(v) => v, None => 0 };
            search.x = sx;
            search.y = sy;
            search.flip = false;
            let ghost tv = teams_view(self.teams@);
            let new_team = place_team_exec(&self.teams[t], t, sz, &rows, &mut blocked, &mut search, Ghost(tv));
            self.teams.set(t, new_team);
            assert(teams_view(self.teams@) =~= tv.update(t as int, team_view(new_team@)));
            t += 1;
        }
        self.blocked_tiles = blocked;
    }
}

} // verus!
